//! The application state machine: what each event and each key does to the
//! state, and the editing of the commit message under a byte cursor.

use vstd::prelude::*;
use vstd::string::*;

use crate::clock;
use crate::git::RepoInfo;
use crate::text;

verus! {

broadcast use vstd::utf8::encode_utf8_valid_utf8, vstd::string::group_string_axioms;

/// Where the application stands in the generate / copy / commit cycle.
#[derive(Debug, Clone, Copy, PartialEq, Eq, Structural)]
pub enum AppState {
    Idle,
    PreGenerating,
    PreGenerated,
    Loading,
    Ready,
    Committing,
}

/// A result delivered by background work.
#[derive(Debug)]
pub enum AppEvent {
    Generated(String),
    GeneratedWithVersion { message: String, suggested_version: Option<String> },
    PreGenerated { message: String, suggested_version: Option<String> },
    Committed(String),
    Error(String),
}

/// The whole application state.
pub struct App {
    pub state: AppState,
    pub repo_info: Option<RepoInfo>,
    pub init_error: Option<String>,
    pub commit_message: String,
    pub suggested_version: Option<String>,
    pub pregen_message: Option<String>,
    pub pregen_suggested_version: Option<String>,
    pub status_line: String,
    pub commit_hash: Option<String>,
    pub spinner_start: std::time::Instant,
    pub show_file_list: bool,
    pub editing: bool,
    pub cursor_pos: usize,
}

/// Whether `a` may insert a character: the cursor is on a character
/// boundary (else `String::insert` panics) and the text can grow.
pub open spec fn insert_ok(a: App) -> bool {
    &&& text::is_boundary(a.commit_message@, a.cursor_pos as int)
    &&& text::text_bytes(a.commit_message@).len() + 4 <= usize::MAX
}

/// Whether the cursor may look backwards (it is on a boundary when not at 0).
pub open spec fn backward_ok(a: App) -> bool {
    a.cursor_pos > 0 ==> text::is_boundary(a.commit_message@, a.cursor_pos as int)
}

/// Whether the cursor may look forwards (it is on a boundary when not at the end).
pub open spec fn forward_ok(a: App) -> bool {
    a.cursor_pos < text::text_bytes(a.commit_message@).len() ==> text::is_boundary(
        a.commit_message@,
        a.cursor_pos as int,
    )
}

/// `b` is `a` with `c` inserted at the cursor and the cursor after it.
pub open spec fn inserted(a: App, b: App, c: char) -> bool {
    &&& text::text_bytes(b.commit_message@) == text::splice(
        a.commit_message@,
        a.cursor_pos as int,
        a.cursor_pos as int,
        seq![c],
    )
    &&& b.cursor_pos == a.cursor_pos + text::text_bytes(seq![c]).len()
    &&& text::is_boundary(b.commit_message@, b.cursor_pos as int)
    &&& b == a.with_text(b.commit_message, b.cursor_pos)
}

/// `b` is `a` with the character before the cursor removed.
pub open spec fn deleted_backward(a: App, b: App) -> bool {
    &&& a.cursor_pos == 0 ==> b == a
    &&& a.cursor_pos > 0 ==> {
        &&& text::is_prev_boundary(a.commit_message@, a.cursor_pos as int, b.cursor_pos as int)
        &&& text::text_bytes(b.commit_message@) == text::splice(
            a.commit_message@,
            b.cursor_pos as int,
            a.cursor_pos as int,
            Seq::empty(),
        )
        &&& text::is_boundary(b.commit_message@, b.cursor_pos as int)
    }
    &&& b == a.with_text(b.commit_message, b.cursor_pos)
}

/// `b` is `a` with the character after the cursor removed.
pub open spec fn deleted_forward(a: App, b: App) -> bool {
    let len = text::text_bytes(a.commit_message@).len();
    &&& a.cursor_pos >= len ==> b == a
    &&& a.cursor_pos < len ==> {
        &&& exists|n: int|
            {
                &&& text::is_next_boundary(a.commit_message@, a.cursor_pos as int, n)
                &&& #[trigger] text::text_bytes(b.commit_message@) == text::splice(
                    a.commit_message@,
                    a.cursor_pos as int,
                    n,
                    Seq::empty(),
                )
            }
        &&& text::is_boundary(b.commit_message@, b.cursor_pos as int)
    }
    &&& b == a.with_text(b.commit_message, a.cursor_pos)
}

/// `b` is `a` with the cursor on the start of the previous character.
pub open spec fn moved_left(a: App, b: App) -> bool {
    &&& a.cursor_pos == 0 ==> b.cursor_pos == 0
    &&& a.cursor_pos > 0 ==> text::is_prev_boundary(a.commit_message@, a.cursor_pos as int, b.cursor_pos as int)
    &&& b == a.with_text(a.commit_message, b.cursor_pos)
}

/// `b` is `a` with the cursor past the next character.
pub open spec fn moved_right(a: App, b: App) -> bool {
    &&& a.cursor_pos >= text::text_bytes(a.commit_message@).len() ==> b.cursor_pos == a.cursor_pos
    &&& a.cursor_pos < text::text_bytes(a.commit_message@).len() ==> text::is_next_boundary(
        a.commit_message@,
        a.cursor_pos as int,
        b.cursor_pos as int,
    )
    &&& b == a.with_text(a.commit_message, b.cursor_pos)
}

/// `b` is `a` in edit mode with the cursor at the end of the message.
pub open spec fn editing_started(a: App, b: App) -> bool {
    &&& b.cursor_pos == text::text_bytes(a.commit_message@).len()
    &&& b.status_line@ == "Editing message — Esc to finish"@
    &&& b == (App { editing: true, cursor_pos: b.cursor_pos, status_line: b.status_line, ..a })
}

/// `b` is `a` out of edit mode.
pub open spec fn editing_stopped(a: App, b: App) -> bool {
    &&& b.status_line@ == "✓ Message set — Enter to commit"@
    &&& b == (App { editing: false, status_line: b.status_line, ..a })
}

/// `b` is `a` generating a message, with a fresh spinner.
pub open spec fn generation_started(a: App, b: App) -> bool {
    &&& b.status_line@ == "Generating commit message..."@
    &&& b == (App {
        state: AppState::Loading,
        status_line: b.status_line,
        spinner_start: b.spinner_start,
        ..a
    })
}

/// `b` is `a` committing, with a fresh spinner.
pub open spec fn commit_started(a: App, b: App) -> bool {
    &&& b.status_line@ == "Creating commit..."@
    &&& b == (App {
        state: AppState::Committing,
        status_line: b.status_line,
        spinner_start: b.spinner_start,
        ..a
    })
}

impl App {
    /// The app with only the message and cursor replaced.
    pub open spec fn with_text(self, msg: String, cursor: usize) -> App {
        App { commit_message: msg, cursor_pos: cursor, ..self }
    }

    /// Inserts `c` at the cursor and moves the cursor past it.
    pub fn insert_char(&mut self, c: char)
        requires
            insert_ok(*old(self)),
        ensures
            inserted(*old(self), *final(self), c),
    {
        let ghost s = self.commit_message@;
        text::insert_at(&mut self.commit_message, self.cursor_pos, c);
        proof {
            text::lemma_boundary_is_offset(s, self.cursor_pos as int);
            let k = choose|k: int| 0 <= k <= s.len() && text::byte_offset(s, k) == self.cursor_pos;
            text::lemma_insert_char(s, k, c, self.commit_message@);
        }
        self.cursor_pos = self.cursor_pos + text::utf8_width(c);
    }

    /// Removes the character before the cursor; the cursor moves to its start.
    pub fn delete_backward(&mut self)
        requires
            backward_ok(*old(self)),
        ensures
            deleted_backward(*old(self), *final(self)),
    {
        if self.cursor_pos > 0 {
            let ghost s = self.commit_message@;
            let prev = text::prev_boundary(&self.commit_message, self.cursor_pos);
            text::remove_range(&mut self.commit_message, prev, self.cursor_pos);
            proof {
                let j = text::lemma_prev_boundary_char(s, self.cursor_pos as int, prev as int);
                text::lemma_remove_char(s, j, self.commit_message@);
            }
            self.cursor_pos = prev;
        }
    }

    /// Removes the character after the cursor; the cursor stays.
    pub fn delete_forward(&mut self)
        requires
            forward_ok(*old(self)),
        ensures
            deleted_forward(*old(self), *final(self)),
    {
        let len = text::text_len(&self.commit_message);
        if self.cursor_pos < len {
            let ghost s = self.commit_message@;
            let next = text::next_boundary(&self.commit_message, self.cursor_pos);
            text::remove_range(&mut self.commit_message, self.cursor_pos, next);
            proof {
                let j = text::lemma_prev_boundary_char(s, next as int, self.cursor_pos as int);
                text::lemma_remove_char(s, j, self.commit_message@);
            }
        }
    }

    /// Moves the cursor to the start of the previous character.
    pub fn cursor_left(&mut self)
        requires
            backward_ok(*old(self)),
        ensures
            moved_left(*old(self), *final(self)),
    {
        if self.cursor_pos > 0 {
            self.cursor_pos = text::prev_boundary(&self.commit_message, self.cursor_pos);
        }
    }

    /// Moves the cursor past the next character.
    pub fn cursor_right(&mut self)
        requires
            forward_ok(*old(self)),
        ensures
            moved_right(*old(self), *final(self)),
    {
        let len = text::text_len(&self.commit_message);
        if self.cursor_pos < len {
            self.cursor_pos = text::next_boundary(&self.commit_message, self.cursor_pos);
        }
    }

    /// Moves the cursor to the start of the message.
    pub fn cursor_home(&mut self)
        ensures
            *final(self) == old(self).with_text(old(self).commit_message, 0),
    {
        self.cursor_pos = 0;
    }

    /// Moves the cursor to the end of the message.
    pub fn cursor_end(&mut self)
        ensures
            final(self).cursor_pos == text::text_bytes(old(self).commit_message@).len(),
            *final(self) == old(self).with_text(old(self).commit_message, final(self).cursor_pos),
    {
        self.cursor_pos = text::text_len(&self.commit_message);
    }

    /// Enters edit mode with the cursor at the end of the message.
    pub fn start_editing(&mut self)
        ensures
            editing_started(*old(self), *final(self)),
    {
        self.editing = true;
        self.cursor_pos = text::text_len(&self.commit_message);
        self.status_line = "Editing message — Esc to finish".to_string();
    }

    /// Leaves edit mode.
    pub fn stop_editing(&mut self)
        ensures
            editing_stopped(*old(self), *final(self)),
    {
        self.editing = false;
        self.status_line = "✓ Message set — Enter to commit".to_string();
    }

    /// A message may be generated: idle, started without error, and the repository has changes.
    pub open spec fn spec_can_generate(&self) -> bool {
        &&& self.state == AppState::Idle
        &&& self.init_error is None
        &&& self.repo_info matches Some(r) && r.has_changes
    }

    /// The message may be committed: ready, non-empty and not committed yet.
    pub open spec fn spec_can_commit(&self) -> bool {
        &&& self.state == AppState::Ready
        &&& self.commit_message@.len() > 0
        &&& self.commit_hash is None
    }

    /// A pre-generated message waits to be copied.
    pub open spec fn spec_can_copy_pregen(&self) -> bool {
        &&& self.state == AppState::PreGenerated
        &&& self.pregen_message is Some
    }

    pub fn can_generate(&self) -> (r: bool)
        ensures
            r == self.spec_can_generate(),
    {
        self.state == AppState::Idle && self.init_error.is_none() && match &self.repo_info {
            Some(r) => r.has_changes,
            None => false,
        }
    }

    pub fn can_commit(&self) -> (r: bool)
        ensures
            r == self.spec_can_commit(),
    {
        self.state == AppState::Ready && !self.commit_message.as_str().is_empty() && self.commit_hash.is_none()
    }

    pub fn can_copy_pregen(&self) -> (r: bool)
        ensures
            r == self.spec_can_copy_pregen(),
    {
        self.state == AppState::PreGenerated && self.pregen_message.is_some()
    }

    /// Starts generating a message.
    pub fn start_generating(&mut self)
        ensures
            generation_started(*old(self), *final(self)),
    {
        self.state = AppState::Loading;
        self.spinner_start = clock::now();
        self.status_line = "Generating commit message...".to_string();
    }

    /// Starts committing.
    pub fn start_committing(&mut self)
        ensures
            commit_started(*old(self), *final(self)),
    {
        self.state = AppState::Committing;
        self.spinner_start = clock::now();
        self.status_line = "Creating commit...".to_string();
    }

    /// Applies the result of background work to the state.
    pub fn handle_event(&mut self, event: AppEvent)
        requires
            event matches AppEvent::Committed(h) ==> (text::text_bytes(h@).len() > 7 ==> text::is_boundary(h@, 7)),
        ensures
            event matches AppEvent::Generated(msg) ==> *final(self) == (App {
                commit_message: msg,
                state: AppState::Ready,
                status_line: final(self).status_line,
                ..*old(self)
            }) && final(self).status_line@ == "✓ Copied to clipboard"@,
            event matches AppEvent::GeneratedWithVersion { message, suggested_version } ==> *final(self) == (App {
                commit_message: message,
                suggested_version: suggested_version,
                state: AppState::Ready,
                status_line: final(self).status_line,
                ..*old(self)
            }) && final(self).status_line@ == "✓ Copied to clipboard"@,
            event matches AppEvent::PreGenerated { message, suggested_version } ==> *final(self) == (App {
                pregen_message: Some(message),
                pregen_suggested_version: suggested_version,
                state: AppState::PreGenerated,
                status_line: final(self).status_line,
                ..*old(self)
            }) && final(self).status_line@ == "✓ Ready — Press Enter"@,
            event matches AppEvent::Committed(hash) ==> *final(self) == (App {
                commit_hash: Some(hash),
                state: AppState::Ready,
                status_line: final(self).status_line,
                ..*old(self)
            }) && text::text_bytes(final(self).status_line@) == text::text_bytes("✓ Committed: "@)
                + text::text_bytes(hash@).take(short_hash_len(hash@)),
            event matches AppEvent::Error(err) ==> *final(self) == (App {
                state: AppState::Idle,
                status_line: final(self).status_line,
                ..*old(self)
            }) && final(self).status_line@ == "✗ "@ + err@,
    {
        match event {
            AppEvent::Generated(msg) => {
                self.commit_message = msg;
                self.state = AppState::Ready;
                self.status_line = "✓ Copied to clipboard".to_string();
            },
            AppEvent::GeneratedWithVersion { message, suggested_version } => {
                self.commit_message = message;
                self.suggested_version = suggested_version;
                self.state = AppState::Ready;
                self.status_line = "✓ Copied to clipboard".to_string();
            },
            AppEvent::PreGenerated { message, suggested_version } => {
                self.pregen_message = Some(message);
                self.pregen_suggested_version = suggested_version;
                self.state = AppState::PreGenerated;
                self.status_line = "✓ Ready — Press Enter".to_string();
            },
            AppEvent::Committed(hash) => {
                let mut status = "✓ Committed: ".to_string();
                let ghost prefix = status@;
                let full = hash.as_str();
                if text::text_len(&hash) > 7 {
                    let (short, _) = full.split_at(7);
                    status.append(short);
                    proof {
                        text::lemma_encode_concat(prefix, short@);
                    }
                } else {
                    status.append(full);
                    proof {
                        text::lemma_encode_concat(prefix, hash@);
                        assert(text::text_bytes(hash@).take(text::text_bytes(hash@).len() as int) =~= text::text_bytes(hash@));
                    }
                }
                self.commit_hash = Some(hash);
                self.state = AppState::Ready;
                self.status_line = status;
            },
            AppEvent::Error(err) => {
                let mut status = "✗ ".to_string();
                status.append(err.as_str());
                self.status_line = status;
                self.state = AppState::Idle;
            },
        }
    }
}

/// The status line shown at start-up for a readable repository.
pub open spec fn initial_status(has_changes: bool, current_version: Option<Seq<char>>) -> Seq<char> {
    let base = if !has_changes {
        "No changes detected. Make some changes to generate a message."@
    } else {
        Seq::empty()
    };
    match current_version {
        Some(ver) => if base.len() == 0 {
            "Current version: "@ + ver + " | Press Enter to generate a message"@
        } else {
            base + " | Current version: "@ + ver
        },
        None => if base.len() == 0 {
            "Press Enter to generate a commit message"@
        } else {
            base
        },
    }
}

impl App {
    /// The start-up state: `repo` is the repository summary, or the reason it
    /// could not be read; `current_version` is the project's version, looked
    /// up when the repository was read.
    pub fn new(repo: Result<RepoInfo, String>, current_version: Option<String>) -> (app: App)
        ensures
            app.state == AppState::Idle,
            app.commit_message@.len() == 0,
            app.suggested_version is None,
            app.pregen_message is None,
            app.pregen_suggested_version is None,
            app.commit_hash is None,
            app.show_file_list,
            !app.editing,
            app.cursor_pos == 0,
            match repo {
                Ok(info) => {
                    &&& app.repo_info == Some(info)
                    &&& app.init_error is None
                    &&& app.status_line@ == initial_status(info.has_changes, match current_version {
                        Some(v) => Some(v@),
                        None => None,
                    })
                },
                Err(e) => {
                    &&& app.repo_info is None
                    &&& app.init_error matches Some(msg) && msg@ == e@ + " — press 'q' to quit"@
                    &&& app.status_line@.len() == 0
                },
            },
    {
        match repo {
            Ok(info) => {
                let base = if !info.has_changes {
                    "No changes detected. Make some changes to generate a message.".to_string()
                } else {
                    String::new()
                };
                let status = match current_version {
                    Some(ver) => {
                        if base.as_str().is_empty() {
                            let mut s = "Current version: ".to_string();
                            s.append(ver.as_str());
                            s.append(" | Press Enter to generate a message");
                            s
                        } else {
                            let mut s = base;
                            s.append(" | Current version: ");
                            s.append(ver.as_str());
                            s
                        }
                    },
                    None => {
                        if base.as_str().is_empty() {
                            "Press Enter to generate a commit message".to_string()
                        } else {
                            base
                        }
                    },
                };
                App {
                    state: AppState::Idle,
                    repo_info: Some(info),
                    init_error: None,
                    commit_message: String::new(),
                    suggested_version: None,
                    pregen_message: None,
                    pregen_suggested_version: None,
                    status_line: status,
                    commit_hash: None,
                    spinner_start: clock::now(),
                    show_file_list: true,
                    editing: false,
                    cursor_pos: 0,
                }
            },
            Err(e) => {
                let mut msg = e;
                msg.append(" — press 'q' to quit");
                App {
                    state: AppState::Idle,
                    repo_info: None,
                    init_error: Some(msg),
                    commit_message: String::new(),
                    suggested_version: None,
                    pregen_message: None,
                    pregen_suggested_version: None,
                    status_line: String::new(),
                    commit_hash: None,
                    spinner_start: clock::now(),
                    show_file_list: true,
                    editing: false,
                    cursor_pos: 0,
                }
            },
        }
    }
}

/// Law: typing a character and then pressing backspace gives back the
/// message and the cursor, and leaves the rest of the state as it was.
pub proof fn law_backspace_undoes_insert_char(a: App, b: App, c: char, d: App)
    requires
        text::is_boundary(a.commit_message@, a.cursor_pos as int),
        inserted(a, b, c),
        deleted_backward(b, d),
    ensures
        d.commit_message@ == a.commit_message@,
        d.cursor_pos == a.cursor_pos,
        d == a.with_text(d.commit_message, a.cursor_pos),
{
    text::lemma_char_width(c);
    text::law_backspace_undoes_insert(a.commit_message@, a.cursor_pos as int, c, b.commit_message@);
    assert(text::is_prev_boundary(b.commit_message@, b.cursor_pos as int, d.cursor_pos as int));
    text::lemma_encode_injective(d.commit_message@, a.commit_message@);
}

/// Number of leading bytes of a commit hash shown after a commit.
pub open spec fn short_hash_len(hash: Seq<char>) -> int {
    if text::text_bytes(hash).len() > 7 { 7 } else { text::text_bytes(hash).len() as int }
}

} // verus!
