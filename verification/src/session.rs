//! The interactive session: what each key press decides, and how the
//! results of background work (generation, clipboard, commit) become events.
//! The caller performs each returned command and feeds the outcome back.

use vstd::prelude::*;
use vstd::string::*;

use crate::ai::GenerationResult;
use crate::app;
use crate::app::{App, AppEvent, AppState};
use crate::text;

verus! {

broadcast use vstd::string::group_string_axioms;

/// A key press, as far as the session distinguishes keys.
#[derive(Debug, Clone, Copy, PartialEq, Eq, Structural)]
pub enum Key {
    Char(char),
    Enter,
    Esc,
    Backspace,
    Delete,
    Left,
    Right,
    Home,
    End,
    F(u8),
    Other,
}

/// Work the caller must do after a key press.
#[derive(Debug)]
pub enum Command {
    /// Nothing to do.
    Nothing,
    /// Leave the application.
    Quit,
    /// Generate a message from `diff` in the background; copy it to the
    /// clipboard when done if `copy_to_clipboard`.
    Generate { diff: String, truncated: bool, copy_to_clipboard: bool },
    /// Copy the pre-generated message to the clipboard, then report the
    /// outcome with `App::finish_copy`.
    CopyPregenerated { message: String, suggested_version: Option<String> },
    /// Stage everything and commit `message` in the repository at `repo_path`.
    Commit { repo_path: String, message: String },
}

/// The combined diff of the repository, empty when there is none.
pub open spec fn repo_diff(a: App) -> Seq<char> {
    match a.repo_info {
        Some(r) => r.combined_diff@,
        None => Seq::empty(),
    }
}

/// Whether the repository's diff was cut.
pub open spec fn repo_truncated(a: App) -> bool {
    match a.repo_info {
        Some(r) => r.truncated,
        None => false,
    }
}

/// The repository's path, empty when there is none.
pub open spec fn repo_path(a: App) -> Seq<char> {
    match a.repo_info {
        Some(r) => r.repo_path@,
        None => Seq::empty(),
    }
}

/// `cmd` asks to generate from the repository's diff.
pub open spec fn generates(a: App, cmd: Command, copy: bool) -> bool {
    cmd matches Command::Generate { diff, truncated, copy_to_clipboard } && diff@ == repo_diff(a)
        && truncated == repo_truncated(a) && copy_to_clipboard == copy
}

/// `k` is the character `lower` or `upper`.
pub open spec fn is_letter_key(k: Key, lower: char, upper: char) -> bool {
    k == Key::Char(lower) || k == Key::Char(upper)
}

/// What the keys do while the message is edited: `q` and `F1` keep their
/// meaning in every mode (quit, toggle the file list); the others edit.
pub open spec fn editing_key(a: App, key: Key, b: App, cmd: Command) -> bool {
    if is_letter_key(key, 'q', 'Q') {
        b == a && cmd is Quit
    } else if key == Key::F(1) {
        b == (App { show_file_list: !a.show_file_list, ..a }) && cmd is Nothing
    } else {
        cmd is Nothing && editing_edit_key(a, key, b)
    }
}

/// What the editing keys do to the message and cursor.
pub open spec fn editing_edit_key(a: App, key: Key, b: App) -> bool {
    match key {
        Key::Esc => app::editing_stopped(a, b),
        Key::Enter => app::inserted(a, b, '\n'),
        Key::Backspace => app::deleted_backward(a, b),
        Key::Delete => app::deleted_forward(a, b),
        Key::Left => app::moved_left(a, b),
        Key::Right => app::moved_right(a, b),
        Key::Home => b == a.with_text(a.commit_message, 0),
        Key::End => b.cursor_pos == text::text_bytes(a.commit_message@).len() && b == a.with_text(
            a.commit_message,
            b.cursor_pos,
        ),
        Key::Char(c) => app::inserted(a, b, c),
        _ => b == a,
    }
}

/// What the keys do outside edit mode.
pub open spec fn browsing_key(a: App, key: Key, b: App, cmd: Command) -> bool {
    if is_letter_key(key, 'q', 'Q') {
        b == a && cmd is Quit
    } else if key == Key::F(1) {
        b == (App { show_file_list: !a.show_file_list, ..a }) && cmd is Nothing
    } else if is_letter_key(key, 'e', 'E') {
        cmd is Nothing && if a.state == AppState::Ready && a.commit_message@.len() > 0 {
            app::editing_started(a, b)
        } else {
            b == a
        }
    } else if is_letter_key(key, 'r', 'R') {
        if a.state == AppState::PreGenerated || a.state == AppState::Ready {
            let cleared = App {
                pregen_message: None,
                pregen_suggested_version: None,
                commit_message: b.commit_message,
                suggested_version: None,
                commit_hash: None,
                ..a
            };
            &&& b.commit_message@.len() == 0
            &&& app::generation_started(cleared, b)
            &&& generates(a, cmd, true)
        } else {
            b == a && cmd is Nothing
        }
    } else if key == Key::Enter {
        if a.spec_can_copy_pregen() {
            &&& b == (App { pregen_message: None, pregen_suggested_version: None, ..a })
            &&& cmd matches Command::CopyPregenerated { message, suggested_version } && Some(message)
                == a.pregen_message && suggested_version == a.pregen_suggested_version
        } else if a.spec_can_generate() {
            app::generation_started(a, b) && generates(a, cmd, true)
        } else if a.spec_can_commit() {
            &&& app::commit_started(a, b)
            &&& cmd matches Command::Commit { repo_path: p, message } && p@ == repo_path(a) && message
                == a.commit_message
        } else {
            b == a && cmd is Nothing
        }
    } else {
        b == a && cmd is Nothing
    }
}

/// Whether `key` may be applied in edit mode: the editing operation it
/// stands for finds the cursor on a character boundary (`q` and `Q` quit and
/// edit nothing, so they may always be applied).
pub open spec fn editing_key_ok(a: App, key: Key) -> bool {
    match key {
        Key::Enter => app::insert_ok(a),
        Key::Char(c) => c == 'q' || c == 'Q' || app::insert_ok(a),
        Key::Backspace => app::backward_ok(a),
        Key::Left => app::backward_ok(a),
        Key::Delete => app::forward_ok(a),
        Key::Right => app::forward_ok(a),
        _ => true,
    }
}

fn repo_diff_of(a: &App) -> (r: (String, bool))
    ensures
        r.0@ == repo_diff(*a),
        r.1 == repo_truncated(*a),
{
    match &a.repo_info {
        Some(info) => (info.combined_diff.clone(), info.truncated),
        None => (String::new(), false),
    }
}

impl App {
    /// Applies a key press and says what work it calls for.
    pub fn handle_key(&mut self, key: Key) -> (cmd: Command)
        requires
            old(self).editing ==> editing_key_ok(*old(self), key),
        ensures
            old(self).editing ==> editing_key(*old(self), key, *final(self), cmd),
            !old(self).editing ==> browsing_key(*old(self), key, *final(self), cmd),
    {
        if key == Key::Char('q') || key == Key::Char('Q') {
            return Command::Quit;
        }
        if key == Key::F(1) {
            self.show_file_list = !self.show_file_list;
            return Command::Nothing;
        }
        if self.editing {
            match key {
                Key::Esc => self.stop_editing(),
                Key::Enter => self.insert_char('\n'),
                Key::Backspace => self.delete_backward(),
                Key::Delete => self.delete_forward(),
                Key::Left => self.cursor_left(),
                Key::Right => self.cursor_right(),
                Key::Home => self.cursor_home(),
                Key::End => self.cursor_end(),
                Key::Char(c) => self.insert_char(c),
                _ => {},
            }
            return Command::Nothing;
        }
        if key == Key::Char('e') || key == Key::Char('E') {
            if self.state == AppState::Ready && !self.commit_message.as_str().is_empty() {
                self.start_editing();
            }
            return Command::Nothing;
        }
        if key == Key::Char('r') || key == Key::Char('R') {
            if self.state == AppState::PreGenerated || self.state == AppState::Ready {
                self.pregen_message = None;
                self.pregen_suggested_version = None;
                self.commit_message = String::new();
                self.suggested_version = None;
                self.commit_hash = None;
                self.start_generating();
                let (diff, truncated) = repo_diff_of(self);
                return Command::Generate { diff, truncated, copy_to_clipboard: true };
            }
            return Command::Nothing;
        }
        if key == Key::Enter {
            if self.can_copy_pregen() {
                let message = self.pregen_message.take().unwrap();
                let suggested_version = self.pregen_suggested_version.take();
                return Command::CopyPregenerated { message, suggested_version };
            } else if self.can_generate() {
                self.start_generating();
                let (diff, truncated) = repo_diff_of(self);
                return Command::Generate { diff, truncated, copy_to_clipboard: true };
            } else if self.can_commit() {
                let message = self.commit_message.clone();
                let repo_path = match &self.repo_info {
                    Some(r) => r.repo_path.clone(),
                    None => String::new(),
                };
                self.start_committing();
                return Command::Commit { repo_path, message };
            }
        }
        Command::Nothing
    }
}

impl App {
    /// Applies the outcome of copying a pre-generated message: on success
    /// the message becomes the commit message; on failure the error event
    /// to deliver is returned and the state is left as it is.
    pub fn finish_copy(&mut self, message: String, suggested_version: Option<String>, copied: Result<(), String>) -> (ev:
        Option<AppEvent>)
        ensures
            match copied {
                Ok(()) => ev is None && final(self).status_line@ == "✓ Copied to clipboard"@ && *final(self) == (App {
                    commit_message: message,
                    suggested_version: suggested_version,
                    state: AppState::Ready,
                    status_line: final(self).status_line,
                    ..*old(self)
                }),
                Err(e) => *final(self) == *old(self) && (ev matches Some(AppEvent::Error(m)) && m@
                    == "Clipboard error: "@ + e@),
            },
    {
        match copied {
            Ok(()) => {
                self.commit_message = message;
                self.suggested_version = suggested_version;
                self.state = AppState::Ready;
                self.status_line = "✓ Copied to clipboard".to_string();
                None
            },
            Err(e) => Some(AppEvent::Error(clipboard_error(&e))),
        }
    }

    /// Starts pre-generating a message when the repository has changes.
    pub fn start_pregen(&mut self) -> (cmd: Option<Command>)
        ensures
            match old(self).repo_info {
                Some(r) => r.has_changes,
                None => false,
            } ==> {
                &&& final(self).status_line@ == "Pre-generating commit message..."@
                &&& *final(self) == (App {
                    state: AppState::PreGenerating,
                    status_line: final(self).status_line,
                    spinner_start: final(self).spinner_start,
                    ..*old(self)
                })
                &&& cmd matches Some(c) && generates(*old(self), c, false)
            },
            !match old(self).repo_info {
                Some(r) => r.has_changes,
                None => false,
            } ==> *final(self) == *old(self) && cmd is None,
    {
        let has_changes = match &self.repo_info {
            Some(r) => r.has_changes,
            None => false,
        };
        if !has_changes {
            return None;
        }
        self.state = AppState::PreGenerating;
        self.status_line = "Pre-generating commit message...".to_string();
        self.spinner_start = crate::clock::now();
        let (diff, truncated) = repo_diff_of(self);
        Some(Command::Generate { diff, truncated, copy_to_clipboard: false })
    }
}

fn clipboard_error(e: &String) -> (m: String)
    ensures
        m@ == "Clipboard error: "@ + e@,
{
    let mut m = "Clipboard error: ".to_string();
    m.append(e.as_str());
    m
}

/// The event a finished generation delivers. `outcome` is the generation
/// result or its error text; `clipboard` is the outcome of copying the
/// message, consulted only when the message was to be copied;
/// `versioned` says whether a current version was known.
pub fn generation_event(
    outcome: Result<GenerationResult, String>,
    copy_to_clipboard: bool,
    clipboard: Result<(), String>,
    versioned: bool,
) -> (ev: AppEvent)
    ensures
        match outcome {
            Err(e) => ev == AppEvent::Error(e),
            Ok(g) => if !copy_to_clipboard {
                ev == AppEvent::PreGenerated { message: g.message, suggested_version: g.suggested_version }
            } else {
                match clipboard {
                    Ok(()) => if versioned {
                        ev == AppEvent::GeneratedWithVersion {
                            message: g.message,
                            suggested_version: g.suggested_version,
                        }
                    } else {
                        ev == AppEvent::Generated(g.message)
                    },
                    Err(e) => ev matches AppEvent::Error(m) && m@ == "Clipboard error: "@ + e@,
                }
            },
        },
{
    match outcome {
        Err(e) => AppEvent::Error(e),
        Ok(g) => {
            if !copy_to_clipboard {
                AppEvent::PreGenerated { message: g.message, suggested_version: g.suggested_version }
            } else {
                match clipboard {
                    Ok(()) => {
                        if versioned {
                            AppEvent::GeneratedWithVersion {
                                message: g.message,
                                suggested_version: g.suggested_version,
                            }
                        } else {
                            AppEvent::Generated(g.message)
                        }
                    },
                    Err(e) => AppEvent::Error(clipboard_error(&e)),
                }
            }
        },
    }
}

/// The event a finished commit delivers: the new commit's hash, or the error.
pub fn commit_event(result: Result<String, String>) -> (ev: AppEvent)
    ensures
        match result {
            Ok(hash) => ev == AppEvent::Committed(hash),
            Err(e) => ev matches AppEvent::Error(m) && m@ == "Commit error: "@ + e@,
        },
{
    match result {
        Ok(hash) => AppEvent::Committed(hash),
        Err(e) => {
            let mut m = "Commit error: ".to_string();
            m.append(e.as_str());
            AppEvent::Error(m)
        },
    }
}

/// Law: while a background job runs (pre-generating, generating or
/// committing), no key starts another one: outside edit mode every key
/// yields no command or the quit command.
pub proof fn law_busy_starts_nothing(a: App, key: Key, b: App, cmd: Command)
    requires
        !a.editing,
        a.state == AppState::PreGenerating || a.state == AppState::Loading || a.state == AppState::Committing,
        browsing_key(a, key, b, cmd),
    ensures
        cmd is Nothing || cmd is Quit,
{
}

/// Law: Enter has one meaning in each state: copying the pre-generated
/// message, generating, and committing are never possible together.
pub proof fn law_enter_is_unambiguous(a: App)
    ensures
        !(a.spec_can_copy_pregen() && a.spec_can_generate()),
        !(a.spec_can_copy_pregen() && a.spec_can_commit()),
        !(a.spec_can_generate() && a.spec_can_commit()),
{
}

/// Law: a message is committed at most once: once the commit's hash has
/// arrived, committing is no longer possible until a new message is generated.
pub proof fn law_commit_once(a: App, hash: String, status: String)
    ensures
        !(App { commit_hash: Some(hash), state: AppState::Ready, status_line: status, ..a }).spec_can_commit(),
{
}

/// Law (the documented workflow): with a pre-generated message waiting, Enter
/// asks to copy it; once copied it is the commit message, and Enter again asks
/// to commit exactly that message in the repository.
pub proof fn law_copy_then_commit(
    a: App,
    b: App,
    cmd: Command,
    status: String,
    c2: App,
    cmd2: Command,
)
    requires
        !a.editing,
        a.spec_can_copy_pregen(),
        a.commit_hash is None,
        browsing_key(a, Key::Enter, b, cmd),
    ensures
        cmd matches Command::CopyPregenerated { message, suggested_version } && {
            let c = App {
                commit_message: message,
                suggested_version: suggested_version,
                state: AppState::Ready,
                status_line: status,
                ..b
            };
            message@.len() > 0 && browsing_key(c, Key::Enter, c2, cmd2) ==> (cmd2 matches Command::Commit {
                repo_path: p,
                message: m,
            } && m == message && p@ == repo_path(a) && c2.state == AppState::Committing)
        },
{
}

/// Law: in edit mode every key keeps the cursor on a character boundary of
/// the message, so editing can go on with any key.
pub proof fn law_editing_keeps_cursor_on_boundary(a: App, key: Key, b: App, cmd: Command)
    requires
        a.editing,
        text::is_boundary(a.commit_message@, a.cursor_pos as int),
        editing_key(a, key, b, cmd),
    ensures
        text::is_boundary(b.commit_message@, b.cursor_pos as int),
        b.editing || key == Key::Esc,
{
    text::law_boundaries_are_prefix_offsets(a.commit_message@, 0);
}


/// Law: outside edit mode, `r` or `R` with a pre-generated or ready message
/// regenerates: it asks to generate from the repository's diff and copy the
/// result, the state becomes `Loading`, and the pre-generated message, the
/// current message, its version and any commit hash are dropped.
pub proof fn law_regenerate(a: App, key: Key, b: App, cmd: Command)
    requires
        !a.editing,
        is_letter_key(key, 'r', 'R'),
        a.state == AppState::PreGenerated || a.state == AppState::Ready,
        browsing_key(a, key, b, cmd),
    ensures
        cmd matches Command::Generate { diff, truncated, copy_to_clipboard } && diff@ == repo_diff(a)
            && truncated == repo_truncated(a) && copy_to_clipboard,
        b.state == AppState::Loading,
        b.pregen_message is None,
        b.pregen_suggested_version is None,
        b.commit_message@.len() == 0,
        b.suggested_version is None,
        b.commit_hash is None,
        b.status_line@ == "Generating commit message..."@,
        b.repo_info == a.repo_info,
        !b.editing,
{
}

/// Law: outside edit mode, Enter on an idle app whose repository has changes
/// asks to generate from the repository's diff and copy the result, and the
/// state becomes `Loading`.
pub proof fn law_enter_generates(a: App, b: App, cmd: Command)
    requires
        !a.editing,
        a.state == AppState::Idle,
        a.init_error is None,
        a.repo_info matches Some(r) && r.has_changes,
        browsing_key(a, Key::Enter, b, cmd),
    ensures
        cmd matches Command::Generate { diff, truncated, copy_to_clipboard } && diff@ == repo_diff(a)
            && truncated == repo_truncated(a) && copy_to_clipboard,
        b.state == AppState::Loading,
        b.commit_message == a.commit_message,
{
}

/// Law: `q` and `Q` quit in every mode and change nothing.
pub proof fn law_quit_anywhere(a: App, key: Key, b: App, cmd: Command)
    requires
        is_letter_key(key, 'q', 'Q'),
        a.editing ==> editing_key(a, key, b, cmd),
        !a.editing ==> browsing_key(a, key, b, cmd),
    ensures
        cmd is Quit,
        b == a,
{
}


/// Law: outside edit mode, `e` or `E` on a ready, non-empty message enters
/// edit mode with the cursor at the end of the message, which is unchanged.
pub proof fn law_edit_starts(a: App, key: Key, b: App, cmd: Command)
    requires
        !a.editing,
        is_letter_key(key, 'e', 'E'),
        a.state == AppState::Ready,
        a.commit_message@.len() > 0,
        browsing_key(a, key, b, cmd),
    ensures
        cmd is Nothing,
        b.editing,
        b.cursor_pos == text::text_bytes(a.commit_message@).len(),
        b.commit_message == a.commit_message,
        b.state == a.state,
{
}

/// Law: F1 toggles the file list in every mode and changes nothing else.
pub proof fn law_f1_toggles_files(a: App, b: App, cmd: Command)
    requires
        a.editing ==> editing_key(a, Key::F(1), b, cmd),
        !a.editing ==> browsing_key(a, Key::F(1), b, cmd),
    ensures
        cmd is Nothing,
        b.show_file_list == !a.show_file_list,
        b == (App { show_file_list: b.show_file_list, ..a }),
{
}

} // verus!
