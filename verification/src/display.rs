//! What the screen shows, decided from the application state: colours,
//! labels, buttons, hints, file rows and the edit cursor's cell. Drawing
//! these is left to the terminal front end.

use vstd::prelude::*;
use vstd::string::*;

use crate::app::{App, AppState};
use crate::strings;
use crate::text;

verus! {

broadcast use vstd::string::group_string_axioms;

/// The colours the screen uses.
#[derive(Debug, Clone, Copy, PartialEq, Eq, Structural)]
pub enum UiColor {
    Green,
    Yellow,
    Red,
    Cyan,
    White,
    DarkGray,
    Blue,
    Magenta,
}

/// `s` in lower case (`str::to_lowercase`).
pub uninterp spec fn lowercase(s: Seq<char>) -> Seq<char>;

/// `str::to_lowercase`.
#[verifier::external_body]
fn to_lowercase(s: &str) -> (r: String)
    ensures
        r@ == lowercase(s@),
{
    s.to_lowercase()
}

/// The colour of the status line: green for a success mark, red for a
/// failure mark or any mention of an error, yellow for a truncation notice.
pub open spec fn status_color_of(text: Seq<char>) -> UiColor {
    if text.len() > 0 && text[0] == '✓' {
        UiColor::Green
    } else if (text.len() > 0 && text[0] == '✗') || strings::contains_seq(lowercase(text), "error"@) {
        UiColor::Red
    } else if strings::contains_seq(text, "truncated"@) {
        UiColor::Yellow
    } else {
        UiColor::White
    }
}

/// The colour of a status line; `None` when the line is empty and nothing is shown.
pub fn status_color(text: &str) -> (c: Option<UiColor>)
    ensures
        text@.len() == 0 ==> c is None,
        text@.len() > 0 ==> c == Some(status_color_of(text@)),
{
    let chars = strings::chars_of(text);
    if chars.len() == 0 {
        return None;
    }
    if chars[0] == '✓' {
        return Some(UiColor::Green);
    }
    let lower = strings::chars_of(to_lowercase(text).as_str());
    if chars[0] == '✗' || strings::contains_chars(&lower, &strings::chars_of("error")) {
        return Some(UiColor::Red);
    }
    if strings::contains_chars(&chars, &strings::chars_of("truncated")) {
        return Some(UiColor::Yellow);
    }
    Some(UiColor::White)
}

/// The icon and colour of a file status letter.
pub open spec fn status_icon_of(status: Seq<char>) -> (Seq<char>, UiColor) {
    if status == "A"@ {
        ("+"@, UiColor::Green)
    } else if status == "M"@ {
        ("~"@, UiColor::Yellow)
    } else if status == "D"@ {
        ("-"@, UiColor::Red)
    } else if status == "R"@ {
        (">"@, UiColor::Cyan)
    } else {
        (" "@, UiColor::White)
    }
}

/// The icon and colour for a file status letter (added, modified, deleted, renamed).
pub fn status_icon(status: &str) -> (r: (String, UiColor))
    ensures
        (r.0@, r.1) == status_icon_of(status@),
{
    if strings::text_eq(status, "A") {
        ("+".to_string(), UiColor::Green)
    } else if strings::text_eq(status, "M") {
        ("~".to_string(), UiColor::Yellow)
    } else if strings::text_eq(status, "D") {
        ("-".to_string(), UiColor::Red)
    } else if strings::text_eq(status, "R") {
        (">".to_string(), UiColor::Cyan)
    } else {
        (" ".to_string(), UiColor::White)
    }
}

/// One row of the changed-file list.
pub struct FileRow {
    pub icon: String,
    pub color: UiColor,
    pub path: String,
}

/// The rows of the changed-file list: none when the list is hidden or
/// there are no files; else one per file that has a status.
pub open spec fn file_rows_of(a: App) -> Seq<(Seq<char>, UiColor, Seq<char>)> {
    match a.repo_info {
        Some(r) => if !a.show_file_list || r.changed_files@.len() == 0 {
            Seq::empty()
        } else {
            let n = if r.changed_files@.len() <= r.changed_statuses@.len() {
                r.changed_files@.len()
            } else {
                r.changed_statuses@.len()
            };
            Seq::new(
                n,
                |i: int|
                    (
                        status_icon_of(r.changed_statuses@[i]@).0,
                        status_icon_of(r.changed_statuses@[i]@).1,
                        r.changed_files@[i]@,
                    ),
            )
        },
        None => Seq::empty(),
    }
}

impl App {
    /// The rows of the changed-file list.
    pub fn file_rows(&self) -> (rows: Vec<FileRow>)
        ensures
            rows@.map_values(|x: FileRow| (x.icon@, x.color, x.path@)) == file_rows_of(*self),
    {
        let mut rows: Vec<FileRow> = Vec::new();
        match &self.repo_info {
            Some(r) => {
                if !self.show_file_list || r.changed_files.len() == 0 {
                    assert(rows@.map_values(|x: FileRow| (x.icon@, x.color, x.path@)) =~= file_rows_of(*self));
                    return rows;
                }
                let n = if r.changed_files.len() <= r.changed_statuses.len() {
                    r.changed_files.len()
                } else {
                    r.changed_statuses.len()
                };
                let mut i: usize = 0;
                while i < n
                    invariant
                        n <= r.changed_files@.len(),
                        n <= r.changed_statuses@.len(),
                        i <= n,
                        rows@.len() == i,
                        forall|j: int|
                            0 <= j < i ==> (#[trigger] rows@[j]).icon@ == status_icon_of(r.changed_statuses@[j]@).0
                                && rows@[j].color == status_icon_of(r.changed_statuses@[j]@).1 && rows@[j].path@
                                == r.changed_files@[j]@,
                    decreases n - i,
                {
                    let (icon, color) = status_icon(r.changed_statuses[i].as_str());
                    rows.push(FileRow { icon, color, path: r.changed_files[i].clone() });
                    i = i + 1;
                }
                assert(rows@.map_values(|x: FileRow| (x.icon@, x.color, x.path@)) =~= file_rows_of(*self));
                rows
            },
            None => {
                assert(rows@.map_values(|x: FileRow| (x.icon@, x.color, x.path@)) =~= file_rows_of(*self));
                rows
            },
        }
    }
}

/// The commit-message panel: the text shown, the border colour, the title,
/// and whether the text area is drawn at all.
pub struct MessageView {
    pub text: String,
    pub border: UiColor,
    pub title: String,
    pub visible: bool,
}

/// The text the message panel shows: the pre-generated message while it
/// waits, else the commit message.
pub open spec fn displayed_text(a: App) -> Seq<char> {
    if a.state == AppState::PreGenerated {
        match a.pregen_message {
            Some(m) => m@,
            None => Seq::empty(),
        }
    } else {
        a.commit_message@
    }
}

/// One button: its label and whether it is active.
pub struct Button {
    pub label: String,
    pub active: bool,
}

/// One key hint: the key and what it does.
pub struct Hint {
    pub key: String,
    pub text: String,
}

/// The buttons of the action bar.
pub open spec fn buttons_of(a: App) -> Seq<(Seq<char>, bool)> {
    let has_msg = a.commit_message@.len() > 0;
    if a.editing {
        seq![("  Finish editing [Esc]  "@, true)]
    } else if a.state == AppState::PreGenerated {
        seq![("  Use message ✓  "@, true)]
    } else if a.state == AppState::PreGenerating {
        seq![("  Pre-generating…  "@, false)]
    } else if a.state == AppState::Loading {
        seq![("  Generating…  "@, false)]
    } else if a.state == AppState::Committing {
        seq![("  Committing…  "@, false)]
    } else {
        let can_gen = a.spec_can_generate();
        let first = (
            if can_gen {
                "  Create commit message  "@
            } else if has_msg {
                "  Regenerate  "@
            } else {
                "  Create commit message  "@
            },
            can_gen || (a.state == AppState::Ready && has_msg),
        );
        if has_msg {
            seq![first, ("  Commit changes  "@, a.spec_can_commit())]
        } else {
            seq![first]
        }
    }
}

/// The key hints of the action bar.
pub open spec fn hints_of(a: App) -> Seq<(Seq<char>, Seq<char>)> {
    let has_msg = a.commit_message@.len() > 0;
    let ready = a.state == AppState::Ready;
    let busy = a.state == AppState::Loading || a.state == AppState::Committing || a.state == AppState::PreGenerating;
    if a.editing {
        seq![("Esc"@, " finish  "@), ("F1"@, " files  "@), ("q"@, " quit"@)]
    } else {
        let enter: Seq<(Seq<char>, Seq<char>)> = if a.state == AppState::PreGenerated {
            seq![("Enter"@, " use message  "@)]
        } else if ready && has_msg {
            seq![("Enter"@, " commit  "@)]
        } else if !busy {
            seq![("Enter"@, " generate  "@)]
        } else {
            Seq::empty()
        };
        let edit: Seq<(Seq<char>, Seq<char>)> = if has_msg && ready {
            seq![("e"@, " edit  "@)]
        } else {
            Seq::empty()
        };
        let regen: Seq<(Seq<char>, Seq<char>)> = if has_msg {
            seq![("r"@, " regen  "@)]
        } else {
            Seq::empty()
        };
        enter + edit + regen + seq![("F1"@, " files  "@), ("q"@, " quit"@)]
    }
}

fn button(label: &str, active: bool) -> (b: Button)
    ensures
        b.label@ == label@,
        b.active == active,
{
    Button { label: label.to_string(), active }
}

fn hint(key: &str, text: &str) -> (h: Hint)
    ensures
        h.key@ == key@,
        h.text@ == text@,
{
    Hint { key: key.to_string(), text: text.to_string() }
}

/// The characters a busy spinner cycles through.
pub open spec fn spinner_frames() -> Seq<char> {
    seq!['⠋', '⠙', '⠹', '⠸', '⠼', '⠴', '⠦', '⠧', '⠇', '⠏']
}

/// The characters a busy spinner cycles through.
pub fn spinner_chars() -> (v: Vec<char>)
    ensures
        v@ == spinner_frames(),
{
    let v: Vec<char> = vec!['⠋', '⠙', '⠹', '⠸', '⠼', '⠴', '⠦', '⠧', '⠇', '⠏'];
    assert(v@ =~= spinner_frames());
    v
}

/// The version area: a spinner while busy, else the suggested version, else
/// the current version (which the front end looks up), else nothing.
pub enum VersionView {
    Spinner { frame: char, label: String },
    Suggested(String),
    Current,
    Blank,
}

/// The label under the spinner in each busy state.
pub open spec fn busy_label(state: AppState) -> Seq<char> {
    match state {
        AppState::PreGenerating => " Pre-generating commit message... "@,
        AppState::Loading => " Generating commit message... "@,
        _ => " Creating commit... "@,
    }
}

impl App {
    /// What the message panel shows.
    pub fn message_view(&self) -> (v: MessageView)
        ensures
            v.text@ == displayed_text(*self),
            v.border == (if self.editing {
                UiColor::Yellow
            } else if displayed_text(*self).len() > 0 {
                UiColor::Green
            } else {
                UiColor::DarkGray
            }),
            v.title@ == (if self.editing {
                " Commit Message [EDITING] "@
            } else {
                " Commit Message "@
            }),
            v.visible == (displayed_text(*self).len() > 0 || self.editing),
    {
        let text = if self.state == AppState::PreGenerated {
            match &self.pregen_message {
                Some(m) => m.clone(),
                None => String::new(),
            }
        } else {
            self.commit_message.clone()
        };
        let empty = text.as_str().is_empty();
        let border = if self.editing {
            UiColor::Yellow
        } else if !empty {
            UiColor::Green
        } else {
            UiColor::DarkGray
        };
        let title = if self.editing {
            " Commit Message [EDITING] ".to_string()
        } else {
            " Commit Message ".to_string()
        };
        MessageView { text, border, title, visible: !empty || self.editing }
    }

    /// The buttons of the action bar.
    pub fn action_buttons(&self) -> (v: Vec<Button>)
        ensures
            v@.map_values(|b: Button| (b.label@, b.active)) == buttons_of(*self),
    {
        let mut v: Vec<Button> = Vec::new();
        let has_msg = !self.commit_message.as_str().is_empty();
        if self.editing {
            v.push(button("  Finish editing [Esc]  ", true));
        } else if self.state == AppState::PreGenerated {
            v.push(button("  Use message ✓  ", true));
        } else if self.state == AppState::PreGenerating {
            v.push(button("  Pre-generating…  ", false));
        } else if self.state == AppState::Loading {
            v.push(button("  Generating…  ", false));
        } else if self.state == AppState::Committing {
            v.push(button("  Committing…  ", false));
        } else {
            let can_gen = self.can_generate();
            let active = can_gen || (self.state == AppState::Ready && has_msg);
            let label = if can_gen {
                "  Create commit message  "
            } else if has_msg {
                "  Regenerate  "
            } else {
                "  Create commit message  "
            };
            v.push(button(label, active));
            if has_msg {
                v.push(button("  Commit changes  ", self.can_commit()));
            }
        }
        assert(v@.map_values(|b: Button| (b.label@, b.active)) =~= buttons_of(*self));
        v
    }

    /// The key hints of the action bar.
    pub fn action_hints(&self) -> (v: Vec<Hint>)
        ensures
            v@.map_values(|h: Hint| (h.key@, h.text@)) == hints_of(*self),
    {
        let mut v: Vec<Hint> = Vec::new();
        if self.editing {
            v.push(hint("Esc", " finish  "));
            v.push(hint("F1", " files  "));
            v.push(hint("q", " quit"));
            assert(v@.map_values(|h: Hint| (h.key@, h.text@)) =~= hints_of(*self));
            return v;
        }
        let has_msg = !self.commit_message.as_str().is_empty();
        let ready = self.state == AppState::Ready;
        let busy = self.state == AppState::Loading || self.state == AppState::Committing || self.state
            == AppState::PreGenerating;
        if self.state == AppState::PreGenerated {
            v.push(hint("Enter", " use message  "));
        } else if ready && has_msg {
            v.push(hint("Enter", " commit  "));
        } else if !busy {
            v.push(hint("Enter", " generate  "));
        }
        if has_msg && ready {
            v.push(hint("e", " edit  "));
        }
        if has_msg {
            v.push(hint("r", " regen  "));
        }
        v.push(hint("F1", " files  "));
        v.push(hint("q", " quit"));
        assert(v@.map_values(|h: Hint| (h.key@, h.text@)) =~= hints_of(*self));
        v
    }

    /// What the version area shows, `elapsed_ms` after the spinner started.
    pub fn version_view(&self, elapsed_ms: u64) -> (v: VersionView)
        ensures
            (self.state == AppState::PreGenerating || self.state == AppState::Loading || self.state
                == AppState::Committing) ==> (v matches VersionView::Spinner { frame, label } && frame
                == spinner_frames()[((elapsed_ms / 100) % 10) as int] && label@ == busy_label(self.state)),
            !(self.state == AppState::PreGenerating || self.state == AppState::Loading || self.state
                == AppState::Committing) ==> match self.suggested_version {
                Some(s) => v matches VersionView::Suggested(t) && t@ == s@,
                None => if self.repo_info is Some {
                    v is Current
                } else {
                    v is Blank
                },
            },
    {
        if self.state == AppState::PreGenerating || self.state == AppState::Loading || self.state
            == AppState::Committing {
            let frames = spinner_chars();
            let frame = frames[((elapsed_ms / 100) % 10) as usize];
            let label = if self.state == AppState::PreGenerating {
                " Pre-generating commit message... ".to_string()
            } else if self.state == AppState::Loading {
                " Generating commit message... ".to_string()
            } else {
                " Creating commit... ".to_string()
            };
            return VersionView::Spinner { frame, label };
        }
        match &self.suggested_version {
            Some(s) => VersionView::Suggested(s.clone()),
            None => if self.repo_info.is_some() {
                VersionView::Current
            } else {
                VersionView::Blank
            },
        }
    }

    /// The branch name and repository path of the title bar (`?` and empty
    /// when no repository was read).
    pub fn title_labels(&self) -> (r: (String, String))
        ensures
            match self.repo_info {
                Some(info) => r.0@ == info.branch@ && r.1@ == info.repo_path@,
                None => r.0@ == "?"@ && r.1@.len() == 0,
            },
    {
        match &self.repo_info {
            Some(info) => (info.branch.clone(), info.repo_path.clone()),
            None => ("?".to_string(), String::new()),
        }
    }
}

/// The byte lengths of the lines of `b` (split at every `\n` byte).
pub open spec fn line_lengths(b: Seq<u8>) -> Seq<nat>
    decreases b.len(),
{
    if b.len() == 0 {
        seq![0nat]
    } else {
        let r = line_lengths(b.drop_last());
        if b.last() == 0x0A {
            r.push(0nat)
        } else {
            r.update(r.len() - 1, r.last() + 1)
        }
    }
}

pub proof fn lemma_line_lengths_nonempty(b: Seq<u8>)
    ensures
        line_lengths(b).len() >= 1,
    decreases b.len(),
{
    if b.len() > 0 {
        lemma_line_lengths_nonempty(b.drop_last());
    }
}

/// How many screen rows a line of `len` bytes takes at `width` columns; the
/// length is taken modulo 65536, as a 16-bit screen coordinate holds it.
pub open spec fn line_rows(len: nat, width: nat) -> nat {
    if len == 0 {
        1
    } else {
        (((len % 65536) + width - 1) / (width as int)) as nat
    }
}

/// The rows taken by all the lines.
pub open spec fn total_rows(lens: Seq<nat>, width: nat) -> nat
    decreases lens.len(),
{
    if lens.len() == 0 {
        0
    } else {
        total_rows(lens.drop_last(), width) + line_rows(lens.last(), width)
    }
}

/// The cursor's text fits the 16-bit screen arithmetic: no line's row count
/// and no row total overflows.
pub open spec fn rows_fit(lens: Seq<nat>, width: nat) -> bool {
    &&& forall|i: int| 0 <= i < lens.len() ==> (#[trigger] lens[i]) == 0 || (lens[i] % 65536) + width <= 65535
    &&& total_rows(lens, width) <= 65535
}

/// The bytes before the cursor (the cursor clamped to the message's end).
pub open spec fn bytes_before_cursor(a: App) -> Seq<u8> {
    let b = text::text_bytes(a.commit_message@);
    b.take(if a.cursor_pos <= b.len() { a.cursor_pos as int } else { b.len() as int })
}

/// The cell of the edit cursor inside a `width` x `height` text area: the
/// row after the rows the text before the cursor fills, the column after
/// the bytes of its last line, both kept inside the area.
pub open spec fn cursor_cell_of(before: Seq<u8>, width: nat, height: nat) -> (nat, nat) {
    let lens = line_lengths(before);
    let rows = total_rows(lens, width);
    let y: nat = if rows >= 1 { (rows - 1) as nat } else { 0 };
    let x: nat = (lens.last() % 65536) % width;
    let max_x: nat = (width - 1) as nat;
    let max_y: nat = if height >= 1 { (height - 1) as nat } else { 0 };
    (if x <= max_x { x } else { max_x }, if y <= max_y { y } else { max_y })
}

proof fn lemma_total_rows_prefix(lens: Seq<nat>, width: nat, j: int)
    requires
        0 <= j <= lens.len(),
    ensures
        total_rows(lens.take(j), width) <= total_rows(lens, width),
    decreases lens.len() - j,
{
    if j < lens.len() {
        lemma_total_rows_prefix(lens, width, j + 1);
        assert(lens.take(j + 1).drop_last() =~= lens.take(j));
    } else {
        assert(lens.take(j) =~= lens);
    }
}

fn line_lengths_of(b: &[u8], m: usize) -> (lens: Vec<usize>)
    requires
        m <= b@.len(),
    ensures
        lens@.map_values(|x: usize| x as nat) == line_lengths(b@.take(m as int)),
{
    let mut lens: Vec<usize> = vec![0];
    let mut i: usize = 0;
    assert(b@.take(0) =~= Seq::<u8>::empty());
    assert(lens@.map_values(|x: usize| x as nat) =~= seq![0nat]);
    while i < m
        invariant
            m <= b@.len(),
            i <= m,
            lens@.len() >= 1,
            forall|k: int| 0 <= k < lens@.len() ==> #[trigger] lens@[k] <= i,
            lens@.map_values(|x: usize| x as nat) == line_lengths(b@.take(i as int)),
        decreases m - i,
    {
        let ghost before = lens@;
        assert(b@.take(i + 1).drop_last() =~= b@.take(i as int));
        assert(b@.take(i + 1).last() == b@[i as int]);
        if b[i] == 0x0A {
            lens.push(0);
            assert(lens@.map_values(|x: usize| x as nat) =~= before.map_values(|x: usize| x as nat).push(0nat));
        } else {
            let last = lens.len() - 1;
            let v = lens[last];
            lens.set(last, v + 1);
            assert(lens@.map_values(|x: usize| x as nat) =~= before.map_values(|x: usize| x as nat).update(
                last as int,
                v as nat + 1,
            ));
        }
        i = i + 1;
    }
    lens
}

impl App {
    /// Where the edit cursor is drawn inside a `width` x `height` text area;
    /// `None` unless editing in an area with columns.
    pub fn cursor_cell(&self, width: u16, height: u16) -> (r: Option<(u16, u16)>)
        requires
            self.editing && width > 0 ==> {
                &&& text::is_boundary(
                    self.commit_message@,
                    bytes_before_cursor(*self).len() as int,
                )
                &&& rows_fit(line_lengths(bytes_before_cursor(*self)), width as nat)
            },
        ensures
            !(self.editing && width > 0) ==> r is None,
            self.editing && width > 0 ==> (r matches Some(c) && (c.0 as nat, c.1 as nat) == cursor_cell_of(
                bytes_before_cursor(*self),
                width as nat,
                height as nat,
            )),
    {
        if !(self.editing && width > 0) {
            return None;
        }
        let len = text::text_len(&self.commit_message);
        let m = if self.cursor_pos <= len {
            self.cursor_pos
        } else {
            len
        };
        let bytes = self.commit_message.as_str().as_bytes();
        let lens = line_lengths_of(bytes, m);
        let ghost ls = lens@.map_values(|x: usize| x as nat);
        proof {
            lemma_line_lengths_nonempty(bytes_before_cursor(*self));
            assert(bytes@.take(m as int) == bytes_before_cursor(*self));
        }
        let mut y: u16 = 0;
        let mut j: usize = 0;
        assert(ls.take(0) =~= Seq::<nat>::empty());
        while j < lens.len()
            invariant
                width > 0,
                ls == lens@.map_values(|x: usize| x as nat),
                rows_fit(ls, width as nat),
                j <= lens@.len(),
                y as nat == total_rows(ls.take(j as int), width as nat),
            decreases lens.len() - j,
        {
            let len_j = lens[j];
            assert(ls[j as int] == len_j as nat);
            let rows: u16 = if len_j == 0 {
                1
            } else {
                let low = (len_j % 65536) as u16;
                assert(low as nat == ls[j as int] % 65536);
                assert(ls[j as int] != 0);
                assert((ls[j as int] % 65536) + width <= 65535);
                (low + width - 1) / width
            };
            proof {
                assert(ls.take(j + 1).drop_last() =~= ls.take(j as int));
                assert(ls.take(j + 1).last() == ls[j as int]);
                lemma_total_rows_prefix(ls, width as nat, j + 1);
            }
            y = y + rows;
            j = j + 1;
        }
        assert(ls.take(lens@.len() as int) =~= ls);
        let visual_y = if y >= 1 {
            y - 1
        } else {
            0
        };
        let last = lens[lens.len() - 1];
        let visual_x = ((last % 65536) as u16) % width;
        let max_x = width - 1;
        let max_y = if height >= 1 {
            height - 1
        } else {
            0
        };
        Some(
            (
                if visual_x <= max_x {
                    visual_x
                } else {
                    max_x
                },
                if visual_y <= max_y {
                    visual_y
                } else {
                    max_y
                },
            ),
        )
    }
}

} // verus!
