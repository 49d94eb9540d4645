//! Choosing a clipboard tool: the tools are tried in order until one copies
//! the text; the caller runs each tool and reports whether it worked.

use vstd::prelude::*;
use vstd::string::*;

verus! {

broadcast use vstd::string::group_string_axioms;

/// A command-line clipboard tool.
#[derive(Debug, Clone, Copy, PartialEq, Eq, Structural)]
pub enum ClipboardTool {
    /// `wl-copy` (Wayland).
    WlCopy,
    /// `xclip -selection clipboard` (X11).
    Xclip,
    /// `xsel -b` (X11).
    Xsel,
}

/// The tools in the order they are tried.
pub open spec fn tool_order() -> Seq<ClipboardTool> {
    seq![ClipboardTool::WlCopy, ClipboardTool::Xclip, ClipboardTool::Xsel]
}

/// The error when no tool could copy.
pub open spec fn no_tool_message() -> Seq<char> {
    "Clipboard tool not found. Install wl-copy (Wayland), xclip, or xsel (X11)."@
}

/// What to do next when copying to the clipboard.
#[derive(Debug)]
pub enum ClipboardStep {
    /// Run this tool with the text on its standard input.
    Run(ClipboardTool),
    /// Copying is over, with this outcome.
    Done(Result<(), String>),
}

impl ClipboardTool {
    /// The program to run.
    pub fn program(&self) -> (p: String)
        ensures
            p@ == match *self {
                ClipboardTool::WlCopy => "wl-copy"@,
                ClipboardTool::Xclip => "xclip"@,
                ClipboardTool::Xsel => "xsel"@,
            },
    {
        match self {
            ClipboardTool::WlCopy => "wl-copy".to_string(),
            ClipboardTool::Xclip => "xclip".to_string(),
            ClipboardTool::Xsel => "xsel".to_string(),
        }
    }

    /// The program's arguments.
    pub fn args(&self) -> (a: Vec<String>)
        ensures
            a@.map_values(|s: String| s@) == match *self {
                ClipboardTool::WlCopy => Seq::<Seq<char>>::empty(),
                ClipboardTool::Xclip => seq!["-selection"@, "clipboard"@],
                ClipboardTool::Xsel => seq!["-b"@],
            },
    {
        let mut a: Vec<String> = Vec::new();
        match self {
            ClipboardTool::WlCopy => {},
            ClipboardTool::Xclip => {
                a.push("-selection".to_string());
                a.push("clipboard".to_string());
            },
            ClipboardTool::Xsel => {
                a.push("-b".to_string());
            },
        }
        assert(a@.map_values(|s: String| s@) =~= match *self {
            ClipboardTool::WlCopy => Seq::<Seq<char>>::empty(),
            ClipboardTool::Xclip => seq!["-selection"@, "clipboard"@],
            ClipboardTool::Xsel => seq!["-b"@],
        });
        a
    }
}

/// The next step of copying, given whether each tool tried so far (in
/// order) succeeded: done once one succeeded, else the next untried tool,
/// else the error that no tool is available.
pub fn copy_to_clipboard(outcomes: &Vec<bool>) -> (step: ClipboardStep)
    ensures
        (exists|i: int| 0 <= i < outcomes@.len() && #[trigger] outcomes@[i]) ==> step matches ClipboardStep::Done(Ok(())),
        (forall|i: int| 0 <= i < outcomes@.len() ==> !#[trigger] outcomes@[i]) && outcomes@.len() < 3 ==> step
            == ClipboardStep::Run(tool_order()[outcomes@.len() as int]),
        (forall|i: int| 0 <= i < outcomes@.len() ==> !#[trigger] outcomes@[i]) && outcomes@.len() >= 3 ==> (
        step matches ClipboardStep::Done(Err(e)) && e@ == no_tool_message()),
{
    let mut i: usize = 0;
    while i < outcomes.len()
        invariant
            i <= outcomes@.len(),
            forall|j: int| 0 <= j < i ==> !#[trigger] outcomes@[j],
        decreases outcomes.len() - i,
    {
        if outcomes[i] {
            return ClipboardStep::Done(Ok(()));
        }
        i = i + 1;
    }
    let n = outcomes.len();
    if n == 0 {
        ClipboardStep::Run(ClipboardTool::WlCopy)
    } else if n == 1 {
        ClipboardStep::Run(ClipboardTool::Xclip)
    } else if n == 2 {
        ClipboardStep::Run(ClipboardTool::Xsel)
    } else {
        ClipboardStep::Done(
            Err("Clipboard tool not found. Install wl-copy (Wayland), xclip, or xsel (X11).".to_string()),
        )
    }
}

} // verus!
