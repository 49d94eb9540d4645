//! Command-line arguments.

use vstd::prelude::*;

verus! {

/// What the command line asks for.
#[derive(Debug)]
pub enum CliAction {
    /// Run the application, with the model and diff budget given, if any.
    Run { model: Option<String>, diff_cutoff: Option<String> },
    /// Print the version and exit.
    Version,
    /// Print the help and exit.
    Help,
}

/// What an argument list means, over the arguments' texts.
pub enum CliMeaning {
    Run(Option<Seq<char>>, Option<Seq<char>>),
    Version,
    Help,
}

/// The meaning of the arguments from index `i` on, with the settings read so far.
pub open spec fn scan_args(args: Seq<Seq<char>>, i: int, model: Option<Seq<char>>, cutoff: Option<Seq<char>>) -> CliMeaning
    decreases args.len() - i,
{
    if i >= args.len() || i < 0 {
        CliMeaning::Run(model, cutoff)
    } else if args[i] == "--model"@ && i + 1 < args.len() {
        scan_args(args, i + 2, Some(args[i + 1]), cutoff)
    } else if args[i] == "--diff-cutoff"@ && i + 1 < args.len() {
        scan_args(args, i + 2, model, Some(args[i + 1]))
    } else if args[i] == "--version"@ || args[i] == "-V"@ {
        CliMeaning::Version
    } else if args[i] == "--help"@ || args[i] == "-h"@ {
        CliMeaning::Help
    } else {
        scan_args(args, i + 1, model, cutoff)
    }
}

/// The meaning of the argument list `args` (the program name first): the
/// first `--version`/`-V` or `--help`/`-h` wins; otherwise run with the last
/// `--model` and `--diff-cutoff` values; an option without a value is ignored.
pub open spec fn cli_meaning(args: Seq<Seq<char>>) -> CliMeaning {
    scan_args(args, 1, None, None)
}

/// The text of an optional string.
pub open spec fn opt_text(s: Option<String>) -> Option<Seq<char>> {
    match s {
        Some(x) => Some(x@),
        None => None,
    }
}

/// Law: `--version` or `-V` as the first argument means printing the version,
/// and `--help` or `-h` means printing the help, whatever follows; after
/// `--model m` or `--diff-cutoff c` those flags keep their meaning; with no
/// arguments, or with just an option and its value, the application runs
/// with that value.
pub proof fn law_cli_arguments(p: Seq<char>, rest: Seq<Seq<char>>, m: Seq<char>, c: Seq<char>)
    ensures
        cli_meaning(seq![p, "--version"@] + rest) is Version,
        cli_meaning(seq![p, "-V"@] + rest) is Version,
        cli_meaning(seq![p, "--help"@] + rest) is Help,
        cli_meaning(seq![p, "-h"@] + rest) is Help,
        cli_meaning(seq![p, "--model"@, m, "--version"@]) is Version,
        cli_meaning(seq![p, "--diff-cutoff"@, c, "-h"@]) is Help,
        cli_meaning(seq![p]) == CliMeaning::Run(None, None),
        cli_meaning(seq![p, "--model"@, m]) == CliMeaning::Run(Some(m), None),
        cli_meaning(seq![p, "--diff-cutoff"@, c]) == CliMeaning::Run(None, Some(c)),
        cli_meaning(seq![p, "--model"@, m, "--diff-cutoff"@, c]) == CliMeaning::Run(Some(m), Some(c)),
{
    reveal_strlit("--version");
    reveal_strlit("-V");
    reveal_strlit("--help");
    reveal_strlit("-h");
    reveal_strlit("--model");
    reveal_strlit("--diff-cutoff");
    assert("--version"@.len() == 9);
    assert("-V"@.len() == 2);
    assert("--help"@.len() == 6);
    assert("-h"@.len() == 2);
    assert("--model"@.len() == 7);
    assert("--diff-cutoff"@.len() == 13);
    assert("-h"@[1] != "-V"@[1]);
    reveal_with_fuel(scan_args, 4);
    assert((seq![p, "--version"@] + rest)[1] == "--version"@);
    assert((seq![p, "-V"@] + rest)[1] == "-V"@);
    assert((seq![p, "--help"@] + rest)[1] == "--help"@);
    assert((seq![p, "-h"@] + rest)[1] == "-h"@);
}

/// Reads the command line (the program name first).
pub fn parse_args(args: &Vec<String>) -> (r: CliAction)
    ensures
        cli_meaning(args@.map_values(|s: String| s@)) == match r {
            CliAction::Run { model, diff_cutoff } => CliMeaning::Run(opt_text(model), opt_text(diff_cutoff)),
            CliAction::Version => CliMeaning::Version,
            CliAction::Help => CliMeaning::Help,
        },
{
    let ghost v = args@.map_values(|s: String| s@);
    let mut model: Option<String> = None;
    let mut cutoff: Option<String> = None;
    let mut i: usize = 1;
    while i < args.len()
        invariant
            v == args@.map_values(|s: String| s@),
            1 <= i,
            cli_meaning(v) == scan_args(v, i as int, opt_text(model), opt_text(cutoff)),
        decreases args.len() - i,
    {
        let a = &args[i];
        assert(v[i as int] == a@);
        if crate::strings::text_eq(a.as_str(), "--model") && i + 1 < args.len() {
            assert(v[i + 1] == args@[i + 1]@);
            model = Some(args[i + 1].clone());
            i = i + 2;
        } else if crate::strings::text_eq(a.as_str(), "--diff-cutoff") && i + 1 < args.len() {
            assert(v[i + 1] == args@[i + 1]@);
            cutoff = Some(args[i + 1].clone());
            i = i + 2;
        } else if crate::strings::text_eq(a.as_str(), "--version") || crate::strings::text_eq(a.as_str(), "-V") {
            return CliAction::Version;
        } else if crate::strings::text_eq(a.as_str(), "--help") || crate::strings::text_eq(a.as_str(), "-h") {
            return CliAction::Help;
        } else {
            i = i + 1;
        }
    }
    CliAction::Run { model, diff_cutoff: cutoff }
}

} // verus!
