//! The command line of the program.

use vstd::prelude::*;

verus! {

/// The shortcut that the program listens on.
#[derive(Clone, Copy, Debug, PartialEq, Eq, Structural)]
pub enum Hotkey {
    /// Ctrl+Alt+L, the normal shortcut.
    CtrlAltL,
    /// Ctrl+Alt+F12, for trying the program beside another layout tool.
    CtrlAltF12,
}

impl Hotkey {
    /// The name of the key pressed with Ctrl+Alt.
    pub fn key_name(&self) -> (name: &'static str)
        ensures
            *self == Hotkey::CtrlAltL ==> name@ == "L"@,
            *self == Hotkey::CtrlAltF12 ==> name@ == "F12"@,
    {
        match self {
            Hotkey::CtrlAltL => "L",
            Hotkey::CtrlAltF12 => "F12",
        }
    }
}

/// How the program runs.
#[derive(Clone, Copy, Debug, PartialEq, Eq, Structural)]
pub struct Options {
    /// The shortcut to listen on.
    pub hotkey: Hotkey,
    /// Whether converted text is lowercased.
    pub lowercase: bool,
}

/// What the command line asks for.
#[derive(Clone, Copy, Debug, PartialEq, Eq, Structural)]
pub enum Command {
    /// Print the usage text and stop.
    Help,
    /// An argument that the program does not know: report it and stop.
    UnknownArgument,
    /// Listen for the shortcut.
    Run(Options),
}

/// Some argument is exactly `word`.
pub open spec fn has_arg(args: Seq<Seq<char>>, word: Seq<char>) -> bool {
    exists|i: int| 0 <= i < args.len() && #[trigger] args[i] == word
}

/// The command that the arguments `args` give: help when `--help` or `-h` is
/// among them, otherwise an error for any argument other than
/// `--test-hotkey` and `--lowercase`, otherwise a run with Ctrl+Alt+F12 when
/// `--test-hotkey` is given (Ctrl+Alt+L when not) that lowercases when
/// `--lowercase` is given.
pub open spec fn command_for(args: Seq<Seq<char>>) -> Command {
    if has_arg(args, "--help"@) || has_arg(args, "-h"@) {
        Command::Help
    } else if exists|i: int|
        0 <= i < args.len() && #[trigger] args[i] != "--test-hotkey"@ && args[i]
            != "--lowercase"@ {
        Command::UnknownArgument
    } else {
        Command::Run(
            Options {
                hotkey: if has_arg(args, "--test-hotkey"@) {
                    Hotkey::CtrlAltF12
                } else {
                    Hotkey::CtrlAltL
                },
                lowercase: has_arg(args, "--lowercase"@),
            },
        )
    }
}

/// The arguments as texts.
pub open spec fn arg_texts(args: Seq<String>) -> Seq<Seq<char>> {
    args.map_values(|a: String| a@)
}

/// Reads the command line `args` (the program's name left out).
pub fn parse_args(args: &Vec<String>) -> (c: Command)
    ensures
        c == command_for(arg_texts(args@)),
{
    let ghost texts = arg_texts(args@);
    let help = String::from_str("--help");
    let short_help = String::from_str("-h");
    let test_hotkey = String::from_str("--test-hotkey");
    let lowercase = String::from_str("--lowercase");
    let n = args.len();
    let mut seen_help = false;
    let mut seen_unknown = false;
    let mut seen_test = false;
    let mut seen_lower = false;
    let mut i: usize = 0;
    while i < n
        invariant
            n == args@.len(),
            i <= n,
            texts == arg_texts(args@),
            help@ == "--help"@,
            short_help@ == "-h"@,
            test_hotkey@ == "--test-hotkey"@,
            lowercase@ == "--lowercase"@,
            seen_help == exists|j: int|
                0 <= j < i && (#[trigger] texts[j] == "--help"@ || texts[j] == "-h"@),
            seen_unknown == exists|j: int|
                0 <= j < i && #[trigger] texts[j] != "--test-hotkey"@ && texts[j]
                    != "--lowercase"@,
            seen_test == exists|j: int| 0 <= j < i && #[trigger] texts[j] == "--test-hotkey"@,
            seen_lower == exists|j: int| 0 <= j < i && #[trigger] texts[j] == "--lowercase"@,
        decreases n - i,
    {
        let a = &args[i];
        assert(texts[i as int] == a@);
        let is_help = *a == help || *a == short_help;
        let is_test = *a == test_hotkey;
        let is_lower = *a == lowercase;
        seen_help = seen_help || is_help;
        seen_unknown = seen_unknown || (!is_test && !is_lower);
        seen_test = seen_test || is_test;
        seen_lower = seen_lower || is_lower;
        i = i + 1;
    }
    proof {
        assert(seen_help == (has_arg(texts, "--help"@) || has_arg(texts, "-h"@)));
    }
    if seen_help {
        Command::Help
    } else if seen_unknown {
        Command::UnknownArgument
    } else {
        Command::Run(
            Options {
                hotkey: if seen_test {
                    Hotkey::CtrlAltF12
                } else {
                    Hotkey::CtrlAltL
                },
                lowercase: seen_lower,
            },
        )
    }
}

} // verus!
