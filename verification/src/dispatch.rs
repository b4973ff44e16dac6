//! What the words of a command line ask for.

use vstd::prelude::*;
use vstd::string::*;

use crate::error::{AppError, Fault, outcome};
use crate::platform::Platform;
use crate::text;

verus! {

/// What is to be done.
#[derive(Clone, Copy, Debug, PartialEq, Eq, Structural)]
pub enum Command {
    Start,
    Help,
    Version,
    Status,
    Stop,
    SuperviseUntil,
    SuperviseCharge,
    SuperviseLid,
    WorkWindows,
    GuardWindows,
}

/// Whether a word asks for help.
pub open spec fn help_word(word: Seq<char>) -> bool {
    word == "-h"@ || word == "--help"@ || word == "help"@
}

/// Whether a word asks for the version.
pub open spec fn version_word(word: Seq<char>) -> bool {
    word == "-v"@ || word == "--version"@ || word == "version"@
}

/// Whether the words were written by this program for a helper.
pub open spec fn for_a_helper(args: Seq<Seq<char>>) -> bool {
    args.len() > 0 && text::begins(args[0], "__"@)
}

/// What a helper's word asks for on this system; another asks for a start, like any other word.
pub open spec fn helper_command(platform: Platform, word: Seq<char>) -> Command {
    if platform == Platform::Windows {
        if word == "__worker_windows__"@ {
            Command::WorkWindows
        } else if word == "__guard_windows__"@ {
            Command::GuardWindows
        } else {
            Command::Start
        }
    } else if word == "__supervise_until__"@ {
        Command::SuperviseUntil
    } else if word == "__supervise_charge__"@ {
        Command::SuperviseCharge
    } else if word == "__supervise_lid__"@ {
        Command::SuperviseLid
    } else {
        Command::Start
    }
}

/// What a command that takes no more words comes to.
pub open spec fn alone(command: Command, args: Seq<Seq<char>>) -> Result<Command, Fault> {
    if args.len() == 1 {
        Ok(command)
    } else {
        Err(Fault::Usage(args[0] + " does not accept arguments"@))
    }
}

/// What the words of a command line ask for. Help and version stand alone.
pub open spec fn asked(platform: Platform, args: Seq<Seq<char>>) -> Result<Command, Fault> {
    if !for_a_helper(args) && args.len() > 1 && (exists|i: int|
        0 <= i < args.len() && (help_word(#[trigger] args[i]) || version_word(args[i]))) {
        Err(Fault::Usage("help and version must be used alone"@))
    } else if args.len() == 0 {
        Ok(Command::Start)
    } else if help_word(args[0]) {
        Ok(Command::Help)
    } else if version_word(args[0]) {
        Ok(Command::Version)
    } else if args[0] == "status"@ {
        alone(Command::Status, args)
    } else if args[0] == "stop"@ {
        alone(Command::Stop, args)
    } else {
        Ok(helper_command(platform, args[0]))
    }
}

fn is_help(word: &str) -> (r: bool)
    ensures
        r == help_word(word@),
{
    text::same(word, "-h") || text::same(word, "--help") || text::same(word, "help")
}

fn is_version(word: &str) -> (r: bool)
    ensures
        r == version_word(word@),
{
    text::same(word, "-v") || text::same(word, "--version") || text::same(word, "version")
}

pub fn is_help_or_version(arg: &str) -> (r: bool)
    ensures
        r == (help_word(arg@) || version_word(arg@)),
{
    is_help(arg) || is_version(arg)
}

/// A command that takes no more words must have none.
pub fn reject_trailing(command: &str, args: &[String]) -> (r: Result<(), AppError>)
    ensures
        outcome(r) == (if args@.len() == 0 {
            Ok::<(), Fault>(())
        } else {
            Err(Fault::Usage(command@ + " does not accept arguments"@))
        }),
{
    if args.len() == 0 {
        return Ok(());
    }
    let mut m = command.to_owned();
    m.append(" does not accept arguments");
    Err(AppError::Usage(m))
}

fn mentions_help_or_version(args: &[String]) -> (r: bool)
    ensures
        r == exists|i: int|
            0 <= i < args@.len() && (help_word(#[trigger] text::texts(args@)[i]) || version_word(
                text::texts(args@)[i],
            )),
{
    let ghost words = text::texts(args@);
    let mut i: usize = 0;
    while i < args.len()
        invariant
            i <= args@.len(),
            words == text::texts(args@),
            forall|k: int|
                0 <= k < i ==> !help_word(#[trigger] words[k]) && !version_word(words[k]),
        decreases args@.len() - i,
    {
        assert(words[i as int] == args@[i as int]@);
        if is_help_or_version(args[i].as_str()) {
            return true;
        }
        i = i + 1;
    }
    false
}

/// What the words of a command line ask for.
pub fn dispatch(platform: Platform, args: &[String]) -> (r: Result<Command, AppError>)
    ensures
        outcome(r) == asked(platform, text::texts(args@)),
{
    let ghost words = text::texts(args@);
    if args.len() == 0 {
        return Ok(Command::Start);
    }
    assert(words[0] == args@[0]@);
    let first = args[0].as_str();
    let internal = text::starts_with(first, "__");
    if !internal && args.len() > 1 && mentions_help_or_version(args) {
        return Err(AppError::usage("help and version must be used alone"));
    }
    if is_help(first) {
        return Ok(Command::Help);
    }
    if is_version(first) {
        return Ok(Command::Version);
    }
    let rest = vstd::slice::slice_subrange(args, 1, args.len());
    if text::same(first, "status") {
        return match reject_trailing(first, rest) {
            Ok(()) => Ok(Command::Status),
            Err(e) => Err(e),
        };
    }
    if text::same(first, "stop") {
        return match reject_trailing(first, rest) {
            Ok(()) => Ok(Command::Stop),
            Err(e) => Err(e),
        };
    }
    match platform {
        Platform::Windows => {
            if text::same(first, "__worker_windows__") {
                Ok(Command::WorkWindows)
            } else if text::same(first, "__guard_windows__") {
                Ok(Command::GuardWindows)
            } else {
                Ok(Command::Start)
            }
        },
        _ => {
            if text::same(first, "__supervise_until__") {
                Ok(Command::SuperviseUntil)
            } else if text::same(first, "__supervise_charge__") {
                Ok(Command::SuperviseCharge)
            } else if text::same(first, "__supervise_lid__") {
                Ok(Command::SuperviseLid)
            } else {
                Ok(Command::Start)
            }
        },
    }
}

/// Words that were not written for a helper never start one, and help, version, status and stop come to nothing
/// if more words stand behind them.
pub proof fn law_commands_stand_alone(platform: Platform, args: Seq<Seq<char>>)
    ensures
        ({
            let r = asked(platform, args);
            &&& r is Ok && !for_a_helper(args) ==> r->Ok_0 is Start || r->Ok_0 is Help
                || r->Ok_0 is Version || r->Ok_0 is Status || r->Ok_0 is Stop
            &&& args.len() > 1 && (help_word(args[0]) || version_word(args[0]) || args[0]
                == "status"@ || args[0] == "stop"@) ==> r matches Err(Fault::Usage(_))
        }),
{
    reveal_strlit("__");
    reveal_strlit("-h");
    reveal_strlit("--help");
    reveal_strlit("help");
    reveal_strlit("-v");
    reveal_strlit("--version");
    reveal_strlit("version");
    reveal_strlit("status");
    reveal_strlit("stop");
    reveal_strlit("__worker_windows__");
    reveal_strlit("__guard_windows__");
    reveal_strlit("__supervise_until__");
    reveal_strlit("__supervise_charge__");
    reveal_strlit("__supervise_lid__");
    assert("__worker_windows__"@.take(2) =~= "__"@);
    assert("__guard_windows__"@.take(2) =~= "__"@);
    assert("__supervise_until__"@.take(2) =~= "__"@);
    assert("__supervise_charge__"@.take(2) =~= "__"@);
    assert("__supervise_lid__"@.take(2) =~= "__"@);
    if for_a_helper(args) {
        assert(args[0].take(2)[0] == '_');
        assert(args[0][0] == '_');
    }
    assert("-h"@[0] != '_' && "--help"@[0] != '_' && "help"@[0] != '_');
    assert("-v"@[0] != '_' && "--version"@[0] != '_' && "version"@[0] != '_');
    assert("status"@[0] != '_' && "stop"@[0] != '_');
}

/// Each command has its own words, and other words never come to it. What is neither a command nor for a helper
/// is the arguments of a start.
pub proof fn law_commands_have_their_words(platform: Platform, args: Seq<Seq<char>>)
    ensures
        ({
            let r = asked(platform, args);
            let windows = platform == Platform::Windows;
            &&& r == Ok::<Command, Fault>(Command::Status) <==> args == seq!["status"@]
            &&& r == Ok::<Command, Fault>(Command::Stop) <==> args == seq!["stop"@]
            &&& r == Ok::<Command, Fault>(Command::Help) <==> args == seq!["help"@] || args == seq![
                "-h"@,
            ] || args == seq!["--help"@]
            &&& r == Ok::<Command, Fault>(Command::Version) <==> args == seq!["version"@] || args
                == seq!["-v"@] || args == seq!["--version"@]
            &&& r == Ok::<Command, Fault>(Command::WorkWindows) <==> windows && args.len() > 0
                && args[0] == "__worker_windows__"@
            &&& r == Ok::<Command, Fault>(Command::GuardWindows) <==> windows && args.len() > 0
                && args[0] == "__guard_windows__"@
            &&& r == Ok::<Command, Fault>(Command::SuperviseUntil) <==> !windows && args.len() > 0
                && args[0] == "__supervise_until__"@
            &&& r == Ok::<Command, Fault>(Command::SuperviseCharge) <==> !windows && args.len() > 0
                && args[0] == "__supervise_charge__"@
            &&& r == Ok::<Command, Fault>(Command::SuperviseLid) <==> !windows && args.len() > 0
                && args[0] == "__supervise_lid__"@
            &&& args.len() == 0 ==> r == Ok::<Command, Fault>(Command::Start)
        }),
{
    lemma_words_differ();
    if args.len() == 1 {
        assert(args =~= seq![args[0]]);
    }
    if for_a_helper(args) {
        reveal_strlit("__");
        assert(args[0].take(2)[0] == '_');
        assert(args[0][0] == '_');
    } else if args.len() > 1 {
        assert(args[0] == args[0]);
    }
}

proof fn lemma_words_differ()
    ensures
        "status"@ != "stop"@,
        !help_word("status"@) && !help_word("stop"@) && !help_word("version"@) && !help_word("-v"@)
            && !help_word("--version"@),
        !version_word("status"@) && !version_word("stop"@),
        "status"@[0] != '_' && "stop"@[0] != '_',
        forall|w: Seq<char>| #[trigger] help_word(w) ==> w.len() > 0 && w[0] != '_',
        forall|w: Seq<char>| #[trigger] version_word(w) ==> w.len() > 0 && w[0] != '_',
        "__worker_windows__"@[0] == '_' && "__guard_windows__"@[0] == '_'
            && "__supervise_until__"@[0] == '_' && "__supervise_charge__"@[0] == '_'
            && "__supervise_lid__"@[0] == '_',
        "__worker_windows__"@ != "__guard_windows__"@,
        "__supervise_until__"@ != "__supervise_charge__"@ && "__supervise_until__"@
            != "__supervise_lid__"@ && "__supervise_charge__"@ != "__supervise_lid__"@,
        text::begins("__worker_windows__"@, "__"@) && text::begins("__guard_windows__"@, "__"@)
            && text::begins("__supervise_until__"@, "__"@) && text::begins(
            "__supervise_charge__"@,
            "__"@,
        ) && text::begins("__supervise_lid__"@, "__"@),
{
    reveal_strlit("__");
    reveal_strlit("-h");
    reveal_strlit("--help");
    reveal_strlit("help");
    reveal_strlit("-v");
    reveal_strlit("--version");
    reveal_strlit("version");
    reveal_strlit("status");
    reveal_strlit("stop");
    reveal_strlit("__worker_windows__");
    reveal_strlit("__guard_windows__");
    reveal_strlit("__supervise_until__");
    reveal_strlit("__supervise_charge__");
    reveal_strlit("__supervise_lid__");
    assert("-h"@.len() == 2 && "--help"@.len() == 6 && "help"@.len() == 4);
    assert("-v"@.len() == 2 && "--version"@.len() == 9 && "version"@.len() == 7);
    assert("-h"@[1] == 'h' && "-v"@[1] == 'v');
    assert("status"@.len() == 6 && "stop"@.len() == 4);
    assert("status"@[0] == 's' && "stop"@[0] == 's' && "--help"@[0] == '-' && "help"@[0] == 'h');
    assert("__worker_windows__"@.len() == 18 && "__guard_windows__"@.len() == 17);
    assert("__supervise_until__"@.len() == 19 && "__supervise_charge__"@.len() == 20
        && "__supervise_lid__"@.len() == 17);
    assert("__worker_windows__"@.take(2) =~= "__"@);
    assert("__guard_windows__"@.take(2) =~= "__"@);
    assert("__supervise_until__"@.take(2) =~= "__"@);
    assert("__supervise_charge__"@.take(2) =~= "__"@);
    assert("__supervise_lid__"@.take(2) =~= "__"@);
}

} // verus!
