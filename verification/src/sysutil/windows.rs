//! Windows processes: handles, command lines and the programs that are started.

use vstd::prelude::*;
use vstd::string::*;

use crate::error::{AppError, Fault, outcome};
use crate::platform::{self, Platform};
use crate::session;
use crate::sysutil::{self, Identity};
use crate::text;
use crate::time::{self, Timestamp};

verus! {

/// So many backslashes.
pub open spec fn slashes(n: nat) -> Seq<char> {
    Seq::new(n, |i: int| '\\')
}

/// Whether an argument stands in a command line as it is.
pub open spec fn plain(arg: Seq<char>) -> bool {
    arg.len() > 0 && forall|i: int| 0 <= i < arg.len() ==> !text::white(#[trigger] arg[i]) && arg[i] != '"'
}

/// The characters `rest` as they stand between quotes, behind `pending` backslashes: those before a quote
/// are doubled, with one more for the quote, and those at the end are doubled.
pub open spec fn escaped(rest: Seq<char>, pending: nat) -> Seq<char>
    decreases rest.len(),
{
    if rest.len() == 0 {
        slashes(pending * 2)
    } else if rest[0] == '\\' {
        escaped(rest.skip(1), pending + 1)
    } else if rest[0] == '"' {
        slashes(pending * 2 + 1) + seq!['"'] + escaped(rest.skip(1), 0)
    } else {
        slashes(pending) + seq![rest[0]] + escaped(rest.skip(1), 0)
    }
}

/// An argument as it stands in a command line.
pub open spec fn quoted(arg: Seq<char>) -> Seq<char> {
    if plain(arg) {
        arg
    } else {
        seq!['"'] + escaped(arg, 0) + seq!['"']
    }
}

fn push_slashes(out: &mut String, n: usize)
    ensures
        final(out)@ == old(out)@ + slashes(n as nat),
{
    let mut i: usize = 0;
    while i < n
        invariant
            i <= n,
            out@ == old(out)@ + slashes(i as nat),
        decreases n - i,
    {
        out.push('\\');
        i = i + 1;
    }
}

fn is_plain(chars: &Vec<char>) -> (r: bool)
    ensures
        r == plain(chars@),
{
    if chars.len() == 0 {
        return false;
    }
    let mut i: usize = 0;
    while i < chars.len()
        invariant
            i <= chars@.len(),
            forall|k: int| 0 <= k < i ==> !text::white(#[trigger] chars@[k]) && chars@[k] != '"',
        decreases chars@.len() - i,
    {
        if text::is_white(chars[i]) || chars[i] == '"' {
            return false;
        }
        i = i + 1;
    }
    true
}

/// An argument as it stands in a command line.
pub fn quote_windows_arg(arg: &str) -> (r: String)
    ensures
        r@ == quoted(arg@),
{
    let chars = text::chars_of(arg);
    if is_plain(&chars) {
        return arg.to_owned();
    }
    let mut out = String::new();
    out.push('"');
    let mut backslashes: usize = 0;
    let mut i: usize = 0;
    assert(arg@.skip(0) =~= arg@);
    while i < chars.len()
        invariant
            chars@ == arg@,
            backslashes <= i <= chars@.len(),
            seq!['"'] + escaped(arg@, 0) == out@ + escaped(arg@.skip(i as int), backslashes as nat),
        decreases chars@.len() - i,
    {
        let ghost rest = arg@.skip(i as int);
        let ghost before = out@;
        let c = chars[i];
        assert(rest[0] == c);
        assert(rest.skip(1) =~= arg@.skip(i + 1));
        if c == '\\' {
            backslashes = backslashes + 1;
        } else if c == '"' {
            push_slashes(&mut out, backslashes);
            push_slashes(&mut out, backslashes);
            out.push('\\');
            out.push('"');
            assert(out@ + escaped(rest.skip(1), 0) =~= before + escaped(rest, backslashes as nat));
            backslashes = 0;
        } else {
            push_slashes(&mut out, backslashes);
            out.push(c);
            assert(out@ + escaped(rest.skip(1), 0) =~= before + escaped(rest, backslashes as nat));
            backslashes = 0;
        }
        i = i + 1;
    }
    push_slashes(&mut out, backslashes);
    push_slashes(&mut out, backslashes);
    out.push('"');
    out
}

/// Whether a character parts the arguments of a command line.
pub open spec fn parts(c: char) -> bool {
    c == ' ' || c == '\t'
}

/// The argument at the front of a command line, behind so many backslashes and inside or outside quotes, and
/// what is left behind it. Backslashes stand for themselves unless a quote follows: then each
/// pair stands for one, and a single one left makes the quote stand for itself.
pub open spec fn first_argument(line: Seq<char>, pending: nat, inside: bool) -> (Seq<char>, Seq<char>)
    decreases line.len(),
{
    if line.len() == 0 {
        (slashes(pending), line)
    } else if line[0] == '\\' {
        first_argument(line.skip(1), pending + 1, inside)
    } else if line[0] == '"' {
        if pending % 2 == 0 {
            let rest = first_argument(line.skip(1), 0, !inside);
            (slashes(pending / 2) + rest.0, rest.1)
        } else {
            let rest = first_argument(line.skip(1), 0, inside);
            (slashes(pending / 2) + seq!['"'] + rest.0, rest.1)
        }
    } else if parts(line[0]) && !inside {
        (slashes(pending), line)
    } else {
        let rest = first_argument(line.skip(1), 0, inside);
        (slashes(pending) + seq![line[0]] + rest.0, rest.1)
    }
}

proof fn lemma_slashes_are_counted(n: nat, line: Seq<char>, pending: nat, inside: bool)
    ensures
        first_argument(slashes(n) + line, pending, inside) == first_argument(
            line,
            pending + n,
            inside,
        ),
    decreases n,
{
    let whole = slashes(n) + line;
    if n == 0 {
        assert(whole =~= line);
    } else {
        assert(whole[0] == '\\');
        assert(whole.skip(1) =~= slashes((n - 1) as nat) + line);
        lemma_slashes_are_counted((n - 1) as nat, line, pending + 1, inside);
    }
}

proof fn lemma_escaped_is_read(arg: Seq<char>, pending: nat, rest: Seq<char>)
    ensures
        first_argument(escaped(arg, pending) + seq!['"'] + rest, 0, true) == (
            slashes(pending) + arg + first_argument(rest, 0, false).0,
            first_argument(rest, 0, false).1,
        ),
    decreases arg.len(),
{
    let behind = first_argument(rest, 0, false);
    let tail = seq!['"'] + rest;
    let whole = escaped(arg, pending) + seq!['"'] + rest;
    if arg.len() == 0 {
        assert(whole =~= slashes(pending * 2) + tail);
        lemma_slashes_are_counted(pending * 2, tail, 0, true);
        assert(tail.skip(1) =~= rest);
        assert((pending * 2) % 2 == 0 && (pending * 2) / 2 == pending);
        assert(slashes(pending) + behind.0 =~= slashes(pending) + arg + behind.0);
    } else if arg[0] == '\\' {
        lemma_escaped_is_read(arg.skip(1), pending + 1, rest);
        assert(slashes(pending + 1) + arg.skip(1) =~= slashes(pending) + arg);
    } else {
        lemma_escaped_is_read(arg.skip(1), 0, rest);
        let after = escaped(arg.skip(1), 0) + seq!['"'] + rest;
        let next = seq![arg[0]] + after;
        let n = if arg[0] == '"' {
            pending * 2 + 1
        } else {
            pending
        };
        assert(whole =~= slashes(n) + next);
        lemma_slashes_are_counted(n, next, 0, true);
        assert(next.skip(1) =~= after);
        assert((pending * 2 + 1) % 2 == 1 && (pending * 2 + 1) / 2 == pending);
        assert(slashes(pending) + seq![arg[0]] + (slashes(0) + arg.skip(1) + behind.0) =~= slashes(
            pending,
        ) + arg + behind.0);
    }
}

proof fn lemma_plain_is_read(arg: Seq<char>, pending: nat, rest: Seq<char>)
    requires
        forall|i: int| 0 <= i < arg.len() ==> !text::white(#[trigger] arg[i]) && arg[i] != '"',
        rest.len() == 0 || parts(rest[0]),
    ensures
        first_argument(arg + rest, pending, false) == (slashes(pending) + arg, rest),
    decreases arg.len(),
{
    let whole = arg + rest;
    if arg.len() == 0 {
        assert(whole =~= rest);
        assert(slashes(pending) + arg =~= slashes(pending));
    } else {
        assert(whole.skip(1) =~= arg.skip(1) + rest);
        assert forall|i: int| 0 <= i < arg.skip(1).len() implies !text::white(
            #[trigger] arg.skip(1)[i],
        ) && arg.skip(1)[i] != '"' by {
            assert(arg.skip(1)[i] == arg[i + 1]);
        }
        assert(whole[0] == arg[0]);
        if arg[0] == '\\' {
            lemma_plain_is_read(arg.skip(1), pending + 1, rest);
            assert(slashes(pending + 1) + arg.skip(1) =~= slashes(pending) + arg);
        } else {
            lemma_plain_is_read(arg.skip(1), 0, rest);
            assert(slashes(pending) + seq![arg[0]] + (slashes(0) + arg.skip(1)) =~= slashes(pending)
                + arg);
        }
    }
}

/// An argument is read back from a command line that starts with its quoted form, up to what parts it from
/// what follows.
pub proof fn law_arguments_are_read_back(arg: Seq<char>, rest: Seq<char>)
    requires
        rest.len() == 0 || parts(rest[0]),
    ensures
        first_argument(quoted(arg) + rest, 0, false) == (arg, rest),
{
    if plain(arg) {
        lemma_plain_is_read(arg, 0, rest);
        assert(slashes(0) + arg =~= arg);
    } else {
        lemma_escaped_is_read(arg, 0, rest);
        let whole = quoted(arg) + rest;
        assert(whole.skip(1) =~= escaped(arg, 0) + seq!['"'] + rest);
        assert(whole[0] == '"');
        lemma_plain_is_read(Seq::empty(), 0, rest);
        assert(Seq::<char>::empty() + rest =~= rest);
        assert(slashes(0) + (slashes(0) + arg + (slashes(0) + Seq::<char>::empty())) =~= arg);
    }
}

/// The arguments of a command line: what stands between the characters that part them.
pub open spec fn arguments(line: Seq<char>) -> Seq<Seq<char>>
    decreases line.len(),
{
    if line.len() == 0 {
        Seq::empty()
    } else if parts(line[0]) {
        arguments(line.skip(1))
    } else {
        let (argument, rest) = first_argument(line, 0, false);
        if rest.len() < line.len() {
            seq![argument] + arguments(rest)
        } else {
            seq![argument]
        }
    }
}

/// Several arguments as a command line.
pub open spec fn command_line(args: Seq<Seq<char>>) -> Seq<char> {
    text::joined(args.map_values(|a: Seq<char>| quoted(a)), " "@)
}

proof fn lemma_joined_from_the_front(items: Seq<Seq<char>>, sep: Seq<char>)
    requires
        items.len() > 1,
    ensures
        text::joined(items, sep) == items[0] + sep + text::joined(items.skip(1), sep),
    decreases items.len(),
{
    if items.len() == 2 {
        assert(items.drop_last() =~= seq![items[0]]);
        assert(items.skip(1) =~= seq![items[1]]);
        assert(text::joined(items.drop_last(), sep) == items[0]);
        assert(text::joined(items.skip(1), sep) == items[1]);
    } else {
        lemma_joined_from_the_front(items.drop_last(), sep);
        assert(items.drop_last().skip(1) =~= items.skip(1).drop_last());
        assert(items.skip(1).last() == items.last());
        assert(text::joined(items, sep) =~= items[0] + sep + text::joined(items.skip(1), sep));
    }
}

proof fn lemma_quoted_starts(arg: Seq<char>)
    ensures
        quoted(arg).len() > 0,
        !parts(quoted(arg)[0]),
{
    if plain(arg) {
        assert(!text::white(arg[0]));
    }
}

/// The arguments of a command line are read back from it.
pub proof fn law_command_lines_are_read_back(args: Seq<Seq<char>>)
    ensures
        arguments(command_line(args)) == args,
    decreases args.len(),
{
    let items = args.map_values(|a: Seq<char>| quoted(a));
    let line = command_line(args);
    reveal_strlit(" ");
    if args.len() == 0 {
        assert(arguments(line) =~= args);
    } else {
        lemma_quoted_starts(args[0]);
        if args.len() == 1 {
            assert(line =~= quoted(args[0]) + Seq::<char>::empty());
            law_arguments_are_read_back(args[0], Seq::empty());
            assert(arguments(Seq::<char>::empty()) =~= Seq::empty());
            assert(seq![args[0]] + Seq::<Seq<char>>::empty() =~= args);
        } else {
            let tail = args.skip(1);
            lemma_joined_from_the_front(items, " "@);
            assert(items.skip(1) =~= tail.map_values(|a: Seq<char>| quoted(a)));
            let rest = " "@ + command_line(tail);
            assert(line =~= quoted(args[0]) + rest);
            law_arguments_are_read_back(args[0], rest);
            law_command_lines_are_read_back(tail);
            assert(rest.skip(1) =~= command_line(tail));
            assert(arguments(rest) == tail);
            assert(seq![args[0]] + tail =~= args);
        }
    }
}

/// The words of the command that starts a guardian.
pub open spec fn guardian_words(
    worker: (u32, u64),
    original: (Seq<char>, u32, u32),
    restore_without_worker: bool,
    deadline: Option<Timestamp>,
    state_path: Seq<char>,
) -> Seq<Seq<char>> {
    seq![
        "__guard_windows__"@,
        text::decimal(worker.0 as nat),
        text::decimal(worker.1 as nat),
        original.0,
        text::decimal(original.1 as nat),
        text::decimal(original.2 as nat),
        session::bool_text(restore_without_worker),
        session::optional_instant_text(deadline),
        state_path,
    ]
}

/// What starts a guardian with more rights: this program, and its parameters as a command line. `exe` tells
/// where this program is, or why that cannot be told.
pub fn guardian_parameters(
    exe: Result<String, String>,
    worker: (u32, u64),
    original: (&str, u32, u32),
    restore_without_worker: bool,
    deadline: Option<Timestamp>,
    state_path: &str,
) -> (r: Result<(String, String), AppError>)
    requires
        deadline matches Some(t) ==> t.valid(),
    ensures
        match r {
            Ok((program, parameters)) => {
                &&& exe matches Ok(path) && program@ == path@
                &&& platform::absolute(Platform::Windows, state_path@)
                &&& parameters@ == command_line(
                    guardian_words(
                        worker,
                        (original.0@, original.1, original.2),
                        restore_without_worker,
                        deadline,
                        state_path@,
                    ),
                )
            },
            Err(e) => match exe {
                Err(error) => e@ == Fault::Fail("can't determine executable path: "@ + error@),
                Ok(_) => !platform::absolute(Platform::Windows, state_path@) && e@ == Fault::Fail(
                    "guardian state path must be absolute"@,
                ),
            },
        },
        r is Ok ==> (deadline matches Some(t) ==> (t.common_year()
            ==> session::instant_round_trips(t))),
{
    let program = match sysutil::self_exe(exe) {
        Ok(path) => path,
        Err(e) => return Err(e),
    };
    if !platform::is_absolute(Platform::Windows, state_path) {
        return Err(AppError::fail("guardian state path must be absolute"));
    }
    let mut words: Vec<String> = Vec::new();
    words.push("__guard_windows__".to_owned());
    words.push(text::decimal_text(worker.0 as u64));
    words.push(text::decimal_text(worker.1));
    words.push(original.0.to_owned());
    words.push(text::decimal_text(original.1 as u64));
    words.push(text::decimal_text(original.2 as u64));
    words.push(
        if restore_without_worker {
            "true".to_owned()
        } else {
            "false".to_owned()
        },
    );
    words.push(
        match deadline {
            Some(t) => time::utc_text(&t),
            None => String::new(),
        },
    );
    words.push(state_path.to_owned());
    assert(text::texts(words@) =~= guardian_words(
        worker,
        (original.0@, original.1, original.2),
        restore_without_worker,
        deadline,
        state_path@,
    ));
    Ok((program, line_of(&words)))
}

/// Several arguments as a command line.
fn line_of(args: &Vec<String>) -> (r: String)
    ensures
        r@ == command_line(text::texts(args@)),
{
    let mut items: Vec<String> = Vec::new();
    let ghost words = text::texts(args@);
    let mut i: usize = 0;
    while i < args.len()
        invariant
            i <= args@.len(),
            words == text::texts(args@),
            text::texts(items@) == words.take(i as int).map_values(|a: Seq<char>| quoted(a)),
        decreases args@.len() - i,
    {
        let ghost before = text::texts(items@);
        items.push(quote_windows_arg(args[i].as_str()));
        assert(text::texts(items@) =~= before.push(quoted(words[i as int])));
        assert(words.take(i + 1).map_values(|a: Seq<char>| quoted(a)) =~= before.push(
            quoted(words[i as int]),
        ));
        i = i + 1;
    }
    assert(words.take(i as int) =~= words);
    text::join(&items, " ")
}

/// What became of a guardian that could not be started, by the system's error code.
pub fn guardian_launch_error(code: u32) -> (r: AppError)
    ensures
        r@ == Fault::Fail(
            if code == 1223 {
                "elevation was cancelled; --even-lid was not enabled"@
            } else {
                coded("could not launch the elevated guardian"@, code)
            },
        ),
{
    if code == ERROR_CANCELLED {
        AppError::fail("elevation was cancelled; --even-lid was not enabled")
    } else {
        system_error("could not launch the elevated guardian", code)
    }
}

/// The error of a guardian that was gone before it could be told who it is.
pub fn guardian_vanished() -> (r: AppError)
    ensures
        r@ == Fault::Fail("elevated guardian exited before publishing its identity"@),
{
    AppError::fail("elevated guardian exited before publishing its identity")
}

/// The user said no.
pub const ERROR_CANCELLED: u32 = 1223;

/// No process has this number.
pub const ERROR_INVALID_PARAMETER: u32 = 87;

/// The process that was waited for has ended.
pub const WAIT_OBJECT_0: u32 = 0;

/// The time for waiting is over.
pub const WAIT_TIMEOUT: u32 = 258;

/// Waiting failed.
pub const WAIT_FAILED: u32 = 0xFFFF_FFFF;

/// The text of an error with the system's error code.
pub open spec fn coded(message: Seq<char>, code: u32) -> Seq<char> {
    message + " (error "@ + text::decimal(code as nat) + ")"@
}

/// An error with the system's error code.
pub fn system_error(message: &str, code: u32) -> (r: AppError)
    ensures
        r@ == Fault::Fail(coded(message@, code)),
{
    let mut m = message.to_owned();
    m.append(" (error ");
    m.append(text::decimal_text(code as u64).as_str());
    m.append(")");
    AppError::Fail(m)
}

/// What waiting for a process came to, by the system's answer: whether it has ended. `code` is the error
/// code where waiting failed.
pub fn wait_raw(result: u32, code: u32) -> (r: Result<bool, AppError>)
    ensures
        outcome(r) == (if result == 0xFFFF_FFFF {
            Err::<bool, Fault>(Fault::Fail(coded("process wait failed"@, code)))
        } else if result == 0 || result == 258 {
            Ok(result == 0)
        } else {
            Err(
                Fault::Fail(
                    "process wait returned unexpected status "@ + text::decimal(result as nat),
                ),
            )
        }),
{
    if result == WAIT_FAILED {
        return Err(system_error("process wait failed", code));
    }
    if result == WAIT_OBJECT_0 || result == WAIT_TIMEOUT {
        return Ok(result == WAIT_OBJECT_0);
    }
    let mut m = "process wait returned unexpected status ".to_owned();
    m.append(text::decimal_text(result as u64).as_str());
    Err(AppError::Fail(m))
}

/// The milliseconds to wait, as the system counts them; the greatest number stands for no end.
pub fn millis(total: u128) -> (r: u32)
    ensures
        r == (if total < u32::MAX - 1 {
            total as int
        } else {
            u32::MAX - 1
        }),
{
    if total < 0xFFFF_FFFE {
        total as u32
    } else {
        0xFFFF_FFFE
    }
}

/// The time of creation that the system tells in two halves.
pub fn creation_time(high: u32, low: u32) -> (r: u64)
    ensures
        r == high * 0x1_0000_0000 + low,
{
    let (h, l): (u64, u64) = (high as u64, low as u64);
    assert(h <= 0xFFFF_FFFF && l <= 0xFFFF_FFFF ==> ((h << 32) | l) == h * 0x1_0000_0000 + l)
        by (bit_vector);
    (h << 32) | l
}

/// What became of a process that could not be opened: nothing runs under its number, or an error.
pub fn open_process(pid: u32, code: u32) -> (r: Result<(), AppError>)
    ensures
        outcome(r) == (if code == 87 {
            Ok::<(), Fault>(())
        } else {
            Err(
                Fault::Fail(
                    coded("could not open process "@ + text::decimal(pid as nat), code),
                ),
            )
        }),
{
    if code == ERROR_INVALID_PARAMETER {
        return Ok(());
    }
    let mut m = "could not open process ".to_owned();
    m.append(text::decimal_text(pid as u64).as_str());
    Err(system_error(m.as_str(), code))
}

/// The process behind a handle: nothing where it had ended before it was asked or had ended by the time it
/// could not say who it is. `pid` is its number, 0 where that could not be told; then `code` says
/// why. `ended_since` is asked only where `identity` is an error.
pub fn process_behind(
    ended: bool,
    pid: u32,
    code: u32,
    identity: Result<Identity, AppError>,
    ended_since: Result<bool, AppError>,
) -> (r: Result<Option<(u32, Identity)>, AppError>)
    ensures
        (match r {
            Ok(Some((pid, identity))) => Ok::<Option<(u32, (u64, Seq<char>))>, Fault>(
                Some((pid, identity@)),
            ),
            Ok(None) => Ok(None),
            Err(e) => Err(e@),
        }) == (if ended {
            Ok::<Option<(u32, (u64, Seq<char>))>, Fault>(None)
        } else if pid == 0 {
            Err(Fault::Fail(coded("could not read process id"@, code)))
        } else {
            match identity {
                Ok(identity) => Ok(Some((pid, identity@))),
                Err(e) => match ended_since {
                    Err(other) => Err(other@),
                    Ok(true) => Ok(None),
                    Ok(false) => Err(e@),
                },
            }
        }),
{
    if ended {
        return Ok(None);
    }
    if pid == 0 {
        return Err(system_error("could not read process id", code));
    }
    match identity {
        Ok(identity) => Ok(Some((pid, identity))),
        Err(e) => match ended_since {
            Err(other) => Err(other),
            Ok(true) => Ok(None),
            Ok(false) => Err(e),
        },
    }
}

/// Whether the process that was opened is the one that was created at that time.
pub fn open_exact_process(found: &Option<Identity>, created: u64) -> (r: bool)
    ensures
        r == (found matches Some(identity) && identity@.0 == created),
{
    match found {
        Some(identity) => identity.start == created,
        None => false,
    }
}

/// A process that is to be waited for must run. `running` tells whether it does, if it could be opened.
pub fn open_process_for_wait(pid: u32, running: Option<bool>) -> (r: Result<(), AppError>)
    ensures
        outcome(r) == (if running == Some(true) {
            Ok::<(), Fault>(())
        } else {
            Err(sysutil::not_running(pid))
        }),
{
    match running {
        Some(true) => Ok(()),
        _ => Err(sysutil::not_running_error(pid)),
    }
}

/// How far ending a worker has come.
#[derive(Clone, Copy, Debug, PartialEq, Eq, Structural)]
pub enum EndState {
    Checking,
    Terminating,
    Waiting,
    Succeeded,
    /// It did not end in time.
    Stuck,
    Failed,
}

/// What the system answers.
#[derive(Clone, Copy, Debug, PartialEq, Eq, Structural)]
pub enum EndEvent {
    /// Whether the worker runs.
    Running(bool),
    Terminated,
    /// Whether the worker ended in time.
    Ended(bool),
    Failed,
}

/// Where ending a worker goes from `state` on `event`.
pub fn terminate_and_wait(state: EndState, event: EndEvent) -> (r: EndState)
    ensures
        r == (match (state, event) {
            (EndState::Checking, EndEvent::Running(running)) => if running {
                EndState::Terminating
            } else {
                EndState::Succeeded
            },
            (EndState::Terminating, EndEvent::Terminated) => EndState::Waiting,
            (EndState::Waiting, EndEvent::Ended(ended)) => if ended {
                EndState::Succeeded
            } else {
                EndState::Stuck
            },
            (EndState::Succeeded, _) => state,
            (EndState::Stuck, _) => state,
            (_, EndEvent::Failed) => EndState::Failed,
            _ => state,
        }),
{
    match (state, event) {
        (EndState::Checking, EndEvent::Running(running)) => if running {
            EndState::Terminating
        } else {
            EndState::Succeeded
        },
        (EndState::Terminating, EndEvent::Terminated) => EndState::Waiting,
        (EndState::Waiting, EndEvent::Ended(ended)) => if ended {
            EndState::Succeeded
        } else {
            EndState::Stuck
        },
        (EndState::Succeeded, _) => state,
        (EndState::Stuck, _) => state,
        (_, EndEvent::Failed) => EndState::Failed,
        _ => state,
    }
}

/// The error of a worker that did not end in time.
pub fn stuck_worker(pid: u32) -> (r: AppError)
    ensures
        r@ == Fault::Fail(
            "worker "@ + text::decimal(pid as nat) + " did not exit after termination"@,
        ),
{
    let mut m = "worker ".to_owned();
    m.append(text::decimal_text(pid as u64).as_str());
    m.append(" did not exit after termination");
    AppError::Fail(m)
}

/// What is asked of a worker's command before it is started: an absolute state directory, and a program.
pub fn spawn_worker(command: &[String], state_dir: &str) -> (r: Result<(), AppError>)
    ensures
        outcome(r) == (if !platform::absolute(Platform::Windows, state_dir@) {
            Err::<(), Fault>(Fault::Fail("worker state directory must be absolute"@))
        } else if command@.len() == 0 {
            Err(Fault::Fail("worker command is empty"@))
        } else {
            Ok(())
        }),
{
    if !platform::is_absolute(Platform::Windows, state_dir) {
        return Err(AppError::fail("worker state directory must be absolute"));
    }
    if command.len() == 0 {
        return Err(AppError::fail("worker command is empty"));
    }
    Ok(())
}

/// The error of a worker that could not be started.
pub fn worker_launch_error(error: &str) -> (r: AppError)
    ensures
        r@ == Fault::Fail("could not launch the Windows worker: "@ + error@),
{
    let mut m = "could not launch the Windows worker: ".to_owned();
    m.append(error);
    AppError::Fail(m)
}

/// A worker that runs is ended and waited for; one that does not end in time is stuck, and one that does not run
/// is left alone.
pub proof fn law_workers_are_ended(
    running: bool,
    ends: bool,
    checked: EndState,
    ended: EndState,
    last: EndState,
)
    requires
        call_ensures(terminate_and_wait, (EndState::Checking, EndEvent::Running(running)), checked),
        call_ensures(terminate_and_wait, (checked, EndEvent::Terminated), ended),
        call_ensures(terminate_and_wait, (ended, EndEvent::Ended(ends)), last),
    ensures
        running ==> checked is Terminating && ended is Waiting,
        last is Succeeded <==> !running || ends,
        last is Stuck <==> running && !ends,
        forall|failed: EndState| #[trigger]
            call_ensures(terminate_and_wait, (checked, EndEvent::Failed), failed) && running
                ==> failed is Failed,
{
}

/// The two halves of a time of creation are one number, which tells the exact process; and a time to wait is told
/// to the system as it is, where it counts that far.
pub proof fn law_halves_make_a_time(
    high: u32,
    low: u32,
    created: u64,
    found: Option<Identity>,
    exact: bool,
    total: u128,
    told: u32,
)
    requires
        call_ensures(creation_time, (high, low), created),
        call_ensures(open_exact_process, (&found, created), exact),
        call_ensures(millis, (total,), told),
    ensures
        created / 0x1_0000_0000 == high && created % 0x1_0000_0000 == low,
        exact <==> (found matches Some(identity) && identity.start == high * 0x1_0000_0000 + low),
        total <= 4_294_967_294 ==> told == total,
        total > 4_294_967_294 ==> told == 4_294_967_294,
{
}

/// Waiting ended where the system says that the process has, went on where the time was over, and failed
/// otherwise; and nothing runs under a number that the system does not know.
pub proof fn law_system_answers_are_read(
    result: u32,
    pid: u32,
    code: u32,
    waited: Result<bool, AppError>,
    opened: Result<(), AppError>,
    running: Option<bool>,
    awaited: Result<(), AppError>,
)
    requires
        call_ensures(wait_raw, (result, code), waited),
        call_ensures(open_process, (pid, code), opened),
        call_ensures(open_process_for_wait, (pid, running), awaited),
    ensures
        waited == Ok::<bool, AppError>(true) <==> result == 0,
        waited == Ok::<bool, AppError>(false) <==> result == 258,
        opened is Ok <==> code == 87,
        awaited is Ok <==> running == Some(true),
{
}

/// A process behind a handle is told of exactly where it runs and says who it is; one that has ended is
/// nothing.
pub proof fn law_processes_behind_handles_are_told(
    ended: bool,
    pid: u32,
    code: u32,
    identity: Result<Identity, AppError>,
    ended_since: Result<bool, AppError>,
    r: Result<Option<(u32, Identity)>, AppError>,
)
    requires
        call_ensures(process_behind, (ended, pid, code, identity, ended_since), r),
    ensures
        r matches Ok(Some((found, who))) ==> !ended && found == pid && pid != 0 && (identity
            matches Ok(i) && who@ == i@),
        !ended && pid != 0 && identity is Ok ==> (r matches Ok(Some(_))),
        r matches Ok(None) <==> ended || (pid != 0 && identity is Err && ended_since == Ok::<
            bool,
            AppError,
        >(true)),
{
}

} // verus!
