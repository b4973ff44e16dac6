//! What the user asks for: reading the arguments of a start, and telling of sessions.

use vstd::prelude::*;
use vstd::string::*;

use crate::durations;
use crate::error::{AppError, Fault, outcome, viewed};
use crate::platform::Platform;
use crate::text;

pub mod clock;
pub mod report;
pub mod sleep;
pub mod unix;
pub mod windows;

verus! {

/// What a start asks for.
#[derive(Debug)]
pub struct Parsed {
    pub timeout_sec: Option<i64>,
    pub charge_target: Option<i32>,
    pub wait_pid: Option<u32>,
    pub wait_start: Option<u64>,
    pub trigger: String,
    pub trigger_detail: String,
    pub no_display: bool,
    pub even_lid: bool,
}

/// What `Parsed` says.
pub struct Request {
    pub timeout_sec: Option<i64>,
    pub charge_target: Option<i32>,
    pub wait_pid: Option<u32>,
    pub wait_start: Option<u64>,
    pub trigger: Seq<char>,
    pub trigger_detail: Seq<char>,
    pub no_display: bool,
    pub even_lid: bool,
}

impl View for Parsed {
    type V = Request;

    open spec fn view(&self) -> Request {
        Request {
            timeout_sec: self.timeout_sec,
            charge_target: self.charge_target,
            wait_pid: self.wait_pid,
            wait_start: self.wait_start,
            trigger: self.trigger@,
            trigger_detail: self.trigger_detail@,
            no_display: self.no_display,
            even_lid: self.even_lid,
        }
    }
}

/// What is asked of the system while the arguments of a start are read. At most one of these is needed.
#[derive(Debug)]
pub enum StartQuery {
    /// How many seconds it is until the wall clock next shows this hour and minute.
    Until { hour: u32, minute: u32 },
    /// Whether this process is alive, and when it was created.
    Process(u32),
    /// Which process a name means, and when it was created.
    App(String),
}

/// What a `StartQuery` asks.
pub enum Query {
    Until { hour: u32, minute: u32 },
    Process(u32),
    App(Seq<char>),
}

impl View for StartQuery {
    type V = Query;

    open spec fn view(&self) -> Query {
        match *self {
            StartQuery::Until { hour, minute } => Query::Until { hour, minute },
            StartQuery::Process(pid) => Query::Process(pid),
            StartQuery::App(name) => Query::App(name@),
        }
    }
}

/// What the system answered.
#[derive(Debug)]
pub struct StartFacts {
    /// The seconds until the time that was asked for.
    pub until: Result<i64, AppError>,
    /// Whether the process is alive.
    pub alive: bool,
    /// When the process was created, or why it cannot be waited for. Only Windows needs it.
    pub start: Result<u64, AppError>,
    /// The process that the name means, if there is one.
    pub app: Result<Option<u32>, AppError>,
}

/// What `StartFacts` say.
pub struct Answers {
    pub until: Result<i64, Fault>,
    pub alive: bool,
    pub start: Result<u64, Fault>,
    pub app: Result<Option<u32>, Fault>,
}

impl View for StartFacts {
    type V = Answers;

    open spec fn view(&self) -> Answers {
        Answers {
            until: outcome(self.until),
            alive: self.alive,
            start: outcome(self.start),
            app: outcome(self.app),
        }
    }
}

/// What is asked for before any argument is read.
pub open spec fn unasked() -> Request {
    Request {
        timeout_sec: None,
        charge_target: None,
        wait_pid: None,
        wait_start: None,
        trigger: "indefinite"@,
        trigger_detail: "indefinite"@,
        no_display: false,
        even_lid: false,
    }
}

/// What has been read so far, and the argument that chose when to end.
pub struct Reading {
    pub request: Request,
    pub claimed: Option<Seq<char>>,
}

/// The seconds that a duration stands for.
pub open spec fn duration_of(raw: Seq<char>) -> Result<i64, Fault> {
    durations::duration(raw, text::lowered(text::trimmed(raw)))
}

/// The integer that `raw` writes, whitespace around it left out.
pub open spec fn int_of(raw: Seq<char>, name: Seq<char>) -> Result<i32, Fault> {
    match text::integer_between(text::trimmed(raw), i32::MIN as int, i32::MAX as int) {
        Some(i) => Ok(i as i32),
        None => Err(Fault::Usage(name + ": not an integer: '"@ + raw + "'"@)),
    }
}

pub fn parse_int(s: &str, name: &str) -> (r: Result<i32, AppError>)
    ensures
        outcome(r) == int_of(s@, name@),
{
    match text::parse_between(text::trim(s), i32::MIN as i64, i32::MAX as u64) {
        Some(i) => Ok(i as i32),
        None => {
            let mut m = name.to_owned();
            m.append(": not an integer: '");
            m.append(s);
            m.append("'");
            Err(AppError::Usage(m))
        },
    }
}

/// The hour and the minute that `raw` writes.
pub open spec fn clock_of(raw: Seq<char>) -> Result<(u32, u32), Fault> {
    let parts = text::pieces(raw, ':');
    if parts.len() != 2 {
        Err(Fault::Usage("--until expects HH:MM, got '"@ + raw + "'"@))
    } else {
        match int_of(parts[0], "--until hour"@) {
            Err(e) => Err(e),
            Ok(h) => match int_of(parts[1], "--until minute"@) {
                Err(e) => Err(e),
                Ok(m) => if 0 <= h <= 23 && 0 <= m <= 59 {
                    Ok((h as u32, m as u32))
                } else {
                    Err(Fault::Usage("--until: invalid time '"@ + raw + "'"@))
                },
            },
        }
    }
}

/// The hour and the minute that `raw` writes.
pub fn parse_clock(raw: &str) -> (r: Result<(u32, u32), AppError>)
    ensures
        outcome(r) == clock_of(raw@),
        r matches Ok((h, m)) ==> h < 24 && m < 60,
{
    let parts = text::split(raw, ':');
    if parts.len() != 2 {
        let mut m = "--until expects HH:MM, got '".to_owned();
        m.append(raw);
        m.append("'");
        return Err(AppError::Usage(m));
    }
    let h = match parse_int(parts[0], "--until hour") {
        Err(e) => return Err(e),
        Ok(h) => h,
    };
    let m = match parse_int(parts[1], "--until minute") {
        Err(e) => return Err(e),
        Ok(m) => m,
    };
    if 0 <= h && h <= 23 && 0 <= m && m <= 59 {
        Ok((h as u32, m as u32))
    } else {
        let mut m = "--until: invalid time '".to_owned();
        m.append(raw);
        m.append("'");
        Err(AppError::Usage(m))
    }
}

/// Whether a flag takes the argument behind it.
pub open spec fn takes_value(arg: Seq<char>) -> bool {
    arg == "-t"@ || arg == "--for"@ || arg == "--until"@ || arg == "--until-charge"@ || arg
        == "--while-pid"@ || arg == "--while-app"@
}

/// Whether a word is made of ASCII letters.
pub open spec fn alphabetic(s: Seq<char>) -> bool {
    s.len() > 0 && forall|i: int|
        0 <= i < s.len() ==> 'a' <= #[trigger] s[i] <= 'z' || 'A' <= s[i] <= 'Z'
}

fn is_alphabetic(s: &str) -> (r: bool)
    ensures
        r == alphabetic(s@),
{
    let chars = text::chars_of(s);
    if chars.len() == 0 {
        return false;
    }
    let mut i: usize = 0;
    while i < chars.len()
        invariant
            i <= chars@.len(),
            chars@ == s@,
            forall|k: int| 0 <= k < i ==> 'a' <= #[trigger] s@[k] <= 'z' || 'A' <= s@[k] <= 'Z',
        decreases chars@.len() - i,
    {
        let c = chars[i];
        if !(('a' <= c && c <= 'z') || ('A' <= c && c <= 'Z')) {
            assert(!('a' <= s@[i as int] <= 'z' || 'A' <= s@[i as int] <= 'Z'));
            return false;
        }
        i = i + 1;
    }
    true
}

/// The request with a duration to wait for.
pub open spec fn timed_request(r: Request, raw: Seq<char>, seconds: i64) -> Request {
    Request { timeout_sec: Some(seconds), trigger: "timed"@, trigger_detail: raw, ..r }
}

/// The request with a flag's value read into it; nothing else has chosen when to end.
pub open spec fn valued_request(
    platform: Platform,
    r: Request,
    flag: Seq<char>,
    value: Seq<char>,
    answers: Answers,
) -> Result<Request, Fault> {
    if flag == "--until"@ {
        match clock_of(value) {
            Err(e) => Err(e),
            Ok(_) => match answers.until {
                Err(e) => Err(e),
                Ok(seconds) => Ok(
                    Request {
                        timeout_sec: Some(seconds),
                        trigger: "until-time"@,
                        trigger_detail: "until "@ + value,
                        ..r
                    },
                ),
            },
        }
    } else if flag == "--until-charge"@ {
        match int_of(value, "--until-charge"@) {
            Err(e) => Err(e),
            Ok(target) => if !(1 <= target <= 100) {
                Err(Fault::Usage("--until-charge must be 1-100"@))
            } else {
                Ok(
                    Request {
                        charge_target: Some(target),
                        trigger: "until-charge"@,
                        trigger_detail: text::signed_decimal(target as int) + "%"@,
                        ..r
                    },
                )
            },
        }
    } else if flag == "--while-pid"@ {
        match text::integer_between(text::trimmed(value), 0, u32::MAX as int) {
            None => Err(Fault::Usage("invalid pid: '"@ + value + "'"@)),
            Some(pid) => {
                let waiting = Request {
                    wait_pid: Some(pid as u32),
                    trigger: "while-pid"@,
                    trigger_detail: "pid "@ + text::decimal(pid as nat),
                    ..r
                };
                if platform == Platform::Windows {
                    match answers.start {
                        Err(e) => Err(e),
                        Ok(start) => Ok(Request { wait_start: Some(start), ..waiting }),
                    }
                } else if !answers.alive {
                    Err(Fault::Usage("pid "@ + text::decimal(pid as nat) + " is not running"@))
                } else {
                    Ok(waiting)
                }
            },
        }
    } else if flag == "--while-app"@ {
        match answers.app {
            Err(e) => Err(e),
            Ok(None) => Err(Fault::Usage("no running process matching '"@ + value + "'"@)),
            Ok(Some(pid)) => {
                let waiting = Request {
                    wait_pid: Some(pid),
                    trigger: "while-app"@,
                    trigger_detail: "app '"@ + value + "' (pid "@ + text::decimal(pid as nat)
                        + ")"@,
                    ..r
                };
                if platform == Platform::Windows {
                    match answers.start {
                        Err(e) => Err(e),
                        Ok(start) => Ok(Request { wait_start: Some(start), ..waiting }),
                    }
                } else {
                    Ok(waiting)
                }
            },
        }
    } else {
        match duration_of(value) {
            Err(e) => Err(e),
            Ok(seconds) => Ok(timed_request(r, value, seconds)),
        }
    }
}

/// The error of a second argument that chooses when to end.
pub open spec fn conflict(first: Seq<char>, second: Seq<char>) -> Fault {
    Fault::Usage("conflicting triggers: "@ + first + " and "@ + second)
}

/// What has been read with the argument at `i`, and where the next one is.
pub open spec fn read_argument(
    platform: Platform,
    args: Seq<Seq<char>>,
    i: int,
    reading: Reading,
    answers: Answers,
) -> Result<(Reading, int), Fault> {
    let arg = args[i];
    let r = reading.request;
    if arg == "--no-display"@ {
        if r.no_display {
            Err(Fault::Usage("duplicate flag: "@ + arg))
        } else {
            Ok((Reading { request: Request { no_display: true, ..r }, ..reading }, i + 1))
        }
    } else if arg == "--even-lid"@ {
        if r.even_lid {
            Err(Fault::Usage("duplicate flag: "@ + arg))
        } else {
            Ok((Reading { request: Request { even_lid: true, ..r }, ..reading }, i + 1))
        }
    } else if takes_value(arg) {
        if i + 1 >= args.len() {
            Err(Fault::Usage("missing value for "@ + arg))
        } else {
            match reading.claimed {
                Some(first) => Err(conflict(first, arg)),
                None => match valued_request(platform, r, arg, args[i + 1], answers) {
                    Err(e) => Err(e),
                    Ok(request) => Ok((Reading { request, claimed: Some(arg) }, i + 2)),
                },
            }
        }
    } else if arg == "forever"@ || arg == "indefinite"@ {
        match reading.claimed {
            Some(first) => Err(conflict(first, arg)),
            None => Ok(
                (
                    Reading {
                        request: Request {
                            trigger: "indefinite"@,
                            trigger_detail: "indefinite"@,
                            ..r
                        },
                        claimed: Some(arg),
                    },
                    i + 1,
                ),
            ),
        }
    } else if arg.len() > 0 && arg[0] == '-' {
        Err(Fault::Usage("unknown flag: "@ + arg))
    } else {
        match reading.claimed {
            Some(first) => Err(conflict(first, "duration"@)),
            None => match duration_of(arg) {
                Ok(seconds) => Ok(
                    (
                        Reading {
                            request: timed_request(r, arg, seconds),
                            claimed: Some("duration"@),
                        },
                        i + 1,
                    ),
                ),
                Err(e) => if alphabetic(arg) {
                    Err(Fault::Usage("unknown command or duration: "@ + arg))
                } else {
                    Err(e)
                },
            },
        }
    }
}

/// What has been read with all arguments from `i` on.
pub open spec fn read_arguments(
    platform: Platform,
    args: Seq<Seq<char>>,
    i: int,
    reading: Reading,
    answers: Answers,
) -> Result<Request, Fault>
    decreases args.len() - i,
{
    if i >= args.len() {
        Ok(reading.request)
    } else {
        match read_argument(platform, args, i, reading, answers) {
            Err(e) => Err(e),
            Ok((next, at)) => if at > i {
                read_arguments(platform, args, at, next, answers)
            } else {
                Ok(next.request)
            },
        }
    }
}

/// What a start with these arguments asks for.
pub open spec fn requested(platform: Platform, args: Seq<Seq<char>>, answers: Answers) -> Result<
    Request,
    Fault,
> {
    read_arguments(platform, args, 0, Reading { request: unasked(), claimed: None }, answers)
}

struct Building {
    parsed: Parsed,
    claimed: Option<String>,
}

impl View for Building {
    type V = Reading;

    closed spec fn view(&self) -> Reading {
        Reading { request: self.parsed@, claimed: text::maybe(self.claimed) }
    }
}

fn usage_of(before: &str, what: &str, after: &str) -> (r: AppError)
    ensures
        r@ == Fault::Usage(before@ + what@ + after@),
{
    let mut m = before.to_owned();
    m.append(what);
    m.append(after);
    AppError::Usage(m)
}

fn usage_with(before: &str, what: &str) -> (r: AppError)
    ensures
        r@ == Fault::Usage(before@ + what@),
{
    let mut m = before.to_owned();
    m.append(what);
    AppError::Usage(m)
}

/// The value behind a flag.
pub fn next_value<'a>(args: &'a [String], i: usize, flag: &str) -> (r: Result<&'a str, AppError>)
    requires
        i < args@.len(),
    ensures
        match r {
            Ok(v) => i + 1 < args@.len() && v@ == args@[i + 1]@,
            Err(e) => i + 1 >= args@.len() && e@ == Fault::Usage("missing value for "@ + flag@),
        },
{
    if i < args.len() - 1 {
        Ok(args[i + 1].as_str())
    } else {
        Err(usage_with("missing value for ", flag))
    }
}

/// Lets an argument choose when to end, if none has before.
pub fn claim_trigger(current: &Option<String>, next: &str) -> (r: Result<Option<String>, AppError>)
    ensures
        match text::maybe(*current) {
            Some(first) => r matches Err(e) && e@ == conflict(first, next@),
            None => r matches Ok(Some(claimed)) && claimed@ == next@,
        },
{
    match current {
        Some(first) => {
            let mut m = "conflicting triggers: ".to_owned();
            m.append(first.as_str());
            m.append(" and ");
            m.append(next);
            Err(AppError::Usage(m))
        },
        None => Ok(Some(next.to_owned())),
    }
}

/// Sets a flag that may be given once.
pub fn claim_boolean(value: &mut bool, flag: &str) -> (r: Result<(), AppError>)
    ensures
        *final(value),
        outcome(r) == (if *old(value) {
            Err::<(), Fault>(Fault::Usage("duplicate flag: "@ + flag@))
        } else {
            Ok(())
        }),
{
    if *value {
        Err(usage_with("duplicate flag: ", flag))
    } else {
        *value = true;
        Ok(())
    }
}

fn parse_wait_start(platform: Platform, facts: &StartFacts) -> (r: Result<Option<u64>, AppError>)
    ensures
        outcome(r) == (if platform == Platform::Windows {
            match facts@.start {
                Ok(start) => Ok::<Option<u64>, Fault>(Some(start)),
                Err(e) => Err(e),
            }
        } else {
            Ok(None)
        }),
{
    match platform {
        Platform::Windows => match &facts.start {
            Ok(start) => Ok(Some(*start)),
            Err(e) => Err(e.clone()),
        },
        _ => Ok(None),
    }
}

fn read_until(p: &mut Parsed, value: &str, facts: &StartFacts) -> (r: Result<(), AppError>)
    ensures
        forall|platform: Platform|
            match #[trigger] valued_request(platform, old(p)@, "--until"@, value@, facts@) {
                Ok(request) => r is Ok && final(p)@ == request,
                Err(e) => outcome(r) == Err::<(), Fault>(e),
            },
{
    match parse_clock(value) {
        Err(e) => return Err(e),
        Ok(_) => {},
    }
    match &facts.until {
        Err(e) => Err(e.clone()),
        Ok(seconds) => {
            let mut detail = "until ".to_owned();
            detail.append(value);
            p.timeout_sec = Some(*seconds);
            p.trigger_detail = detail;
            p.trigger = "until-time".to_owned();
            Ok(())
        },
    }
}

fn read_until_charge(p: &mut Parsed, value: &str) -> (r: Result<(), AppError>)
    ensures
        forall|platform: Platform, answers: Answers|
            match #[trigger] valued_request(
                platform,
                old(p)@,
                "--until-charge"@,
                value@,
                answers,
            ) {
                Ok(request) => r is Ok && final(p)@ == request,
                Err(e) => outcome(r) == Err::<(), Fault>(e),
            },
{
    proof {
        lemma_flags_differ();
    }
    let target = match parse_int(value, "--until-charge") {
        Err(e) => return Err(e),
        Ok(target) => target,
    };
    if !(1 <= target && target <= 100) {
        return Err(AppError::usage("--until-charge must be 1-100"));
    }
    let mut detail = text::signed_decimal_text(target as i64);
    detail.append("%");
    p.charge_target = Some(target);
    p.trigger_detail = detail;
    p.trigger = "until-charge".to_owned();
    Ok(())
}

fn read_while_pid(platform: Platform, p: &mut Parsed, value: &str, facts: &StartFacts) -> (r:
    Result<(), AppError>)
    requires
        old(p)@.wait_start is None,
    ensures
        match valued_request(platform, old(p)@, "--while-pid"@, value@, facts@) {
            Ok(request) => r is Ok && final(p)@ == request,
            Err(e) => outcome(r) == Err::<(), Fault>(e),
        },
{
    proof {
        lemma_flags_differ();
    }
    let pid = match text::parse_between(text::trim(value), 0, u32::MAX as u64) {
        None => return Err(usage_of("invalid pid: '", value, "'")),
        Some(pid) => pid as u32,
    };
    let digits = text::decimal_text(pid as u64);
    let start = match parse_wait_start(platform, facts) {
        Err(e) => return Err(e),
        Ok(start) => start,
    };
    let on_windows = match platform {
        Platform::Windows => true,
        _ => false,
    };
    if !on_windows && !facts.alive {
        return Err(usage_of("pid ", digits.as_str(), " is not running"));
    }
    let mut detail = "pid ".to_owned();
    detail.append(digits.as_str());
    p.wait_start = start;
    p.wait_pid = Some(pid);
    p.trigger_detail = detail;
    p.trigger = "while-pid".to_owned();
    Ok(())
}

fn read_while_app(platform: Platform, p: &mut Parsed, value: &str, facts: &StartFacts) -> (r:
    Result<(), AppError>)
    requires
        old(p)@.wait_start is None,
    ensures
        match valued_request(platform, old(p)@, "--while-app"@, value@, facts@) {
            Ok(request) => r is Ok && final(p)@ == request,
            Err(e) => outcome(r) == Err::<(), Fault>(e),
        },
{
    proof {
        lemma_flags_differ();
    }
    let pid = match &facts.app {
        Err(e) => return Err(e.clone()),
        Ok(None) => return Err(usage_of("no running process matching '", value, "'")),
        Ok(Some(pid)) => *pid,
    };
    let start = match parse_wait_start(platform, facts) {
        Err(e) => return Err(e),
        Ok(start) => start,
    };
    let mut detail = "app '".to_owned();
    detail.append(value);
    detail.append("' (pid ");
    detail.append(text::decimal_text(pid as u64).as_str());
    detail.append(")");
    p.wait_start = start;
    p.wait_pid = Some(pid);
    p.trigger_detail = detail;
    p.trigger = "while-app".to_owned();
    Ok(())
}

fn read_for(p: &mut Parsed, value: &str) -> (r: Result<(), AppError>)
    ensures
        match duration_of(value@) {
            Ok(seconds) => r is Ok && final(p)@ == timed_request(old(p)@, value@, seconds),
            Err(e) => outcome(r) == Err::<(), Fault>(e) && final(p)@ == old(p)@,
        },
{
    match durations::parse(value) {
        Err(e) => Err(e),
        Ok(seconds) => {
            p.timeout_sec = Some(seconds);
            p.trigger_detail = value.to_owned();
            p.trigger = "timed".to_owned();
            Ok(())
        },
    }
}

/// The flags that take a value are told apart by their lengths and first letters.
proof fn lemma_flags_differ()
    ensures
        "--until"@ != "--until-charge"@,
        "--until"@ != "--while-pid"@,
        "--until"@ != "--while-app"@,
        "--until-charge"@ != "--while-pid"@,
        "--until-charge"@ != "--while-app"@,
        "--while-pid"@ != "--while-app"@,
        "--until"@ != "--no-display"@ && "--until"@ != "--even-lid"@,
        "--while-pid"@ != "--no-display"@ && "--while-pid"@ != "--even-lid"@,
        "--while-app"@ != "--no-display"@ && "--while-app"@ != "--even-lid"@,
{
    reveal_strlit("--no-display");
    reveal_strlit("--even-lid");
    assert("--no-display"@.len() == 12 && "--even-lid"@.len() == 10);
    reveal_strlit("--until");
    reveal_strlit("--until-charge");
    reveal_strlit("--while-pid");
    reveal_strlit("--while-app");
    assert("--until"@.len() == 7);
    assert("--until-charge"@.len() == 14);
    assert("--while-pid"@.len() == 11);
    assert("--while-pid"@[8] == 'p' && "--while-app"@[8] == 'a');
}

fn read_value(platform: Platform, p: &mut Parsed, flag: &str, value: &str, facts: &StartFacts) -> (r:
    Result<(), AppError>)
    requires
        old(p)@.wait_start is None,
        takes_value(flag@),
    ensures
        match valued_request(platform, old(p)@, flag@, value@, facts@) {
            Ok(request) => r is Ok && final(p)@ == request,
            Err(e) => outcome(r) == Err::<(), Fault>(e),
        },
{
    if text::same(flag, "--until") {
        read_until(p, value, facts)
    } else if text::same(flag, "--until-charge") {
        read_until_charge(p, value)
    } else if text::same(flag, "--while-pid") {
        read_while_pid(platform, p, value, facts)
    } else if text::same(flag, "--while-app") {
        read_while_app(platform, p, value, facts)
    } else {
        read_for(p, value)
    }
}

fn has_value(flag: &str) -> (r: bool)
    ensures
        r == takes_value(flag@),
{
    text::same(flag, "-t") || text::same(flag, "--for") || text::same(flag, "--until")
        || text::same(flag, "--until-charge") || text::same(flag, "--while-pid") || text::same(
        flag,
        "--while-app",
    )
}

fn read_bare(b: &mut Building, arg: &str) -> (r: Result<(), AppError>)
    ensures
        match old(b)@.claimed {
            Some(first) => outcome(r) == Err::<(), Fault>(conflict(first, "duration"@)),
            None => match duration_of(arg@) {
                Ok(seconds) => r is Ok && final(b)@ == (Reading {
                    request: timed_request(old(b)@.request, arg@, seconds),
                    claimed: Some("duration"@),
                }),
                Err(e) => outcome(r) == Err::<(), Fault>(
                    if alphabetic(arg@) {
                        Fault::Usage("unknown command or duration: "@ + arg@)
                    } else {
                        e
                    },
                ),
            },
        },
{
    match claim_trigger(&b.claimed, "duration") {
        Err(e) => return Err(e),
        Ok(claimed) => {
            b.claimed = claimed;
        },
    }
    match read_for(&mut b.parsed, arg) {
        Ok(()) => Ok(()),
        Err(e) => {
            if is_alphabetic(arg) {
                Err(usage_with("unknown command or duration: ", arg))
            } else {
                Err(e)
            }
        },
    }
}

/// Whether only the argument that chose when to end has set what it sets.
spec fn consistent(reading: Reading) -> bool {
    reading.claimed is None ==> reading.request.wait_start is None
}

fn read_one(platform: Platform, args: &[String], i: usize, b: &mut Building, facts: &StartFacts) -> (r:
    Result<usize, AppError>)
    requires
        i < args@.len(),
        consistent(old(b)@),
    ensures
        match read_argument(platform, text::texts(args@), i as int, old(b)@, facts@) {
            Ok((reading, at)) => r matches Ok(next) && next == at && final(b)@ == reading
                && consistent(final(b)@) && i < next <= args@.len(),
            Err(e) => r matches Err(error) && error@ == e,
        },
{
    let arg = args[i].as_str();
    assert(text::texts(args@)[i as int] == arg@);
    if text::same(arg, "--no-display") {
        return match claim_boolean(&mut b.parsed.no_display, arg) {
            Err(e) => Err(e),
            Ok(()) => Ok(i + 1),
        };
    }
    if text::same(arg, "--even-lid") {
        return match claim_boolean(&mut b.parsed.even_lid, arg) {
            Err(e) => Err(e),
            Ok(()) => Ok(i + 1),
        };
    }
    if has_value(arg) {
        let value = match next_value(args, i, arg) {
            Err(e) => return Err(e),
            Ok(value) => value,
        };
        assert(text::texts(args@)[i + 1] == value@);
        match claim_trigger(&b.claimed, arg) {
            Err(e) => return Err(e),
            Ok(claimed) => {
                b.claimed = claimed;
            },
        }
        return match read_value(platform, &mut b.parsed, arg, value, facts) {
            Err(e) => Err(e),
            Ok(()) => Ok(i + 2),
        };
    }
    if text::same(arg, "forever") || text::same(arg, "indefinite") {
        match claim_trigger(&b.claimed, arg) {
            Err(e) => return Err(e),
            Ok(claimed) => {
                b.claimed = claimed;
            },
        }
        b.parsed.trigger_detail = "indefinite".to_owned();
        b.parsed.trigger = "indefinite".to_owned();
        return Ok(i + 1);
    }
    let chars = text::chars_of(arg);
    if chars.len() > 0 && chars[0] == '-' {
        return Err(usage_with("unknown flag: ", arg));
    }
    match read_bare(b, arg) {
        Err(e) => Err(e),
        Ok(()) => Ok(i + 1),
    }
}

fn start_building() -> (r: Building)
    ensures
        r@ == (Reading { request: unasked(), claimed: None::<Seq<char>> }),
{
    Building {
        parsed: Parsed {
            timeout_sec: None,
            charge_target: None,
            wait_pid: None,
            wait_start: None,
            trigger: "indefinite".to_owned(),
            trigger_detail: "indefinite".to_owned(),
            no_display: false,
            even_lid: false,
        },
        claimed: None,
    }
}

/// What a start with these arguments asks for. `facts` answers what `start_query` asks.
pub fn parse_start_args(platform: Platform, args: &[String], facts: &StartFacts) -> (r: Result<
    Parsed,
    AppError,
>)
    ensures
        viewed(r) == requested(platform, text::texts(args@), facts@),
{
    let mut b = start_building();
    let mut i: usize = 0;
    let ghost words = text::texts(args@);
    while i < args.len()
        invariant
            i <= args@.len(),
            words == text::texts(args@),
            consistent(b@),
            requested(platform, words, facts@) == read_arguments(
                platform,
                words,
                i as int,
                b@,
                facts@,
            ),
        decreases args@.len() - i,
    {
        match read_one(platform, args, i, &mut b, facts) {
            Err(e) => return Err(e),
            Ok(next) => {
                i = next;
            },
        }
    }
    Ok(b.parsed)
}

/// What is asked of the system for a flag and its value, if they make sense.
pub open spec fn flag_query(flag: Seq<char>, value: Seq<char>) -> Option<Query> {
    if flag == "--until"@ {
        match clock_of(value) {
            Ok((hour, minute)) => Some(Query::Until { hour, minute }),
            Err(_) => None,
        }
    } else if flag == "--while-pid"@ {
        match text::integer_between(text::trimmed(value), 0, u32::MAX as int) {
            Some(pid) => Some(Query::Process(pid as u32)),
            None => None,
        }
    } else {
        Some(Query::App(value))
    }
}

/// Whether a flag asks the system.
pub open spec fn asks(flag: Seq<char>) -> bool {
    flag == "--until"@ || flag == "--while-pid"@ || flag == "--while-app"@
}

/// What the system answers where it was not asked.
pub open spec fn no_answers() -> Answers {
    Answers { until: Ok(0), alive: false, start: Ok(0), app: Ok(None) }
}

/// What reading the arguments from `i` on asks of the system, if it gets that far.
pub open spec fn query_from(platform: Platform, args: Seq<Seq<char>>, i: int, reading: Reading) -> Option<
    Query,
>
    decreases args.len() - i,
{
    if i >= args.len() {
        None
    } else if asks(args[i]) {
        if i + 1 < args.len() && reading.claimed is None {
            flag_query(args[i], args[i + 1])
        } else {
            None
        }
    } else {
        match read_argument(platform, args, i, reading, no_answers()) {
            Err(_) => None,
            Ok((next, at)) => if at > i {
                query_from(platform, args, at, next)
            } else {
                None
            },
        }
    }
}

/// What reading the arguments of a start asks of the system.
pub open spec fn query_of(platform: Platform, args: Seq<Seq<char>>) -> Option<Query> {
    query_from(platform, args, 0, Reading { request: unasked(), claimed: None })
}

fn flag_asks(flag: &str) -> (r: bool)
    ensures
        r == asks(flag@),
{
    text::same(flag, "--until") || text::same(flag, "--while-pid") || text::same(
        flag,
        "--while-app",
    )
}

/// What reading the arguments of a start asks of the system.
pub fn start_query(platform: Platform, args: &[String]) -> (r: Option<StartQuery>)
    ensures
        query_of(platform, text::texts(args@)) == (match r {
            Some(query) => Some(query@),
            None => None,
        }),
{
    let facts = StartFacts { until: Ok(0), alive: false, start: Ok(0), app: Ok(None) };
    assert(facts@ == no_answers());
    let mut b = start_building();
    let mut i: usize = 0;
    let ghost words = text::texts(args@);
    while i < args.len()
        invariant
            i <= args@.len(),
            words == text::texts(args@),
            consistent(b@),
            facts@ == no_answers(),
            query_of(platform, words) == query_from(platform, words, i as int, b@),
        decreases args@.len() - i,
    {
        let arg = args[i].as_str();
        assert(words[i as int] == arg@);
        if flag_asks(arg) {
            if i >= args.len() - 1 || b.claimed.is_some() {
                return None;
            }
            let value = args[i + 1].as_str();
            assert(words[i + 1] == value@);
            if text::same(arg, "--until") {
                return match parse_clock(value) {
                    Ok((hour, minute)) => Some(StartQuery::Until { hour, minute }),
                    Err(_) => None,
                };
            }
            if text::same(arg, "--while-pid") {
                return match text::parse_between(text::trim(value), 0, u32::MAX as u64) {
                    Some(pid) => Some(StartQuery::Process(pid as u32)),
                    None => None,
                };
            }
            return Some(StartQuery::App(value.to_owned()));
        }
        match read_one(platform, args, i, &mut b, &facts) {
            Err(_) => return None,
            Ok(next) => {
                i = next;
            },
        }
    }
    None
}

/// Whether two answers are the same as far as the query goes.
pub open spec fn agree(query: Option<Query>, a: Answers, b: Answers) -> bool {
    match query {
        None => true,
        Some(Query::Until { .. }) => a.until == b.until,
        Some(Query::Process(_)) => a.alive == b.alive && a.start == b.start,
        Some(Query::App(_)) => a.app == b.app && a.start == b.start,
    }
}

/// Once an argument has chosen when to end, nothing more is asked of the system.
proof fn lemma_claimed_asks_nothing(
    platform: Platform,
    args: Seq<Seq<char>>,
    i: int,
    reading: Reading,
    a: Answers,
    b: Answers,
)
    requires
        reading.claimed is Some,
    ensures
        read_arguments(platform, args, i, reading, a) == read_arguments(
            platform,
            args,
            i,
            reading,
            b,
        ),
    decreases args.len() - i,
{
    if i < args.len() {
        match read_argument(platform, args, i, reading, a) {
            Err(_) => {},
            Ok((next, at)) => {
                if at > i {
                    lemma_claimed_asks_nothing(platform, args, at, next, a, b);
                }
            },
        }
    }
}

proof fn lemma_only_the_query_matters(
    platform: Platform,
    args: Seq<Seq<char>>,
    i: int,
    reading: Reading,
    a: Answers,
    b: Answers,
)
    requires
        agree(query_from(platform, args, i, reading), a, b),
    ensures
        read_arguments(platform, args, i, reading, a) == read_arguments(
            platform,
            args,
            i,
            reading,
            b,
        ),
    decreases args.len() - i,
{
    if i < args.len() {
        lemma_flags_differ();
        if asks(args[i]) {
            match read_argument(platform, args, i, reading, a) {
                Err(_) => {},
                Ok((next, at)) => {
                    lemma_claimed_asks_nothing(platform, args, at, next, a, b);
                },
            }
        } else {
            match read_argument(platform, args, i, reading, a) {
                Err(_) => {},
                Ok((next, at)) => {
                    if at > i {
                        lemma_only_the_query_matters(platform, args, at, next, a, b);
                    }
                },
            }
        }
    }
}

/// What a start asks for depends on the system only through what `start_query` asks: two sets of
/// answers that agree on that lead to the same request or the same error.
pub proof fn law_only_the_query_matters(
    platform: Platform,
    args: Seq<Seq<char>>,
    a: Answers,
    b: Answers,
)
    requires
        agree(query_of(platform, args), a, b),
    ensures
        requested(platform, args, a) == requested(platform, args, b),
{
    lemma_only_the_query_matters(
        platform,
        args,
        0,
        Reading { request: unasked(), claimed: None },
        a,
        b,
    );
}

/// Whether what is asked for fits its trigger: each trigger sets its own condition and no other. A
/// timeout is at least a second, where the time that `--until` names is at least a second away.
pub open spec fn coherent(platform: Platform, answers: Answers, r: Request) -> bool {
    &&& r.trigger == "timed"@ || r.trigger == "until-time"@ || r.trigger == "until-charge"@
        || r.trigger == "while-pid"@ || r.trigger == "while-app"@ || r.trigger == "indefinite"@
    &&& r.timeout_sec is Some <==> r.trigger == "timed"@ || r.trigger == "until-time"@
    &&& r.charge_target is Some <==> r.trigger == "until-charge"@
    &&& r.wait_pid is Some <==> r.trigger == "while-pid"@ || r.trigger == "while-app"@
    &&& r.wait_start is Some <==> platform == Platform::Windows && r.wait_pid is Some
    &&& r.charge_target matches Some(t) ==> 1 <= t <= 100
    &&& (answers.until matches Ok(n) ==> n >= 1) ==> (r.timeout_sec matches Some(t) ==> t >= 1)
}

/// What has been read is coherent, and no condition is set before one is chosen.
spec fn coherent_reading(platform: Platform, answers: Answers, reading: Reading) -> bool {
    &&& coherent(platform, answers, reading.request)
    &&& reading.claimed is None ==> reading.request.trigger == "indefinite"@
}

proof fn lemma_triggers_differ()
    ensures
        "timed"@ != "until-time"@ && "timed"@ != "until-charge"@ && "timed"@ != "while-pid"@
            && "timed"@ != "while-app"@ && "timed"@ != "indefinite"@,
        "until-time"@ != "until-charge"@ && "until-time"@ != "while-pid"@ && "until-time"@
            != "while-app"@ && "until-time"@ != "indefinite"@,
        "until-charge"@ != "while-pid"@ && "until-charge"@ != "while-app"@ && "until-charge"@
            != "indefinite"@,
        "while-pid"@ != "while-app"@ && "while-pid"@ != "indefinite"@,
        "while-app"@ != "indefinite"@,
{
    reveal_strlit("timed");
    reveal_strlit("until-time");
    reveal_strlit("until-charge");
    reveal_strlit("while-pid");
    reveal_strlit("while-app");
    reveal_strlit("indefinite");
    assert("timed"@.len() == 5 && "until-charge"@.len() == 12);
    assert("until-time"@.len() == 10 && "indefinite"@.len() == 10);
    assert("until-time"@[0] == 'u' && "indefinite"@[0] == 'i');
    assert("while-pid"@.len() == 9 && "while-app"@.len() == 9);
    assert("while-pid"@[6] == 'p' && "while-app"@[6] == 'a');
}

proof fn lemma_coherent(
    platform: Platform,
    args: Seq<Seq<char>>,
    i: int,
    reading: Reading,
    answers: Answers,
)
    requires
        coherent_reading(platform, answers, reading),
    ensures
        read_arguments(platform, args, i, reading, answers) matches Ok(r) ==> coherent(
            platform,
            answers,
            r,
        ),
    decreases args.len() - i,
{
    lemma_triggers_differ();
    if i < args.len() {
        match read_argument(platform, args, i, reading, answers) {
            Err(_) => {},
            Ok((next, at)) => {
                assert(coherent_reading(platform, answers, next));
                if at > i {
                    lemma_coherent(platform, args, at, next, answers);
                }
            },
        }
    }
}

/// Whatever the arguments, a request that is accepted has one condition to end by, the one that its
/// trigger names; a target charge is one from one to a hundred, and a timeout is at least a second
/// where the time that `--until` names is at least a second away.
pub proof fn law_requests_are_coherent(platform: Platform, args: Seq<Seq<char>>, answers: Answers)
    ensures
        requested(platform, args, answers) matches Ok(r) ==> coherent(platform, answers, r),
{
    lemma_triggers_differ();
    lemma_coherent(
        platform,
        args,
        0,
        Reading { request: unasked(), claimed: None },
        answers,
    );
}

/// A flag that goes with every request: for the lid, or for the display.
pub open spec fn modifier(lid: bool) -> Seq<char> {
    if lid {
        "--even-lid"@
    } else {
        "--no-display"@
    }
}

/// Whether a request has such a flag.
pub open spec fn is_modified(r: Request, lid: bool) -> bool {
    if lid {
        r.even_lid
    } else {
        r.no_display
    }
}

/// The request with such a flag.
pub open spec fn modified(r: Request, lid: bool) -> Request {
    if lid {
        Request { even_lid: true, ..r }
    } else {
        Request { no_display: true, ..r }
    }
}

/// Whether reading on from `from` comes to an argument at `i`, or to the end there, and not past it with a
/// flag and its value.
pub open spec fn comes_to(
    platform: Platform,
    args: Seq<Seq<char>>,
    from: int,
    i: int,
    reading: Reading,
    answers: Answers,
) -> bool
    decreases i - from,
{
    from == i || (from < i && (read_argument(platform, args, from, reading, answers) matches Ok((
        next,
        at,
    )) && from < at <= i && comes_to(platform, args, at, i, next, answers)))
}

proof fn lemma_modifiers_differ()
    ensures
        "--no-display"@ != "--even-lid"@,
{
    reveal_strlit("--no-display");
    reveal_strlit("--even-lid");
    assert("--no-display"@.len() == 12 && "--even-lid"@.len() == 10);
}

proof fn lemma_modified_reading(
    platform: Platform,
    args: Seq<Seq<char>>,
    i: int,
    reading: Reading,
    answers: Answers,
    lid: bool,
)
    requires
        read_arguments(platform, args, i, reading, answers) matches Ok(r) && !is_modified(r, lid),
    ensures
        !is_modified(reading.request, lid),
        read_arguments(
            platform,
            args,
            i,
            Reading { request: modified(reading.request, lid), ..reading },
            answers,
        ) == Ok::<Request, Fault>(
            modified(read_arguments(platform, args, i, reading, answers)->Ok_0, lid),
        ),
    decreases args.len() - i,
{
    lemma_modifiers_differ();
    if i < args.len() {
        let (next, at) = read_argument(platform, args, i, reading, answers)->Ok_0;
        lemma_modified_reading(platform, args, at, next, answers, lid);
    }
}

proof fn lemma_shifted_reading(
    platform: Platform,
    args: Seq<Seq<char>>,
    place: int,
    word: Seq<char>,
    i: int,
    reading: Reading,
    answers: Answers,
)
    requires
        0 <= place <= i,
        place <= args.len(),
    ensures
        read_arguments(platform, args.insert(place, word), i + 1, reading, answers)
            == read_arguments(platform, args, i, reading, answers),
    decreases args.len() - i,
{
    let longer = args.insert(place, word);
    if i < args.len() {
        assert(longer[i + 1] == args[i]);
        if i + 1 < args.len() {
            assert(longer[i + 2] == args[i + 1]);
        }
        match read_argument(platform, args, i, reading, answers) {
            Err(_) => {},
            Ok((next, at)) => {
                lemma_shifted_reading(platform, args, place, word, at, next, answers);
            },
        }
    }
}

proof fn lemma_modifier_at(
    platform: Platform,
    args: Seq<Seq<char>>,
    from: int,
    place: int,
    reading: Reading,
    answers: Answers,
    lid: bool,
)
    requires
        0 <= from <= place <= args.len(),
        comes_to(platform, args, from, place, reading, answers),
        read_arguments(platform, args, from, reading, answers) matches Ok(r) && !is_modified(
            r,
            lid,
        ),
    ensures
        read_arguments(platform, args.insert(place, modifier(lid)), from, reading, answers) == Ok::<
            Request,
            Fault,
        >(modified(read_arguments(platform, args, from, reading, answers)->Ok_0, lid)),
    decreases place - from,
{
    let longer = args.insert(place, modifier(lid));
    if from == place {
        lemma_modifiers_differ();
        lemma_modified_reading(platform, args, from, reading, answers, lid);
        assert(longer[from] == modifier(lid));
        lemma_shifted_reading(
            platform,
            args,
            place,
            modifier(lid),
            from,
            Reading { request: modified(reading.request, lid), ..reading },
            answers,
        );
    } else {
        let (next, at) = read_argument(platform, args, from, reading, answers)->Ok_0;
        assert(at <= place);
        assert(longer[from] == args[from]);
        if from + 1 < place {
            assert(longer[from + 1] == args[from + 1]);
        }
        lemma_modifier_at(platform, args, at, place, next, answers, lid);
    }
}

/// The flags for the display and for the lid may stand anywhere but between another flag and its value:
/// wherever one is put, it changes nothing else of a request that is accepted without it.
pub proof fn law_flags_may_stand_anywhere(
    platform: Platform,
    args: Seq<Seq<char>>,
    place: int,
    answers: Answers,
    lid: bool,
)
    requires
        0 <= place <= args.len(),
        comes_to(
            platform,
            args,
            0,
            place,
            Reading { request: unasked(), claimed: None },
            answers,
        ),
        requested(platform, args, answers) matches Ok(r) && !is_modified(r, lid),
    ensures
        requested(platform, args.insert(place, modifier(lid)), answers) == Ok::<Request, Fault>(
            modified(requested(platform, args, answers)->Ok_0, lid),
        ),
{
    lemma_modifier_at(
        platform,
        args,
        0,
        place,
        Reading { request: unasked(), claimed: None },
        answers,
        lid,
    );
}

/// An hour and a minute in digits, with leading zeros or without, are read as just these numbers where there
/// is such a time of day, and refused otherwise.
pub proof fn law_times_of_day_are_read(hour: Seq<char>, minute: Seq<char>)
    requires
        hour.len() > 0 && text::all_digits(hour),
        minute.len() > 0 && text::all_digits(minute),
    ensures
        ({
            let h = text::digits_value(hour);
            let m = text::digits_value(minute);
            let r = clock_of(hour + seq![':'] + minute);
            &&& h < 24 && m < 60 ==> r == Ok::<(u32, u32), Fault>((h as u32, m as u32))
            &&& h >= 24 || m >= 60 ==> r is Err
        }),
{
    text::lemma_digits_are_trimmed(hour);
    text::lemma_digits_are_trimmed(minute);
    assert(!text::digit(':'));
    text::lemma_two_parts(hour, minute, ':');
    assert(text::digit(hour[0]) && text::digit(minute[0]));
}

proof fn lemma_alone(platform: Platform, word: Seq<char>, answers: Answers)
    ensures
        requested(platform, seq![word], answers) == (match read_argument(
            platform,
            seq![word],
            0,
            Reading { request: unasked(), claimed: None },
            answers,
        ) {
            Err(e) => Err(e),
            Ok((next, _)) => Ok(next.request),
        }),
{
    reveal_with_fuel(read_arguments, 3);
}

proof fn lemma_pair(platform: Platform, flag: Seq<char>, value: Seq<char>, answers: Answers)
    requires
        takes_value(flag),
    ensures
        requested(platform, seq![flag, value], answers) == valued_request(
            platform,
            unasked(),
            flag,
            value,
            answers,
        ),
        asks(flag) ==> query_of(platform, seq![flag, value]) == flag_query(flag, value),
{
    lemma_flags_differ();
    lemma_modifiers_differ();
    reveal_strlit("-t");
    reveal_strlit("--for");
    reveal_strlit("--until-charge");
    reveal_strlit("--no-display");
    reveal_strlit("--even-lid");
    assert("-t"@.len() == 2 && "--for"@.len() == 5 && "--until-charge"@.len() == 14);
    assert("--no-display"@.len() == 12 && "--even-lid"@.len() == 10);
    let args = seq![flag, value];
    assert(args[0] == flag && args[1] == value);
    reveal_with_fuel(read_arguments, 3);
}

/// A duration may be given on its own or behind `-t` or `--for`: either way the session lasts just so many
/// seconds, and is told of in the words of the user.
pub proof fn law_durations_are_asked_for(platform: Platform, raw: Seq<char>, answers: Answers)
    ensures
        ({
            let short = requested(platform, seq!["-t"@, raw], answers);
            let long = requested(platform, seq!["--for"@, raw], answers);
            let bare = requested(platform, seq![raw], answers);
            &&& short == long
            &&& short is Ok <==> duration_of(raw) is Ok
            &&& short matches Ok(r) ==> r.timeout_sec == Some(duration_of(raw)->Ok_0) && r.trigger
                == "timed"@ && r.trigger_detail == raw && !r.no_display && !r.even_lid
            &&& (raw.len() == 0 || raw[0] != '-') && raw != "forever"@ && raw != "indefinite"@ ==> (
            bare is Ok <==> short is Ok) && (short is Ok ==> bare == short)
        }),
{
    lemma_flags_differ();
    lemma_pair(platform, "-t"@, raw, answers);
    lemma_pair(platform, "--for"@, raw, answers);
    lemma_alone(platform, raw, answers);
    reveal_strlit("-t");
    reveal_strlit("--for");
    reveal_strlit("--until");
    reveal_strlit("--until-charge");
    reveal_strlit("--while-pid");
    reveal_strlit("--while-app");
    reveal_strlit("--no-display");
    reveal_strlit("--even-lid");
}

/// No words at all, `forever` and `indefinite` ask for a session without an end.
pub proof fn law_nothing_asked_is_forever(platform: Platform, answers: Answers)
    ensures
        ({
            let r = requested(platform, Seq::empty(), answers);
            &&& r matches Ok(r) && r.timeout_sec is None && r.charge_target is None && r.wait_pid
                is None && r.trigger == "indefinite"@ && !r.no_display && !r.even_lid
            &&& requested(platform, seq!["forever"@], answers) == r
            &&& requested(platform, seq!["indefinite"@], answers) == r
        }),
{
    lemma_alone(platform, "forever"@, answers);
    lemma_alone(platform, "indefinite"@, answers);
    reveal_strlit("forever");
    reveal_strlit("indefinite");
    reveal_strlit("-t");
    reveal_strlit("--for");
    reveal_strlit("--until");
    reveal_strlit("--until-charge");
    reveal_strlit("--while-pid");
    reveal_strlit("--while-app");
    reveal_strlit("--no-display");
    reveal_strlit("--even-lid");
    assert("forever"@[0] == 'f' && "indefinite"@[0] == 'i');
    assert("-t"@[0] == '-' && "--for"@[0] == '-' && "--until"@[0] == '-' && "--until-charge"@[0]
        == '-' && "--while-pid"@[0] == '-' && "--while-app"@[0] == '-' && "--no-display"@[0] == '-'
        && "--even-lid"@[0] == '-');
}

/// `--until` with a time of day asks how long it is until then, and the session lasts just as long as the
/// answer says.
pub proof fn law_times_are_asked_for(platform: Platform, raw: Seq<char>, answers: Answers)
    ensures
        ({
            let args = seq!["--until"@, raw];
            let r = requested(platform, args, answers);
            &&& query_of(platform, args) == (match clock_of(raw) {
                Ok((hour, minute)) => Some(Query::Until { hour, minute }),
                Err(_) => None,
            })
            &&& r is Ok <==> clock_of(raw) is Ok && answers.until is Ok
            &&& r matches Ok(r) ==> r.timeout_sec == Some(answers.until->Ok_0) && r.trigger
                == "until-time"@ && r.trigger_detail == "until "@ + raw
        }),
{
    lemma_flags_differ();
    lemma_pair(platform, "--until"@, raw, answers);
}

/// `--until-charge` asks for the percentage that stands behind it, from one to a hundred.
pub proof fn law_charges_are_asked_for(platform: Platform, n: int, answers: Answers)
    ensures
        ({
            let r = requested(
                platform,
                seq!["--until-charge"@, text::signed_decimal(n)],
                answers,
            );
            &&& r is Ok <==> 1 <= n <= 100
            &&& r matches Ok(r) ==> r.charge_target == Some(n as i32) && r.trigger
                == "until-charge"@ && r.trigger_detail == text::signed_decimal(n) + "%"@
        }),
{
    lemma_flags_differ();
    lemma_pair(platform, "--until-charge"@, text::signed_decimal(n), answers);
    text::lemma_numbers_are_trimmed(n);
    text::law_integers_are_read_back(n, i32::MIN as int, i32::MAX as int);
}

/// `--while-pid` asks about the process that stands behind it and waits for just that one, where it runs.
pub proof fn law_processes_are_asked_for(platform: Platform, pid: u32, answers: Answers)
    ensures
        ({
            let args = seq!["--while-pid"@, text::decimal(pid as nat)];
            let r = requested(platform, args, answers);
            &&& query_of(platform, args) == Some(Query::Process(pid))
            &&& r is Ok <==> if platform == Platform::Windows {
                answers.start is Ok
            } else {
                answers.alive
            }
            &&& r matches Ok(r) ==> r.wait_pid == Some(pid) && r.trigger == "while-pid"@ && (
            platform == Platform::Windows ==> r.wait_start == Some(answers.start->Ok_0))
        }),
{
    lemma_flags_differ();
    lemma_pair(platform, "--while-pid"@, text::decimal(pid as nat), answers);
    text::lemma_numbers_are_trimmed(pid as int);
    text::law_integers_are_read_back(pid as int, 0, u32::MAX as int);
}

/// `--while-app` asks which process the name behind it means and waits for just that one, where there is
/// one.
pub proof fn law_programs_are_asked_for(platform: Platform, name: Seq<char>, answers: Answers)
    ensures
        ({
            let args = seq!["--while-app"@, name];
            let r = requested(platform, args, answers);
            &&& query_of(platform, args) == Some(Query::App(name))
            &&& r is Ok <==> (answers.app matches Ok(Some(_))) && (platform == Platform::Windows
                ==> answers.start is Ok)
            &&& r matches Ok(r) ==> r.wait_pid == answers.app->Ok_0 && r.trigger == "while-app"@ && (
            platform == Platform::Windows ==> r.wait_start == Some(answers.start->Ok_0))
        }),
{
    lemma_flags_differ();
    lemma_pair(platform, "--while-app"@, name, answers);
}

proof fn lemma_one_condition(
    platform: Platform,
    args: Seq<Seq<char>>,
    more: Seq<Seq<char>>,
    i: int,
    reading: Reading,
    answers: Answers,
)
    requires
        0 <= i <= args.len(),
        coherent_reading(platform, answers, reading),
        read_arguments(platform, args, i, reading, answers) matches Ok(r) && r.trigger
            != "indefinite"@,
        more.len() > 0,
        more[0] != "--no-display"@ && more[0] != "--even-lid"@,
    ensures
        read_arguments(platform, args + more, i, reading, answers) matches Err(Fault::Usage(_)),
    decreases args.len() - i,
{
    lemma_triggers_differ();
    let longer = args + more;
    if i < args.len() {
        assert(longer[i] == args[i]);
        if i + 1 < args.len() {
            assert(longer[i + 1] == args[i + 1]);
        }
        let (next, at) = read_argument(platform, args, i, reading, answers)->Ok_0;
        assert(read_argument(platform, longer, i, reading, answers) == read_argument(
            platform,
            args,
            i,
            reading,
            answers,
        ));
        assert(coherent_reading(platform, answers, next));
        lemma_one_condition(platform, args, more, at, next, answers);
    } else {
        assert(longer[i] == more[0]);
    }
}

/// A session has one condition to end by: whatever stands behind a request that has one, but for the flags for
/// the display and the lid, is refused.
pub proof fn law_a_session_has_one_condition(
    platform: Platform,
    args: Seq<Seq<char>>,
    more: Seq<Seq<char>>,
    answers: Answers,
)
    requires
        requested(platform, args, answers) matches Ok(r) && r.trigger != "indefinite"@,
        more.len() > 0,
        more[0] != "--no-display"@ && more[0] != "--even-lid"@,
    ensures
        requested(platform, args + more, answers) matches Err(Fault::Usage(_)),
{
    lemma_triggers_differ();
    lemma_one_condition(
        platform,
        args,
        more,
        0,
        Reading { request: unasked(), claimed: None },
        answers,
    );
}

proof fn lemma_said_once(
    platform: Platform,
    args: Seq<Seq<char>>,
    i: int,
    reading: Reading,
    answers: Answers,
    lid: bool,
)
    requires
        0 <= i <= args.len(),
        read_arguments(platform, args, i, reading, answers) matches Ok(r) && is_modified(r, lid),
    ensures
        read_arguments(platform, args.push(modifier(lid)), i, reading, answers) matches Err(
            Fault::Usage(_),
        ),
    decreases args.len() - i,
{
    lemma_modifiers_differ();
    let longer = args.push(modifier(lid));
    if i < args.len() {
        assert(longer[i] == args[i]);
        if i + 1 < args.len() {
            assert(longer[i + 1] == args[i + 1]);
        }
        let (next, at) = read_argument(platform, args, i, reading, answers)->Ok_0;
        assert(read_argument(platform, longer, i, reading, answers) == read_argument(
            platform,
            args,
            i,
            reading,
            answers,
        ));
        lemma_said_once(platform, args, at, next, answers, lid);
    }
}

/// The flags for the display and for the lid are said once: a second one is refused.
pub proof fn law_flags_are_said_once(
    platform: Platform,
    args: Seq<Seq<char>>,
    answers: Answers,
    lid: bool,
)
    requires
        requested(platform, args, answers) matches Ok(r) && is_modified(r, lid),
    ensures
        requested(platform, args.push(modifier(lid)), answers) matches Err(Fault::Usage(_)),
{
    lemma_said_once(
        platform,
        args,
        0,
        Reading { request: unasked(), claimed: None },
        answers,
        lid,
    );
}

/// A flag that is none of the known ones is refused, and so is one without its value.
pub proof fn law_flags_are_known(platform: Platform, flag: Seq<char>, answers: Answers)
    requires
        flag.len() > 0 && flag[0] == '-',
        flag != "--no-display"@ && flag != "--even-lid"@,
    ensures
        requested(platform, seq![flag], answers) matches Err(Fault::Usage(_)),
{
    lemma_alone(platform, flag, answers);
    reveal_strlit("forever");
    reveal_strlit("indefinite");
    assert("forever"@[0] == 'f' && "indefinite"@[0] == 'i');
}

} // verus!
