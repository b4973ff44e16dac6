//! The worker that keeps a Windows machine awake, and the guardian of its lid actions.

use vstd::prelude::*;
use vstd::string::*;

use crate::error::{AppError, Fault, outcome, viewed};
use crate::platform::{self, Platform};
use crate::session::{self, Decimal, LidRecord, Record, SavedState, Saved, Session, maybe_saved};
use crate::supervisor::{
    self, BatteryPoll, MAX_BATTERY_FAILURES, POLL_SECONDS, battery_poll, sleep_span,
};
use crate::sysutil::{self, Identity};
use crate::text;
use crate::time::{self, Span, Timestamp};

verus! {

/// What a worker was told: how long to stay, whom or what to wait for, and its session.
#[derive(Debug)]
pub struct WorkerSpec {
    pub no_display: bool,
    pub timeout: Option<u64>,
    pub target: Option<(u32, u64)>,
    pub charge: Option<(i32, bool)>,
    pub session: Session,
}

/// What a `WorkerSpec` says.
pub struct WorkerFacts {
    pub no_display: bool,
    pub timeout: Option<u64>,
    pub target: Option<(u32, u64)>,
    pub charge: Option<(i32, bool)>,
    pub session: Record,
}

impl View for WorkerSpec {
    type V = WorkerFacts;

    open spec fn view(&self) -> WorkerFacts {
        WorkerFacts {
            no_display: self.no_display,
            timeout: self.timeout,
            target: self.target,
            charge: self.charge,
            session: self.session@,
        }
    }
}

/// The words for a process that is waited for: its number and when it was created.
pub open spec fn target_words(target: Option<(u32, u64)>) -> (Seq<char>, Seq<char>) {
    match target {
        Some((pid, start)) => (text::decimal(pid as nat), text::decimal(start as nat)),
        None => (Seq::empty(), Seq::empty()),
    }
}

/// The words for a charge that is waited for: the target and the way to it.
pub open spec fn charge_words(charge: Option<(i32, bool)>) -> (Seq<char>, Seq<char>) {
    match charge {
        Some((target, up)) => (
            text::signed_decimal(target as int),
            if up {
                "up"@
            } else {
                "down"@
            },
        ),
        None => (Seq::empty(), Seq::empty()),
    }
}

/// The command of a worker, behind its executable.
pub open spec fn worker_words(
    s: Record,
    timeout_sec: Option<i64>,
    target: Option<(u32, u64)>,
    charge: Option<(i32, bool)>,
) -> Seq<Seq<char>> {
    seq![
        "__worker_windows__"@,
        s.mode,
        match timeout_sec {
            Some(timeout) => text::signed_decimal(timeout as int),
            None => Seq::empty(),
        },
        target_words(target).0,
        target_words(target).1,
        charge_words(charge).0,
        charge_words(charge).1,
        s.trigger,
        s.detail,
        session::instant_text(s.started_at->0),
        session::optional_instant_text(s.ends_at),
    ]
}

/// The command of a worker, or why there is none.
pub open spec fn worker_command_of(
    exe: Result<Seq<char>, Fault>,
    s: Record,
    timeout_sec: Option<i64>,
    target: Option<(u32, u64)>,
    charge: Option<(i32, bool)>,
) -> Result<Seq<Seq<char>>, Fault> {
    if timeout_sec matches Some(t) && t <= 0 {
        Err(Fault::Fail("worker timeout must be positive"@))
    } else if !session::known_mode(s.mode) {
        Err(Fault::Fail("invalid worker mode"@))
    } else {
        match exe {
            Err(e) => Err(e),
            Ok(exe) => if s.started_at is None {
                Err(Fault::Fail("missing start time"@))
            } else {
                Ok(seq![exe] + worker_words(s, timeout_sec, target, charge))
            },
        }
    }
}

/// A list of words with its words seen as texts.
pub open spec fn worded(r: Result<Vec<String>, AppError>) -> Result<Seq<Seq<char>>, Fault> {
    match r {
        Ok(words) => Ok(text::texts(words@)),
        Err(e) => Err(e@),
    }
}

fn empty_text() -> (r: String)
    ensures
        r@ == Seq::<char>::empty(),
{
    let r = String::new();
    assert(r@ =~= Seq::<char>::empty());
    r
}

/// The command of a worker, or why there is none.
pub fn worker_command(
    exe: Result<String, AppError>,
    session: &Session,
    timeout_sec: Option<i64>,
    target: Option<(u32, u64)>,
    charge: Option<(i32, bool)>,
) -> (r: Result<Vec<String>, AppError>)
    requires
        session@.well_formed(),
    ensures
        worded(r) == worker_command_of(viewed(exe), session@, timeout_sec, target, charge),
        r is Ok && session@.common_years() ==> session::instants_round_trip(session@),
{
    match timeout_sec {
        Some(t) => if t <= 0 {
            return Err(AppError::fail("worker timeout must be positive"));
        },
        None => {},
    }
    if !session::is_known_mode(session.mode.as_str()) {
        return Err(AppError::fail("invalid worker mode"));
    }
    let exe = match exe {
        Err(e) => return Err(e),
        Ok(exe) => exe,
    };
    let started_at = match session.started_at {
        None => return Err(AppError::fail("missing start time")),
        Some(t) => t,
    };
    let (target_pid, target_start) = match target {
        Some((pid, start)) => (text::decimal_text(pid as u64), text::decimal_text(start)),
        None => (empty_text(), empty_text()),
    };
    let (charge_target, direction) = match charge {
        Some((value, up)) => (
            text::signed_decimal_text(value as i64),
            if up {
                "up".to_owned()
            } else {
                "down".to_owned()
            },
        ),
        None => (empty_text(), empty_text()),
    };
    let timeout = match timeout_sec {
        Some(t) => text::signed_decimal_text(t),
        None => empty_text(),
    };
    let end = match &session.ends_at {
        Some(t) => time::utc_text(t),
        None => empty_text(),
    };
    let ghost first = exe@;
    let mut words: Vec<String> = Vec::new();
    words.push(exe);
    words.push("__worker_windows__".to_owned());
    words.push(session.mode.clone());
    words.push(timeout);
    words.push(target_pid);
    words.push(target_start);
    words.push(charge_target);
    words.push(direction);
    words.push(session.trigger.clone());
    words.push(session.detail.clone());
    words.push(time::utc_text(&started_at));
    words.push(end);
    assert(text::texts(words@) =~= seq![first] + worker_words(
        session@,
        timeout_sec,
        target,
        charge,
    ));
    Ok(words)
}

/// What the words for a target say: a process, nothing, or what is wrong.
pub open spec fn worker_target_of(args: Seq<Seq<char>>) -> Result<Option<(u32, u64)>, Fault> {
    let pid = supervisor::optional_positive_of(args[3], "target pid"@, 0, u32::MAX as int);
    let start = supervisor::optional_positive_of(
        args[4],
        "target creation time"@,
        0,
        u64::MAX as int,
    );
    if pid is Err {
        Err(pid->Err_0)
    } else if start is Err {
        Err(start->Err_0)
    } else {
        match (pid->Ok_0, start->Ok_0) {
            (Some(pid), Some(start)) => Ok(Some((pid as u32, start as u64))),
            (None, None) => Ok(None),
            _ => Err(Fault::Fail("Windows worker target identity is incomplete"@)),
        }
    }
}

/// What the words for a charge say: a target and the way to it, nothing, or what is wrong.
pub open spec fn worker_charge_of(args: Seq<Seq<char>>) -> Result<Option<(i32, bool)>, Fault> {
    match supervisor::optional_target_of(args[5]) {
        Err(e) => Err(e),
        Ok(target) => {
            let raw = args[6];
            if raw.len() != 0 && raw != "up"@ && raw != "down"@ {
                Err(Fault::Fail("Windows worker has an invalid charge direction"@))
            } else {
                match (target, raw.len() != 0) {
                    (Some(target), true) => Ok(Some((target, raw == "up"@))),
                    (None, false) => Ok(None),
                    _ => Err(Fault::Fail("Windows worker charge identity is incomplete"@)),
                }
            }
        },
    }
}

/// What the words before the target say: whether the display may sleep and how long to stay.
pub open spec fn worker_start_of(args: Seq<Seq<char>>) -> Result<(bool, Option<u64>), Fault> {
    if args.len() != 11 {
        Err(Fault::Fail("Windows worker expects exactly 10 arguments"@))
    } else if !session::known_mode(args[1]) {
        Err(Fault::Fail("Windows worker has an invalid mode"@))
    } else {
        match supervisor::optional_positive_of(args[2], "timeout"@, 0, u64::MAX as int) {
            Err(e) => Err(e),
            Ok(timeout) => Ok(
                (
                    args[1] == "system-only"@,
                    match timeout {
                        Some(t) => Some(t as u64),
                        None => None,
                    },
                ),
            ),
        }
    }
}

/// What the words of a worker's command say. `live` tells whether the process that it waits for is
/// alive, `pid` and `identity` who the worker is.
pub open spec fn worker_facts(
    args: Seq<Seq<char>>,
    live: Result<bool, Fault>,
    pid: u32,
    identity: Result<(u64, Seq<char>), Fault>,
) -> Result<WorkerFacts, Fault> {
    let start = worker_start_of(args);
    let target = worker_target_of(args);
    let charge = worker_charge_of(args);
    let started_at = time::utc_of(args[9], "start time"@);
    let ends_at = supervisor::optional_utc_of(args[10], "end time"@);
    if start is Err {
        Err(start->Err_0)
    } else if target is Err {
        Err(target->Err_0)
    } else if target->Ok_0 is Some && live is Err {
        Err(live->Err_0)
    } else if target->Ok_0 is Some && !live->Ok_0 {
        Err(Fault::Fail("target process identity is no longer live"@))
    } else if charge is Err {
        Err(charge->Err_0)
    } else if identity is Err {
        Err(identity->Err_0)
    } else if started_at is Err {
        Err(started_at->Err_0)
    } else if ends_at is Err {
        Err(ends_at->Err_0)
    } else {
        Ok(
            WorkerFacts {
                no_display: start->Ok_0.0,
                timeout: start->Ok_0.1,
                target: target->Ok_0,
                charge: charge->Ok_0,
                session: Record {
                    pid,
                    mode: args[1],
                    trigger: args[7],
                    detail: args[8],
                    started_at: Some(started_at->Ok_0),
                    ends_at: ends_at->Ok_0,
                    process_start: identity->Ok_0.0,
                    process_command: identity->Ok_0.1,
                    even_lid: false,
                    lid: session::no_lid(),
                },
            },
        )
    }
}

fn parse_start(args: &[String]) -> (r: Result<(bool, Option<u64>), AppError>)
    ensures
        outcome(r) == worker_start_of(text::texts(args@)),
{
    if args.len() != 11 {
        return Err(AppError::fail("Windows worker expects exactly 10 arguments"));
    }
    let ghost words = text::texts(args@);
    if !session::is_known_mode(args[1].as_str()) {
        return Err(AppError::fail("Windows worker has an invalid mode"));
    }
    match supervisor::optional_positive::<u64>(args[2].as_str(), "timeout") {
        Err(e) => Err(e),
        Ok(timeout) => Ok((text::same(args[1].as_str(), "system-only"), timeout)),
    }
}

fn parse_target(args: &[String]) -> (r: Result<Option<(u32, u64)>, AppError>)
    requires
        args@.len() == 11,
    ensures
        outcome(r) == worker_target_of(text::texts(args@)),
{
    let ghost words = text::texts(args@);
    let pid = match supervisor::optional_positive::<u32>(args[3].as_str(), "target pid") {
        Err(e) => return Err(e),
        Ok(pid) => pid,
    };
    let start = match supervisor::optional_positive::<u64>(args[4].as_str(), "target creation time") {
        Err(e) => return Err(e),
        Ok(start) => start,
    };
    match (pid, start) {
        (Some(pid), Some(start)) => Ok(Some((pid, start))),
        (None, None) => Ok(None),
        _ => Err(AppError::fail("Windows worker target identity is incomplete")),
    }
}

fn parse_charge(args: &[String]) -> (r: Result<Option<(i32, bool)>, AppError>)
    requires
        args@.len() == 11,
    ensures
        outcome(r) == worker_charge_of(text::texts(args@)),
{
    let ghost words = text::texts(args@);
    let target = match supervisor::optional_target(args[5].as_str()) {
        Err(e) => return Err(e),
        Ok(target) => target,
    };
    let raw = args[6].as_str();
    let up = text::same(raw, "up");
    if !raw.is_empty() && !up && !text::same(raw, "down") {
        return Err(AppError::fail("Windows worker has an invalid charge direction"));
    }
    match (target, !raw.is_empty()) {
        (Some(target), true) => Ok(Some((target, up))),
        (None, false) => Ok(None),
        _ => Err(AppError::fail("Windows worker charge identity is incomplete")),
    }
}

/// The process that has to be looked up before the rest of a worker's command can be read, if the
/// reading gets that far.
pub fn worker_target(args: &[String]) -> (r: Option<(u32, u64)>)
    ensures
        r == (if worker_start_of(text::texts(args@)) is Ok {
            match worker_target_of(text::texts(args@)) {
                Ok(target) => target,
                Err(_) => None,
            }
        } else {
            None
        }),
{
    match parse_start(args) {
        Err(_) => None,
        Ok(_) => match parse_target(args) {
            Ok(target) => target,
            Err(_) => None,
        },
    }
}

/// What the words of a worker's command say.
pub fn parse_worker_args(
    args: &[String],
    live: Result<bool, AppError>,
    pid: u32,
    identity: Result<Identity, AppError>,
) -> (r: Result<WorkerSpec, AppError>)
    ensures
        viewed(r) == worker_facts(text::texts(args@), outcome(live), pid, viewed(identity)),
        r matches Ok(spec) ==> spec.session@.well_formed(),
{
    let (no_display, timeout) = match parse_start(args) {
        Err(e) => return Err(e),
        Ok(start) => start,
    };
    let ghost words = text::texts(args@);
    let target = match parse_target(args) {
        Err(e) => return Err(e),
        Ok(target) => target,
    };
    if target.is_some() {
        match live {
            Err(e) => return Err(e),
            Ok(live) => if !live {
                return Err(AppError::fail("target process identity is no longer live"));
            },
        }
    }
    let charge = match parse_charge(args) {
        Err(e) => return Err(e),
        Ok(charge) => charge,
    };
    let identity = match identity {
        Err(e) => return Err(e),
        Ok(identity) => identity,
    };
    let started_at = match session::parse_utc(args[9].as_str(), "start time") {
        Err(e) => return Err(e),
        Ok(t) => t,
    };
    let ends_at = match supervisor::optional_utc(args[10].as_str(), "end time") {
        Err(e) => return Err(e),
        Ok(t) => t,
    };
    let mut session = Session::default();
    session.pid = pid;
    session.mode = args[1].clone();
    session.trigger = args[7].clone();
    session.detail = args[8].clone();
    session.started_at = Some(started_at);
    session.ends_at = ends_at;
    session.process_start = identity.start;
    session.process_command = identity.command;
    Ok(WorkerSpec { no_display, timeout, target, charge, session })
}

/// A worker reads from its command what it was given: the same session, without the lid whatever
/// the session says of it, and the same conditions. Its instants are ones that are read back
/// from their texts.
pub proof fn law_workers_read_their_command(
    s: Record,
    timeout_sec: Option<i64>,
    target: Option<(u32, u64)>,
    charge: Option<(i32, bool)>,
    pid: u32,
    identity: (u64, Seq<char>),
)
    requires
        worker_command_of(Ok(Seq::empty()), s, timeout_sec, target, charge) is Ok,
        target matches Some((p, t)) ==> p != 0 && t != 0,
        charge matches Some((c, _)) ==> 1 <= c <= 100,
        session::instants_round_trip(s),
    ensures
        worker_facts(worker_words(s, timeout_sec, target, charge), Ok(true), pid, Ok(identity))
            == Ok::<WorkerFacts, Fault>(
            WorkerFacts {
                no_display: s.mode == "system-only"@,
                timeout: match timeout_sec {
                    Some(t) => Some(t as u64),
                    None => None,
                },
                target,
                charge,
                session: Record {
                    pid,
                    process_start: identity.0,
                    process_command: identity.1,
                    even_lid: false,
                    lid: session::no_lid(),
                    ..s
                },
            },
        ),
{
    let words = worker_words(s, timeout_sec, target, charge);
    match timeout_sec {
        Some(t) => {
            supervisor::lemma_positive(t as nat, "timeout"@, 0, u64::MAX as int);
        },
        None => {},
    }
    match target {
        Some((p, t)) => {
            supervisor::lemma_positive(p as nat, "target pid"@, 0, u32::MAX as int);
            supervisor::lemma_positive(t as nat, "target creation time"@, 0, u64::MAX as int);
        },
        None => {},
    }
    match charge {
        Some((c, _)) => {
            supervisor::lemma_target(c as int);
        },
        None => {},
    }
    reveal_strlit("up");
    reveal_strlit("down");
    assert("up"@.len() == 2 && "down"@.len() == 4);
    assert(worker_start_of(words) is Ok);
    assert(worker_target_of(words) == Ok::<Option<(u32, u64)>, Fault>(target));
    assert(worker_charge_of(words) == Ok::<Option<(i32, bool)>, Fault>(charge));
}

/// Whether a worker's time is over: at its end where it waits for an instant, by its timeout otherwise.
pub open spec fn lifetime_over(
    until: bool,
    ends_at: Option<Timestamp>,
    timeout: Option<u64>,
    now: Timestamp,
    elapsed: Span,
) -> bool {
    if until {
        ends_at matches Some(end) && !now.precedes(end)
    } else {
        timeout matches Some(t) && elapsed.seconds >= t
    }
}

fn is_lifetime_over(
    until: bool,
    ends_at: &Option<Timestamp>,
    timeout: &Option<u64>,
    now: &Timestamp,
    elapsed: &Span,
) -> (r: bool)
    ensures
        r == lifetime_over(until, *ends_at, *timeout, *now, *elapsed),
{
    if until {
        match ends_at {
            Some(end) => !now.is_before(end),
            None => false,
        }
    } else {
        match timeout {
            Some(t) => elapsed.seconds >= *t,
            None => false,
        }
    }
}

impl WorkerSpec {
    /// Whether the worker's time is over at `now`, so long after it started.
    pub fn lifetime_elapsed(&self, now: &Timestamp, elapsed: &Span) -> (r: bool)
        ensures
            r == lifetime_over(
                self@.session.trigger == "until-time"@,
                self@.session.ends_at,
                self@.timeout,
                *now,
                *elapsed,
            ),
    {
        is_lifetime_over(
            text::same(self.session.trigger.as_str(), "until-time"),
            &self.session.ends_at,
            &self.timeout,
            now,
            elapsed,
        )
    }

    /// What decides how long the worker stays.
    pub fn plan(&self) -> (r: WorkerPlan)
        ensures
            r == worker_plan(self@),
    {
        WorkerPlan {
            until: text::same(self.session.trigger.as_str(), "until-time"),
            ends_at: self.session.ends_at,
            timeout: self.timeout,
            waits_for_process: self.target.is_some(),
            charge: self.charge.is_some(),
            charge_target: match self.charge {
                Some((target, _)) => target,
                None => 0,
            },
            charge_up: match self.charge {
                Some((_, up)) => up,
                None => false,
            },
        }
    }
}

/// What decides how long a worker stays.
#[derive(Clone, Copy, Debug, PartialEq, Eq, Structural)]
pub struct WorkerPlan {
    pub until: bool,
    pub ends_at: Option<Timestamp>,
    pub timeout: Option<u64>,
    pub waits_for_process: bool,
    pub charge: bool,
    pub charge_target: i32,
    pub charge_up: bool,
}

/// What decides how long a worker stays that was told this.
pub open spec fn worker_plan(facts: WorkerFacts) -> WorkerPlan {
    WorkerPlan {
        until: facts.session.trigger == "until-time"@,
        ends_at: facts.session.ends_at,
        timeout: facts.timeout,
        waits_for_process: facts.target is Some,
        charge: facts.charge is Some,
        charge_target: match facts.charge {
            Some((target, _)) => target,
            None => 0,
        },
        charge_up: match facts.charge {
            Some((_, up)) => up,
            None => false,
        },
    }
}

/// What a worker or a guardian learns from the outside.
#[derive(Clone, Copy, Debug, PartialEq, Eq, Structural)]
pub enum ServiceEvent {
    /// What time it is, and how long it has been at work.
    Clock(Timestamp, Span),
    /// How long ago something was done last.
    Elapsed(Span),
    /// Whether a process runs.
    Running(bool),
    /// Whether the saved state grants what is asked for.
    Granted(bool),
    /// The charge, where it could be read.
    Battery(Option<i32>),
    Done,
    Failed,
}

impl ServiceEvent {
    /// Whether the event tells a time that the calendar has.
    pub open spec fn valid(self) -> bool {
        match self {
            ServiceEvent::Clock(now, elapsed) => now.valid() && elapsed.valid(),
            _ => true,
        }
    }
}

/// What a worker asks for.
#[derive(Clone, Copy, Debug, PartialEq, Eq, Structural)]
pub enum WorkerAction {
    /// Keep the machine awake from here on.
    Acquire,
    ReadClock,
    WriteSession,
    CheckProcess,
    /// Tell how long ago the battery was looked at last.
    ReadBatteryAge,
    /// Look at the battery, from now on counting anew.
    ReadBattery,
    Sleep(Span),
    /// Delete the saved state if it is still this worker's, and nobody else is at it.
    DeleteOwned,
    Succeed,
    /// Fail as what failed last.
    Fail,
    /// Fail because the battery cannot be read any more.
    FailBattery,
}

/// How far a worker has come.
#[derive(Clone, Copy, Debug, PartialEq, Eq, Structural)]
pub enum WorkerState {
    Acquiring,
    Checking,
    Writing,
    Looking { failures: u8 },
    CheckingProcess { failures: u8 },
    CheckingAge { failures: u8 },
    Polling { failures: u8 },
    Timing { failures: u8 },
    Sleeping { failures: u8, span: Span },
    Deleting,
    Succeeded,
    Failed,
    BatteryFailed,
}

impl WorkerState {
    /// Whether the count of failed looks is below the one that ends the waiting.
    pub open spec fn valid(self) -> bool {
        match self {
            WorkerState::Looking { failures } => failures < MAX_BATTERY_FAILURES,
            WorkerState::CheckingProcess { failures } => failures < MAX_BATTERY_FAILURES,
            WorkerState::CheckingAge { failures } => failures < MAX_BATTERY_FAILURES,
            WorkerState::Polling { failures } => failures < MAX_BATTERY_FAILURES,
            WorkerState::Timing { failures } => failures < MAX_BATTERY_FAILURES,
            WorkerState::Sleeping { failures, .. } => failures < MAX_BATTERY_FAILURES,
            _ => true,
        }
    }
}

/// What a worker asks for next.
pub open spec fn worker_action(state: WorkerState) -> WorkerAction {
    match state {
        WorkerState::Acquiring => WorkerAction::Acquire,
        WorkerState::Checking => WorkerAction::ReadClock,
        WorkerState::Writing => WorkerAction::WriteSession,
        WorkerState::Looking { .. } => WorkerAction::ReadClock,
        WorkerState::CheckingProcess { .. } => WorkerAction::CheckProcess,
        WorkerState::CheckingAge { .. } => WorkerAction::ReadBatteryAge,
        WorkerState::Polling { .. } => WorkerAction::ReadBattery,
        WorkerState::Timing { .. } => WorkerAction::ReadClock,
        WorkerState::Sleeping { span, .. } => WorkerAction::Sleep(span),
        WorkerState::Deleting => WorkerAction::DeleteOwned,
        WorkerState::Succeeded => WorkerAction::Succeed,
        WorkerState::Failed => WorkerAction::Fail,
        WorkerState::BatteryFailed => WorkerAction::FailBattery,
    }
}

/// The step of a worker behind the one that looks at its process.
pub open spec fn worker_past_process(plan: WorkerPlan, failures: u8) -> WorkerState {
    if plan.charge {
        WorkerState::CheckingAge { failures }
    } else {
        WorkerState::Timing { failures }
    }
}

/// Where a worker goes from `state` on `event`. It writes its session only if its time is not
/// over already, and then stays until its time is over, its process ends or the charge has come to
/// its target.
pub open spec fn worker_next(plan: WorkerPlan, state: WorkerState, event: ServiceEvent) -> WorkerState {
    match (state, event) {
        (WorkerState::Acquiring, ServiceEvent::Done) => WorkerState::Checking,
        (WorkerState::Acquiring, ServiceEvent::Failed) => WorkerState::Failed,
        (WorkerState::Checking, ServiceEvent::Clock(now, elapsed)) => if lifetime_over(
            plan.until,
            plan.ends_at,
            plan.timeout,
            now,
            elapsed,
        ) {
            WorkerState::Succeeded
        } else {
            WorkerState::Writing
        },
        (WorkerState::Writing, ServiceEvent::Done) => WorkerState::Looking { failures: 0 },
        (WorkerState::Writing, ServiceEvent::Failed) => WorkerState::Failed,
        (WorkerState::Looking { failures }, ServiceEvent::Clock(now, elapsed)) => {
            if lifetime_over(plan.until, plan.ends_at, plan.timeout, now, elapsed) {
                WorkerState::Deleting
            } else if plan.waits_for_process {
                WorkerState::CheckingProcess { failures }
            } else {
                worker_past_process(plan, failures)
            }
        },
        (WorkerState::CheckingProcess { failures }, ServiceEvent::Running(running)) => if running {
            worker_past_process(plan, failures)
        } else {
            WorkerState::Deleting
        },
        (WorkerState::CheckingProcess { .. }, ServiceEvent::Failed) => WorkerState::Failed,
        (WorkerState::CheckingAge { failures }, ServiceEvent::Elapsed(age)) => {
            if age.seconds >= POLL_SECONDS {
                WorkerState::Polling { failures }
            } else {
                WorkerState::Timing { failures }
            }
        },
        (WorkerState::Polling { failures }, ServiceEvent::Battery(percent)) => {
            let (poll, failures) = battery_poll(
                plan.charge_target,
                plan.charge_up,
                failures,
                percent,
            );
            match poll {
                BatteryPoll::Continue => WorkerState::Timing { failures: failures as u8 },
                BatteryPoll::Reached => WorkerState::Deleting,
                BatteryPoll::Failed => WorkerState::BatteryFailed,
            }
        },
        (WorkerState::Timing { failures }, ServiceEvent::Clock(now, _)) => match sleep_span(
            if plan.until {
                plan.ends_at
            } else {
                None
            },
            now,
            Span { seconds: 0, nanos: 250_000_000 },
        ) {
            Some(span) => WorkerState::Sleeping { failures, span },
            None => WorkerState::Deleting,
        },
        (WorkerState::Sleeping { failures, .. }, ServiceEvent::Done) => WorkerState::Looking {
            failures,
        },
        (WorkerState::Deleting, ServiceEvent::Done) => WorkerState::Succeeded,
        (WorkerState::Deleting, ServiceEvent::Failed) => WorkerState::Succeeded,
        _ => state,
    }
}

/// What a worker asks for next.
pub fn worker_asks(state: WorkerState) -> (r: WorkerAction)
    ensures
        r == worker_action(state),
{
    match state {
        WorkerState::Acquiring => WorkerAction::Acquire,
        WorkerState::Checking => WorkerAction::ReadClock,
        WorkerState::Writing => WorkerAction::WriteSession,
        WorkerState::Looking { .. } => WorkerAction::ReadClock,
        WorkerState::CheckingProcess { .. } => WorkerAction::CheckProcess,
        WorkerState::CheckingAge { .. } => WorkerAction::ReadBatteryAge,
        WorkerState::Polling { .. } => WorkerAction::ReadBattery,
        WorkerState::Timing { .. } => WorkerAction::ReadClock,
        WorkerState::Sleeping { span, .. } => WorkerAction::Sleep(span),
        WorkerState::Deleting => WorkerAction::DeleteOwned,
        WorkerState::Succeeded => WorkerAction::Succeed,
        WorkerState::Failed => WorkerAction::Fail,
        WorkerState::BatteryFailed => WorkerAction::FailBattery,
    }
}

/// The error of a worker whose battery cannot be read any more.
pub fn battery_unavailable() -> (r: AppError)
    ensures
        r@ == Fault::Fail("battery status remained unavailable"@),
{
    AppError::fail("battery status remained unavailable")
}

fn past_process(plan: &WorkerPlan, failures: u8) -> (r: WorkerState)
    ensures
        r == worker_past_process(*plan, failures),
{
    if plan.charge {
        WorkerState::CheckingAge { failures }
    } else {
        WorkerState::Timing { failures }
    }
}

/// Where a worker goes from `state` on `event`.
pub fn run_worker(plan: &WorkerPlan, state: WorkerState, event: ServiceEvent) -> (r: WorkerState)
    requires
        plan.ends_at matches Some(t) ==> t.valid(),
        state.valid(),
        event.valid(),
    ensures
        r == worker_next(*plan, state, event),
        r.valid(),
{
    match (state, event) {
        (WorkerState::Acquiring, ServiceEvent::Done) => WorkerState::Checking,
        (WorkerState::Acquiring, ServiceEvent::Failed) => WorkerState::Failed,
        (WorkerState::Checking, ServiceEvent::Clock(now, elapsed)) => {
            if is_lifetime_over(plan.until, &plan.ends_at, &plan.timeout, &now, &elapsed) {
                WorkerState::Succeeded
            } else {
                WorkerState::Writing
            }
        },
        (WorkerState::Writing, ServiceEvent::Done) => WorkerState::Looking { failures: 0 },
        (WorkerState::Writing, ServiceEvent::Failed) => WorkerState::Failed,
        (WorkerState::Looking { failures }, ServiceEvent::Clock(now, elapsed)) => {
            if is_lifetime_over(plan.until, &plan.ends_at, &plan.timeout, &now, &elapsed) {
                WorkerState::Deleting
            } else if plan.waits_for_process {
                WorkerState::CheckingProcess { failures }
            } else {
                past_process(plan, failures)
            }
        },
        (WorkerState::CheckingProcess { failures }, ServiceEvent::Running(running)) => if running {
            past_process(plan, failures)
        } else {
            WorkerState::Deleting
        },
        (WorkerState::CheckingProcess { .. }, ServiceEvent::Failed) => WorkerState::Failed,
        (WorkerState::CheckingAge { failures }, ServiceEvent::Elapsed(age)) => {
            if age.seconds >= POLL_SECONDS {
                WorkerState::Polling { failures }
            } else {
                WorkerState::Timing { failures }
            }
        },
        (WorkerState::Polling { failures }, ServiceEvent::Battery(percent)) => {
            let mut count: u8 = failures;
            match supervisor::poll_battery(
                plan.charge_target,
                plan.charge_up,
                &mut count,
                percent,
            ) {
                BatteryPoll::Continue => WorkerState::Timing { failures: count },
                BatteryPoll::Reached => WorkerState::Deleting,
                BatteryPoll::Failed => WorkerState::BatteryFailed,
            }
        },
        (WorkerState::Timing { failures }, ServiceEvent::Clock(now, _)) => {
            let deadline = if plan.until {
                plan.ends_at
            } else {
                None
            };
            match supervisor::poll_interval(deadline, now, Span { seconds: 0, nanos: 250_000_000 }) {
                Some(span) => WorkerState::Sleeping { failures, span },
                None => WorkerState::Deleting,
            }
        },
        (WorkerState::Sleeping { failures, .. }, ServiceEvent::Done) => WorkerState::Looking {
            failures,
        },
        (WorkerState::Deleting, ServiceEvent::Done) => WorkerState::Succeeded,
        (WorkerState::Deleting, ServiceEvent::Failed) => WorkerState::Succeeded,
        _ => state,
    }
}

/// A worker writes its session only while its time is not over, and once it has written it succeeds
/// only from deleting it.
pub proof fn law_workers_delete_what_they_wrote(
    plan: WorkerPlan,
    state: WorkerState,
    event: ServiceEvent,
)
    ensures
        worker_next(plan, state, event) is Writing && state !is Writing ==> (event matches
            ServiceEvent::Clock(now, elapsed) && !lifetime_over(
            plan.until,
            plan.ends_at,
            plan.timeout,
            now,
            elapsed,
        )),
        worker_next(plan, state, event) is Succeeded && state !is Succeeded ==> state is Checking
            || state is Deleting,
{
}

/// Whether the saved state is a worker's own, and so its to delete.
pub fn owns_saved(pid: u32, start: u64, saved: &Option<SavedState>) -> (r: bool)
    ensures
        r == (maybe_saved(*saved) matches Some(Saved::Valid(s)) && !s.even_lid && s.pid == pid
            && s.process_start == start),
{
    match saved {
        Some(SavedState::Valid(session)) => session.owned_non_lid_by(pid, start),
        _ => false,
    }
}

/// What a guardian was told: whose lid actions to watch over, and what to put back.
#[derive(Debug)]
pub struct GuardianArgs {
    pub worker_pid: u32,
    pub worker_start: u64,
    pub scheme: String,
    pub ac: u32,
    pub dc: u32,
    pub restore_without_worker: bool,
    pub deadline: Option<Timestamp>,
    pub state_path: String,
}

/// What `GuardianArgs` say.
pub struct GuardianFacts {
    pub worker_pid: u32,
    pub worker_start: u64,
    pub scheme: Seq<char>,
    pub ac: u32,
    pub dc: u32,
    pub restore_without_worker: bool,
    pub deadline: Option<Timestamp>,
    pub state_path: Seq<char>,
}

impl View for GuardianArgs {
    type V = GuardianFacts;

    open spec fn view(&self) -> GuardianFacts {
        GuardianFacts {
            worker_pid: self.worker_pid,
            worker_start: self.worker_start,
            scheme: self.scheme@,
            ac: self.ac,
            dc: self.dc,
            restore_without_worker: self.restore_without_worker,
            deadline: self.deadline,
            state_path: self.state_path@,
        }
    }
}

/// What the words of a guardian's command say.
pub open spec fn guardian_facts(args: Seq<Seq<char>>) -> Result<GuardianFacts, Fault> {
    let scheme = platform::windows::guid_of(args[3]);
    let restore = session::bool_of(args[6], "restore-without-worker"@);
    let deadline = supervisor::optional_utc_of(args[7], "guardian deadline"@);
    let pid = session::positive_of(args[1], "worker pid"@, 0, u32::MAX as int);
    let start = session::positive_of(args[2], "worker creation time"@, 0, u64::MAX as int);
    let ac = session::u32_of(args[4], "original AC value"@);
    let dc = session::u32_of(args[5], "original DC value"@);
    if args.len() != 9 {
        Err(Fault::Fail("Windows guardian expects eight immutable arguments"@))
    } else if scheme is Err {
        Err(scheme->Err_0)
    } else if restore is Err {
        Err(restore->Err_0)
    } else if deadline is Err {
        Err(deadline->Err_0)
    } else if restore->Ok_0 && deadline->Ok_0 is Some {
        Err(Fault::Fail("recovery guardian received an unexpected deadline"@))
    } else if !platform::absolute(Platform::Windows, args[8]) {
        Err(Fault::Fail("guardian state path must be absolute"@))
    } else if pid is Err {
        Err(pid->Err_0)
    } else if start is Err {
        Err(start->Err_0)
    } else if ac is Err {
        Err(ac->Err_0)
    } else if dc is Err {
        Err(dc->Err_0)
    } else {
        Ok(
            GuardianFacts {
                worker_pid: pid->Ok_0 as u32,
                worker_start: start->Ok_0 as u64,
                scheme: args[3],
                ac: ac->Ok_0,
                dc: dc->Ok_0,
                restore_without_worker: restore->Ok_0,
                deadline: deadline->Ok_0,
                state_path: args[8],
            },
        )
    }
}

pub fn parse_guardian_args(args: &[String]) -> (r: Result<GuardianArgs, AppError>)
    ensures
        viewed(r) == guardian_facts(text::texts(args@)),
        r matches Ok(a) ==> (a.deadline matches Some(t) ==> t.valid()),
{
    if args.len() != 9 {
        return Err(AppError::fail("Windows guardian expects eight immutable arguments"));
    }
    let ghost words = text::texts(args@);
    match platform::windows::parse_guid(args[3].as_str()) {
        Err(e) => return Err(e),
        Ok(_) => {},
    }
    let restore_without_worker = match session::parse_bool(
        args[6].as_str(),
        "restore-without-worker",
    ) {
        Err(e) => return Err(e),
        Ok(b) => b,
    };
    let deadline = match supervisor::optional_utc(args[7].as_str(), "guardian deadline") {
        Err(e) => return Err(e),
        Ok(t) => t,
    };
    if restore_without_worker && deadline.is_some() {
        return Err(AppError::fail("recovery guardian received an unexpected deadline"));
    }
    if !platform::is_absolute(Platform::Windows, args[8].as_str()) {
        return Err(AppError::fail("guardian state path must be absolute"));
    }
    let worker_pid = match session::parse_positive::<u32>(args[1].as_str(), "worker pid") {
        Err(e) => return Err(e),
        Ok(pid) => pid,
    };
    let worker_start = match session::parse_positive::<u64>(
        args[2].as_str(),
        "worker creation time",
    ) {
        Err(e) => return Err(e),
        Ok(start) => start,
    };
    let ac = match session::parse_u32(args[4].as_str(), "original AC value") {
        Err(e) => return Err(e),
        Ok(ac) => ac,
    };
    let dc = match session::parse_u32(args[5].as_str(), "original DC value") {
        Err(e) => return Err(e),
        Ok(dc) => dc,
    };
    Ok(
        GuardianArgs {
            worker_pid,
            worker_start,
            scheme: args[3].clone(),
            ac,
            dc,
            restore_without_worker,
            deadline,
            state_path: args[8].clone(),
        },
    )
}

/// A guardian reads from its command what it was given, where that makes sense: a worker, a power scheme, an
/// absolute path, and a deadline only where it starts with the worker. Its deadline is one that
/// is read back from its text.
pub proof fn law_guardians_read_their_command(
    worker: (u32, u64),
    original: (Seq<char>, u32, u32),
    restore_without_worker: bool,
    deadline: Option<Timestamp>,
    state_path: Seq<char>,
)
    requires
        worker.0 != 0 && worker.1 != 0,
        platform::windows::guid_of(original.0) is Ok,
        platform::absolute(Platform::Windows, state_path),
        deadline matches Some(t) ==> !restore_without_worker && session::instant_round_trips(t),
    ensures
        guardian_facts(
            sysutil::windows::guardian_words(
                worker,
                original,
                restore_without_worker,
                deadline,
                state_path,
            ),
        ) == Ok::<GuardianFacts, Fault>(
            GuardianFacts {
                worker_pid: worker.0,
                worker_start: worker.1,
                scheme: original.0,
                ac: original.1,
                dc: original.2,
                restore_without_worker,
                deadline,
                state_path,
            },
        ),
{
    supervisor::lemma_positive(worker.0 as nat, "worker pid"@, 0, u32::MAX as int);
    supervisor::lemma_positive(worker.1 as nat, "worker creation time"@, 0, u64::MAX as int);
    lemma_u32(original.1, "original AC value"@);
    lemma_u32(original.2, "original DC value"@);
    reveal_strlit("true");
    reveal_strlit("false");
    assert("true"@.len() == 4 && "false"@.len() == 5);
}

proof fn lemma_u32(n: u32, name: Seq<char>)
    ensures
        session::u32_of(text::decimal(n as nat), name) == Ok::<u32, Fault>(n),
{
    text::lemma_decimal(n as nat);
    let d = text::decimal(n as nat);
    assert(text::digit(d[0]));
}

/// The session with which the lid is granted to a guardian: the worker's own, still without the
/// lid, which must match what the guardian was told.
pub open spec fn promoted(
    s: Record,
    args: GuardianFacts,
    guardian: (u32, u64),
    worker: (u64, Seq<char>),
) -> Result<Record, Fault> {
    let expected = if s.trigger == "until-time"@ {
        s.ends_at
    } else {
        None
    };
    if s.even_lid || s.pid != args.worker_pid || s.process_start != args.worker_start
        || !s.is_process(Platform::Windows, worker) || args.deadline != expected {
        Err(Fault::Fail("startup guardian state does not match its immutable arguments"@))
    } else {
        Ok(
            Record {
                even_lid: true,
                lid: LidRecord {
                    guardian_pid: guardian.0,
                    guardian_start: guardian.1,
                    original_scheme: args.scheme,
                    original_ac: args.ac,
                    original_dc: args.dc,
                    ..s.lid
                },
                ..s
            },
        )
    }
}

fn same_instant(a: &Option<Timestamp>, b: &Option<Timestamp>) -> (r: bool)
    ensures
        r == (*a == *b),
{
    match (a, b) {
        (None, None) => true,
        (Some(a), Some(b)) => a.seconds == b.seconds && a.nanos == b.nanos,
        _ => false,
    }
}

pub fn promote_startup_guardian_authority(
    saved: Session,
    args: &GuardianArgs,
    guardian: (u32, u64),
    worker_identity: &Identity,
) -> (r: Result<Session, AppError>)
    ensures
        viewed(r) == promoted(saved@, args@, guardian, worker_identity@),
{
    let expected = if text::same(saved.trigger.as_str(), "until-time") {
        saved.ends_at
    } else {
        None
    };
    if !saved.owned_non_lid_by(args.worker_pid, args.worker_start) || !saved.matches_identity(
        Platform::Windows,
        worker_identity,
    ) || !same_instant(&args.deadline, &expected) {
        return Err(
            AppError::fail("startup guardian state does not match its immutable arguments"),
        );
    }
    let mut saved = saved;
    saved.even_lid = true;
    saved.guardian_pid = guardian.0;
    saved.guardian_start = guardian.1;
    saved.original_scheme = args.scheme.clone();
    saved.original_ac = args.ac;
    saved.original_dc = args.dc;
    Ok(saved)
}

/// The session with which the lid is granted to a guardian, from the state that it found.
pub fn startup_guardian_authority(
    saved: Option<SavedState>,
    args: &GuardianArgs,
    guardian: (u32, u64),
    worker_identity: &Identity,
) -> (r: Result<Session, AppError>)
    ensures
        viewed(r) == (match maybe_saved(saved) {
            Some(Saved::Valid(s)) => promoted(s, args@, guardian, worker_identity@),
            _ => Err(Fault::Fail("startup guardian did not find provisional worker state"@)),
        }),
{
    match saved {
        Some(SavedState::Valid(session)) => promote_startup_guardian_authority(
            session,
            args,
            guardian,
            worker_identity,
        ),
        _ => Err(AppError::fail("startup guardian did not find provisional worker state")),
    }
}

/// The lid is granted only to the guardian, for the worker that it was told of and with just what it
/// is to put back.
pub proof fn law_promotion_grants_just_what_was_told(
    s: Record,
    args: GuardianFacts,
    guardian: (u32, u64),
    worker: (u64, Seq<char>),
)
    ensures
        promoted(s, args, guardian, worker) matches Ok(p) ==> !s.even_lid && p.even_lid && (
            p.pid,
            p.process_start,
        ) == (args.worker_pid, args.worker_start) && (p.lid.guardian_pid, p.lid.guardian_start)
            == guardian && p.lid.original_scheme == args.scheme && p.lid.original_ac == args.ac
            && p.lid.original_dc == args.dc && p.mode == s.mode && p.trigger == s.trigger
            && p.detail == s.detail && p.started_at == s.started_at && p.ends_at == s.ends_at
            && p.process_command == s.process_command,
{
}

/// Whether a guardian may still take over the lid actions.
pub open spec fn may_enable(deadline: Option<Timestamp>, now: Timestamp, running: bool) -> bool {
    running && (deadline matches Some(t) ==> now.precedes(t))
}

pub fn startup_guardian_should_enable(
    deadline: Option<Timestamp>,
    now: Timestamp,
    worker_running: bool,
) -> (r: bool)
    ensures
        r == may_enable(deadline, now, worker_running),
{
    worker_running && match deadline {
        Some(t) => now.is_before(&t),
        None => true,
    }
}

/// What a guardian asks for.
#[derive(Clone, Copy, Debug, PartialEq, Eq, Structural)]
pub enum GuardianAction {
    /// Tell how long it has been waiting.
    ReadAge,
    /// Look whether the saved state grants the lid to it.
    CheckGrant,
    /// Find the worker; it is not granted where there is none.
    OpenWorker,
    /// Work out the session that grants the lid to it.
    PrepareGrant,
    ReadClock,
    CheckWorker,
    /// See that nothing has changed since the lid actions were recorded.
    Preflight,
    /// Save the session that grants the lid to it.
    WriteGrant,
    Enable,
    Sleep(Span),
    Restore,
    Succeed,
    /// Fail as what failed last.
    Fail,
    /// Fail because the grant did not appear.
    FailGrant,
}

/// How far a guardian has come.
#[derive(Clone, Copy, Debug, PartialEq, Eq, Structural)]
pub enum GuardianState {
    Waiting,
    CheckingGrant,
    Pausing,
    Opening,
    Preparing,
    Timing,
    CheckingWorker(Timestamp),
    Preflight,
    TimingAgain,
    CheckingWorkerAgain(Timestamp),
    Writing,
    Enabling,
    Watching,
    Sleeping,
    Restoring,
    Succeeded,
    Failed,
    NotGranted,
}

/// Where a guardian starts: a recovery waits for its grant, a startup looks for the worker.
pub open spec fn guardian_start(restore_without_worker: bool) -> GuardianState {
    if restore_without_worker {
        GuardianState::Waiting
    } else {
        GuardianState::Opening
    }
}

/// What a guardian asks for next.
pub open spec fn guardian_action(state: GuardianState) -> GuardianAction {
    match state {
        GuardianState::Waiting => GuardianAction::ReadAge,
        GuardianState::CheckingGrant => GuardianAction::CheckGrant,
        GuardianState::Pausing => GuardianAction::Sleep(Span { seconds: 0, nanos: 100_000_000 }),
        GuardianState::Opening => GuardianAction::OpenWorker,
        GuardianState::Preparing => GuardianAction::PrepareGrant,
        GuardianState::Timing => GuardianAction::ReadClock,
        GuardianState::CheckingWorker(_) => GuardianAction::CheckWorker,
        GuardianState::Preflight => GuardianAction::Preflight,
        GuardianState::TimingAgain => GuardianAction::ReadClock,
        GuardianState::CheckingWorkerAgain(_) => GuardianAction::CheckWorker,
        GuardianState::Writing => GuardianAction::WriteGrant,
        GuardianState::Enabling => GuardianAction::Enable,
        GuardianState::Watching => GuardianAction::CheckWorker,
        GuardianState::Sleeping => GuardianAction::Sleep(Span { seconds: 0, nanos: 250_000_000 }),
        GuardianState::Restoring => GuardianAction::Restore,
        GuardianState::Succeeded => GuardianAction::Succeed,
        GuardianState::Failed => GuardianAction::Fail,
        GuardianState::NotGranted => GuardianAction::FailGrant,
    }
}

/// Where a guardian goes from `state` on `event`. A recovery restores the lid actions once the saved
/// state grants it to, within half a minute. A startup saves its grant only while the worker
/// runs and its deadline is to come, takes the lid actions over only after that, and
/// restores them when the worker has ended.
pub open spec fn guardian_next(
    deadline: Option<Timestamp>,
    state: GuardianState,
    event: ServiceEvent,
) -> GuardianState {
    match (state, event) {
        (GuardianState::Waiting, ServiceEvent::Elapsed(age)) => if age.seconds >= 30 {
            GuardianState::NotGranted
        } else {
            GuardianState::CheckingGrant
        },
        (GuardianState::CheckingGrant, ServiceEvent::Granted(granted)) => if granted {
            GuardianState::Restoring
        } else {
            GuardianState::Pausing
        },
        (GuardianState::Pausing, ServiceEvent::Done) => GuardianState::Waiting,
        (GuardianState::Opening, ServiceEvent::Granted(found)) => if found {
            GuardianState::Preparing
        } else {
            GuardianState::Succeeded
        },
        (GuardianState::Preparing, ServiceEvent::Done) => GuardianState::Timing,
        (GuardianState::Timing, ServiceEvent::Clock(now, _)) => GuardianState::CheckingWorker(now),
        (GuardianState::CheckingWorker(now), ServiceEvent::Running(running)) => if may_enable(
            deadline,
            now,
            running,
        ) {
            GuardianState::Preflight
        } else {
            GuardianState::Succeeded
        },
        (GuardianState::Preflight, ServiceEvent::Done) => GuardianState::TimingAgain,
        (GuardianState::TimingAgain, ServiceEvent::Clock(now, _)) => {
            GuardianState::CheckingWorkerAgain(now)
        },
        (GuardianState::CheckingWorkerAgain(now), ServiceEvent::Running(running)) => if may_enable(
            deadline,
            now,
            running,
        ) {
            GuardianState::Writing
        } else {
            GuardianState::Succeeded
        },
        (GuardianState::Writing, ServiceEvent::Done) => GuardianState::Enabling,
        (GuardianState::Enabling, ServiceEvent::Done) => GuardianState::Watching,
        (GuardianState::Watching, ServiceEvent::Running(running)) => if running {
            GuardianState::Sleeping
        } else {
            GuardianState::Restoring
        },
        (GuardianState::Sleeping, ServiceEvent::Done) => GuardianState::Watching,
        (GuardianState::Restoring, ServiceEvent::Done) => GuardianState::Succeeded,
        (GuardianState::Succeeded, _) => state,
        (GuardianState::NotGranted, _) => state,
        (_, ServiceEvent::Failed) => GuardianState::Failed,
        _ => state,
    }
}

/// Where a guardian starts.
pub fn begin_guardian(restore_without_worker: bool) -> (r: GuardianState)
    ensures
        r == guardian_start(restore_without_worker),
{
    if restore_without_worker {
        GuardianState::Waiting
    } else {
        GuardianState::Opening
    }
}

/// What a guardian asks for next.
pub fn guardian_asks(state: GuardianState) -> (r: GuardianAction)
    ensures
        r == guardian_action(state),
{
    match state {
        GuardianState::Waiting => GuardianAction::ReadAge,
        GuardianState::CheckingGrant => GuardianAction::CheckGrant,
        GuardianState::Pausing => GuardianAction::Sleep(Span { seconds: 0, nanos: 100_000_000 }),
        GuardianState::Opening => GuardianAction::OpenWorker,
        GuardianState::Preparing => GuardianAction::PrepareGrant,
        GuardianState::Timing => GuardianAction::ReadClock,
        GuardianState::CheckingWorker(_) => GuardianAction::CheckWorker,
        GuardianState::Preflight => GuardianAction::Preflight,
        GuardianState::TimingAgain => GuardianAction::ReadClock,
        GuardianState::CheckingWorkerAgain(_) => GuardianAction::CheckWorker,
        GuardianState::Writing => GuardianAction::WriteGrant,
        GuardianState::Enabling => GuardianAction::Enable,
        GuardianState::Watching => GuardianAction::CheckWorker,
        GuardianState::Sleeping => GuardianAction::Sleep(Span { seconds: 0, nanos: 250_000_000 }),
        GuardianState::Restoring => GuardianAction::Restore,
        GuardianState::Succeeded => GuardianAction::Succeed,
        GuardianState::Failed => GuardianAction::Fail,
        GuardianState::NotGranted => GuardianAction::FailGrant,
    }
}

/// The error of a guardian whose grant did not appear.
pub fn not_granted() -> (r: AppError)
    ensures
        r@ == Fault::Fail("guardian authorization state did not appear"@),
{
    AppError::fail("guardian authorization state did not appear")
}

/// Where a guardian goes from `state` on `event`.
pub fn run_guardian(deadline: Option<Timestamp>, state: GuardianState, event: ServiceEvent) -> (r:
    GuardianState)
    ensures
        r == guardian_next(deadline, state, event),
{
    match (state, event) {
        (GuardianState::Waiting, ServiceEvent::Elapsed(age)) => if age.seconds >= 30 {
            GuardianState::NotGranted
        } else {
            GuardianState::CheckingGrant
        },
        (GuardianState::CheckingGrant, ServiceEvent::Granted(granted)) => if granted {
            GuardianState::Restoring
        } else {
            GuardianState::Pausing
        },
        (GuardianState::Pausing, ServiceEvent::Done) => GuardianState::Waiting,
        (GuardianState::Opening, ServiceEvent::Granted(found)) => if found {
            GuardianState::Preparing
        } else {
            GuardianState::Succeeded
        },
        (GuardianState::Preparing, ServiceEvent::Done) => GuardianState::Timing,
        (GuardianState::Timing, ServiceEvent::Clock(now, _)) => GuardianState::CheckingWorker(now),
        (GuardianState::CheckingWorker(now), ServiceEvent::Running(running)) => {
            if startup_guardian_should_enable(deadline, now, running) {
                GuardianState::Preflight
            } else {
                GuardianState::Succeeded
            }
        },
        (GuardianState::Preflight, ServiceEvent::Done) => GuardianState::TimingAgain,
        (GuardianState::TimingAgain, ServiceEvent::Clock(now, _)) => {
            GuardianState::CheckingWorkerAgain(now)
        },
        (GuardianState::CheckingWorkerAgain(now), ServiceEvent::Running(running)) => {
            if startup_guardian_should_enable(deadline, now, running) {
                GuardianState::Writing
            } else {
                GuardianState::Succeeded
            }
        },
        (GuardianState::Writing, ServiceEvent::Done) => GuardianState::Enabling,
        (GuardianState::Enabling, ServiceEvent::Done) => GuardianState::Watching,
        (GuardianState::Watching, ServiceEvent::Running(running)) => if running {
            GuardianState::Sleeping
        } else {
            GuardianState::Restoring
        },
        (GuardianState::Sleeping, ServiceEvent::Done) => GuardianState::Watching,
        (GuardianState::Restoring, ServiceEvent::Done) => GuardianState::Succeeded,
        (GuardianState::Succeeded, _) => state,
        (GuardianState::NotGranted, _) => state,
        (_, ServiceEvent::Failed) => GuardianState::Failed,
        _ => state,
    }
}

/// Where a guardian stands after these events.
pub open spec fn guardian_after(
    restore_without_worker: bool,
    deadline: Option<Timestamp>,
    events: Seq<ServiceEvent>,
) -> GuardianState
    decreases events.len(),
{
    if events.len() == 0 {
        guardian_start(restore_without_worker)
    } else {
        guardian_next(
            deadline,
            guardian_after(restore_without_worker, deadline, events.drop_last()),
            events.last(),
        )
    }
}

/// Whether the grant was saved, and whether the lid actions were taken over and not yet restored, after
/// these events.
pub open spec fn guardian_did(
    restore_without_worker: bool,
    deadline: Option<Timestamp>,
    events: Seq<ServiceEvent>,
) -> (bool, bool)
    decreases events.len(),
{
    if events.len() == 0 {
        (false, false)
    } else {
        let before = events.drop_last();
        let did = guardian_did(restore_without_worker, deadline, before);
        let done = events.last() == ServiceEvent::Done;
        match guardian_action(guardian_after(restore_without_worker, deadline, before)) {
            GuardianAction::WriteGrant => (did.0 || done, did.1),
            GuardianAction::Enable => (did.0, did.1 || done),
            GuardianAction::Restore => (did.0, did.1 && !done),
            _ => did,
        }
    }
}

/// A guardian takes the lid actions over only after its grant was saved, and a guardian that succeeds
/// leaves none that it took over. A recovery takes nothing over.
pub proof fn law_guardians_restore_what_they_took(
    restore_without_worker: bool,
    deadline: Option<Timestamp>,
    events: Seq<ServiceEvent>,
)
    ensures
        ({
            let state = guardian_after(restore_without_worker, deadline, events);
            let did = guardian_did(restore_without_worker, deadline, events);
            &&& guardian_action(state) == GuardianAction::Enable ==> did.0
            &&& state is Succeeded ==> !did.1
            &&& restore_without_worker ==> !did.1
        }),
{
    lemma_guardian(restore_without_worker, deadline, events);
}

proof fn lemma_guardian(
    restore_without_worker: bool,
    deadline: Option<Timestamp>,
    events: Seq<ServiceEvent>,
)
    ensures
        ({
            let state = guardian_after(restore_without_worker, deadline, events);
            let did = guardian_did(restore_without_worker, deadline, events);
            &&& state is Enabling || state is Watching || state is Sleeping ==> did.0
            &&& did.1 ==> state is Watching || state is Sleeping || state is Restoring
                || state is Failed
            &&& restore_without_worker ==> !did.1 && (state is Waiting || state is CheckingGrant
                || state is Pausing || state is Restoring || state is Succeeded || state is Failed
                || state is NotGranted)
        }),
    decreases events.len(),
{
    if events.len() > 0 {
        lemma_guardian(restore_without_worker, deadline, events.drop_last());
    }
}

/// A machine as a worker meets it: what it answers, and what the worker has done to it so far.
pub struct WorkerWorld {
    pub now: Timestamp,
    pub elapsed: Span,
    pub battery_age: Span,
    /// Whether the process that is waited for runs.
    pub running: bool,
    pub percent: Option<i32>,
    /// Whether the machine can be kept awake and the session be written.
    pub acquires: bool,
    pub writes: bool,
    /// Whether the machine is kept awake, and the session is written.
    pub awake: bool,
    pub saved: bool,
}

impl WorkerWorld {
    /// What the machine answers to an action, and what it is then.
    pub open spec fn answer(self, action: WorkerAction) -> (WorkerWorld, ServiceEvent) {
        match action {
            WorkerAction::Acquire => if self.acquires {
                (WorkerWorld { awake: true, ..self }, ServiceEvent::Done)
            } else {
                (self, ServiceEvent::Failed)
            },
            WorkerAction::ReadClock => (self, ServiceEvent::Clock(self.now, self.elapsed)),
            WorkerAction::WriteSession => if self.writes {
                (WorkerWorld { saved: true, ..self }, ServiceEvent::Done)
            } else {
                (self, ServiceEvent::Failed)
            },
            WorkerAction::CheckProcess => (self, ServiceEvent::Running(self.running)),
            WorkerAction::ReadBatteryAge => (self, ServiceEvent::Elapsed(self.battery_age)),
            WorkerAction::ReadBattery => (self, ServiceEvent::Battery(self.percent)),
            WorkerAction::DeleteOwned => (
                WorkerWorld { saved: false, ..self },
                ServiceEvent::Done,
            ),
            _ => (self, ServiceEvent::Done),
        }
    }
}

/// A step of a worker.
pub open spec fn worker_step(plan: WorkerPlan, at: (WorkerState, WorkerWorld)) -> (
    WorkerState,
    WorkerWorld,
) {
    let (world, event) = at.1.answer(worker_action(at.0));
    (worker_next(plan, at.0, event), world)
}

/// Whether a worker sleeps or has ended.
pub open spec fn worker_at_rest(state: WorkerState) -> bool {
    state is Sleeping || state is Succeeded || state is Failed || state is BatteryFailed
}

/// Where a worker next comes to sleep or to its end, within so many steps.
pub open spec fn worker_rests(plan: WorkerPlan, at: (WorkerState, WorkerWorld), steps: nat) -> (
    WorkerState,
    WorkerWorld,
)
    decreases steps,
{
    if steps == 0 || worker_at_rest(at.0) {
        at
    } else {
        worker_rests(plan, worker_step(plan, at), (steps - 1) as nat)
    }
}

/// Where a worker's time is over: at its end where it waits for an instant, by its timeout otherwise.
pub open spec fn worker_is_over(plan: WorkerPlan, world: WorkerWorld) -> bool {
    if plan.until {
        plan.ends_at matches Some(end) && !world.now.precedes(end)
    } else {
        plan.timeout matches Some(t) && world.elapsed.seconds >= t
    }
}

proof fn lemma_worker_unrolls(plan: WorkerPlan, at: (WorkerState, WorkerWorld), steps: nat)
    requires
        steps > 0,
        !worker_at_rest(at.0),
    ensures
        worker_rests(plan, at, steps) == worker_rests(
            plan,
            worker_step(plan, at),
            (steps - 1) as nat,
        ),
{
}

proof fn lemma_worker_looks(plan: WorkerPlan, failures: u8, world: WorkerWorld, steps: nat)
    requires
        plan.ends_at matches Some(t) ==> t.valid() && t.nanos < 1_000_000_000,
        world.now.valid() && world.now.nanos < 1_000_000_000,
        failures < 3,
        steps >= 6,
    ensures
        ({
            let (state, after) = worker_rests(
                plan,
                (WorkerState::Looking { failures }, world),
                steps,
            );
            let looks = plan.charge && world.battery_age.seconds >= 30;
            let met = world.percent matches Some(p) && (plan.charge_up && p >= plan.charge_target
                || !plan.charge_up && p <= plan.charge_target);
            if worker_is_over(plan, world) || (plan.waits_for_process && !world.running) || (looks
                && met) {
                state is Succeeded && after == WorkerWorld { saved: false, ..world }
            } else if looks && world.percent is None && failures == 2 {
                state is BatteryFailed && after == world
            } else {
                &&& state matches WorkerState::Sleeping { failures: count, span } && count == (
                if !looks {
                    failures
                } else if world.percent is Some {
                    0
                } else {
                    (failures + 1) as u8
                }) && span.total() <= 250_000_000 && (plan.until ==> (plan.ends_at matches Some(end)
                    ==> span.total() <= time::nanos_between(end, world.now)))
                &&& after == world
            }
        }),
{
    let c0 = (WorkerState::Looking { failures }, world);
    lemma_worker_unrolls(plan, c0, steps);
    let c1 = worker_step(plan, c0);
    assert(c1.1 == world);
    lemma_worker_deletes(plan, world, (steps - 1) as nat);
    if !worker_is_over(plan, world) {
        let n: nat = if plan.waits_for_process {
            (steps - 2) as nat
        } else {
            (steps - 1) as nat
        };
        lemma_worker_deletes(plan, world, (steps - 2) as nat);
        if plan.waits_for_process {
            assert(c1 == (WorkerState::CheckingProcess { failures }, world));
            lemma_worker_unrolls(plan, c1, (steps - 1) as nat);
        }
        if !plan.waits_for_process || world.running {
            let past = (worker_past_process(plan, failures), world);
            assert(worker_rests(plan, c0, steps) == worker_rests(plan, past, n));
            if plan.charge {
                lemma_worker_unrolls(plan, past, n);
                if world.battery_age.seconds >= 30 {
                    let polling = (WorkerState::Polling { failures }, world);
                    assert(worker_step(plan, past) == polling);
                    lemma_worker_unrolls(plan, polling, (n - 1) as nat);
                    lemma_worker_deletes(plan, world, (n - 2) as nat);
                    let count: u8 = if world.percent is Some {
                        0
                    } else {
                        (failures + 1) as u8
                    };
                    lemma_worker_sleeps(plan, count, world, (n - 2) as nat);
                } else {
                    lemma_worker_sleeps(plan, failures, world, (n - 1) as nat);
                }
            } else {
                lemma_worker_sleeps(plan, failures, world, n);
            }
        }
    }
}

proof fn lemma_worker_deletes(plan: WorkerPlan, world: WorkerWorld, steps: nat)
    requires
        steps >= 1,
    ensures
        worker_rests(plan, (WorkerState::Deleting, world), steps) == (
            WorkerState::Succeeded,
            WorkerWorld { saved: false, ..world },
        ),
{
    lemma_worker_unrolls(plan, (WorkerState::Deleting, world), steps);
}

proof fn lemma_worker_sleeps(plan: WorkerPlan, failures: u8, world: WorkerWorld, steps: nat)
    requires
        plan.ends_at matches Some(t) ==> t.valid() && t.nanos < 1_000_000_000,
        world.now.valid() && world.now.nanos < 1_000_000_000,
        !worker_is_over(plan, world),
        steps >= 1,
    ensures
        ({
            let (state, after) = worker_rests(
                plan,
                (WorkerState::Timing { failures }, world),
                steps,
            );
            &&& state matches WorkerState::Sleeping { failures: count, span } && count == failures
                && span.total() <= 250_000_000 && (plan.until ==> (plan.ends_at matches Some(end)
                ==> span.total() <= time::nanos_between(end, world.now)))
            &&& after == world
        }),
{
    match plan.ends_at {
        Some(t) => {
            supervisor::law_sleep_ends_by_the_deadline(t, world.now, 250_000_000);
        },
        None => {},
    }
    lemma_worker_unrolls(plan, (WorkerState::Timing { failures }, world), steps);
}

/// Each time a worker wakes up it takes its session back and ends well where its time is over, the process
/// that it waits for has ended or its charge has come to the target, and badly where the battery could
/// not be read for the third time in a row. Otherwise it goes on as before, and sleeps for a quarter of a
/// second at most and not past its end.
pub proof fn law_workers_end_when_they_should(
    plan: WorkerPlan,
    failures: u8,
    slept: Span,
    world: WorkerWorld,
)
    requires
        plan.ends_at matches Some(t) ==> t.valid() && t.nanos < 1_000_000_000,
        world.now.valid() && world.now.nanos < 1_000_000_000,
        failures < 3,
    ensures
        ({
            let woken = worker_step(plan, (WorkerState::Sleeping { failures, span: slept }, world));
            let (state, after) = worker_rests(plan, woken, 9);
            let looks = plan.charge && world.battery_age.seconds >= 30;
            let met = world.percent matches Some(p) && (plan.charge_up && p >= plan.charge_target
                || !plan.charge_up && p <= plan.charge_target);
            if worker_is_over(plan, world) || (plan.waits_for_process && !world.running) || (looks
                && met) {
                state is Succeeded && !after.saved
            } else if looks && world.percent is None && failures == 2 {
                state is BatteryFailed
            } else {
                &&& state matches WorkerState::Sleeping { failures: count, span } && count == (
                if !looks {
                    failures
                } else if world.percent is Some {
                    0
                } else {
                    (failures + 1) as u8
                }) && span.total() <= 250_000_000 && (plan.until ==> (plan.ends_at matches Some(end)
                    ==> span.total() <= time::nanos_between(end, world.now)))
                &&& after == world
            }
        }),
{
    let woken = worker_step(plan, (WorkerState::Sleeping { failures, span: slept }, world));
    assert(woken == (WorkerState::Looking { failures }, world));
    lemma_worker_looks(plan, failures, world, 9);
}

/// A worker keeps the machine awake first and writes its session only where its time is not over already;
/// where it can do neither it fails and has written nothing.
pub proof fn law_workers_start_what_they_should(plan: WorkerPlan, world: WorkerWorld)
    requires
        plan.ends_at matches Some(t) ==> t.valid() && t.nanos < 1_000_000_000,
        world.now.valid() && world.now.nanos < 1_000_000_000,
        !world.awake && !world.saved && world.running,
        !plan.charge || world.battery_age.seconds < 30,
    ensures
        ({
            let (state, after) = worker_rests(plan, (WorkerState::Acquiring, world), 20);
            if !world.acquires {
                state is Failed && !after.saved
            } else if worker_is_over(plan, world) {
                state is Succeeded && !after.saved
            } else if !world.writes {
                state is Failed && !after.saved
            } else {
                state is Sleeping && after.awake && after.saved
            }
        }),
{
    let c0 = (WorkerState::Acquiring, world);
    lemma_worker_unrolls(plan, c0, 20);
    if world.acquires {
        let on = WorkerWorld { awake: true, ..world };
        let c1 = (WorkerState::Checking, on);
        assert(worker_step(plan, c0) == c1);
        lemma_worker_unrolls(plan, c1, 19);
        if !worker_is_over(plan, world) {
            let c2 = (WorkerState::Writing, on);
            assert(worker_step(plan, c1) == c2);
            lemma_worker_unrolls(plan, c2, 18);
            if world.writes {
                let out = WorkerWorld { saved: true, ..on };
                assert(worker_step(plan, c2) == (WorkerState::Looking { failures: 0 }, out));
                lemma_worker_looks(plan, 0, out, 17);
            }
        }
    }
}

/// What is answered of something that works or does not.
pub open spec fn answered(ok: bool) -> ServiceEvent {
    if ok {
        ServiceEvent::Done
    } else {
        ServiceEvent::Failed
    }
}

/// A machine as a guardian meets it: what it answers, and what the guardian has done to it so far.
pub struct GuardianWorld {
    pub now: Timestamp,
    pub age: Span,
    /// Whether the worker was found, and runs.
    pub found: bool,
    pub running: bool,
    /// Whether the saved state grants the lid to the guardian.
    pub granted: bool,
    /// Whether the grant can be worked out, nothing has changed, and the grant can be saved.
    pub prepares: bool,
    pub unchanged: bool,
    pub writes: bool,
    /// Whether lid actions can be taken over and restored.
    pub enables: bool,
    pub restores: bool,
    /// Whether the grant is saved, the lid actions are taken over, and were restored.
    pub saved: bool,
    pub taken: bool,
    pub restored: bool,
}

impl GuardianWorld {
    /// What the machine answers to an action, and what it is then.
    pub open spec fn answer(self, action: GuardianAction) -> (GuardianWorld, ServiceEvent) {
        match action {
            GuardianAction::ReadAge => (self, ServiceEvent::Elapsed(self.age)),
            GuardianAction::CheckGrant => (self, ServiceEvent::Granted(self.granted)),
            GuardianAction::OpenWorker => (self, ServiceEvent::Granted(self.found)),
            GuardianAction::PrepareGrant => (self, answered(self.prepares)),
            GuardianAction::ReadClock => (
                self,
                ServiceEvent::Clock(self.now, Span { seconds: 0, nanos: 0 }),
            ),
            GuardianAction::CheckWorker => (self, ServiceEvent::Running(self.running)),
            GuardianAction::Preflight => (self, answered(self.unchanged)),
            GuardianAction::WriteGrant => (
                GuardianWorld { saved: self.saved || self.writes, ..self },
                answered(self.writes),
            ),
            GuardianAction::Enable => (
                GuardianWorld { taken: self.taken || self.enables, ..self },
                answered(self.enables),
            ),
            GuardianAction::Restore => (
                GuardianWorld {
                    taken: self.taken && !self.restores,
                    restored: self.restored || self.restores,
                    ..self
                },
                answered(self.restores),
            ),
            _ => (self, ServiceEvent::Done),
        }
    }
}

/// A step of a guardian.
pub open spec fn guardian_step(deadline: Option<Timestamp>, at: (GuardianState, GuardianWorld)) -> (
    GuardianState,
    GuardianWorld,
) {
    let (world, event) = at.1.answer(guardian_action(at.0));
    (guardian_next(deadline, at.0, event), world)
}

/// Whether a guardian sleeps or has ended.
pub open spec fn guardian_at_rest(state: GuardianState) -> bool {
    state is Sleeping || state is Pausing || state is Succeeded || state is Failed
        || state is NotGranted
}

/// Where a guardian next comes to sleep or to its end, within so many steps.
pub open spec fn guardian_rests(
    deadline: Option<Timestamp>,
    at: (GuardianState, GuardianWorld),
    steps: nat,
) -> (GuardianState, GuardianWorld)
    decreases steps,
{
    if steps == 0 || guardian_at_rest(at.0) {
        at
    } else {
        guardian_rests(deadline, guardian_step(deadline, at), (steps - 1) as nat)
    }
}

proof fn lemma_guardian_unrolls(
    deadline: Option<Timestamp>,
    at: (GuardianState, GuardianWorld),
    steps: nat,
)
    requires
        steps > 0,
        !guardian_at_rest(at.0),
    ensures
        guardian_rests(deadline, at, steps) == guardian_rests(
            deadline,
            guardian_step(deadline, at),
            (steps - 1) as nat,
        ),
{
}

/// A guardian takes the lid actions over where its worker is found and runs, its deadline is still to come and
/// nothing has changed, and saves its grant first. Where the worker is gone or the deadline has come
/// it ends well, and where anything fails it fails; either way nothing is taken over.
pub proof fn law_guardians_take_over_when_they_should(
    deadline: Option<Timestamp>,
    world: GuardianWorld,
)
    requires
        !world.saved && !world.taken,
    ensures
        ({
            let (state, after) = guardian_rests(deadline, (guardian_start(false), world), 20);
            let pending = deadline matches Some(t) ==> world.now.precedes(t);
            if world.found && world.prepares && world.running && pending && world.unchanged
                && world.writes && world.enables {
                state is Sleeping && after.saved && after.taken
            } else if !world.found || (world.prepares && !(world.running && pending)) {
                state is Succeeded && !after.saved && !after.taken
            } else {
                state is Failed && !after.taken
            }
        }),
{
    let c0 = (GuardianState::Opening, world);
    lemma_guardian_unrolls(deadline, c0, 20);
    if world.found {
        let c1 = (GuardianState::Preparing, world);
        assert(guardian_step(deadline, c0) == c1);
        lemma_guardian_unrolls(deadline, c1, 19);
        if world.prepares {
            let c2 = (GuardianState::Timing, world);
            assert(guardian_step(deadline, c1) == c2);
            lemma_guardian_unrolls(deadline, c2, 18);
            let c3 = (GuardianState::CheckingWorker(world.now), world);
            assert(guardian_step(deadline, c2) == c3);
            lemma_guardian_unrolls(deadline, c3, 17);
            let pending = deadline matches Some(t) ==> world.now.precedes(t);
            if world.running && pending {
                let c4 = (GuardianState::Preflight, world);
                assert(guardian_step(deadline, c3) == c4);
                lemma_guardian_unrolls(deadline, c4, 16);
                if world.unchanged {
                    let c5 = (GuardianState::TimingAgain, world);
                    assert(guardian_step(deadline, c4) == c5);
                    lemma_guardian_unrolls(deadline, c5, 15);
                    let c6 = (GuardianState::CheckingWorkerAgain(world.now), world);
                    assert(guardian_step(deadline, c5) == c6);
                    lemma_guardian_unrolls(deadline, c6, 14);
                    let c7 = (GuardianState::Writing, world);
                    assert(guardian_step(deadline, c6) == c7);
                    lemma_guardian_unrolls(deadline, c7, 13);
                    if world.writes {
                        let w8 = GuardianWorld { saved: true, ..world };
                        let c8 = (GuardianState::Enabling, w8);
                        assert(guardian_step(deadline, c7) == c8);
                        lemma_guardian_unrolls(deadline, c8, 12);
                        if world.enables {
                            let w9 = GuardianWorld { taken: true, ..w8 };
                            let c9 = (GuardianState::Watching, w9);
                            assert(guardian_step(deadline, c8) == c9);
                            lemma_guardian_unrolls(deadline, c9, 11);
                        }
                    }
                }
            }
        }
    }
}

/// While its worker runs a guardian goes on watching; once the worker has ended it restores what it took.
pub proof fn law_guardians_restore_when_they_should(
    deadline: Option<Timestamp>,
    world: GuardianWorld,
)
    ensures
        ({
            let woken = guardian_step(deadline, (GuardianState::Sleeping, world));
            let (state, after) = guardian_rests(deadline, woken, 9);
            if world.running {
                state is Sleeping && after == world
            } else if world.restores {
                state is Succeeded && after.restored && !after.taken
            } else {
                state is Failed
            }
        }),
{
    let c0 = guardian_step(deadline, (GuardianState::Sleeping, world));
    assert(c0 == (GuardianState::Watching, world));
    lemma_guardian_unrolls(deadline, c0, 9);
    if !world.running {
        let c1 = (GuardianState::Restoring, world);
        assert(guardian_step(deadline, c0) == c1);
        lemma_guardian_unrolls(deadline, c1, 8);
    }
}

/// A guardian for a session without a worker restores the lid actions once the saved state grants them to
/// it; where it does not within half a minute, it fails and restores nothing.
pub proof fn law_recoveries_wait_for_their_grant(deadline: Option<Timestamp>, world: GuardianWorld)
    requires
        !world.taken && !world.restored,
    ensures
        ({
            let (state, after) = guardian_rests(deadline, (guardian_start(true), world), 9);
            if world.age.seconds >= 30 {
                state is NotGranted && !after.restored
            } else if !world.granted {
                state is Pausing && guardian_step(deadline, (state, after)).0 == guardian_start(true)
                    && !after.restored
            } else if world.restores {
                state is Succeeded && after.restored
            } else {
                state is Failed
            }
        }),
{
    let c0 = (GuardianState::Waiting, world);
    lemma_guardian_unrolls(deadline, c0, 9);
    if world.age.seconds < 30 {
        let c1 = (GuardianState::CheckingGrant, world);
        assert(guardian_step(deadline, c0) == c1);
        lemma_guardian_unrolls(deadline, c1, 8);
        if world.granted {
            let c2 = (GuardianState::Restoring, world);
            assert(guardian_step(deadline, c1) == c2);
            lemma_guardian_unrolls(deadline, c2, 7);
        }
    }
}

/// A guardian is granted the lid wherever the saved session is its worker's, still without the lid, and ends
/// when the guardian was told.
pub proof fn law_promotion_is_granted_where_all_fits(
    s: Record,
    args: GuardianFacts,
    guardian: (u32, u64),
    worker: (u64, Seq<char>),
)
    ensures
        promoted(s, args, guardian, worker) is Ok <==> !s.even_lid && s.pid == args.worker_pid
            && s.process_start == args.worker_start && s.is_process(Platform::Windows, worker) && (
        s.trigger == "until-time"@ ==> args.deadline == s.ends_at) && (s.trigger != "until-time"@
            ==> args.deadline is None),
{
}

/// A worker stays as long as its session says: until the end of one that lasts to a time of day, for its
/// timeout otherwise; and for the process and the charge that it was told of.
pub proof fn law_workers_stay_as_told(facts: WorkerFacts)
    ensures
        ({
            let plan = worker_plan(facts);
            &&& plan.until <==> facts.session.trigger == "until-time"@
            &&& plan.ends_at == facts.session.ends_at && plan.timeout == facts.timeout
            &&& plan.waits_for_process <==> facts.target is Some
            &&& plan.charge <==> facts.charge is Some
            &&& facts.charge matches Some((target, up)) ==> plan.charge_target == target
                && plan.charge_up == up
        }),
{
}

/// A worker deletes no state but its own: one of its number and time of creation, still without the lid.
pub proof fn law_workers_own_what_they_wrote(
    pid: u32,
    start: u64,
    saved: Option<SavedState>,
    r: bool,
)
    requires
        call_ensures(owns_saved, (pid, start, &saved), r),
    ensures
        r <==> (maybe_saved(saved) matches Some(Saved::Valid(s)) && s.pid == pid && s.process_start
            == start && !s.even_lid),
{
}

/// A worker sleeps a quarter of a second between its looks, where its end is not nearer, and so does a guardian;
/// one that waits for its grant looks ten times a second.
pub proof fn law_workers_sleep_as_long_as_they_may(
    plan: WorkerPlan,
    failures: u8,
    now: Timestamp,
    elapsed: Span,
)
    requires
        plan.until ==> (plan.ends_at matches Some(t) ==> time::nanos_between(t, now)
            >= 250_000_000),
    ensures
        ({
            let next = worker_next(
                plan,
                WorkerState::Timing { failures },
                ServiceEvent::Clock(now, elapsed),
            );
            next matches WorkerState::Sleeping { span, .. } && span.total() == 250_000_000
                && worker_action(next) == WorkerAction::Sleep(span)
        }),
        guardian_action(GuardianState::Sleeping) matches GuardianAction::Sleep(span)
            && span.total() == 250_000_000,
        guardian_action(GuardianState::Pausing) matches GuardianAction::Sleep(span) && span.total()
            == 100_000_000,
{
    let deadline = if plan.until {
        plan.ends_at
    } else {
        None
    };
    supervisor::law_sleep_is_as_long_as_it_may_be(
        deadline,
        now,
        Span { seconds: 0, nanos: 250_000_000 },
    );
}

} // verus!
