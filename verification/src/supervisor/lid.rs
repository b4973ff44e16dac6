//! The helper that keeps a Mac awake with its lid closed, and puts the sleep setting back.

use vstd::prelude::*;
use vstd::string::*;

use super::unix::{HelperAction, HelperEvent, HelperWorld};
use crate::error::{AppError, Fault, viewed};
use crate::session::{self, Decimal, LidRecord, Record, Session};
use crate::supervisor::{
    self, BatteryPoll, MAX_BATTERY_FAILURES, POLL_SECONDS, battery_poll, sleep_span,
};
use crate::text;
use crate::time::{self, Span, Timestamp};

verus! {

/// How often the permission to change the sleep setting is refreshed.
pub const PERMISSION_SECONDS: u64 = 180;

/// What the helper was told, next to the sleep setting to go back to.
#[derive(Debug)]
pub struct LidArgs {
    pub no_display: bool,
    pub timeout_sec: Option<i64>,
    pub deadline: Option<Timestamp>,
    pub wait_pid: Option<u32>,
    pub trigger: String,
    pub detail: String,
    pub charge_target: Option<i32>,
}

/// What `LidArgs` say.
pub struct LidFacts {
    pub no_display: bool,
    pub timeout_sec: Option<i64>,
    pub deadline: Option<Timestamp>,
    pub wait_pid: Option<u32>,
    pub trigger: Seq<char>,
    pub detail: Seq<char>,
    pub charge_target: Option<i32>,
}

impl View for LidArgs {
    type V = LidFacts;

    open spec fn view(&self) -> LidFacts {
        LidFacts {
            no_display: self.no_display,
            timeout_sec: self.timeout_sec,
            deadline: self.deadline,
            wait_pid: self.wait_pid,
            trigger: self.trigger@,
            detail: self.detail@,
            charge_target: self.charge_target,
        }
    }
}

/// A number seen as a value of `i64`, where there is one.
pub open spec fn as_i64(n: Option<int>) -> Option<i64> {
    match n {
        Some(n) => Some(n as i64),
        None => None,
    }
}

/// A number seen as a value of `u32`, where there is one.
pub open spec fn as_u32(n: Option<int>) -> Option<u32> {
    match n {
        Some(n) => Some(n as u32),
        None => None,
    }
}

/// What the words of the helper's command say, next to the sleep setting.
pub open spec fn lid_facts(args: Seq<Seq<char>>) -> Result<LidFacts, Fault> {
    let timeout = supervisor::optional_positive_of(
        args[2],
        "lid supervisor timeout"@,
        i64::MIN as int,
        i64::MAX as int,
    );
    let deadline = supervisor::optional_utc_of(args[3], "lid supervisor deadline"@);
    let wait_pid = supervisor::optional_positive_of(
        args[4],
        "lid supervisor pid"@,
        0,
        u32::MAX as int,
    );
    let charge_target = supervisor::optional_target_of(args[8]);
    if args[1] != "i"@ && args[1] != "d"@ {
        Err(Fault::Fail("lid supervisor: bad caffeinate mode"@))
    } else if timeout is Err {
        Err(timeout->Err_0)
    } else if deadline is Err {
        Err(deadline->Err_0)
    } else if timeout->Ok_0 is Some && deadline->Ok_0 is Some {
        Err(
            Fault::Fail(
                "lid supervisor received both a relative timeout and an absolute deadline"@,
            ),
        )
    } else if wait_pid is Err {
        Err(wait_pid->Err_0)
    } else if charge_target is Err {
        Err(charge_target->Err_0)
    } else {
        Ok(
            LidFacts {
                no_display: args[1] == "i"@,
                timeout_sec: as_i64(timeout->Ok_0),
                deadline: deadline->Ok_0,
                wait_pid: as_u32(wait_pid->Ok_0),
                trigger: args[6],
                detail: args[7],
                charge_target: charge_target->Ok_0,
            },
        )
    }
}

/// What the words of the helper's command say: first the sleep setting to go back to, which is owed a
/// cleanup from there on, then the rest.
pub open spec fn lid_command(args: Seq<Seq<char>>) -> (Option<i32>, Result<LidFacts, Fault>) {
    if args.len() != 9 {
        (None, Err(Fault::Fail("lid supervisor expects 8 arguments"@)))
    } else {
        match session::disable_sleep_of(args[5]) {
            Err(e) => (None, Err(e)),
            Ok(prior) => (Some(prior), lid_facts(args)),
        }
    }
}

fn parse_rest(args: &[String]) -> (r: Result<LidArgs, AppError>)
    requires
        args@.len() == 9,
    ensures
        viewed(r) == lid_facts(text::texts(args@)),
        r matches Ok(a) ==> (a.deadline matches Some(t) ==> t.valid()),
{
    let ghost words = text::texts(args@);
    let no_display = text::same(args[1].as_str(), "i");
    if !no_display && !text::same(args[1].as_str(), "d") {
        return Err(AppError::fail("lid supervisor: bad caffeinate mode"));
    }
    let timeout_sec = match supervisor::optional_positive::<i64>(
        args[2].as_str(),
        "lid supervisor timeout",
    ) {
        Err(e) => return Err(e),
        Ok(t) => t,
    };
    let deadline = match supervisor::optional_utc(args[3].as_str(), "lid supervisor deadline") {
        Err(e) => return Err(e),
        Ok(t) => t,
    };
    if timeout_sec.is_some() && deadline.is_some() {
        return Err(
            AppError::fail(
                "lid supervisor received both a relative timeout and an absolute deadline",
            ),
        );
    }
    let wait_pid = match supervisor::optional_positive::<u32>(args[4].as_str(), "lid supervisor pid") {
        Err(e) => return Err(e),
        Ok(p) => p,
    };
    let charge_target = match supervisor::optional_target(args[8].as_str()) {
        Err(e) => return Err(e),
        Ok(t) => t,
    };
    Ok(
        LidArgs {
            no_display,
            timeout_sec,
            deadline,
            wait_pid,
            trigger: args[6].clone(),
            detail: args[7].clone(),
            charge_target,
        },
    )
}

pub fn parse_lid_args(args: &[String]) -> (r: (Option<i32>, Result<LidArgs, AppError>))
    ensures
        (r.0, viewed(r.1)) == lid_command(text::texts(args@)),
        r.1 matches Ok(a) ==> (a.deadline matches Some(t) ==> t.valid()),
{
    if args.len() != 9 {
        return (None, Err(AppError::fail("lid supervisor expects 8 arguments")));
    }
    let ghost words = text::texts(args@);
    match session::disable_sleep(args[5].as_str()) {
        Err(e) => (None, Err(e)),
        Ok(prior) => (Some(prior), parse_rest(args)),
    }
}

/// Whether the sleep setting is to be put back.
pub fn sleep_restore_needed(prior: i32, current: i32) -> (r: bool)
    ensures
        r == (prior != current),
{
    prior != current
}

/// Whether the sleep setting is back.
pub fn sleep_restored(prior: i32, current: i32) -> (r: bool)
    ensures
        r == (prior == current),
{
    prior == current
}

/// The end of a session that lasts for `timeout` seconds, or until `deadline`.
pub open spec fn lid_end(deadline: Option<Timestamp>, timeout: Option<i64>, now: Timestamp) -> Option<
    Timestamp,
> {
    match (deadline, timeout) {
        (Some(t), _) => Some(t),
        (None, Some(timeout)) => {
            let (seconds, nanos) = time::seconds_later(now, timeout as int);
            Some(Timestamp { seconds: seconds as i64, nanos: nanos as u32 })
        },
        (None, None) => None,
    }
}

/// The session that the helper publishes.
pub fn lid_session(args: &LidArgs, prior: i32, pid: u32, now: Timestamp) -> (r: Session)
    requires
        now.valid(),
        args.timeout_sec matches Some(t) ==> time::FIRST_SECOND <= time::seconds_later(
            now,
            t as int,
        ).0 <= time::LAST_SECOND,
    ensures
        r@ == (Record {
            pid,
            mode: session::mode_text(args@.no_display),
            trigger: args@.trigger,
            detail: args@.detail,
            started_at: Some(now),
            ends_at: lid_end(args@.deadline, args@.timeout_sec, now),
            even_lid: true,
            lid: LidRecord { prior_disable_sleep: prior, ..session::no_lid() },
            ..session::blank()
        }),
{
    let mut s = Session::default();
    s.pid = pid;
    s.mode = session::mode_for(args.no_display).to_owned();
    s.trigger = args.trigger.clone();
    s.detail = args.detail.clone();
    s.started_at = Some(now);
    s.ends_at =
    match args.deadline {
        Some(t) => Some(t),
        None => match args.timeout_sec {
            Some(timeout) => Some(time::add_seconds(&now, timeout)),
            None => None,
        },
    };
    s.even_lid = true;
    s.prior_disable_sleep = prior;
    s
}

/// What decides how long the helper watches.
#[derive(Clone, Copy, Debug, PartialEq, Eq, Structural)]
pub struct LidPlan {
    pub prior: i32,
    pub timeout_sec: Option<i64>,
    pub deadline: Option<Timestamp>,
    pub waits_for_process: bool,
    pub charge_target: Option<i32>,
}

/// How far the helper has come. It carries which way a charge goes and how many looks at it have
/// failed in a row; while it cleans up, whether all was well and what is left to do.
#[derive(Clone, Copy, Debug, PartialEq, Eq, Structural)]
pub enum LidState {
    Preparing,
    Checking { up: bool },
    Launching { up: bool },
    Launched { up: bool },
    Publishing { up: bool, now: Timestamp },
    Published { up: bool },
    Timing { up: bool, failures: u8 },
    Sleeping { up: bool, failures: u8, span: Span },
    CheckingChild { up: bool, failures: u8 },
    CheckingStop { up: bool, failures: u8 },
    CheckingEnd { up: bool, failures: u8 },
    CheckingProcess { up: bool, failures: u8 },
    CheckingAge { up: bool, failures: u8 },
    Polling { up: bool, failures: u8 },
    CheckingPermission { up: bool, failures: u8 },
    Refreshing { up: bool, failures: u8 },
    /// The sleep setting is read before it is put back, put back, and read again.
    Inspecting { well: bool, child: bool },
    Restoring { well: bool, child: bool },
    Verifying { well: bool, child: bool },
    Killing { well: bool, restored: bool },
    Deleting { well: bool },
    Rescuing { well: bool },
    Succeeded,
    Failed,
}

impl LidState {
    /// Whether the count of failed looks is below the one that ends the waiting.
    pub open spec fn valid(self) -> bool {
        match self {
            LidState::Timing { failures, .. } => failures < MAX_BATTERY_FAILURES,
            LidState::Sleeping { failures, .. } => failures < MAX_BATTERY_FAILURES,
            LidState::CheckingChild { failures, .. } => failures < MAX_BATTERY_FAILURES,
            LidState::CheckingStop { failures, .. } => failures < MAX_BATTERY_FAILURES,
            LidState::CheckingEnd { failures, .. } => failures < MAX_BATTERY_FAILURES,
            LidState::CheckingProcess { failures, .. } => failures < MAX_BATTERY_FAILURES,
            LidState::CheckingAge { failures, .. } => failures < MAX_BATTERY_FAILURES,
            LidState::Polling { failures, .. } => failures < MAX_BATTERY_FAILURES,
            LidState::CheckingPermission { failures, .. } => failures < MAX_BATTERY_FAILURES,
            LidState::Refreshing { failures, .. } => failures < MAX_BATTERY_FAILURES,
            _ => true,
        }
    }
}

/// Where the helper starts, once it knows what it was told.
pub open spec fn lid_start(plan: LidPlan) -> LidState {
    if plan.charge_target is Some {
        LidState::Preparing
    } else {
        LidState::Checking { up: false }
    }
}

/// What is left once the sleep setting has been seen to.
pub open spec fn lid_settled(well: bool, child: bool, restored: bool) -> LidState {
    if child {
        LidState::Killing { well, restored }
    } else if restored {
        LidState::Deleting { well }
    } else {
        LidState::Rescuing { well }
    }
}

/// How the helper begins to clean up: it puts the sleep setting back only where it was off before.
pub open spec fn lid_cleanup(prior: i32, well: bool, child: bool) -> LidState {
    if prior != 0 {
        lid_settled(well, child, true)
    } else {
        LidState::Inspecting { well, child }
    }
}

/// The seconds that a timeout stands for.
pub open spec fn timeout_seconds(timeout: i64) -> int {
    if timeout < 0 {
        timeout + 0x1_0000_0000_0000_0000
    } else {
        timeout as int
    }
}

/// What the helper asks for next.
pub open spec fn lid_action(plan: LidPlan, state: LidState) -> HelperAction {
    match state {
        LidState::Preparing => HelperAction::PrepareCharge,
        LidState::Checking { .. } => HelperAction::ReadClock,
        LidState::Launching { .. } => HelperAction::Launch,
        LidState::Launched { .. } => HelperAction::ReadClock,
        LidState::Publishing { now, .. } => HelperAction::Publish(now),
        LidState::Published { .. } => HelperAction::ReadClock,
        LidState::Timing { .. } => HelperAction::ReadClock,
        LidState::Sleeping { span, .. } => HelperAction::Sleep(span),
        LidState::CheckingChild { .. } => HelperAction::CheckChild,
        LidState::CheckingStop { .. } => HelperAction::CheckStop,
        LidState::CheckingEnd { .. } => HelperAction::ReadClock,
        LidState::CheckingProcess { .. } => HelperAction::CheckProcess,
        LidState::CheckingAge { .. } => HelperAction::ReadBatteryAge,
        LidState::Polling { .. } => HelperAction::ReadBattery,
        LidState::CheckingPermission { .. } => HelperAction::ReadPermissionAge,
        LidState::Refreshing { .. } => HelperAction::RefreshPermission,
        LidState::Inspecting { .. } => HelperAction::ReadSleepSetting,
        LidState::Restoring { .. } => HelperAction::SetSleepSetting(plan.prior),
        LidState::Verifying { .. } => HelperAction::ReadSleepSetting,
        LidState::Killing { .. } => HelperAction::Kill,
        LidState::Deleting { .. } => HelperAction::DeleteState,
        LidState::Rescuing { .. } => HelperAction::Rescue(plan.prior),
        LidState::Succeeded => HelperAction::Succeed,
        LidState::Failed => HelperAction::Fail,
    }
}

/// Whether the deadline, where there is one, has come.
pub open spec fn deadline_passed(plan: LidPlan, now: Timestamp) -> bool {
    plan.deadline matches Some(t) && !now.precedes(t)
}

/// Where the helper goes from `state` on `event`. It keeps watch while its command runs, nobody stops
/// it and neither deadline, timeout, process nor charge ends it; from the first step on it
/// cleans up whatever happens.
pub open spec fn lid_next(plan: LidPlan, state: LidState, event: HelperEvent) -> LidState {
    match (state, event) {
        (LidState::Preparing, HelperEvent::ChargeMet) => lid_cleanup(plan.prior, true, false),
        (LidState::Preparing, HelperEvent::ChargeWait(up)) => LidState::Checking { up },
        (LidState::Preparing, HelperEvent::Failed) => lid_cleanup(plan.prior, false, false),
        (LidState::Checking { up }, HelperEvent::Clock(now, _)) => if deadline_passed(plan, now) {
            lid_cleanup(plan.prior, true, false)
        } else {
            LidState::Launching { up }
        },
        (LidState::Launching { up }, HelperEvent::Done) => LidState::Launched { up },
        (LidState::Launching { .. }, HelperEvent::Failed) => lid_cleanup(plan.prior, false, false),
        (LidState::Launched { up }, HelperEvent::Clock(now, _)) => if deadline_passed(plan, now) {
            lid_cleanup(plan.prior, true, true)
        } else {
            LidState::Publishing { up, now }
        },
        (LidState::Publishing { up, .. }, HelperEvent::Done) => LidState::Published { up },
        (LidState::Publishing { .. }, HelperEvent::Failed) => lid_cleanup(plan.prior, false, true),
        (LidState::Published { up }, HelperEvent::Clock(now, _)) => if deadline_passed(plan, now) {
            lid_cleanup(plan.prior, true, true)
        } else {
            LidState::Timing { up, failures: 0 }
        },
        (LidState::Timing { up, failures }, HelperEvent::Clock(now, _)) => match sleep_span(
            plan.deadline,
            now,
            Span { seconds: 1, nanos: 0 },
        ) {
            Some(span) => LidState::Sleeping { up, failures, span },
            None => lid_cleanup(plan.prior, true, true),
        },
        (LidState::Sleeping { up, failures, .. }, HelperEvent::Done) => LidState::CheckingChild {
            up,
            failures,
        },
        (LidState::CheckingChild { up, failures }, HelperEvent::Exited(exited)) => if exited {
            lid_cleanup(plan.prior, true, true)
        } else {
            LidState::CheckingStop { up, failures }
        },
        (LidState::CheckingChild { .. }, HelperEvent::Failed) => lid_cleanup(
            plan.prior,
            false,
            true,
        ),
        (LidState::CheckingStop { up, failures }, HelperEvent::Stop(stop)) => if stop {
            lid_cleanup(plan.prior, true, true)
        } else {
            LidState::CheckingEnd { up, failures }
        },
        (LidState::CheckingEnd { up, failures }, HelperEvent::Clock(now, elapsed)) => {
            let timed_out = plan.timeout_sec matches Some(t) && elapsed.seconds >= timeout_seconds(
                t,
            );
            if deadline_passed(plan, now) || timed_out {
                lid_cleanup(plan.prior, true, true)
            } else if plan.waits_for_process {
                LidState::CheckingProcess { up, failures }
            } else {
                LidState::CheckingAge { up, failures }
            }
        },
        (LidState::CheckingProcess { up, failures }, HelperEvent::Alive(alive)) => if alive {
            LidState::CheckingAge { up, failures }
        } else {
            lid_cleanup(plan.prior, true, true)
        },
        (LidState::CheckingAge { up, failures }, HelperEvent::Elapsed(age)) => {
            if age.seconds >= POLL_SECONDS && plan.charge_target is Some {
                LidState::Polling { up, failures }
            } else {
                LidState::CheckingPermission { up, failures }
            }
        },
        (LidState::Polling { up, failures }, HelperEvent::Battery(percent)) => {
            let (poll, failures) = battery_poll(plan.charge_target->0, up, failures, percent);
            if poll == BatteryPoll::Continue {
                LidState::CheckingPermission { up, failures: failures as u8 }
            } else {
                lid_cleanup(plan.prior, true, true)
            }
        },
        (LidState::CheckingPermission { up, failures }, HelperEvent::Elapsed(age)) => {
            if age.seconds >= PERMISSION_SECONDS {
                LidState::Refreshing { up, failures }
            } else {
                LidState::Timing { up, failures }
            }
        },
        (LidState::Refreshing { up, failures }, HelperEvent::Done) => LidState::Timing {
            up,
            failures,
        },
        (LidState::Refreshing { up, failures }, HelperEvent::Failed) => LidState::Timing {
            up,
            failures,
        },
        (LidState::Inspecting { well, child }, HelperEvent::SleepSetting(current)) => {
            if current matches Some(value) && value != plan.prior {
                LidState::Restoring { well, child }
            } else {
                LidState::Verifying { well, child }
            }
        },
        (LidState::Restoring { well, child }, HelperEvent::Done) => LidState::Verifying {
            well,
            child,
        },
        (LidState::Restoring { well, child }, HelperEvent::Failed) => LidState::Verifying {
            well,
            child,
        },
        (LidState::Verifying { well, child }, HelperEvent::SleepSetting(current)) => lid_settled(
            well,
            child,
            current == Some(plan.prior),
        ),
        (LidState::Killing { well, restored }, HelperEvent::Done) => lid_settled(
            well,
            false,
            restored,
        ),
        (LidState::Killing { well, restored }, HelperEvent::Failed) => lid_settled(
            well,
            false,
            restored,
        ),
        (LidState::Deleting { well }, HelperEvent::Done) => lid_ended(well),
        (LidState::Deleting { well }, HelperEvent::Failed) => lid_ended(well),
        (LidState::Rescuing { well }, HelperEvent::Done) => lid_ended(well),
        (LidState::Rescuing { well }, HelperEvent::Failed) => lid_ended(well),
        _ => state,
    }
}

/// How the helper ends.
pub open spec fn lid_ended(well: bool) -> LidState {
    if well {
        LidState::Succeeded
    } else {
        LidState::Failed
    }
}

fn settled(well: bool, child: bool, restored: bool) -> (r: LidState)
    ensures
        r == lid_settled(well, child, restored),
{
    if child {
        LidState::Killing { well, restored }
    } else if restored {
        LidState::Deleting { well }
    } else {
        LidState::Rescuing { well }
    }
}

/// How the helper begins to clean up.
pub fn start_cleanup(prior: i32, well: bool, child: bool) -> (r: LidState)
    ensures
        r == lid_cleanup(prior, well, child),
{
    if prior != 0 {
        settled(well, child, true)
    } else {
        LidState::Inspecting { well, child }
    }
}

fn ended(well: bool) -> (r: LidState)
    ensures
        r == lid_ended(well),
{
    if well {
        LidState::Succeeded
    } else {
        LidState::Failed
    }
}

fn has_passed(plan: &LidPlan, now: &Timestamp) -> (r: bool)
    ensures
        r == deadline_passed(*plan, *now),
{
    match plan.deadline {
        Some(t) => !supervisor::deadline_still_pending(&t, now),
        None => false,
    }
}

fn has_timed_out(timeout: Option<i64>, elapsed: &Span) -> (r: bool)
    ensures
        r == (timeout matches Some(t) && elapsed.seconds >= timeout_seconds(t)),
{
    match timeout {
        None => false,
        Some(t) => {
            if t >= 0 {
                elapsed.seconds >= t as u64
            } else {
                let below: u64 = (-(t + 1)) as u64;
                elapsed.seconds >= u64::MAX - below
            }
        },
    }
}

/// Where the helper starts, once it knows what it was told.
pub fn begin_lid(plan: &LidPlan) -> (r: LidState)
    ensures
        r == lid_start(*plan),
        r.valid(),
{
    if plan.charge_target.is_some() {
        LidState::Preparing
    } else {
        LidState::Checking { up: false }
    }
}

/// What the helper asks for next.
pub fn lid_asks(plan: &LidPlan, state: LidState) -> (r: HelperAction)
    ensures
        r == lid_action(*plan, state),
{
    match state {
        LidState::Preparing => HelperAction::PrepareCharge,
        LidState::Checking { .. } => HelperAction::ReadClock,
        LidState::Launching { .. } => HelperAction::Launch,
        LidState::Launched { .. } => HelperAction::ReadClock,
        LidState::Publishing { now, .. } => HelperAction::Publish(now),
        LidState::Published { .. } => HelperAction::ReadClock,
        LidState::Timing { .. } => HelperAction::ReadClock,
        LidState::Sleeping { span, .. } => HelperAction::Sleep(span),
        LidState::CheckingChild { .. } => HelperAction::CheckChild,
        LidState::CheckingStop { .. } => HelperAction::CheckStop,
        LidState::CheckingEnd { .. } => HelperAction::ReadClock,
        LidState::CheckingProcess { .. } => HelperAction::CheckProcess,
        LidState::CheckingAge { .. } => HelperAction::ReadBatteryAge,
        LidState::Polling { .. } => HelperAction::ReadBattery,
        LidState::CheckingPermission { .. } => HelperAction::ReadPermissionAge,
        LidState::Refreshing { .. } => HelperAction::RefreshPermission,
        LidState::Inspecting { .. } => HelperAction::ReadSleepSetting,
        LidState::Restoring { .. } => HelperAction::SetSleepSetting(plan.prior),
        LidState::Verifying { .. } => HelperAction::ReadSleepSetting,
        LidState::Killing { .. } => HelperAction::Kill,
        LidState::Deleting { .. } => HelperAction::DeleteState,
        LidState::Rescuing { .. } => HelperAction::Rescue(plan.prior),
        LidState::Succeeded => HelperAction::Succeed,
        LidState::Failed => HelperAction::Fail,
    }
}

/// Where the helper goes from `state` on `event`.
pub fn run_lid(plan: &LidPlan, state: LidState, event: HelperEvent) -> (r: LidState)
    requires
        plan.deadline matches Some(t) ==> t.valid(),
        state is Polling ==> plan.charge_target is Some,
        state.valid(),
        event.valid(),
    ensures
        r == lid_next(*plan, state, event),
        r.valid(),
        r is Polling ==> plan.charge_target is Some,
{
    match (state, event) {
        (LidState::Preparing, HelperEvent::ChargeMet) => start_cleanup(plan.prior, true, false),
        (LidState::Preparing, HelperEvent::ChargeWait(up)) => LidState::Checking { up },
        (LidState::Preparing, HelperEvent::Failed) => start_cleanup(plan.prior, false, false),
        (LidState::Checking { up }, HelperEvent::Clock(now, _)) => if has_passed(plan, &now) {
            start_cleanup(plan.prior, true, false)
        } else {
            LidState::Launching { up }
        },
        (LidState::Launching { up }, HelperEvent::Done) => LidState::Launched { up },
        (LidState::Launching { .. }, HelperEvent::Failed) => start_cleanup(
            plan.prior,
            false,
            false,
        ),
        (LidState::Launched { up }, HelperEvent::Clock(now, _)) => if has_passed(plan, &now) {
            start_cleanup(plan.prior, true, true)
        } else {
            LidState::Publishing { up, now }
        },
        (LidState::Publishing { up, .. }, HelperEvent::Done) => LidState::Published { up },
        (LidState::Publishing { .. }, HelperEvent::Failed) => start_cleanup(
            plan.prior,
            false,
            true,
        ),
        (LidState::Published { up }, HelperEvent::Clock(now, _)) => if has_passed(plan, &now) {
            start_cleanup(plan.prior, true, true)
        } else {
            LidState::Timing { up, failures: 0 }
        },
        (LidState::Timing { up, failures }, HelperEvent::Clock(now, _)) => {
            match supervisor::poll_interval(plan.deadline, now, Span { seconds: 1, nanos: 0 }) {
                Some(span) => LidState::Sleeping { up, failures, span },
                None => start_cleanup(plan.prior, true, true),
            }
        },
        (LidState::Sleeping { up, failures, .. }, HelperEvent::Done) => LidState::CheckingChild {
            up,
            failures,
        },
        (LidState::CheckingChild { up, failures }, HelperEvent::Exited(exited)) => if exited {
            start_cleanup(plan.prior, true, true)
        } else {
            LidState::CheckingStop { up, failures }
        },
        (LidState::CheckingChild { .. }, HelperEvent::Failed) => start_cleanup(
            plan.prior,
            false,
            true,
        ),
        (LidState::CheckingStop { up, failures }, HelperEvent::Stop(stop)) => if stop {
            start_cleanup(plan.prior, true, true)
        } else {
            LidState::CheckingEnd { up, failures }
        },
        (LidState::CheckingEnd { up, failures }, HelperEvent::Clock(now, elapsed)) => {
            if has_passed(plan, &now) || has_timed_out(plan.timeout_sec, &elapsed) {
                start_cleanup(plan.prior, true, true)
            } else if plan.waits_for_process {
                LidState::CheckingProcess { up, failures }
            } else {
                LidState::CheckingAge { up, failures }
            }
        },
        (LidState::CheckingProcess { up, failures }, HelperEvent::Alive(alive)) => if alive {
            LidState::CheckingAge { up, failures }
        } else {
            start_cleanup(plan.prior, true, true)
        },
        (LidState::CheckingAge { up, failures }, HelperEvent::Elapsed(age)) => {
            if age.seconds >= POLL_SECONDS && plan.charge_target.is_some() {
                LidState::Polling { up, failures }
            } else {
                LidState::CheckingPermission { up, failures }
            }
        },
        (LidState::Polling { up, failures }, HelperEvent::Battery(percent)) => {
            match plan.charge_target {
                None => state,
                Some(target) => {
                    let mut count: u8 = failures;
                    match supervisor::poll_battery(target, up, &mut count, percent) {
                        BatteryPoll::Continue => LidState::CheckingPermission {
                            up,
                            failures: count,
                        },
                        _ => start_cleanup(plan.prior, true, true),
                    }
                },
            }
        },
        (LidState::CheckingPermission { up, failures }, HelperEvent::Elapsed(age)) => {
            if age.seconds >= PERMISSION_SECONDS {
                LidState::Refreshing { up, failures }
            } else {
                LidState::Timing { up, failures }
            }
        },
        (LidState::Refreshing { up, failures }, HelperEvent::Done) => LidState::Timing {
            up,
            failures,
        },
        (LidState::Refreshing { up, failures }, HelperEvent::Failed) => LidState::Timing {
            up,
            failures,
        },
        (LidState::Inspecting { well, child }, HelperEvent::SleepSetting(current)) => {
            match current {
                Some(value) => if sleep_restore_needed(plan.prior, value) {
                    LidState::Restoring { well, child }
                } else {
                    LidState::Verifying { well, child }
                },
                None => LidState::Verifying { well, child },
            }
        },
        (LidState::Restoring { well, child }, HelperEvent::Done) => LidState::Verifying {
            well,
            child,
        },
        (LidState::Restoring { well, child }, HelperEvent::Failed) => LidState::Verifying {
            well,
            child,
        },
        (LidState::Verifying { well, child }, HelperEvent::SleepSetting(current)) => {
            let restored = match current {
                Some(value) => sleep_restored(plan.prior, value),
                None => false,
            };
            settled(well, child, restored)
        },
        (LidState::Killing { well, restored }, HelperEvent::Done) => settled(well, false, restored),
        (LidState::Killing { well, restored }, HelperEvent::Failed) => settled(
            well,
            false,
            restored,
        ),
        (LidState::Deleting { well }, HelperEvent::Done) => ended(well),
        (LidState::Deleting { well }, HelperEvent::Failed) => ended(well),
        (LidState::Rescuing { well }, HelperEvent::Done) => ended(well),
        (LidState::Rescuing { well }, HelperEvent::Failed) => ended(well),
        _ => state,
    }
}

/// Where the helper stands after these events.
pub open spec fn lid_after(plan: LidPlan, events: Seq<HelperEvent>) -> LidState
    decreases events.len(),
{
    if events.len() == 0 {
        lid_start(plan)
    } else {
        lid_next(plan, lid_after(plan, events.drop_last()), events.last())
    }
}

/// Whether the sleep setting counted as put back when it was last looked at: it was read as what it was
/// before, or it was not off before and nothing had to be put back.
pub open spec fn lid_put_back(plan: LidPlan, events: Seq<HelperEvent>) -> bool
    decreases events.len(),
{
    if plan.prior != 0 {
        true
    } else if events.len() == 0 {
        false
    } else {
        let before = events.drop_last();
        if lid_after(plan, before) is Verifying && events.last() is SleepSetting {
            events.last() == HelperEvent::SleepSetting(Some(plan.prior))
        } else {
            lid_put_back(plan, before)
        }
    }
}

proof fn lemma_put_back(plan: LidPlan, events: Seq<HelperEvent>)
    ensures
        lid_after(plan, events) matches LidState::Killing { restored, .. } ==> restored
            == lid_put_back(plan, events),
        lid_after(plan, events) is Deleting ==> lid_put_back(plan, events),
        lid_after(plan, events) is Rescuing ==> !lid_put_back(plan, events),
        lid_after(plan, events) is Inspecting || lid_after(plan, events) is Restoring || lid_after(
            plan,
            events,
        ) is Verifying ==> plan.prior == 0,
    decreases events.len(),
{
    if events.len() > 0 {
        lemma_put_back(plan, events.drop_last());
    }
}

/// However the helper comes to its end, the saved session is deleted only after the sleep setting was
/// found to be what it was before; where it was not, the session stays and the user is told.
pub proof fn law_state_is_deleted_only_when_sleep_is_back(plan: LidPlan, events: Seq<HelperEvent>)
    ensures
        lid_action(plan, lid_after(plan, events)) == HelperAction::DeleteState ==> lid_put_back(
            plan,
            events,
        ),
        lid_action(plan, lid_after(plan, events)) is Rescue ==> !lid_put_back(plan, events),
{
    lemma_put_back(plan, events);
}

/// The helper never ends without having cleaned up: it ends only from deleting the saved session or from
/// telling the user how to put the sleep setting right.
pub proof fn law_lid_helper_always_cleans_up(plan: LidPlan, state: LidState, event: HelperEvent)
    ensures
        (lid_next(plan, state, event) is Succeeded || lid_next(plan, state, event) is Failed)
            && state !is Succeeded && state !is Failed ==> state is Deleting || state is Rescuing,
        lid_action(plan, state) matches HelperAction::SetSleepSetting(v) ==> v == plan.prior,
{
}

/// A step of the helper.
pub open spec fn lid_step(plan: LidPlan, at: (LidState, HelperWorld)) -> (LidState, HelperWorld) {
    let (world, event) = at.1.answer(lid_action(plan, at.0));
    (lid_next(plan, at.0, event), world)
}

/// Where the helper next comes to sleep or to its end, within so many steps.
pub open spec fn lid_rests(plan: LidPlan, at: (LidState, HelperWorld), steps: nat) -> (
    LidState,
    HelperWorld,
)
    decreases steps,
{
    if steps == 0 || at.0 is Sleeping || at.0 is Succeeded || at.0 is Failed {
        at
    } else {
        lid_rests(plan, lid_step(plan, at), (steps - 1) as nat)
    }
}

/// Where the session's end has come: its deadline, its timeout, the end of the process that it waits for, or a
/// charge that was looked at and has come to the target or could not be read for the third time.
pub open spec fn lid_is_over(plan: LidPlan, up: bool, failures: u8, world: HelperWorld) -> bool {
    ||| plan.deadline matches Some(t) && !world.now.precedes(t)
    ||| plan.timeout_sec matches Some(t) && world.elapsed.seconds >= t
    ||| plan.waits_for_process && !world.alive
    ||| plan.charge_target matches Some(target) && world.battery_age.seconds >= 30 && match world.percent {
        Some(p) => up && p >= target || !up && p <= target,
        None => failures == 2,
    }
}

proof fn lemma_lid_settled(
    plan: LidPlan,
    well: bool,
    child: bool,
    restored: bool,
    world: HelperWorld,
    steps: nat,
)
    requires
        steps >= 3,
        !child ==> !world.running,
    ensures
        lid_rests(plan, (lid_settled(well, child, restored), world), steps) == (
            if well {
                LidState::Succeeded
            } else {
                LidState::Failed
            },
            if restored {
                HelperWorld { running: false, published: None, ..world }
            } else {
                HelperWorld { running: false, rescued: true, ..world }
            },
        ),
{
    reveal_with_fuel(lid_rests, 4);
}

proof fn lemma_lid_cleanup(plan: LidPlan, well: bool, child: bool, world: HelperWorld, steps: nat)
    requires
        plan.prior == 0 || plan.prior == 1,
        steps >= 6,
        !child ==> !world.running,
    ensures
        ({
            let (state, after) = lid_rests(
                plan,
                (lid_cleanup(plan.prior, well, child), world),
                steps,
            );
            &&& state == (if well {
                LidState::Succeeded
            } else {
                LidState::Failed
            })
            &&& !after.running
            &&& plan.prior == 1 ==> after.sleep == world.sleep && after.published is None
                && after.rescued == world.rescued
            &&& plan.prior == 0 && (world.settable || world.sleep == 0) ==> after.sleep == 0
                && after.published is None && after.rescued == world.rescued
            &&& plan.prior == 0 && !world.settable && world.sleep != 0 ==> after.sleep
                == world.sleep && after.published == world.published && after.rescued
        }),
{
    let c0 = (lid_cleanup(plan.prior, well, child), world);
    if plan.prior != 0 {
        lemma_lid_settled(plan, well, child, true, world, steps);
    } else {
        let c1 = lid_step(plan, c0);
        assert(lid_rests(plan, c0, steps) == lid_rests(plan, c1, (steps - 1) as nat));
        let put = HelperWorld { sleep: 0, ..world };
        if world.sleep == 0 {
            assert(c1 == (LidState::Verifying { well, child }, world));
            assert(lid_rests(plan, c1, (steps - 1) as nat) == lid_rests(
                plan,
                lid_step(plan, c1),
                (steps - 2) as nat,
            ));
            lemma_lid_settled(plan, well, child, true, world, (steps - 2) as nat);
        } else {
            let c2 = lid_step(plan, c1);
            assert(lid_rests(plan, c1, (steps - 1) as nat) == lid_rests(
                plan,
                c2,
                (steps - 2) as nat,
            ));
            assert(lid_rests(plan, c2, (steps - 2) as nat) == lid_rests(
                plan,
                lid_step(plan, c2),
                (steps - 3) as nat,
            ));
            if world.settable {
                lemma_lid_settled(plan, well, child, true, put, (steps - 3) as nat);
            } else {
                lemma_lid_settled(plan, well, child, false, world, (steps - 3) as nat);
            }
        }
    }
}

/// A lid session ends: each time the helper wakes up it cleans up where its deadline has come, the time that
/// has passed is at least its timeout, the process that it waits for is gone, its charge has come to
/// the target, its command has ended or it was told to stop. Then the command is ended, the sleep setting
/// is what it was before and the session is taken back; where the setting cannot be put back, the
/// session stays and the user is told. Otherwise the helper goes on as before, and refreshes its permission
/// three minutes after the last time.
pub proof fn law_lid_sessions_end_when_they_should(
    plan: LidPlan,
    up: bool,
    failures: u8,
    slept: Span,
    world: HelperWorld,
)
    requires
        plan.prior == 0 || plan.prior == 1,
        plan.deadline matches Some(t) ==> t.valid() && t.nanos < 1_000_000_000,
        plan.timeout_sec matches Some(t) ==> t >= 0,
        world.now.valid() && world.now.nanos < 1_000_000_000,
        failures < 3,
    ensures
        ({
            let woken = lid_step(plan, (LidState::Sleeping { up, failures, span: slept }, world));
            let (state, after) = lid_rests(plan, woken, 20);
            if world.exited || world.stop || lid_is_over(plan, up, failures, world) {
                &&& state is Succeeded
                &&& !after.running
                &&& plan.prior == 0 && world.settable ==> after.sleep == 0 && after.published is None
                &&& plan.prior == 0 && !world.settable && world.sleep != 0 ==> after.published
                    == world.published && after.rescued
                &&& plan.prior == 1 ==> after.sleep == world.sleep && after.published is None
            } else {
                &&& state matches LidState::Sleeping { up: still, failures: count, span } && still
                    == up && span.total() <= 1_000_000_000 && (plan.deadline matches Some(t)
                    ==> span.total() <= time::nanos_between(t, world.now)) && count == (
                if plan.charge_target is None || world.battery_age.seconds < 30 {
                    failures
                } else if world.percent is Some {
                    0
                } else {
                    (failures + 1) as u8
                })
                &&& after == HelperWorld {
                    refreshed: world.refreshed || world.permission_age.seconds >= 180,
                    ..world
                }
            }
        }),
{
    let c0 = (LidState::Sleeping { up, failures, span: slept }, world);
    let c1 = lid_step(plan, c0);
    assert(c1 == (LidState::CheckingChild { up, failures }, world));
    lemma_lid_cleanup(plan, true, true, world, 19);
    lemma_lid_cleanup(plan, true, true, world, 18);
    lemma_lid_cleanup(plan, true, true, world, 17);
    lemma_lid_cleanup(plan, true, true, world, 16);
    lemma_lid_cleanup(plan, true, true, world, 15);
    lemma_lid_cleanup(plan, true, true, world, 14);
    lemma_lid_cleanup(plan, true, true, world, 13);
    lemma_lid_cleanup(plan, true, true, world, 12);
    lemma_lid_cleanup(plan, true, true, world, 11);
    match plan.deadline {
        Some(t) => {
            supervisor::law_sleep_ends_by_the_deadline(t, world.now, 1_000_000_000);
        },
        None => {},
    }
    if world.exited {
        assert(lid_step(plan, c1) == (lid_cleanup(plan.prior, true, true), world));
        assert(lid_rests(plan, c1, 20) == lid_rests(plan, lid_step(plan, c1), 19));
    } else {
        let c2 = lid_step(plan, c1);
        assert(lid_rests(plan, c1, 20) == lid_rests(plan, c2, 19));
        let c3 = lid_step(plan, c2);
        assert(lid_rests(plan, c2, 19) == lid_rests(plan, c3, 18));
        if !world.stop {
            let c4 = lid_step(plan, c3);
            assert(lid_rests(plan, c3, 18) == lid_rests(plan, c4, 17));
            let age = (LidState::CheckingAge { up, failures }, world);
            let over = plan.deadline matches Some(t) && !world.now.precedes(t) || (
            plan.timeout_sec matches Some(t) && world.elapsed.seconds >= t);
            if !over {
                let n: nat = if plan.waits_for_process {
                    16
                } else {
                    17
                };
                if plan.waits_for_process {
                    assert(lid_rests(plan, c4, 17) == lid_rests(plan, lid_step(plan, c4), 16));
                }
                if !plan.waits_for_process || world.alive {
                    assert(lid_rests(plan, c4, 17) == lid_rests(plan, age, n));
                    lemma_lid_charge(plan, up, failures, world, n);
                }
            }
        }
    }
}

proof fn lemma_lid_sleeps(plan: LidPlan, up: bool, failures: u8, world: HelperWorld, steps: nat)
    requires
        plan.deadline matches Some(t) ==> t.valid() && t.nanos < 1_000_000_000
            && world.now.precedes(t),
        world.now.valid() && world.now.nanos < 1_000_000_000,
        steps >= 3,
    ensures
        ({
            let (state, after) = lid_rests(
                plan,
                (LidState::CheckingPermission { up, failures }, world),
                steps,
            );
            &&& after == HelperWorld {
                refreshed: world.refreshed || world.permission_age.seconds >= 180,
                ..world
            }
            &&& state matches LidState::Sleeping { up: still, failures: count, span } && still == up
                && count == failures && span.total() <= 1_000_000_000 && (
            plan.deadline matches Some(t) ==> span.total() <= time::nanos_between(t, world.now))
        }),
{
    match plan.deadline {
        Some(t) => {
            supervisor::law_sleep_ends_by_the_deadline(t, world.now, 1_000_000_000);
        },
        None => {},
    }
    let c0 = (LidState::CheckingPermission { up, failures }, world);
    let c1 = lid_step(plan, c0);
    assert(lid_rests(plan, c0, steps) == lid_rests(plan, c1, (steps - 1) as nat));
    if world.permission_age.seconds >= 180 {
        assert(c1 == (LidState::Refreshing { up, failures }, world));
        let c2 = lid_step(plan, c1);
        assert(c2 == (LidState::Timing { up, failures }, HelperWorld { refreshed: true, ..world }));
        assert(lid_rests(plan, c1, (steps - 1) as nat) == lid_rests(plan, c2, (steps - 2) as nat));
        let c3 = lid_step(plan, c2);
        assert(lid_rests(plan, c2, (steps - 2) as nat) == lid_rests(plan, c3, (steps - 3) as nat));
    } else {
        assert(c1 == (LidState::Timing { up, failures }, world));
        let c2 = lid_step(plan, c1);
        assert(lid_rests(plan, c1, (steps - 1) as nat) == lid_rests(plan, c2, (steps - 2) as nat));
    }
}

/// Whether a look at the battery ends the session.
spec fn look_ends(plan: LidPlan, up: bool, failures: u8, world: HelperWorld) -> bool {
    match world.percent {
        Some(p) => up && p >= plan.charge_target->0 || !up && p <= plan.charge_target->0,
        None => failures == 2,
    }
}

proof fn lemma_lid_looks(plan: LidPlan, up: bool, failures: u8, world: HelperWorld)
    requires
        plan.charge_target is Some,
        failures < 3,
    ensures
        lid_step(plan, (LidState::Polling { up, failures }, world)) == (
            if look_ends(plan, up, failures, world) {
                lid_cleanup(plan.prior, true, true)
            } else if world.percent is Some {
                LidState::CheckingPermission { up, failures: 0 }
            } else {
                LidState::CheckingPermission { up, failures: (failures + 1) as u8 }
            },
            world,
        ),
{
}

proof fn lemma_lid_ages(plan: LidPlan, up: bool, failures: u8, world: HelperWorld)
    ensures
        lid_step(plan, (LidState::CheckingAge { up, failures }, world)) == (
            if plan.charge_target is Some && world.battery_age.seconds >= 30 {
                LidState::Polling { up, failures }
            } else {
                LidState::CheckingPermission { up, failures }
            },
            world,
        ),
{
}

proof fn lemma_lid_unrolls(plan: LidPlan, at: (LidState, HelperWorld), steps: nat)
    requires
        steps > 0,
        !(at.0 is Sleeping || at.0 is Succeeded || at.0 is Failed),
    ensures
        lid_rests(plan, at, steps) == lid_rests(plan, lid_step(plan, at), (steps - 1) as nat),
{
}

proof fn lemma_lid_charge(plan: LidPlan, up: bool, failures: u8, world: HelperWorld, steps: nat)
    requires
        plan.deadline matches Some(t) ==> t.valid() && t.nanos < 1_000_000_000
            && world.now.precedes(t),
        world.now.valid() && world.now.nanos < 1_000_000_000,
        failures < 3,
        16 <= steps <= 17,
    ensures
        ({
            let at = (LidState::CheckingAge { up, failures }, world);
            let looks = plan.charge_target is Some && world.battery_age.seconds >= 30;
            if looks && look_ends(plan, up, failures, world) {
                lid_rests(plan, at, steps) == lid_rests(
                    plan,
                    (lid_cleanup(plan.prior, true, true), world),
                    (steps - 2) as nat,
                )
            } else {
                &&& lid_rests(plan, at, steps).1 == HelperWorld {
                    refreshed: world.refreshed || world.permission_age.seconds >= 180,
                    ..world
                }
                &&& lid_rests(plan, at, steps).0 matches LidState::Sleeping {
                    up: still,
                    failures: count,
                    span,
                } && still == up && span.total() <= 1_000_000_000 && (plan.deadline matches Some(t)
                    ==> span.total() <= time::nanos_between(t, world.now)) && count == (if !looks {
                    failures
                } else if world.percent is Some {
                    0
                } else {
                    (failures + 1) as u8
                })
            }
        }),
{
    let c0 = (LidState::CheckingAge { up, failures }, world);
    lemma_lid_ages(plan, up, failures, world);
    lemma_lid_unrolls(plan, c0, steps);
    if plan.charge_target is Some && world.battery_age.seconds >= 30 {
        lemma_lid_looks(plan, up, failures, world);
        lemma_lid_unrolls(plan, (LidState::Polling { up, failures }, world), (steps - 1) as nat);
        if !look_ends(plan, up, failures, world) {
            let count: u8 = if world.percent is Some {
                0
            } else {
                (failures + 1) as u8
            };
            lemma_lid_sleeps(plan, up, count, world, (steps - 2) as nat);
        }
    } else {
        lemma_lid_sleeps(plan, up, failures, world, (steps - 1) as nat);
    }
}

/// The helper of a lid session whose end is still to come starts its command, publishes the session as started
/// now and goes to sleep. Where the end has come already, or its charge is met, it only cleans up; and so
/// it does where the command does not come up or the session cannot be published, and then it fails.
pub proof fn law_lid_helpers_start_what_they_should(plan: LidPlan, world: HelperWorld)
    requires
        plan.prior == 0 || plan.prior == 1,
        plan.deadline matches Some(t) ==> t.valid() && t.nanos < 1_000_000_000,
        world.now.valid() && world.now.nanos < 1_000_000_000,
        !world.running && world.published is None && world.settable,
        world.charge is ChargeMet || world.charge is ChargeWait || world.charge is Failed,
    ensures
        ({
            let (state, after) = lid_rests(plan, (lid_start(plan), world), 20);
            let met = plan.charge_target is Some && world.charge is ChargeMet;
            let untold = plan.charge_target is Some && world.charge is Failed;
            let past = plan.deadline matches Some(t) && !world.now.precedes(t);
            &&& !untold && (met || past) ==> state is Succeeded && !after.running
                && after.published is None
            &&& untold ==> state is Failed && !after.running && after.published is None
            &&& !untold && !met && !past && world.launches && world.publishes ==> {
                &&& state matches LidState::Sleeping { up, failures, span } && failures == 0
                    && span.total() <= 1_000_000_000 && (plan.charge_target is Some ==> world.charge
                    == HelperEvent::ChargeWait(up))
                &&& after.running && after.published == Some(world.now) && after.sleep
                    == world.sleep
            }
            &&& !untold && !met && !past && !(world.launches && world.publishes) ==> state is Failed
                && !after.running && after.published is None
            &&& state !is Sleeping && plan.prior == 0 ==> after.sleep == 0
        }),
{
    let c0 = (lid_start(plan), world);
    let n: nat = if plan.charge_target is Some {
        19
    } else {
        20
    };
    lemma_lid_cleanup(plan, true, false, world, n);
    lemma_lid_cleanup(plan, true, false, world, (n - 1) as nat);
    lemma_lid_cleanup(plan, false, false, world, n);
    lemma_lid_cleanup(plan, false, false, world, (n - 2) as nat);
    let up = world.charge matches HelperEvent::ChargeWait(up) && plan.charge_target is Some && up;
    let ready = (LidState::Checking { up }, world);
    if plan.charge_target is Some {
        assert(lid_rests(plan, c0, 20) == lid_rests(plan, lid_step(plan, c0), 19));
    }
    if plan.charge_target is None || world.charge is ChargeWait {
        assert(lid_rests(plan, c0, 20) == lid_rests(plan, ready, n));
        let c1 = lid_step(plan, ready);
        assert(lid_rests(plan, ready, n) == lid_rests(plan, c1, (n - 1) as nat));
        let past = plan.deadline matches Some(t) && !world.now.precedes(t);
        if !past {
            let c2 = lid_step(plan, c1);
            assert(lid_rests(plan, c1, (n - 1) as nat) == lid_rests(plan, c2, (n - 2) as nat));
            if world.launches {
                let up_world = HelperWorld { running: true, ..world };
                let c3 = lid_step(plan, c2);
                assert(lid_rests(plan, c2, (n - 2) as nat) == lid_rests(plan, c3, (n - 3) as nat));
                let c4 = lid_step(plan, c3);
                assert(lid_rests(plan, c3, (n - 3) as nat) == lid_rests(plan, c4, (n - 4) as nat));
                if world.publishes {
                    let c5 = lid_step(plan, c4);
                    assert(lid_rests(plan, c4, (n - 4) as nat) == lid_rests(
                        plan,
                        c5,
                        (n - 5) as nat,
                    ));
                    match plan.deadline {
                        Some(t) => {
                            supervisor::law_sleep_ends_by_the_deadline(
                                t,
                                world.now,
                                1_000_000_000,
                            );
                        },
                        None => {},
                    }
                    let c6 = lid_step(plan, c5);
                    assert(lid_rests(plan, c5, (n - 5) as nat) == lid_rests(
                        plan,
                        c6,
                        (n - 6) as nat,
                    ));
                } else {
                    lemma_lid_cleanup(plan, false, true, up_world, (n - 4) as nat);
                }
            }
        }
    }
}

/// The helper for the lid publishes what it was told, with the sleep setting to go back to: it ends at its
/// deadline, or so many seconds later, or not by itself.
pub proof fn law_lid_helpers_publish_what_they_were_told(
    args: LidArgs,
    prior: i32,
    pid: u32,
    now: Timestamp,
    s: Session,
)
    requires
        now.valid() && now.nanos < 1_000_000_000,
        args.timeout_sec matches Some(t) ==> time::FIRST_SECOND <= time::seconds_later(
            now,
            t as int,
        ).0 <= time::LAST_SECOND,
        call_ensures(lid_session, (&args, prior, pid, now), s),
    ensures
        s@.pid == pid && s@.started_at == Some(now) && s@.even_lid,
        s@.lid.prior_disable_sleep == prior,
        s@.trigger == args@.trigger && s@.detail == args@.detail,
        args@.deadline is Some ==> s@.ends_at == args@.deadline,
        args@.deadline is None ==> (args@.timeout_sec matches Some(t) ==> (s@.ends_at matches Some(
            end,
        ) && time::nanos_between(end, now) == t * 1_000_000_000)),
        args@.deadline is None && args@.timeout_sec is None ==> s@.ends_at is None,
        s@.mode == (if args@.no_display {
            "system-only"@
        } else {
            "display+system"@
        }),
{
}

/// The sleep setting is put back exactly where it is not what it was, and is back exactly where it is.
pub proof fn law_sleep_is_back_or_not(prior: i32, current: i32, needed: bool, back: bool)
    requires
        call_ensures(sleep_restore_needed, (prior, current), needed),
        call_ensures(sleep_restored, (prior, current), back),
    ensures
        back <==> current == prior,
        needed <==> current != prior,
{
}

/// The helper for the lid sleeps a whole second between its looks, where no deadline is nearer.
pub proof fn law_lid_helpers_sleep_as_long_as_they_may(
    plan: LidPlan,
    up: bool,
    failures: u8,
    now: Timestamp,
    elapsed: Span,
)
    requires
        plan.deadline matches Some(t) ==> time::nanos_between(t, now) >= 1_000_000_000,
    ensures
        ({
            let next = lid_next(
                plan,
                LidState::Timing { up, failures },
                HelperEvent::Clock(now, elapsed),
            );
            next matches LidState::Sleeping { span, .. } && span.total() == 1_000_000_000
                && lid_action(plan, next) == HelperAction::Sleep(span)
        }),
{
    supervisor::law_sleep_is_as_long_as_it_may_be(
        plan.deadline,
        now,
        Span { seconds: 1, nanos: 0 },
    );
}

} // verus!
