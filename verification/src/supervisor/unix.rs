//! The helpers that hold an inhibitor until an instant, a charge or the end of a lid session.

use vstd::prelude::*;
use vstd::string::*;

use crate::error::{AppError, Fault, outcome, viewed};
use crate::platform::{self, KeepAwake, Platform};
use crate::session::{self, Decimal, LidRecord, Record, Session};
use crate::supervisor::{
    self, BatteryPoll, ChargePreparation, MAX_BATTERY_FAILURES, POLL_SECONDS, PreparedCharge,
    battery_poll, charge_detail, charge_text, sleep_span, target_met,
};
use crate::text;
use crate::time::{self, Span, Timestamp};

verus! {

/// An inhibitor lives as long as the helper that holds it.
pub fn supervisor_inhibitor_lifetime(pid: u32) -> (r: (Option<i64>, Option<u32>))
    ensures
        r == (None::<i64>, Some(pid)),
{
    (None, Some(pid))
}

/// Whether an ordinary helper on a Mac may go on; the lid is not for it to hold.
pub open spec fn ordinary_authority(even_lid: bool) -> Result<(), Fault> {
    if even_lid {
        Err(Fault::Fail("ordinary supervisor received unexpected lid authority"@))
    } else {
        Ok(())
    }
}

pub fn reject_macos_ordinary_even_lid(even_lid: bool) -> (r: Result<(), AppError>)
    ensures
        outcome(r) == ordinary_authority(even_lid),
{
    if even_lid {
        Err(AppError::fail("ordinary supervisor received unexpected lid authority"))
    } else {
        Ok(())
    }
}

/// What a helper that waits for an instant was told.
#[derive(Debug)]
pub struct UntilArgs {
    pub deadline: Timestamp,
    pub no_display: bool,
    pub detail: String,
    pub even_lid: bool,
    pub inhibitor_scope: String,
}

/// What `UntilArgs` say.
pub struct UntilFacts {
    pub deadline: Timestamp,
    pub no_display: bool,
    pub detail: Seq<char>,
    pub even_lid: bool,
    pub inhibitor_scope: Seq<char>,
}

impl View for UntilArgs {
    type V = UntilFacts;

    open spec fn view(&self) -> UntilFacts {
        UntilFacts {
            deadline: self.deadline,
            no_display: self.no_display,
            detail: self.detail@,
            even_lid: self.even_lid,
            inhibitor_scope: self.inhibitor_scope@,
        }
    }
}

/// What the words of a helper's command say to one that waits for an instant.
pub open spec fn until_facts(platform: Platform, args: Seq<Seq<char>>) -> Result<UntilFacts, Fault> {
    let deadline = time::utc_of(args[1], "until deadline"@);
    let no_display = session::bool_of(args[2], "no-display"@);
    let even_lid = session::bool_of(args[4], "even-lid"@);
    if args.len() != 6 {
        Err(Fault::Fail("until supervisor expects 5 arguments"@))
    } else if deadline is Err {
        Err(deadline->Err_0)
    } else if no_display is Err {
        Err(no_display->Err_0)
    } else if even_lid is Err {
        Err(even_lid->Err_0)
    } else if platform == Platform::Macos && ordinary_authority(even_lid->Ok_0) is Err {
        Err(ordinary_authority(even_lid->Ok_0)->Err_0)
    } else {
        Ok(
            UntilFacts {
                deadline: deadline->Ok_0,
                no_display: no_display->Ok_0,
                detail: args[3],
                even_lid: even_lid->Ok_0,
                inhibitor_scope: args[5],
            },
        )
    }
}

pub fn parse_until_args(platform: Platform, args: &[String]) -> (r: Result<UntilArgs, AppError>)
    ensures
        viewed(r) == until_facts(platform, text::texts(args@)),
        r matches Ok(a) ==> a.deadline.valid(),
{
    if args.len() != 6 {
        return Err(AppError::fail("until supervisor expects 5 arguments"));
    }
    let ghost words = text::texts(args@);
    let deadline = match session::parse_utc(args[1].as_str(), "until deadline") {
        Err(e) => return Err(e),
        Ok(t) => t,
    };
    let no_display = match session::parse_bool(args[2].as_str(), "no-display") {
        Err(e) => return Err(e),
        Ok(b) => b,
    };
    let detail = args[3].clone();
    let even_lid = match session::parse_bool(args[4].as_str(), "even-lid") {
        Err(e) => return Err(e),
        Ok(b) => b,
    };
    match platform {
        Platform::Macos => match reject_macos_ordinary_even_lid(even_lid) {
            Err(e) => return Err(e),
            Ok(()) => {},
        },
        _ => {},
    }
    Ok(UntilArgs { deadline, no_display, detail, even_lid, inhibitor_scope: args[5].clone() })
}

/// What a helper that waits for a charge was told.
#[derive(Debug)]
pub struct ChargeArgs {
    pub target: i32,
    pub no_display: bool,
    pub even_lid: bool,
    pub inhibitor_scope: String,
}

/// What `ChargeArgs` say.
pub struct ChargeFacts {
    pub target: i32,
    pub no_display: bool,
    pub even_lid: bool,
    pub inhibitor_scope: Seq<char>,
}

impl View for ChargeArgs {
    type V = ChargeFacts;

    open spec fn view(&self) -> ChargeFacts {
        ChargeFacts {
            target: self.target,
            no_display: self.no_display,
            even_lid: self.even_lid,
            inhibitor_scope: self.inhibitor_scope@,
        }
    }
}

/// What the words of a helper's command say to one that waits for a charge.
pub open spec fn charge_facts(platform: Platform, args: Seq<Seq<char>>) -> Result<
    ChargeFacts,
    Fault,
> {
    let target = supervisor::charge_target_of(args[1]);
    let no_display = session::bool_of(args[2], "no-display"@);
    let even_lid = session::bool_of(args[3], "even-lid"@);
    if args.len() != 5 {
        Err(Fault::Fail("charge supervisor expects 4 arguments"@))
    } else if target is Err {
        Err(target->Err_0)
    } else if no_display is Err {
        Err(no_display->Err_0)
    } else if even_lid is Err {
        Err(even_lid->Err_0)
    } else if platform == Platform::Macos && ordinary_authority(even_lid->Ok_0) is Err {
        Err(ordinary_authority(even_lid->Ok_0)->Err_0)
    } else {
        Ok(
            ChargeFacts {
                target: target->Ok_0,
                no_display: no_display->Ok_0,
                even_lid: even_lid->Ok_0,
                inhibitor_scope: args[4],
            },
        )
    }
}

pub fn parse_charge_args(platform: Platform, args: &[String]) -> (r: Result<ChargeArgs, AppError>)
    ensures
        viewed(r) == charge_facts(platform, text::texts(args@)),
{
    if args.len() != 5 {
        return Err(AppError::fail("charge supervisor expects 4 arguments"));
    }
    let ghost words = text::texts(args@);
    let target = match supervisor::parse_charge_target(args[1].as_str()) {
        Err(e) => return Err(e),
        Ok(t) => t,
    };
    let no_display = match session::parse_bool(args[2].as_str(), "no-display") {
        Err(e) => return Err(e),
        Ok(b) => b,
    };
    let even_lid = match session::parse_bool(args[3].as_str(), "even-lid") {
        Err(e) => return Err(e),
        Ok(b) => b,
    };
    match platform {
        Platform::Macos => match reject_macos_ordinary_even_lid(even_lid) {
            Err(e) => return Err(e),
            Ok(()) => {},
        },
        _ => {},
    }
    Ok(ChargeArgs { target, no_display, even_lid, inhibitor_scope: args[4].clone() })
}

/// The command that a helper for an instant or a charge runs: it lives as long as the helper `pid`. `unexpected` is
/// what is said of an inhibitor's scope where there is none.
pub open spec fn helper_command(
    platform: Platform,
    no_display: bool,
    even_lid: bool,
    scope: Seq<char>,
    pid: u32,
    systemd_inhibit: Result<Seq<char>, Fault>,
    unexpected: Seq<char>,
) -> Result<(Seq<Seq<char>>, Option<Seq<char>>), Fault> {
    if platform == Platform::Linux {
        platform::linux::scoped_command(
            no_display,
            even_lid,
            scope,
            None,
            Some(pid),
            systemd_inhibit,
        )
    } else if scope.len() > 0 {
        Err(Fault::Fail(unexpected))
    } else {
        Ok(
            (
                platform::macos::caffeinate_words(no_display, None, Some(pid)),
                platform::start_note(Platform::Macos),
            ),
        )
    }
}

fn keep_awake_for_helper(
    platform: Platform,
    no_display: bool,
    even_lid: bool,
    scope: &str,
    pid: u32,
    systemd_inhibit: Result<String, AppError>,
    unexpected: &str,
) -> (r: Result<KeepAwake, AppError>)
    ensures
        viewed(r) == helper_command(
            platform,
            no_display,
            even_lid,
            scope@,
            pid,
            viewed(systemd_inhibit),
            unexpected@,
        ),
{
    let (timeout, wait_pid) = supervisor_inhibitor_lifetime(pid);
    match platform {
        Platform::Linux => platform::linux::keep_awake_command_for_scope(
            no_display,
            even_lid,
            scope,
            timeout,
            wait_pid,
            systemd_inhibit,
        ),
        _ => {
            if !scope.is_empty() {
                return Err(AppError::fail(unexpected));
            }
            platform::macos::keep_awake_command(no_display, even_lid, timeout, wait_pid)
        },
    }
}

/// The command that a helper for an instant runs. Elsewhere than on Linux it has no say over the lid.
pub fn until_command(
    platform: Platform,
    args: &UntilArgs,
    pid: u32,
    systemd_inhibit: Result<String, AppError>,
) -> (r: Result<KeepAwake, AppError>)
    ensures
        viewed(r) == (if platform != Platform::Linux && args@.even_lid {
            Err(Fault::Fail("until supervisor received unexpected lid authority"@))
        } else {
            helper_command(
                platform,
                args@.no_display,
                args@.even_lid,
                args@.inhibitor_scope,
                pid,
                viewed(systemd_inhibit),
                "until supervisor received unexpected lid authority"@,
            )
        }),
{
    let on_linux = match platform {
        Platform::Linux => true,
        _ => false,
    };
    if !on_linux && args.even_lid {
        return Err(AppError::fail("until supervisor received unexpected lid authority"));
    }
    keep_awake_for_helper(
        platform,
        args.no_display,
        args.even_lid,
        args.inhibitor_scope.as_str(),
        pid,
        systemd_inhibit,
        "until supervisor received unexpected lid authority",
    )
}

/// The command that a helper for a charge runs.
pub fn charge_command(
    platform: Platform,
    args: &ChargeArgs,
    pid: u32,
    systemd_inhibit: Result<String, AppError>,
) -> (r: Result<KeepAwake, AppError>)
    ensures
        viewed(r) == helper_command(
            platform,
            args@.no_display,
            args@.even_lid,
            args@.inhibitor_scope,
            pid,
            viewed(systemd_inhibit),
            "charge supervisor received an unexpected inhibitor scope"@,
        ),
{
    keep_awake_for_helper(
        platform,
        args.no_display,
        args.even_lid,
        args.inhibitor_scope.as_str(),
        pid,
        systemd_inhibit,
        "charge supervisor received an unexpected inhibitor scope",
    )
}

/// The session that a helper for an instant publishes.
pub fn until_session(args: &UntilArgs, pid: u32, now: Timestamp) -> (r: Session)
    ensures
        r@ == (Record {
            pid,
            mode: session::mode_text(args@.no_display),
            trigger: "until-time"@,
            detail: args@.detail,
            started_at: Some(now),
            ends_at: Some(args@.deadline),
            even_lid: args@.even_lid,
            ..session::blank()
        }),
{
    let mut s = Session::default();
    s.pid = pid;
    s.mode = session::mode_for(args.no_display).to_owned();
    s.trigger = "until-time".to_owned();
    s.detail = args.detail.clone();
    s.started_at = Some(now);
    s.ends_at = Some(args.deadline);
    s.even_lid = args.even_lid;
    s
}

/// The session that a helper for a charge publishes.
pub fn charge_session(args: &ChargeArgs, charge: &PreparedCharge, pid: u32, now: Timestamp) -> (r:
    Session)
    ensures
        r@ == (Record {
            pid,
            mode: session::mode_text(args@.no_display),
            trigger: "until-charge"@,
            detail: charge_text(args@.target, *charge),
            started_at: Some(now),
            even_lid: args@.even_lid,
            ..session::blank()
        }),
{
    let mut s = Session::default();
    s.pid = pid;
    s.mode = session::mode_for(args.no_display).to_owned();
    s.trigger = "until-charge".to_owned();
    s.detail = charge_detail(args.target, charge);
    s.started_at = Some(now);
    s.even_lid = args.even_lid;
    s
}

/// What a helper learns from the outside.
#[derive(Clone, Copy, Debug, PartialEq, Eq, Structural)]
pub enum HelperEvent {
    /// What time it is, and how long the helper has been watching.
    Clock(Timestamp, Span),
    /// How long ago something was done last.
    Elapsed(Span),
    /// What a target charge asks for: nothing, waiting on the way up or down, or it could not be told.
    ChargeMet,
    ChargeWait(bool),
    /// Whether the helper was told to stop.
    Stop(bool),
    /// Whether the command that keeps the machine awake has ended.
    Exited(bool),
    /// Whether the process that is waited for is alive.
    Alive(bool),
    /// The charge, where it could be read.
    Battery(Option<i32>),
    /// The sleep setting, where it could be read.
    SleepSetting(Option<i32>),
    /// What was to be done is done.
    Done,
    /// It failed.
    Failed,
}

impl HelperEvent {
    /// Whether the event tells a time that the calendar has.
    pub open spec fn valid(self) -> bool {
        match self {
            HelperEvent::Clock(now, elapsed) => now.valid() && elapsed.valid(),
            HelperEvent::Elapsed(elapsed) => elapsed.valid(),
            _ => true,
        }
    }
}

/// What a helper asks for.
#[derive(Clone, Copy, Debug, PartialEq, Eq, Structural)]
pub enum HelperAction {
    ReadClock,
    PrepareCharge,
    /// Say why the charge cannot be waited for.
    Report,
    /// Start the command that keeps the machine awake, and see that it stays up.
    Launch,
    /// Publish the session, started at this instant.
    Publish(Timestamp),
    CheckStop,
    CheckChild,
    CheckProcess,
    Sleep(Span),
    /// Tell how long ago the battery was looked at last.
    ReadBatteryAge,
    /// Look at the battery, from now on counting anew.
    ReadBattery,
    /// Tell how long ago the permission was refreshed last.
    ReadPermissionAge,
    RefreshPermission,
    ReadSleepSetting,
    /// Set the sleep setting without asking anybody.
    SetSleepSetting(i32),
    /// Say how the sleep setting is put right by hand.
    Rescue(i32),
    /// End the command that keeps the machine awake.
    Kill,
    DeleteState,
    /// All is well.
    Succeed,
    /// Fail as what failed last.
    Fail,
}

/// How far a helper for an instant has come.
#[derive(Clone, Copy, Debug, PartialEq, Eq, Structural)]
pub enum UntilState {
    Begin,
    Launching,
    Launched,
    Publishing(Timestamp),
    Published,
    CheckingStop,
    CheckingChild,
    Timing,
    Sleeping(Span),
    /// The command is ended and nothing was published.
    Dropping,
    /// The command is ended because publishing failed.
    GivingUp,
    Killing,
    Deleting,
    Succeeded,
    Failed,
}

/// What a helper for an instant asks for next.
pub open spec fn until_action(state: UntilState) -> HelperAction {
    match state {
        UntilState::Begin => HelperAction::ReadClock,
        UntilState::Launching => HelperAction::Launch,
        UntilState::Launched => HelperAction::ReadClock,
        UntilState::Publishing(now) => HelperAction::Publish(now),
        UntilState::Published => HelperAction::ReadClock,
        UntilState::CheckingStop => HelperAction::CheckStop,
        UntilState::CheckingChild => HelperAction::CheckChild,
        UntilState::Timing => HelperAction::ReadClock,
        UntilState::Sleeping(span) => HelperAction::Sleep(span),
        UntilState::Dropping => HelperAction::Kill,
        UntilState::GivingUp => HelperAction::Kill,
        UntilState::Killing => HelperAction::Kill,
        UntilState::Deleting => HelperAction::DeleteState,
        UntilState::Succeeded => HelperAction::Succeed,
        UntilState::Failed => HelperAction::Fail,
    }
}

/// Where a helper for an instant goes from `state` on `event`. It runs its command only while the
/// deadline is to come, publishes the session once the command is up, and takes both back when the
/// deadline has come, when it is told to stop or when the command ends. What fails while it cleans up
/// does not count. An event that nobody waits for changes nothing.
pub open spec fn until_next(deadline: Timestamp, state: UntilState, event: HelperEvent) -> UntilState {
    match (state, event) {
        (UntilState::Begin, HelperEvent::Clock(now, _)) => if now.precedes(deadline) {
            UntilState::Launching
        } else {
            UntilState::Succeeded
        },
        (UntilState::Launching, HelperEvent::Done) => UntilState::Launched,
        (UntilState::Launching, HelperEvent::Failed) => UntilState::Failed,
        (UntilState::Launched, HelperEvent::Clock(now, _)) => if now.precedes(deadline) {
            UntilState::Publishing(now)
        } else {
            UntilState::Dropping
        },
        (UntilState::Publishing(_), HelperEvent::Done) => UntilState::Published,
        (UntilState::Publishing(_), HelperEvent::Failed) => UntilState::GivingUp,
        (UntilState::Published, HelperEvent::Clock(now, _)) => if now.precedes(deadline) {
            UntilState::CheckingStop
        } else {
            UntilState::Killing
        },
        (UntilState::CheckingStop, HelperEvent::Stop(stop)) => if stop {
            UntilState::Killing
        } else {
            UntilState::CheckingChild
        },
        (UntilState::CheckingChild, HelperEvent::Exited(exited)) => if exited {
            UntilState::Killing
        } else {
            UntilState::Timing
        },
        (UntilState::CheckingChild, HelperEvent::Failed) => UntilState::Failed,
        (UntilState::Timing, HelperEvent::Clock(now, _)) => match sleep_span(
            Some(deadline),
            now,
            Span { seconds: 1, nanos: 0 },
        ) {
            Some(span) => UntilState::Sleeping(span),
            None => UntilState::Killing,
        },
        (UntilState::Sleeping(_), HelperEvent::Done) => UntilState::CheckingStop,
        (UntilState::Dropping, HelperEvent::Done) => UntilState::Succeeded,
        (UntilState::Dropping, HelperEvent::Failed) => UntilState::Succeeded,
        (UntilState::GivingUp, HelperEvent::Done) => UntilState::Failed,
        (UntilState::GivingUp, HelperEvent::Failed) => UntilState::Failed,
        (UntilState::Killing, HelperEvent::Done) => UntilState::Deleting,
        (UntilState::Killing, HelperEvent::Failed) => UntilState::Deleting,
        (UntilState::Deleting, HelperEvent::Done) => UntilState::Succeeded,
        (UntilState::Deleting, HelperEvent::Failed) => UntilState::Succeeded,
        _ => state,
    }
}

/// What a helper for an instant asks for next.
pub fn until_asks(state: UntilState) -> (r: HelperAction)
    ensures
        r == until_action(state),
{
    match state {
        UntilState::Begin => HelperAction::ReadClock,
        UntilState::Launching => HelperAction::Launch,
        UntilState::Launched => HelperAction::ReadClock,
        UntilState::Publishing(now) => HelperAction::Publish(now),
        UntilState::Published => HelperAction::ReadClock,
        UntilState::CheckingStop => HelperAction::CheckStop,
        UntilState::CheckingChild => HelperAction::CheckChild,
        UntilState::Timing => HelperAction::ReadClock,
        UntilState::Sleeping(span) => HelperAction::Sleep(span),
        UntilState::Dropping => HelperAction::Kill,
        UntilState::GivingUp => HelperAction::Kill,
        UntilState::Killing => HelperAction::Kill,
        UntilState::Deleting => HelperAction::DeleteState,
        UntilState::Succeeded => HelperAction::Succeed,
        UntilState::Failed => HelperAction::Fail,
    }
}

/// Where a helper for an instant goes from `state` on `event`.
pub fn run_until(deadline: Timestamp, state: UntilState, event: HelperEvent) -> (r: UntilState)
    requires
        deadline.valid(),
        event.valid(),
    ensures
        r == until_next(deadline, state, event),
{
    match (state, event) {
        (UntilState::Begin, HelperEvent::Clock(now, _)) => {
            if supervisor::deadline_still_pending(&deadline, &now) {
                UntilState::Launching
            } else {
                UntilState::Succeeded
            }
        },
        (UntilState::Launching, HelperEvent::Done) => UntilState::Launched,
        (UntilState::Launching, HelperEvent::Failed) => UntilState::Failed,
        (UntilState::Launched, HelperEvent::Clock(now, _)) => {
            if supervisor::deadline_still_pending(&deadline, &now) {
                UntilState::Publishing(now)
            } else {
                UntilState::Dropping
            }
        },
        (UntilState::Publishing(_), HelperEvent::Done) => UntilState::Published,
        (UntilState::Publishing(_), HelperEvent::Failed) => UntilState::GivingUp,
        (UntilState::Published, HelperEvent::Clock(now, _)) => {
            if supervisor::deadline_still_pending(&deadline, &now) {
                UntilState::CheckingStop
            } else {
                UntilState::Killing
            }
        },
        (UntilState::CheckingStop, HelperEvent::Stop(stop)) => if stop {
            UntilState::Killing
        } else {
            UntilState::CheckingChild
        },
        (UntilState::CheckingChild, HelperEvent::Exited(exited)) => if exited {
            UntilState::Killing
        } else {
            UntilState::Timing
        },
        (UntilState::CheckingChild, HelperEvent::Failed) => UntilState::Failed,
        (UntilState::Timing, HelperEvent::Clock(now, _)) => {
            match supervisor::poll_interval(Some(deadline), now, Span { seconds: 1, nanos: 0 }) {
                Some(span) => UntilState::Sleeping(span),
                None => UntilState::Killing,
            }
        },
        (UntilState::Sleeping(_), HelperEvent::Done) => UntilState::CheckingStop,
        (UntilState::Dropping, HelperEvent::Done) => UntilState::Succeeded,
        (UntilState::Dropping, HelperEvent::Failed) => UntilState::Succeeded,
        (UntilState::GivingUp, HelperEvent::Done) => UntilState::Failed,
        (UntilState::GivingUp, HelperEvent::Failed) => UntilState::Failed,
        (UntilState::Killing, HelperEvent::Done) => UntilState::Deleting,
        (UntilState::Killing, HelperEvent::Failed) => UntilState::Deleting,
        (UntilState::Deleting, HelperEvent::Done) => UntilState::Succeeded,
        (UntilState::Deleting, HelperEvent::Failed) => UntilState::Succeeded,
        _ => state,
    }
}

/// Where a helper for an instant stands after these events.
pub open spec fn until_after(deadline: Timestamp, events: Seq<HelperEvent>) -> UntilState
    decreases events.len(),
{
    if events.len() == 0 {
        UntilState::Begin
    } else {
        until_next(deadline, until_after(deadline, events.drop_last()), events.last())
    }
}

/// Whether a command is running and a session published, once `event` has answered `action`. Ending
/// and deleting are tried once and count as done.
pub open spec fn left_behind(before: (bool, bool), action: HelperAction, event: HelperEvent) -> (
    bool,
    bool,
) {
    let answered = event == HelperEvent::Done || event == HelperEvent::Failed;
    match action {
        HelperAction::Launch => (before.0 || event == HelperEvent::Done, before.1),
        HelperAction::Publish(_) => (before.0, before.1 || event == HelperEvent::Done),
        HelperAction::Kill => (before.0 && !answered, before.1),
        HelperAction::DeleteState => (before.0, before.1 && !answered),
        _ => before,
    }
}

/// Whether a command is running and a session published after these events.
pub open spec fn until_left(deadline: Timestamp, events: Seq<HelperEvent>) -> (bool, bool)
    decreases events.len(),
{
    if events.len() == 0 {
        (false, false)
    } else {
        let before = events.drop_last();
        left_behind(
            until_left(deadline, before),
            until_action(until_after(deadline, before)),
            events.last(),
        )
    }
}

/// What each state of a helper for an instant stands for.
spec fn until_holds(state: UntilState) -> (bool, bool) {
    match state {
        UntilState::Begin | UntilState::Launching | UntilState::Succeeded => (false, false),
        UntilState::Launched | UntilState::Publishing(_) | UntilState::Dropping
        | UntilState::GivingUp => (true, false),
        UntilState::Deleting => (false, true),
        _ => (true, true),
    }
}

proof fn lemma_until_holds(deadline: Timestamp, events: Seq<HelperEvent>)
    ensures
        until_after(deadline, events) !is Failed ==> until_left(deadline, events) == until_holds(
            until_after(deadline, events),
        ),
    decreases events.len(),
{
    if events.len() > 0 {
        lemma_until_holds(deadline, events.drop_last());
    }
}

/// A helper for an instant that succeeds leaves nothing behind, whatever happened: no command runs
/// and no session is published.
pub proof fn law_until_leaves_nothing_behind(deadline: Timestamp, events: Seq<HelperEvent>)
    ensures
        until_after(deadline, events) is Succeeded ==> until_left(deadline, events) == (
            false,
            false,
        ),
{
    lemma_until_holds(deadline, events);
}

/// A helper for an instant publishes only while the deadline is to come, and never sleeps past it.
pub proof fn law_until_respects_the_deadline(
    deadline: Timestamp,
    state: UntilState,
    event: HelperEvent,
)
    ensures
        until_next(deadline, state, event) matches UntilState::Publishing(now) ==> (state
            == UntilState::Publishing(now) || now.precedes(deadline)),
        until_next(deadline, state, event) matches UntilState::Sleeping(span) ==> (state
            == UntilState::Sleeping(span) || (event matches HelperEvent::Clock(now, _) && Some(span)
            == sleep_span(Some(deadline), now, Span { seconds: 1, nanos: 0 }))),
{
}

/// How far a helper for a charge has come. It carries which way the charge goes and how many looks at
/// it have failed in a row.
#[derive(Clone, Copy, Debug, PartialEq, Eq, Structural)]
pub enum ChargeState {
    Preparing,
    Reporting,
    Launching { up: bool },
    Timing { up: bool },
    Publishing { up: bool, now: Timestamp },
    Sleeping { up: bool, failures: u8 },
    CheckingStop { up: bool, failures: u8 },
    CheckingChild { up: bool, failures: u8 },
    CheckingAge { up: bool, failures: u8 },
    Polling { up: bool, failures: u8 },
    GivingUp,
    Killing,
    Deleting,
    Succeeded,
    Failed,
}

impl ChargeState {
    /// Whether the count of failed looks is below the one that ends the waiting.
    pub open spec fn valid(self) -> bool {
        match self {
            ChargeState::Sleeping { failures, .. } => failures < MAX_BATTERY_FAILURES,
            ChargeState::CheckingStop { failures, .. } => failures < MAX_BATTERY_FAILURES,
            ChargeState::CheckingChild { failures, .. } => failures < MAX_BATTERY_FAILURES,
            ChargeState::CheckingAge { failures, .. } => failures < MAX_BATTERY_FAILURES,
            ChargeState::Polling { failures, .. } => failures < MAX_BATTERY_FAILURES,
            _ => true,
        }
    }
}

/// What a helper for a charge asks for next.
pub open spec fn charge_action(state: ChargeState) -> HelperAction {
    match state {
        ChargeState::Preparing => HelperAction::PrepareCharge,
        ChargeState::Reporting => HelperAction::Report,
        ChargeState::Launching { .. } => HelperAction::Launch,
        ChargeState::Timing { .. } => HelperAction::ReadClock,
        ChargeState::Publishing { now, .. } => HelperAction::Publish(now),
        ChargeState::Sleeping { .. } => HelperAction::Sleep(Span { seconds: 1, nanos: 0 }),
        ChargeState::CheckingStop { .. } => HelperAction::CheckStop,
        ChargeState::CheckingChild { .. } => HelperAction::CheckChild,
        ChargeState::CheckingAge { .. } => HelperAction::ReadBatteryAge,
        ChargeState::Polling { .. } => HelperAction::ReadBattery,
        ChargeState::GivingUp => HelperAction::Kill,
        ChargeState::Killing => HelperAction::Kill,
        ChargeState::Deleting => HelperAction::DeleteState,
        ChargeState::Succeeded => HelperAction::Succeed,
        ChargeState::Failed => HelperAction::Fail,
    }
}

/// Where a helper for a charge goes from `state` on `event`. A charge that is met, or that cannot be
/// waited for, ends it well; else it runs its command and publishes the session, looks every
/// second whether to go on and every half minute at the battery, and takes both back in the end.
pub open spec fn charge_next(target: i32, state: ChargeState, event: HelperEvent) -> ChargeState {
    match (state, event) {
        (ChargeState::Preparing, HelperEvent::ChargeMet) => ChargeState::Succeeded,
        (ChargeState::Preparing, HelperEvent::ChargeWait(up)) => ChargeState::Launching { up },
        (ChargeState::Preparing, HelperEvent::Failed) => ChargeState::Reporting,
        (ChargeState::Reporting, HelperEvent::Done) => ChargeState::Succeeded,
        (ChargeState::Launching { up }, HelperEvent::Done) => ChargeState::Timing { up },
        (ChargeState::Launching { .. }, HelperEvent::Failed) => ChargeState::Failed,
        (ChargeState::Timing { up }, HelperEvent::Clock(now, _)) => ChargeState::Publishing {
            up,
            now,
        },
        (ChargeState::Publishing { up, .. }, HelperEvent::Done) => ChargeState::Sleeping {
            up,
            failures: 0,
        },
        (ChargeState::Publishing { .. }, HelperEvent::Failed) => ChargeState::GivingUp,
        (ChargeState::Sleeping { up, failures }, HelperEvent::Done) => ChargeState::CheckingStop {
            up,
            failures,
        },
        (ChargeState::CheckingStop { up, failures }, HelperEvent::Stop(stop)) => if stop {
            ChargeState::Killing
        } else {
            ChargeState::CheckingChild { up, failures }
        },
        (ChargeState::CheckingChild { up, failures }, HelperEvent::Exited(exited)) => if exited {
            ChargeState::Killing
        } else {
            ChargeState::CheckingAge { up, failures }
        },
        (ChargeState::CheckingChild { .. }, HelperEvent::Failed) => ChargeState::Failed,
        (ChargeState::CheckingAge { up, failures }, HelperEvent::Elapsed(age)) => {
            if age.seconds >= POLL_SECONDS {
                ChargeState::Polling { up, failures }
            } else {
                ChargeState::Sleeping { up, failures }
            }
        },
        (ChargeState::Polling { up, failures }, HelperEvent::Battery(percent)) => {
            let (poll, failures) = battery_poll(target, up, failures, percent);
            if poll == BatteryPoll::Continue {
                ChargeState::Sleeping { up, failures: failures as u8 }
            } else {
                ChargeState::Killing
            }
        },
        (ChargeState::GivingUp, HelperEvent::Done) => ChargeState::Failed,
        (ChargeState::GivingUp, HelperEvent::Failed) => ChargeState::Failed,
        (ChargeState::Killing, HelperEvent::Done) => ChargeState::Deleting,
        (ChargeState::Killing, HelperEvent::Failed) => ChargeState::Deleting,
        (ChargeState::Deleting, HelperEvent::Done) => ChargeState::Succeeded,
        (ChargeState::Deleting, HelperEvent::Failed) => ChargeState::Succeeded,
        _ => state,
    }
}

/// What a helper for a charge asks for next.
pub fn charge_asks(state: ChargeState) -> (r: HelperAction)
    ensures
        r == charge_action(state),
{
    match state {
        ChargeState::Preparing => HelperAction::PrepareCharge,
        ChargeState::Reporting => HelperAction::Report,
        ChargeState::Launching { .. } => HelperAction::Launch,
        ChargeState::Timing { .. } => HelperAction::ReadClock,
        ChargeState::Publishing { now, .. } => HelperAction::Publish(now),
        ChargeState::Sleeping { .. } => HelperAction::Sleep(Span { seconds: 1, nanos: 0 }),
        ChargeState::CheckingStop { .. } => HelperAction::CheckStop,
        ChargeState::CheckingChild { .. } => HelperAction::CheckChild,
        ChargeState::CheckingAge { .. } => HelperAction::ReadBatteryAge,
        ChargeState::Polling { .. } => HelperAction::ReadBattery,
        ChargeState::GivingUp => HelperAction::Kill,
        ChargeState::Killing => HelperAction::Kill,
        ChargeState::Deleting => HelperAction::DeleteState,
        ChargeState::Succeeded => HelperAction::Succeed,
        ChargeState::Failed => HelperAction::Fail,
    }
}

/// Where a helper for a charge goes from `state` on `event`.
pub fn run_charge(target: i32, state: ChargeState, event: HelperEvent) -> (r: ChargeState)
    requires
        state.valid(),
    ensures
        r == charge_next(target, state, event),
        r.valid(),
{
    match (state, event) {
        (ChargeState::Preparing, HelperEvent::ChargeMet) => ChargeState::Succeeded,
        (ChargeState::Preparing, HelperEvent::ChargeWait(up)) => ChargeState::Launching { up },
        (ChargeState::Preparing, HelperEvent::Failed) => ChargeState::Reporting,
        (ChargeState::Reporting, HelperEvent::Done) => ChargeState::Succeeded,
        (ChargeState::Launching { up }, HelperEvent::Done) => ChargeState::Timing { up },
        (ChargeState::Launching { .. }, HelperEvent::Failed) => ChargeState::Failed,
        (ChargeState::Timing { up }, HelperEvent::Clock(now, _)) => ChargeState::Publishing {
            up,
            now,
        },
        (ChargeState::Publishing { up, .. }, HelperEvent::Done) => ChargeState::Sleeping {
            up,
            failures: 0,
        },
        (ChargeState::Publishing { .. }, HelperEvent::Failed) => ChargeState::GivingUp,
        (ChargeState::Sleeping { up, failures }, HelperEvent::Done) => ChargeState::CheckingStop {
            up,
            failures,
        },
        (ChargeState::CheckingStop { up, failures }, HelperEvent::Stop(stop)) => if stop {
            ChargeState::Killing
        } else {
            ChargeState::CheckingChild { up, failures }
        },
        (ChargeState::CheckingChild { up, failures }, HelperEvent::Exited(exited)) => if exited {
            ChargeState::Killing
        } else {
            ChargeState::CheckingAge { up, failures }
        },
        (ChargeState::CheckingChild { .. }, HelperEvent::Failed) => ChargeState::Failed,
        (ChargeState::CheckingAge { up, failures }, HelperEvent::Elapsed(age)) => {
            if age.seconds >= POLL_SECONDS {
                ChargeState::Polling { up, failures }
            } else {
                ChargeState::Sleeping { up, failures }
            }
        },
        (ChargeState::Polling { up, failures }, HelperEvent::Battery(percent)) => {
            let mut count: u8 = failures;
            match supervisor::poll_battery(target, up, &mut count, percent) {
                BatteryPoll::Continue => ChargeState::Sleeping { up, failures: count },
                _ => ChargeState::Killing,
            }
        },
        (ChargeState::GivingUp, HelperEvent::Done) => ChargeState::Failed,
        (ChargeState::GivingUp, HelperEvent::Failed) => ChargeState::Failed,
        (ChargeState::Killing, HelperEvent::Done) => ChargeState::Deleting,
        (ChargeState::Killing, HelperEvent::Failed) => ChargeState::Deleting,
        (ChargeState::Deleting, HelperEvent::Done) => ChargeState::Succeeded,
        (ChargeState::Deleting, HelperEvent::Failed) => ChargeState::Succeeded,
        _ => state,
    }
}

/// Where a helper for a charge stands after these events.
pub open spec fn charge_after(target: i32, events: Seq<HelperEvent>) -> ChargeState
    decreases events.len(),
{
    if events.len() == 0 {
        ChargeState::Preparing
    } else {
        charge_next(target, charge_after(target, events.drop_last()), events.last())
    }
}

/// Whether a command is running and a session published after these events.
pub open spec fn charge_left(target: i32, events: Seq<HelperEvent>) -> (bool, bool)
    decreases events.len(),
{
    if events.len() == 0 {
        (false, false)
    } else {
        let before = events.drop_last();
        left_behind(
            charge_left(target, before),
            charge_action(charge_after(target, before)),
            events.last(),
        )
    }
}

/// What each state of a helper for a charge stands for.
spec fn charge_holds(state: ChargeState) -> (bool, bool) {
    match state {
        ChargeState::Preparing | ChargeState::Reporting | ChargeState::Launching { .. }
        | ChargeState::Succeeded => (false, false),
        ChargeState::Timing { .. } | ChargeState::Publishing { .. } | ChargeState::GivingUp => (
            true,
            false,
        ),
        ChargeState::Deleting => (false, true),
        _ => (true, true),
    }
}

proof fn lemma_charge_holds(target: i32, events: Seq<HelperEvent>)
    ensures
        charge_after(target, events) !is Failed ==> charge_left(target, events) == charge_holds(
            charge_after(target, events),
        ),
    decreases events.len(),
{
    if events.len() > 0 {
        lemma_charge_holds(target, events.drop_last());
    }
}

/// A helper for a charge that succeeds leaves nothing behind, whatever happened: no command runs and
/// no session is published.
pub proof fn law_charge_leaves_nothing_behind(target: i32, events: Seq<HelperEvent>)
    ensures
        charge_after(target, events) is Succeeded ==> charge_left(target, events) == (false, false),
{
    lemma_charge_holds(target, events);
}

/// A look at the battery ends the waiting only when the charge has come to the target from the side
/// that it started on, or when it was the third in a row that failed.
pub proof fn law_charge_waits_for_the_target(
    target: i32,
    up: bool,
    failures: u8,
    event: HelperEvent,
)
    requires
        failures < MAX_BATTERY_FAILURES,
    ensures
        charge_next(target, ChargeState::Polling { up, failures }, event) is Killing <==> {
            ||| event matches HelperEvent::Battery(Some(p)) && target_met(target, up, p)
            ||| event == HelperEvent::Battery(None) && failures + 1 >= MAX_BATTERY_FAILURES
        },
{
}

/// A machine as a helper meets it: what it answers, and what the helper has done to it so far.
pub struct HelperWorld {
    pub now: Timestamp,
    /// How long the helper has been watching, and how long ago it looked at the battery and refreshed its
    /// permission.
    pub elapsed: Span,
    pub battery_age: Span,
    pub permission_age: Span,
    /// What a target charge asks for.
    pub charge: HelperEvent,
    /// Whether the helper was told to stop, its command has ended, and the process that it waits for lives.
    pub stop: bool,
    pub exited: bool,
    pub alive: bool,
    pub percent: Option<i32>,
    /// Whether a command comes up, a session can be published and the sleep setting can be set.
    pub launches: bool,
    pub publishes: bool,
    pub settable: bool,
    pub sleep: i32,
    /// Whether a command runs, and when the session that is published started.
    pub running: bool,
    pub published: Option<Timestamp>,
    /// Whether the user was told how to put the sleep setting right, and the permission was refreshed.
    pub rescued: bool,
    pub refreshed: bool,
}

impl HelperWorld {
    /// What the machine answers to an action, and what it is then.
    pub open spec fn answer(self, action: HelperAction) -> (HelperWorld, HelperEvent) {
        match action {
            HelperAction::ReadClock => (self, HelperEvent::Clock(self.now, self.elapsed)),
            HelperAction::PrepareCharge => (self, self.charge),
            HelperAction::Launch => if self.launches {
                (HelperWorld { running: true, ..self }, HelperEvent::Done)
            } else {
                (self, HelperEvent::Failed)
            },
            HelperAction::Publish(at) => if self.publishes {
                (HelperWorld { published: Some(at), ..self }, HelperEvent::Done)
            } else {
                (self, HelperEvent::Failed)
            },
            HelperAction::CheckStop => (self, HelperEvent::Stop(self.stop)),
            HelperAction::CheckChild => (self, HelperEvent::Exited(self.exited)),
            HelperAction::CheckProcess => (self, HelperEvent::Alive(self.alive)),
            HelperAction::ReadBatteryAge => (self, HelperEvent::Elapsed(self.battery_age)),
            HelperAction::ReadBattery => (self, HelperEvent::Battery(self.percent)),
            HelperAction::ReadPermissionAge => (self, HelperEvent::Elapsed(self.permission_age)),
            HelperAction::ReadSleepSetting => (self, HelperEvent::SleepSetting(Some(self.sleep))),
            HelperAction::SetSleepSetting(value) => if self.settable {
                (HelperWorld { sleep: value, ..self }, HelperEvent::Done)
            } else {
                (self, HelperEvent::Failed)
            },
            HelperAction::Rescue(_) => (HelperWorld { rescued: true, ..self }, HelperEvent::Done),
            HelperAction::RefreshPermission => (
                HelperWorld { refreshed: true, ..self },
                HelperEvent::Done,
            ),
            HelperAction::Kill => (HelperWorld { running: false, ..self }, HelperEvent::Done),
            HelperAction::DeleteState => (
                HelperWorld { published: None, ..self },
                HelperEvent::Done,
            ),
            _ => (self, HelperEvent::Done),
        }
    }
}

/// A step of a helper for an instant.
pub open spec fn until_step(deadline: Timestamp, at: (UntilState, HelperWorld)) -> (
    UntilState,
    HelperWorld,
) {
    let (world, event) = at.1.answer(until_action(at.0));
    (until_next(deadline, at.0, event), world)
}

/// Where a helper for an instant next comes to sleep or to its end, within so many steps.
pub open spec fn until_rests(deadline: Timestamp, at: (UntilState, HelperWorld), steps: nat) -> (
    UntilState,
    HelperWorld,
)
    decreases steps,
{
    if steps == 0 || at.0 is Sleeping || at.0 is Succeeded || at.0 is Failed {
        at
    } else {
        until_rests(deadline, until_step(deadline, at), (steps - 1) as nat)
    }
}

proof fn lemma_sleep_span(deadline: Timestamp, now: Timestamp)
    requires
        deadline.valid() && deadline.nanos < 1_000_000_000,
        now.valid() && now.nanos < 1_000_000_000,
    ensures
        match sleep_span(Some(deadline), now, Span { seconds: 1, nanos: 0 }) {
            Some(span) => now.precedes(deadline) && 0 < span.total() <= 1_000_000_000
                && span.total() <= time::nanos_between(deadline, now),
            None => !now.precedes(deadline),
        },
{
    supervisor::law_sleep_ends_by_the_deadline(deadline, now, 1_000_000_000);
}

/// A helper for an instant that is still to come starts its command, publishes its session as started now,
/// and sleeps for a second at most and not past that instant. Once the instant has come it starts
/// nothing; and where the command does not come up or the session cannot be published, it fails and
/// leaves nothing behind.
pub proof fn law_until_helpers_start_what_they_should(deadline: Timestamp, world: HelperWorld)
    requires
        deadline.valid() && deadline.nanos < 1_000_000_000,
        world.now.valid() && world.now.nanos < 1_000_000_000,
        !world.running && world.published is None && !world.stop && !world.exited,
    ensures
        ({
            let (state, after) = until_rests(deadline, (UntilState::Begin, world), 9);
            if !world.now.precedes(deadline) {
                state is Succeeded && after == world
            } else if world.launches && world.publishes {
                &&& state matches UntilState::Sleeping(span) && 0 < span.total() <= 1_000_000_000
                    && span.total() <= time::nanos_between(deadline, world.now)
                &&& after.running && after.published == Some(world.now)
            } else {
                state is Failed && !after.running && after.published is None
            }
        }),
{
    lemma_sleep_span(deadline, world.now);
    let c0 = (UntilState::Begin, world);
    let c1 = until_step(deadline, c0);
    assert(until_rests(deadline, c0, 9) == until_rests(deadline, c1, 8));
    if world.now.precedes(deadline) {
        assert(c1 == (UntilState::Launching, world));
        let c2 = until_step(deadline, c1);
        assert(until_rests(deadline, c1, 8) == until_rests(deadline, c2, 7));
        if world.launches {
            let up = HelperWorld { running: true, ..world };
            assert(c2 == (UntilState::Launched, up));
            let c3 = until_step(deadline, c2);
            assert(until_rests(deadline, c2, 7) == until_rests(deadline, c3, 6));
            assert(c3 == (UntilState::Publishing(world.now), up));
            let c4 = until_step(deadline, c3);
            assert(until_rests(deadline, c3, 6) == until_rests(deadline, c4, 5));
            if world.publishes {
                let out = HelperWorld { published: Some(world.now), ..up };
                assert(c4 == (UntilState::Published, out));
                let c5 = until_step(deadline, c4);
                assert(until_rests(deadline, c4, 5) == until_rests(deadline, c5, 4));
                assert(c5 == (UntilState::CheckingStop, out));
                let c6 = until_step(deadline, c5);
                assert(until_rests(deadline, c5, 4) == until_rests(deadline, c6, 3));
                assert(c6 == (UntilState::CheckingChild, out));
                let c7 = until_step(deadline, c6);
                assert(until_rests(deadline, c6, 3) == until_rests(deadline, c7, 2));
                assert(c7 == (UntilState::Timing, out));
                let c8 = until_step(deadline, c7);
                assert(until_rests(deadline, c7, 2) == until_rests(deadline, c8, 1));
            } else {
                assert(c4 == (UntilState::GivingUp, up));
                let c5 = until_step(deadline, c4);
                assert(until_rests(deadline, c4, 5) == until_rests(deadline, c5, 4));
            }
        }
    }
}

proof fn lemma_until_killed(deadline: Timestamp, world: HelperWorld, steps: nat)
    requires
        steps >= 2,
    ensures
        until_rests(deadline, (UntilState::Killing, world), steps) == (
            UntilState::Succeeded,
            HelperWorld { running: false, published: None, ..world },
        ),
{
    let c0 = (UntilState::Killing, world);
    let c1 = until_step(deadline, c0);
    let c2 = until_step(deadline, c1);
    assert(c1 == (UntilState::Deleting, HelperWorld { running: false, ..world }));
    assert(until_rests(deadline, c0, steps) == until_rests(deadline, c1, (steps - 1) as nat));
    assert(until_rests(deadline, c1, (steps - 1) as nat) == until_rests(
        deadline,
        c2,
        (steps - 2) as nat,
    ));
}

/// Each time a helper for an instant wakes up, it ends its command and takes its session back exactly where
/// that instant has come, it was told to stop or the command has ended; otherwise it goes on as
/// before, and sleeps for a second at most and not past the instant.
pub proof fn law_until_helpers_end_when_they_should(
    deadline: Timestamp,
    slept: Span,
    world: HelperWorld,
)
    requires
        deadline.valid() && deadline.nanos < 1_000_000_000,
        world.now.valid() && world.now.nanos < 1_000_000_000,
    ensures
        ({
            let woken = until_step(deadline, (UntilState::Sleeping(slept), world));
            let (state, after) = until_rests(deadline, woken, 9);
            if world.stop || world.exited || !world.now.precedes(deadline) {
                state is Succeeded && !after.running && after.published is None
            } else {
                &&& state matches UntilState::Sleeping(span) && 0 < span.total() <= 1_000_000_000
                    && span.total() <= time::nanos_between(deadline, world.now)
                &&& after == world
            }
        }),
{
    lemma_sleep_span(deadline, world.now);
    let c0 = until_step(deadline, (UntilState::Sleeping(slept), world));
    assert(c0 == (UntilState::CheckingStop, world));
    let c1 = until_step(deadline, c0);
    assert(until_rests(deadline, c0, 9) == until_rests(deadline, c1, 8));
    lemma_until_killed(deadline, world, 8);
    lemma_until_killed(deadline, world, 7);
    lemma_until_killed(deadline, world, 6);
    if !world.stop {
        assert(c1 == (UntilState::CheckingChild, world));
        let c2 = until_step(deadline, c1);
        assert(until_rests(deadline, c1, 8) == until_rests(deadline, c2, 7));
        if !world.exited {
            assert(c2 == (UntilState::Timing, world));
            let c3 = until_step(deadline, c2);
            assert(until_rests(deadline, c2, 7) == until_rests(deadline, c3, 6));
        }
    }
}

/// A step of a helper for a charge.
pub open spec fn charge_step(target: i32, at: (ChargeState, HelperWorld)) -> (
    ChargeState,
    HelperWorld,
) {
    let (world, event) = at.1.answer(charge_action(at.0));
    (charge_next(target, at.0, event), world)
}

/// Where a helper for a charge next comes to sleep or to its end, within so many steps.
pub open spec fn charge_rests(target: i32, at: (ChargeState, HelperWorld), steps: nat) -> (
    ChargeState,
    HelperWorld,
)
    decreases steps,
{
    if steps == 0 || at.0 is Sleeping || at.0 is Succeeded || at.0 is Failed {
        at
    } else {
        charge_rests(target, charge_step(target, at), (steps - 1) as nat)
    }
}

/// A helper for a charge that has to be waited for starts its command and publishes its session as started now;
/// for one that is met already, or that cannot be waited for, it starts nothing. Where the command does
/// not come up or the session cannot be published, it fails and leaves nothing behind.
pub proof fn law_charge_helpers_start_what_they_should(target: i32, world: HelperWorld)
    requires
        !world.running && world.published is None,
        world.charge is ChargeMet || world.charge is ChargeWait || world.charge is Failed,
    ensures
        ({
            let (state, after) = charge_rests(target, (ChargeState::Preparing, world), 9);
            match world.charge {
                HelperEvent::ChargeWait(up) => if world.launches && world.publishes {
                    &&& state == ChargeState::Sleeping { up, failures: 0 }
                    &&& after.running && after.published == Some(world.now)
                } else {
                    state is Failed && !after.running && after.published is None
                },
                _ => state is Succeeded && after == world,
            }
        }),
{
    let c0 = (ChargeState::Preparing, world);
    let c1 = charge_step(target, c0);
    assert(charge_rests(target, c0, 9) == charge_rests(target, c1, 8));
    match world.charge {
        HelperEvent::ChargeWait(up) => {
            assert(c1 == (ChargeState::Launching { up }, world));
            let c2 = charge_step(target, c1);
            assert(charge_rests(target, c1, 8) == charge_rests(target, c2, 7));
            if world.launches {
                let on = HelperWorld { running: true, ..world };
                assert(c2 == (ChargeState::Timing { up }, on));
                let c3 = charge_step(target, c2);
                assert(charge_rests(target, c2, 7) == charge_rests(target, c3, 6));
                assert(c3 == (ChargeState::Publishing { up, now: world.now }, on));
                let c4 = charge_step(target, c3);
                assert(charge_rests(target, c3, 6) == charge_rests(target, c4, 5));
                if !world.publishes {
                    assert(c4 == (ChargeState::GivingUp, on));
                    let c5 = charge_step(target, c4);
                    assert(charge_rests(target, c4, 5) == charge_rests(target, c5, 4));
                }
            }
        },
        _ => {
            if world.charge is Failed {
                assert(c1 == (ChargeState::Reporting, world));
                let c2 = charge_step(target, c1);
                assert(charge_rests(target, c1, 8) == charge_rests(target, c2, 7));
            }
        },
    }
}

proof fn lemma_charge_killed(target: i32, world: HelperWorld, steps: nat)
    requires
        steps >= 2,
    ensures
        charge_rests(target, (ChargeState::Killing, world), steps) == (
            ChargeState::Succeeded,
            HelperWorld { running: false, published: None, ..world },
        ),
{
    let c0 = (ChargeState::Killing, world);
    let c1 = charge_step(target, c0);
    let c2 = charge_step(target, c1);
    assert(c1 == (ChargeState::Deleting, HelperWorld { running: false, ..world }));
    assert(charge_rests(target, c0, steps) == charge_rests(target, c1, (steps - 1) as nat));
    assert(charge_rests(target, c1, (steps - 1) as nat) == charge_rests(
        target,
        c2,
        (steps - 2) as nat,
    ));
}

/// Each time a helper for a charge wakes up from a second's sleep, it ends its command and takes its session
/// back exactly where it was told to stop, the command has ended, or half a minute after the last look
/// at the battery the charge has come to the target from the side that it started on or could not be read
/// for the third time in a row. Otherwise it goes on as before, and counts the failed looks.
pub proof fn law_charge_helpers_end_when_they_should(
    target: i32,
    up: bool,
    failures: u8,
    world: HelperWorld,
)
    requires
        failures < 3,
    ensures
        charge_action(ChargeState::Sleeping { up, failures }) == HelperAction::Sleep(
            Span { seconds: 1, nanos: 0 },
        ),
        ({
            let woken = charge_step(target, (ChargeState::Sleeping { up, failures }, world));
            let (state, after) = charge_rests(target, woken, 9);
            let looks = world.battery_age.seconds >= 30;
            let met = world.percent matches Some(p) && (up && p >= target || !up && p <= target);
            let lost = world.percent is None && failures == 2;
            if world.stop || world.exited || (looks && (met || lost)) {
                state is Succeeded && !after.running && after.published is None
            } else {
                &&& state == ChargeState::Sleeping {
                    up,
                    failures: if !looks {
                        failures
                    } else if world.percent is Some {
                        0
                    } else {
                        (failures + 1) as u8
                    },
                }
                &&& after == world
            }
        }),
{
    let c0 = charge_step(target, (ChargeState::Sleeping { up, failures }, world));
    assert(c0 == (ChargeState::CheckingStop { up, failures }, world));
    let c1 = charge_step(target, c0);
    assert(charge_rests(target, c0, 9) == charge_rests(target, c1, 8));
    lemma_charge_killed(target, world, 8);
    lemma_charge_killed(target, world, 7);
    lemma_charge_killed(target, world, 5);
    if !world.stop {
        assert(c1 == (ChargeState::CheckingChild { up, failures }, world));
        let c2 = charge_step(target, c1);
        assert(charge_rests(target, c1, 8) == charge_rests(target, c2, 7));
        if !world.exited {
            assert(c2 == (ChargeState::CheckingAge { up, failures }, world));
            let c3 = charge_step(target, c2);
            assert(charge_rests(target, c2, 7) == charge_rests(target, c3, 6));
            if world.battery_age.seconds >= 30 {
                assert(c3 == (ChargeState::Polling { up, failures }, world));
                let c4 = charge_step(target, c3);
                assert(charge_rests(target, c3, 6) == charge_rests(target, c4, 5));
            }
        }
    }
}

/// The command that a helper runs lives as long as the helper, and not for a number of seconds; its scope is
/// just the one that the helper was told, and a Mac has none.
pub proof fn law_commands_live_as_long_as_their_helper(
    platform: Platform,
    no_display: bool,
    even_lid: bool,
    scope: Seq<char>,
    pid: u32,
    exe: Seq<char>,
    unexpected: Seq<char>,
)
    requires
        platform != Platform::Windows,
    ensures
        ({
            let r = helper_command(
                platform,
                no_display,
                even_lid,
                scope,
                pid,
                Ok(exe),
                unexpected,
            );
            &&& platform == Platform::Macos ==> (r is Ok <==> scope.len() == 0)
            &&& platform == Platform::Macos ==> (r matches Ok((words, _))
                ==> platform::macos::follows(words, "-w"@, text::decimal(pid as nat))
                && !words.contains("-t"@))
            &&& platform == Platform::Linux ==> (r matches Ok((words, _)) ==> words.skip(4) == seq![
                "tail"@,
                "--pid="@ + text::decimal(pid as nat),
                "-f"@,
                "/dev/null"@,
            ] && words.contains("--what="@ + scope))
        }),
{
    if platform == Platform::Macos {
        platform::macos::law_caffeinate_lasts_as_long_as_asked(no_display, None, Some(pid));
    } else {
        platform::linux::law_inhibitors_last_as_long_as_asked(exe, scope, None, Some(pid));
        platform::linux::law_selected_scopes_are_inhibited(
            no_display,
            even_lid,
            scope,
            None,
            Some(pid),
            exe,
        );
    }
}

/// A helper publishes what it was told: one for an instant ends then, one for a charge not by itself.
pub proof fn law_helpers_publish_what_they_were_told(
    until: UntilArgs,
    waiting: ChargeArgs,
    charge: PreparedCharge,
    pid: u32,
    now: Timestamp,
    s: Session,
    t: Session,
)
    requires
        call_ensures(until_session, (&until, pid, now), s),
        call_ensures(charge_session, (&waiting, &charge, pid, now), t),
    ensures
        s@.pid == pid && s@.started_at == Some(now) && s@.ends_at == Some(until.deadline),
        s@.trigger == "until-time"@ && s@.detail == until.detail@ && s@.even_lid == until.even_lid,
        s@.mode == "system-only"@ <==> until.no_display,
        s@.mode == "display+system"@ <==> !until.no_display,
        t@.pid == pid && t@.started_at == Some(now) && t@.ends_at is None,
        t@.trigger == "until-charge"@ && t@.even_lid == waiting.even_lid,
        t@.mode == "system-only"@ <==> waiting.no_display,
{
    reveal_strlit("system-only");
    reveal_strlit("display+system");
    assert("system-only"@.len() == 11 && "display+system"@.len() == 14);
}

/// A helper on a Mac that is not the one for the lid is refused the lid.
pub proof fn law_ordinary_helpers_have_no_lid(
    until: UntilArgs,
    pid: u32,
    systemd_inhibit: Result<String, AppError>,
    r: Result<KeepAwake, AppError>,
)
    requires
        call_ensures(until_command, (Platform::Macos, &until, pid, systemd_inhibit), r),
    ensures
        r is Ok <==> !until.even_lid && until.inhibitor_scope@.len() == 0,
        ordinary_authority(true) is Err && ordinary_authority(false) is Ok,
{
}

/// A helper for an instant sleeps a whole second where the instant is at least that far away, and just the time
/// that is left where it is nearer.
pub proof fn law_until_helpers_sleep_as_long_as_they_may(
    deadline: Timestamp,
    now: Timestamp,
    elapsed: Span,
)
    ensures
        ({
            let left = time::nanos_between(deadline, now);
            let next = until_next(deadline, UntilState::Timing, HelperEvent::Clock(now, elapsed));
            &&& left >= 1_000_000_000 ==> (next matches UntilState::Sleeping(span) && span.total()
                == 1_000_000_000 && until_action(next) == HelperAction::Sleep(span))
            &&& 0 < left < 1_000_000_000 ==> (next matches UntilState::Sleeping(span)
                && span.total() == left)
        }),
{
    supervisor::law_sleep_is_as_long_as_it_may_be(
        Some(deadline),
        now,
        Span { seconds: 1, nanos: 0 },
    );
}

} // verus!
