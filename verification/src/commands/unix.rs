//! Starting, stopping and telling of sessions where a command holds the machine awake.

use vstd::prelude::*;
use vstd::string::*;

use super::{Parsed, Request};
use crate::error::{AppError, Fault, outcome, viewed};
use crate::platform::Platform;
use crate::session::{
    self, Record, SavedState, Saved, Session, blank, bool_text, maybe_saved, mode_for, mode_text,
};
use crate::supervisor::{self, ChargePreparation, target_met};
use crate::sysutil::Identity;
use crate::text;
use crate::time::{self, Timestamp};

verus! {

/// Whether the charge has come to the target from the side that it started on.
pub fn charge_target_met(target: i32, charging_up: bool, percent: i32) -> (r: bool)
    ensures
        r == target_met(target, charging_up, percent),
{
    if charging_up {
        percent >= target
    } else {
        percent <= target
    }
}

/// The charge, where it was read and has come to the target.
pub fn current_charge_met(target: i32, charging_up: bool, read: Option<i32>) -> (r: Option<i32>)
    ensures
        r == (match read {
            Some(percent) => if target_met(target, charging_up, percent) {
                Some(percent)
            } else {
                None
            },
            None => None,
        }),
{
    match read {
        Some(percent) => if charge_target_met(target, charging_up, percent) {
            Some(percent)
        } else {
            None
        },
        None => None,
    }
}

/// The command of a helper that waits for a charge.
pub open spec fn charge_command_words(
    exe: Seq<char>,
    target: i32,
    no_display: bool,
    mode: Seq<char>,
    even_lid: bool,
) -> Seq<Seq<char>> {
    seq![
        exe,
        "__supervise_charge__"@,
        text::signed_decimal(target as int),
        bool_text(no_display),
        mode,
        bool_text(even_lid),
    ]
}

fn bool_word(b: bool) -> (r: String)
    ensures
        r@ == bool_text(b),
{
    if b {
        "true".to_owned()
    } else {
        "false".to_owned()
    }
}

pub fn charge_supervisor_command(
    exe: Result<String, AppError>,
    target: i32,
    no_display: bool,
    mode: &str,
    even_lid: bool,
) -> (r: Result<Vec<String>, AppError>)
    ensures
        match viewed(exe) {
            Ok(exe) => r matches Ok(words) && text::texts(words@) == charge_command_words(
                exe,
                target,
                no_display,
                mode@,
                even_lid,
            ),
            Err(e) => r matches Err(error) && error@ == e,
        },
{
    let exe = match exe {
        Err(e) => return Err(e),
        Ok(exe) => exe,
    };
    let ghost first = exe@;
    let mut words: Vec<String> = Vec::new();
    words.push(exe);
    words.push("__supervise_charge__".to_owned());
    words.push(text::signed_decimal_text(target as i64));
    words.push(bool_word(no_display));
    words.push(mode.to_owned());
    words.push(bool_word(even_lid));
    assert(text::texts(words@) =~= charge_command_words(first, target, no_display, mode@, even_lid));
    Ok(words)
}

/// The words that a helper is told which waits for a charge. The scope that it is to inhibit is settled by
/// the command that launches it, and stands last.
pub open spec fn charge_helper_words(
    target: i32,
    no_display: bool,
    even_lid: bool,
    inhibitor_scope: Seq<char>,
) -> Seq<Seq<char>> {
    seq![
        "__supervise_charge__"@,
        text::signed_decimal(target as int),
        bool_text(no_display),
        bool_text(even_lid),
        inhibitor_scope,
    ]
}

/// The command of a helper that waits for a charge and inhibits just the given scope.
pub fn charge_helper_command(
    exe: Result<String, AppError>,
    target: i32,
    no_display: bool,
    even_lid: bool,
    inhibitor_scope: &str,
) -> (r: Result<Vec<String>, AppError>)
    ensures
        match viewed(exe) {
            Ok(exe) => r matches Ok(words) && text::texts(words@) == seq![exe]
                + charge_helper_words(target, no_display, even_lid, inhibitor_scope@),
            Err(e) => r matches Err(error) && error@ == e,
        },
{
    let exe = match exe {
        Err(e) => return Err(e),
        Ok(exe) => exe,
    };
    let ghost first = exe@;
    let mut words: Vec<String> = Vec::new();
    words.push(exe);
    words.push("__supervise_charge__".to_owned());
    words.push(text::signed_decimal_text(target as i64));
    words.push(bool_word(no_display));
    words.push(bool_word(even_lid));
    words.push(inhibitor_scope.to_owned());
    assert(text::texts(words@) =~= seq![first] + charge_helper_words(
        target,
        no_display,
        even_lid,
        inhibitor_scope@,
    ));
    Ok(words)
}

/// A helper that waits for a charge reads from its command what it was given; a Mac has no such helper for
/// the lid.
pub proof fn law_charge_helpers_read_their_command(
    platform: Platform,
    target: i32,
    no_display: bool,
    even_lid: bool,
    inhibitor_scope: Seq<char>,
)
    requires
        1 <= target <= 100,
        platform == Platform::Macos ==> !even_lid,
    ensures
        supervisor::unix::charge_facts(
            platform,
            charge_helper_words(target, no_display, even_lid, inhibitor_scope),
        ) == Ok::<supervisor::unix::ChargeFacts, Fault>(
            supervisor::unix::ChargeFacts { target, no_display, even_lid, inhibitor_scope },
        ),
{
    reveal_strlit("true");
    reveal_strlit("false");
    assert("true"@.len() == 4 && "false"@.len() == 5);
    text::lemma_decimal(target as nat);
    supervisor::lemma_target(target as int);
}

/// The words that a helper is told which waits for an instant.
pub open spec fn until_helper_words(
    deadline: Timestamp,
    no_display: bool,
    detail: Seq<char>,
    even_lid: bool,
    inhibitor_scope: Seq<char>,
) -> Seq<Seq<char>> {
    seq![
        "__supervise_until__"@,
        session::instant_text(deadline),
        bool_text(no_display),
        detail,
        bool_text(even_lid),
        inhibitor_scope,
    ]
}

/// The command of a helper that waits for an instant.
pub fn until_supervisor_command(
    exe: Result<String, AppError>,
    deadline: &Timestamp,
    no_display: bool,
    detail: &str,
    even_lid: bool,
    inhibitor_scope: &str,
) -> (r: Result<Vec<String>, AppError>)
    requires
        deadline.valid(),
    ensures
        match viewed(exe) {
            Ok(exe) => r matches Ok(words) && text::texts(words@) == seq![exe] + until_helper_words(
                *deadline,
                no_display,
                detail@,
                even_lid,
                inhibitor_scope@,
            ),
            Err(e) => r matches Err(error) && error@ == e,
        },
        r is Ok && deadline.common_year() ==> session::instant_round_trips(*deadline),
{
    let exe = match exe {
        Err(e) => return Err(e),
        Ok(exe) => exe,
    };
    let ghost first = exe@;
    let mut words: Vec<String> = Vec::new();
    words.push(exe);
    words.push("__supervise_until__".to_owned());
    words.push(time::utc_text(deadline));
    words.push(bool_word(no_display));
    words.push(detail.to_owned());
    words.push(bool_word(even_lid));
    words.push(inhibitor_scope.to_owned());
    assert(text::texts(words@) =~= seq![first] + until_helper_words(
        *deadline,
        no_display,
        detail@,
        even_lid,
        inhibitor_scope@,
    ));
    Ok(words)
}

/// A helper that waits for an instant reads from its command what it was given; a Mac has no such helper for
/// the lid. Its deadline is one that is read back from its text.
pub proof fn law_until_helpers_read_their_command(
    platform: Platform,
    deadline: Timestamp,
    no_display: bool,
    detail: Seq<char>,
    even_lid: bool,
    inhibitor_scope: Seq<char>,
)
    requires
        session::instant_round_trips(deadline),
        platform == Platform::Macos ==> !even_lid,
    ensures
        supervisor::unix::until_facts(
            platform,
            until_helper_words(deadline, no_display, detail, even_lid, inhibitor_scope),
        ) == Ok::<supervisor::unix::UntilFacts, Fault>(
            supervisor::unix::UntilFacts { deadline, no_display, detail, even_lid, inhibitor_scope },
        ),
{
    reveal_strlit("true");
    reveal_strlit("false");
    assert("true"@.len() == 4 && "false"@.len() == 5);
}

/// The words that the helper of a request is told: of one for a charge where one is waited for, or else of
/// one for the instant that `--until` names. No other request has a helper.
pub open spec fn helper_words(
    r: Request,
    deadline: Option<Timestamp>,
    inhibitor_scope: Seq<char>,
) -> Seq<Seq<char>> {
    match (r.charge_target, deadline) {
        (Some(target), _) => charge_helper_words(
            target,
            r.no_display,
            r.even_lid,
            inhibitor_scope,
        ),
        (None, Some(deadline)) => until_helper_words(
            deadline,
            r.no_display,
            r.trigger_detail,
            r.even_lid,
            inhibitor_scope,
        ),
        (None, None) => Seq::empty(),
    }
}

/// The command of the helper of a request that has one.
pub fn helper_command(
    exe: Result<String, AppError>,
    parsed: &Parsed,
    deadline: Option<Timestamp>,
    inhibitor_scope: &str,
) -> (r: Result<Vec<String>, AppError>)
    requires
        parsed.charge_target is Some || deadline is Some,
        deadline matches Some(t) ==> t.valid(),
    ensures
        match viewed(exe) {
            Ok(exe) => r matches Ok(words) && text::texts(words@) == seq![exe] + helper_words(
                parsed@,
                deadline,
                inhibitor_scope@,
            ),
            Err(e) => r matches Err(error) && error@ == e,
        },
        r is Ok && parsed.charge_target is None ==> (deadline matches Some(t) ==> (t.common_year()
            ==> session::instant_round_trips(t))),
{
    match parsed.charge_target {
        Some(target) => charge_helper_command(
            exe,
            target,
            parsed.no_display,
            parsed.even_lid,
            inhibitor_scope,
        ),
        None => until_supervisor_command(
            exe,
            &deadline.unwrap(),
            parsed.no_display,
            parsed.trigger_detail.as_str(),
            parsed.even_lid,
            inhibitor_scope,
        ),
    }
}

/// The words that the helper for a lid session on a Mac is told. An end that is an instant is told as that
/// instant, and as no number of seconds.
pub open spec fn lid_helper_words(
    r: Request,
    deadline: Option<Timestamp>,
    prior: i32,
    detail: Seq<char>,
) -> Seq<Seq<char>> {
    seq![
        "__supervise_lid__"@,
        if r.no_display {
            "i"@
        } else {
            "d"@
        },
        match (deadline, r.timeout_sec) {
            (None, Some(t)) => text::signed_decimal(t as int),
            _ => Seq::empty(),
        },
        session::optional_instant_text(deadline),
        match r.wait_pid {
            Some(pid) => text::decimal(pid as nat),
            None => Seq::empty(),
        },
        text::signed_decimal(prior as int),
        r.trigger,
        detail,
        match r.charge_target {
            Some(target) => text::signed_decimal(target as int),
            None => Seq::empty(),
        },
    ]
}

fn nothing() -> (r: String)
    ensures
        r@ == Seq::<char>::empty(),
{
    let r = String::new();
    assert(r@ =~= Seq::<char>::empty());
    r
}

/// The command of the helper for a lid session on a Mac.
pub fn lid_supervisor_command(
    exe: Result<String, AppError>,
    parsed: &Parsed,
    deadline: Option<Timestamp>,
    prior: i32,
    detail: &str,
) -> (r: Result<Vec<String>, AppError>)
    requires
        deadline matches Some(t) ==> t.valid(),
    ensures
        match viewed(exe) {
            Ok(exe) => r matches Ok(words) && text::texts(words@) == seq![exe] + lid_helper_words(
                parsed@,
                deadline,
                prior,
                detail@,
            ),
            Err(e) => r matches Err(error) && error@ == e,
        },
        r is Ok ==> (deadline matches Some(t) ==> (t.common_year()
            ==> session::instant_round_trips(t))),
{
    let exe = match exe {
        Err(e) => return Err(e),
        Ok(exe) => exe,
    };
    let ghost first = exe@;
    let mut words: Vec<String> = Vec::new();
    words.push(exe);
    words.push("__supervise_lid__".to_owned());
    words.push(
        if parsed.no_display {
            "i".to_owned()
        } else {
            "d".to_owned()
        },
    );
    words.push(
        match (deadline, parsed.timeout_sec) {
            (None, Some(t)) => text::signed_decimal_text(t),
            _ => nothing(),
        },
    );
    words.push(
        match &deadline {
            Some(t) => time::utc_text(t),
            None => nothing(),
        },
    );
    words.push(
        match parsed.wait_pid {
            Some(pid) => text::decimal_text(pid as u64),
            None => nothing(),
        },
    );
    words.push(text::signed_decimal_text(prior as i64));
    words.push(parsed.trigger.clone());
    words.push(detail.to_owned());
    words.push(
        match parsed.charge_target {
            Some(target) => text::signed_decimal_text(target as i64),
            None => nothing(),
        },
    );
    assert(text::texts(words@) =~= seq![first] + lid_helper_words(
        parsed@,
        deadline,
        prior,
        detail@,
    ));
    Ok(words)
}

/// The helper for a lid session reads from its command what it was given: the sleep setting to go back to,
/// the one end that was asked for, and the rest. Its deadline is one that is read back from its text.
#[verifier::spinoff_prover]
#[verifier::rlimit(40)]
pub proof fn law_lid_helpers_read_their_command(
    r: Request,
    deadline: Option<Timestamp>,
    prior: i32,
    detail: Seq<char>,
)
    requires
        prior == 0 || prior == 1,
        deadline matches Some(t) ==> session::instant_round_trips(t),
        r.timeout_sec matches Some(t) ==> t > 0,
        r.wait_pid matches Some(pid) ==> pid != 0,
        r.charge_target matches Some(target) ==> 1 <= target <= 100,
    ensures
        supervisor::lid::lid_command(lid_helper_words(r, deadline, prior, detail)) == (
            Some(prior),
            Ok::<supervisor::lid::LidFacts, Fault>(
                supervisor::lid::LidFacts {
                    no_display: r.no_display,
                    timeout_sec: if deadline is Some {
                        None
                    } else {
                        r.timeout_sec
                    },
                    deadline,
                    wait_pid: r.wait_pid,
                    trigger: r.trigger,
                    detail,
                    charge_target: r.charge_target,
                },
            ),
        ),
{
    reveal_strlit("i");
    reveal_strlit("d");
    assert("i"@[0] == 'i' && "d"@[0] == 'd');
    text::lemma_decimal(prior as nat);
    session::lemma_prior(prior);
    match r.timeout_sec {
        Some(t) => {
            supervisor::lemma_positive(
                t as nat,
                "lid supervisor timeout"@,
                i64::MIN as int,
                i64::MAX as int,
            );
        },
        None => {},
    }
    match r.wait_pid {
        Some(pid) => {
            supervisor::lemma_positive(pid as nat, "lid supervisor pid"@, 0, u32::MAX as int);
        },
        None => {},
    }
    match r.charge_target {
        Some(target) => {
            supervisor::lemma_target(target as int);
        },
        None => {},
    }
}

/// The end of a session that is asked to last so many seconds.
pub open spec fn end_of(timeout: Option<i64>, now: Timestamp) -> Option<Timestamp> {
    match timeout {
        Some(t) => {
            let (seconds, nanos) = time::seconds_later(now, t as int);
            Some(Timestamp { seconds: seconds as i64, nanos: nanos as u32 })
        },
        None => None,
    }
}

/// Whether the calendar has the end of a session that is asked to last so many seconds.
pub open spec fn end_exists(timeout: Option<i64>, now: Timestamp) -> bool {
    timeout matches Some(t) ==> time::FIRST_SECOND <= time::seconds_later(now, t as int).0
        <= time::LAST_SECOND
}

/// What the session of a request is that starts now, in the process `pid`.
pub open spec fn requested_record(r: Request, pid: u32, now: Timestamp) -> Record {
    Record {
        pid,
        mode: mode_text(r.no_display),
        trigger: r.trigger,
        detail: r.trigger_detail,
        started_at: Some(now),
        ends_at: end_of(r.timeout_sec, now),
        even_lid: r.even_lid,
        ..blank()
    }
}

/// The session that a request starts now, in the process `pid`.
pub fn requested_session(parsed: &Parsed, pid: u32, now: Timestamp) -> (r: Session)
    requires
        now.valid(),
        end_exists(parsed.timeout_sec, now),
    ensures
        r@ == requested_record(parsed@, pid, now),
{
    let mut s = Session::default();
    s.pid = pid;
    s.mode = mode_for(parsed.no_display).to_owned();
    s.trigger = parsed.trigger.clone();
    s.detail = parsed.trigger_detail.clone();
    s.started_at = Some(now);
    s.ends_at =
    match parsed.timeout_sec {
        Some(timeout) => Some(time::add_seconds(&now, timeout)),
        None => None,
    };
    s.even_lid = parsed.even_lid;
    s
}

/// The session that a request starts now, in the process `pid`. With a deadline it ends then.
pub fn session_until(parsed: &Parsed, pid: u32, now: Timestamp, deadline: Option<Timestamp>) -> (r:
    Session)
    requires
        now.valid(),
        end_exists(parsed.timeout_sec, now),
    ensures
        r@ == (Record {
            ends_at: if deadline is Some {
                deadline
            } else {
                end_of(parsed@.timeout_sec, now)
            },
            ..requested_record(parsed@, pid, now)
        }),
{
    let mut s = requested_session(parsed, pid, now);
    if deadline.is_some() {
        s.ends_at = deadline;
    }
    s
}

/// What becomes of a saved state before anything else is done.
#[derive(Clone, Copy, Debug, PartialEq, Eq, Structural)]
pub enum StaleDecision {
    Keep,
    /// It cannot be read and may be about the lid: it is left as it is, and nothing is done.
    Reject,
    Delete,
    /// The sleep setting is put back first.
    RestoreThenDelete,
}

/// What becomes of a saved state. `live` is the process that has the session's number now.
pub open spec fn stale_decision(
    platform: Platform,
    saved: Option<Saved>,
    live: Option<(u64, Seq<char>)>,
) -> StaleDecision {
    match saved {
        None => StaleDecision::Keep,
        Some(Saved::Malformed(hints)) => if hints {
            StaleDecision::Reject
        } else {
            StaleDecision::Delete
        },
        Some(Saved::Valid(s)) => if live matches Some(process) && s.is_process(platform, process) {
            StaleDecision::Keep
        } else if platform == Platform::Macos && s.even_lid {
            StaleDecision::RestoreThenDelete
        } else {
            StaleDecision::Delete
        },
    }
}

/// Whether a state that cannot be read is left as it is.
pub fn retain_malformed_state(lid_hints: bool) -> (r: bool)
    ensures
        r == lid_hints,
{
    lid_hints
}

pub fn recover_stale_lid_session_unlocked(
    platform: Platform,
    saved: &Option<SavedState>,
    live: &Option<Identity>,
) -> (r: StaleDecision)
    ensures
        r == stale_decision(
            platform,
            maybe_saved(*saved),
            match live {
                Some(process) => Some(process@),
                None => None,
            },
        ),
{
    match saved {
        None => StaleDecision::Keep,
        Some(SavedState::Malformed(hints)) => if retain_malformed_state(*hints) {
            StaleDecision::Reject
        } else {
            StaleDecision::Delete
        },
        Some(SavedState::Valid(session)) => {
            let alive = match live {
                Some(process) => session.matches_identity(platform, process),
                None => false,
            };
            if alive {
                return StaleDecision::Keep;
            }
            match platform {
                Platform::Macos => if session.even_lid {
                    StaleDecision::RestoreThenDelete
                } else {
                    StaleDecision::Delete
                },
                _ => StaleDecision::Delete,
            }
        },
    }
}

/// A state is deleted without more ado only if it is neither the one of a live process nor one that may
/// have changed the sleep setting.
pub proof fn law_recovery_keeps_what_it_may_need(
    platform: Platform,
    saved: Saved,
    live: Option<(u64, Seq<char>)>,
)
    ensures
        stale_decision(platform, Some(saved), live) == StaleDecision::Delete ==> (match saved {
            Saved::Malformed(hints) => !hints,
            Saved::Valid(s) => !(live matches Some(process) && s.is_process(platform, process))
                && !(platform == Platform::Macos && s.even_lid),
        }),
{
}

/// What the system answers.
#[derive(Clone, Copy, Debug, PartialEq, Eq, Structural)]
pub enum CommandEvent {
    Done,
    Failed,
    /// The answer to a question.
    Answer(bool),
    /// A charge that has come to its target.
    Percent(i32),
    /// A charge to wait for, and which way it goes.
    ChargeWait(bool),
}

/// What is asked of the system.
#[derive(Clone, Copy, Debug, PartialEq, Eq, Structural)]
pub enum CommandAction {
    /// Take the lock that one invocation holds at a time.
    Lock,
    /// See to a saved state that is stale.
    Recover,
    /// Tell whether a session is active.
    FindActive,
    /// Start a lid session by the helper that changes the sleep setting.
    StartLid,
    /// See what a target charge asks for.
    PrepareCharge,
    /// See that the lid can be held.
    ProbeLid,
    SpawnHelper,
    /// Wait for the helper's session, and tell whether it came.
    AwaitSession,
    /// Tell whether the helper has ended.
    CheckHelper,
    KillHelper,
    /// Tell the charge if it has come to its target from the given side.
    ReadMetCharge(bool),
    /// Work out the command that holds the machine awake.
    PrepareCommand,
    Spawn,
    CheckAlive,
    Publish,
    KillChild,
    /// Tell the user of the new session.
    Confirm,
    /// Tell the user that the charge is met.
    TellChargeMet(i32),
    /// Tell the user that no session is active.
    TellNone,
    /// Tell the user of the active session.
    ShowStatus,
    Terminate,
    /// See that the sleep setting was put back.
    VerifySleep,
    DeleteState,
    /// Tell the user that the session was stopped.
    TellStopped,
    Finish,
}

/// Why a command failed.
#[derive(Clone, Copy, Debug, PartialEq, Eq, Structural)]
pub enum CommandFault {
    /// The call that failed last says why.
    LastError,
    /// A session is active.
    AlreadyActive,
    /// The helper did not publish its session.
    NotPublished,
}

/// The error of a helper that did not publish its session.
pub fn not_published() -> (r: AppError)
    ensures
        r@ == Fault::Fail("supervisor failed to publish session state"@),
{
    AppError::fail("supervisor failed to publish session state")
}

/// What a start depends on.
#[derive(Clone, Copy, Debug, PartialEq, Eq, Structural)]
pub struct StartPlan {
    pub platform: Platform,
    pub charge: bool,
    /// Whether the session lasts until a time of day.
    pub until: bool,
    pub even_lid: bool,
}

/// What the start of a request depends on. One that lasts until a time of day has a deadline.
pub fn plan_start(platform: Platform, parsed: &Parsed, deadline: Option<Timestamp>) -> (r: StartPlan)
    ensures
        r == (StartPlan {
            platform,
            charge: parsed@.charge_target is Some,
            until: deadline is Some,
            even_lid: parsed@.even_lid,
        }),
{
    StartPlan {
        platform,
        charge: parsed.charge_target.is_some(),
        until: deadline.is_some(),
        even_lid: parsed.even_lid,
    }
}

/// How far a start has come.
#[derive(Clone, Copy, Debug, PartialEq, Eq, Structural)]
pub enum StartState {
    Locking,
    Recovering,
    Looking,
    StartingLid,
    PreparingCharge,
    ProbingLid { up: bool },
    SpawningHelper { up: bool },
    Awaiting { up: bool },
    CheckingHelper { up: bool },
    KillingHelper { up: bool, exited: bool },
    ReadingCharge { up: bool },
    PreparingUntil,
    SpawningUntil,
    AwaitingUntil,
    KillingUntil,
    PreparingCommand,
    Spawning,
    CheckingAlive,
    Publishing,
    KillingChild,
    Confirming,
    TellingMet { percent: i32 },
    Succeeded,
    Failed(CommandFault),
}

/// Where a start goes once no session is found to be active: a lid session on a Mac by its helper, a
/// charge or a time of day by the helper for it, all else by a command alone.
pub open spec fn start_route(plan: StartPlan) -> StartState {
    if plan.platform == Platform::Macos && plan.even_lid {
        StartState::StartingLid
    } else if plan.charge {
        StartState::PreparingCharge
    } else if plan.until {
        StartState::PreparingUntil
    } else {
        StartState::PreparingCommand
    }
}

/// What a start asks for next.
pub open spec fn start_wants(state: StartState) -> CommandAction {
    match state {
        StartState::Locking => CommandAction::Lock,
        StartState::Recovering => CommandAction::Recover,
        StartState::Looking => CommandAction::FindActive,
        StartState::StartingLid => CommandAction::StartLid,
        StartState::PreparingCharge => CommandAction::PrepareCharge,
        StartState::ProbingLid { .. } => CommandAction::ProbeLid,
        StartState::SpawningHelper { .. } => CommandAction::SpawnHelper,
        StartState::Awaiting { .. } => CommandAction::AwaitSession,
        StartState::CheckingHelper { .. } => CommandAction::CheckHelper,
        StartState::KillingHelper { .. } => CommandAction::KillHelper,
        StartState::ReadingCharge { up } => CommandAction::ReadMetCharge(up),
        StartState::PreparingUntil => CommandAction::PrepareCommand,
        StartState::SpawningUntil => CommandAction::SpawnHelper,
        StartState::AwaitingUntil => CommandAction::AwaitSession,
        StartState::KillingUntil => CommandAction::KillHelper,
        StartState::PreparingCommand => CommandAction::PrepareCommand,
        StartState::Spawning => CommandAction::Spawn,
        StartState::CheckingAlive => CommandAction::CheckAlive,
        StartState::Publishing => CommandAction::Publish,
        StartState::KillingChild => CommandAction::KillChild,
        StartState::Confirming => CommandAction::Confirm,
        StartState::TellingMet { percent } => CommandAction::TellChargeMet(percent),
        StartState::Succeeded => CommandAction::Finish,
        StartState::Failed(_) => CommandAction::Finish,
    }
}

/// Where a start goes from `state` on `event`. It starts something only while it holds the lock, after a
/// stale state was seen to, and if no session is active. A command whose session cannot be
/// published is ended again. A helper that publishes nothing is ended, and that is a failure unless
/// it had ended because the charge is met.
pub open spec fn start_next(plan: StartPlan, state: StartState, event: CommandEvent) -> StartState {
    match (state, event) {
        (StartState::Succeeded, _) => state,
        (StartState::Failed(_), _) => state,
        (StartState::Locking, CommandEvent::Done) => StartState::Recovering,
        (StartState::Recovering, CommandEvent::Done) => StartState::Looking,
        (StartState::Looking, CommandEvent::Answer(active)) => if active {
            StartState::Failed(CommandFault::AlreadyActive)
        } else {
            start_route(plan)
        },
        (StartState::StartingLid, CommandEvent::Done) => StartState::Succeeded,
        (StartState::PreparingCharge, CommandEvent::Percent(percent)) => StartState::TellingMet {
            percent,
        },
        (StartState::PreparingCharge, CommandEvent::ChargeWait(up)) => {
            if plan.platform == Platform::Linux && plan.even_lid {
                StartState::ProbingLid { up }
            } else {
                StartState::SpawningHelper { up }
            }
        },
        (StartState::ProbingLid { up }, CommandEvent::Done) => StartState::SpawningHelper { up },
        (StartState::SpawningHelper { up }, CommandEvent::Done) => StartState::Awaiting { up },
        (StartState::Awaiting { up }, CommandEvent::Answer(published)) => if published {
            StartState::Confirming
        } else {
            StartState::CheckingHelper { up }
        },
        (StartState::CheckingHelper { up }, CommandEvent::Answer(exited)) => {
            StartState::KillingHelper { up, exited }
        },
        (StartState::CheckingHelper { up }, CommandEvent::Failed) => StartState::KillingHelper {
            up,
            exited: false,
        },
        (StartState::KillingHelper { up, exited }, CommandEvent::Done) => if exited {
            StartState::ReadingCharge { up }
        } else {
            StartState::Failed(CommandFault::NotPublished)
        },
        (StartState::KillingHelper { up, exited }, CommandEvent::Failed) => if exited {
            StartState::ReadingCharge { up }
        } else {
            StartState::Failed(CommandFault::NotPublished)
        },
        (StartState::ReadingCharge { .. }, CommandEvent::Percent(percent)) => {
            StartState::TellingMet { percent }
        },
        (StartState::ReadingCharge { .. }, CommandEvent::Failed) => StartState::Failed(
            CommandFault::NotPublished,
        ),
        (StartState::PreparingUntil, CommandEvent::Done) => StartState::SpawningUntil,
        (StartState::SpawningUntil, CommandEvent::Done) => StartState::AwaitingUntil,
        (StartState::AwaitingUntil, CommandEvent::Answer(published)) => if published {
            StartState::Confirming
        } else {
            StartState::KillingUntil
        },
        (StartState::KillingUntil, CommandEvent::Done) => StartState::Failed(
            CommandFault::NotPublished,
        ),
        (StartState::KillingUntil, CommandEvent::Failed) => StartState::Failed(
            CommandFault::NotPublished,
        ),
        (StartState::PreparingCommand, CommandEvent::Done) => StartState::Spawning,
        (StartState::Spawning, CommandEvent::Done) => StartState::CheckingAlive,
        (StartState::CheckingAlive, CommandEvent::Done) => StartState::Publishing,
        (StartState::Publishing, CommandEvent::Done) => StartState::Confirming,
        (StartState::Publishing, CommandEvent::Failed) => StartState::KillingChild,
        (StartState::KillingChild, CommandEvent::Done) => StartState::Failed(
            CommandFault::LastError,
        ),
        (StartState::Confirming, CommandEvent::Done) => StartState::Succeeded,
        (StartState::TellingMet { .. }, CommandEvent::Done) => StartState::Succeeded,
        (_, CommandEvent::Failed) => StartState::Failed(CommandFault::LastError),
        _ => state,
    }
}

pub fn start_asks(state: StartState) -> (r: CommandAction)
    ensures
        r == start_wants(state),
{
    match state {
        StartState::Locking => CommandAction::Lock,
        StartState::Recovering => CommandAction::Recover,
        StartState::Looking => CommandAction::FindActive,
        StartState::StartingLid => CommandAction::StartLid,
        StartState::PreparingCharge => CommandAction::PrepareCharge,
        StartState::ProbingLid { .. } => CommandAction::ProbeLid,
        StartState::SpawningHelper { .. } => CommandAction::SpawnHelper,
        StartState::Awaiting { .. } => CommandAction::AwaitSession,
        StartState::CheckingHelper { .. } => CommandAction::CheckHelper,
        StartState::KillingHelper { .. } => CommandAction::KillHelper,
        StartState::ReadingCharge { up } => CommandAction::ReadMetCharge(up),
        StartState::PreparingUntil => CommandAction::PrepareCommand,
        StartState::SpawningUntil => CommandAction::SpawnHelper,
        StartState::AwaitingUntil => CommandAction::AwaitSession,
        StartState::KillingUntil => CommandAction::KillHelper,
        StartState::PreparingCommand => CommandAction::PrepareCommand,
        StartState::Spawning => CommandAction::Spawn,
        StartState::CheckingAlive => CommandAction::CheckAlive,
        StartState::Publishing => CommandAction::Publish,
        StartState::KillingChild => CommandAction::KillChild,
        StartState::Confirming => CommandAction::Confirm,
        StartState::TellingMet { percent } => CommandAction::TellChargeMet(percent),
        StartState::Succeeded => CommandAction::Finish,
        StartState::Failed(_) => CommandAction::Finish,
    }
}

/// Whether a start is at the steps that a charge alone needs.
pub open spec fn in_charge_start(state: StartState) -> bool {
    state is PreparingCharge || state is ProbingLid || state is SpawningHelper || state is Awaiting
        || state is CheckingHelper || state is KillingHelper || state is ReadingCharge
}

/// Where a start that waits for a charge goes from `state` on `event`, at the steps that it alone needs.
pub fn start_charge_supervisor(plan: StartPlan, state: StartState, event: CommandEvent) -> (r:
    StartState)
    ensures
        r == (if in_charge_start(state) {
            start_next(plan, state, event)
        } else {
            state
        }),
{
    match (state, event) {
        (StartState::PreparingCharge, CommandEvent::Percent(percent)) => StartState::TellingMet {
            percent,
        },
        (StartState::PreparingCharge, CommandEvent::ChargeWait(up)) => {
            if plan.platform == Platform::Linux && plan.even_lid {
                StartState::ProbingLid { up }
            } else {
                StartState::SpawningHelper { up }
            }
        },
        (StartState::ProbingLid { up }, CommandEvent::Done) => StartState::SpawningHelper { up },
        (StartState::SpawningHelper { up }, CommandEvent::Done) => StartState::Awaiting { up },
        (StartState::Awaiting { up }, CommandEvent::Answer(published)) => if published {
            StartState::Confirming
        } else {
            StartState::CheckingHelper { up }
        },
        (StartState::CheckingHelper { up }, CommandEvent::Answer(exited)) => {
            StartState::KillingHelper { up, exited }
        },
        (StartState::CheckingHelper { up }, CommandEvent::Failed) => StartState::KillingHelper {
            up,
            exited: false,
        },
        (StartState::KillingHelper { up, exited }, CommandEvent::Done) => if exited {
            StartState::ReadingCharge { up }
        } else {
            StartState::Failed(CommandFault::NotPublished)
        },
        (StartState::KillingHelper { up, exited }, CommandEvent::Failed) => if exited {
            StartState::ReadingCharge { up }
        } else {
            StartState::Failed(CommandFault::NotPublished)
        },
        (StartState::ReadingCharge { .. }, CommandEvent::Percent(percent)) => {
            StartState::TellingMet { percent }
        },
        (StartState::ReadingCharge { .. }, CommandEvent::Failed) => StartState::Failed(
            CommandFault::NotPublished,
        ),
        (StartState::PreparingCharge, CommandEvent::Failed) => StartState::Failed(
            CommandFault::LastError,
        ),
        (StartState::ProbingLid { .. }, CommandEvent::Failed) => StartState::Failed(
            CommandFault::LastError,
        ),
        (StartState::SpawningHelper { .. }, CommandEvent::Failed) => StartState::Failed(
            CommandFault::LastError,
        ),
        (StartState::Awaiting { .. }, CommandEvent::Failed) => StartState::Failed(
            CommandFault::LastError,
        ),
        _ => state,
    }
}

/// Where a start goes from `state` on `event`.
pub fn start_unix(plan: StartPlan, state: StartState, event: CommandEvent) -> (r: StartState)
    ensures
        r == start_next(plan, state, event),
{
    match (state, event) {
        (StartState::Succeeded, _) => state,
        (StartState::Failed(_), _) => state,
        (StartState::Locking, CommandEvent::Done) => StartState::Recovering,
        (StartState::Recovering, CommandEvent::Done) => StartState::Looking,
        (StartState::Looking, CommandEvent::Answer(active)) => if active {
            StartState::Failed(CommandFault::AlreadyActive)
        } else if plan.platform == Platform::Macos && plan.even_lid {
            StartState::StartingLid
        } else if plan.charge {
            StartState::PreparingCharge
        } else if plan.until {
            StartState::PreparingUntil
        } else {
            StartState::PreparingCommand
        },
        (StartState::StartingLid, CommandEvent::Done) => StartState::Succeeded,
        (StartState::PreparingCharge, _) => start_charge_supervisor(plan, state, event),
        (StartState::ProbingLid { .. }, _) => start_charge_supervisor(plan, state, event),
        (StartState::SpawningHelper { .. }, _) => start_charge_supervisor(plan, state, event),
        (StartState::Awaiting { .. }, _) => start_charge_supervisor(plan, state, event),
        (StartState::CheckingHelper { .. }, _) => start_charge_supervisor(plan, state, event),
        (StartState::KillingHelper { .. }, _) => start_charge_supervisor(plan, state, event),
        (StartState::ReadingCharge { .. }, _) => start_charge_supervisor(plan, state, event),
        (StartState::PreparingUntil, CommandEvent::Done) => StartState::SpawningUntil,
        (StartState::SpawningUntil, CommandEvent::Done) => StartState::AwaitingUntil,
        (StartState::AwaitingUntil, CommandEvent::Answer(published)) => if published {
            StartState::Confirming
        } else {
            StartState::KillingUntil
        },
        (StartState::KillingUntil, CommandEvent::Done) => StartState::Failed(
            CommandFault::NotPublished,
        ),
        (StartState::KillingUntil, CommandEvent::Failed) => StartState::Failed(
            CommandFault::NotPublished,
        ),
        (StartState::PreparingCommand, CommandEvent::Done) => StartState::Spawning,
        (StartState::Spawning, CommandEvent::Done) => StartState::CheckingAlive,
        (StartState::CheckingAlive, CommandEvent::Done) => StartState::Publishing,
        (StartState::Publishing, CommandEvent::Done) => StartState::Confirming,
        (StartState::Publishing, CommandEvent::Failed) => StartState::KillingChild,
        (StartState::KillingChild, CommandEvent::Done) => StartState::Failed(
            CommandFault::LastError,
        ),
        (StartState::Confirming, CommandEvent::Done) => StartState::Succeeded,
        (StartState::TellingMet { .. }, CommandEvent::Done) => StartState::Succeeded,
        (_, CommandEvent::Failed) => StartState::Failed(CommandFault::LastError),
        _ => state,
    }
}

/// Where a start stands after these events.
pub open spec fn start_after(plan: StartPlan, events: Seq<CommandEvent>) -> StartState
    decreases events.len(),
{
    if events.len() == 0 {
        StartState::Locking
    } else {
        start_next(plan, start_after(plan, events.drop_last()), events.last())
    }
}

/// Whether the lock is held, a stale state was seen to and no active session was found, after these events.
pub open spec fn start_cleared(plan: StartPlan, events: Seq<CommandEvent>) -> (bool, bool, bool)
    decreases events.len(),
{
    if events.len() == 0 {
        (false, false, false)
    } else {
        let before = events.drop_last();
        let cleared = start_cleared(plan, before);
        let event = events.last();
        match start_wants(start_after(plan, before)) {
            CommandAction::Lock => (event == CommandEvent::Done, cleared.1, cleared.2),
            CommandAction::Recover => (cleared.0, event == CommandEvent::Done, cleared.2),
            CommandAction::FindActive => (
                cleared.0,
                cleared.1,
                event == CommandEvent::Answer(false),
            ),
            _ => cleared,
        }
    }
}

proof fn lemma_start_cleared(plan: StartPlan, events: Seq<CommandEvent>)
    ensures
        match start_after(plan, events) {
            StartState::Locking => true,
            StartState::Recovering => start_cleared(plan, events).0,
            StartState::Looking => start_cleared(plan, events).0 && start_cleared(plan, events).1,
            StartState::Failed(_) => true,
            _ => start_cleared(plan, events) == (true, true, true),
        },
    decreases events.len(),
{
    if events.len() > 0 {
        lemma_start_cleared(plan, events.drop_last());
    }
}

/// Nothing is started, and nobody is told of a session, unless the lock was taken, a stale state was
/// seen to and no session was found to be active.
pub proof fn law_starts_are_exclusive(plan: StartPlan, events: Seq<CommandEvent>)
    ensures
        ({
            let action = start_wants(start_after(plan, events));
            action == CommandAction::Spawn || action == CommandAction::SpawnHelper || action
                == CommandAction::StartLid || action == CommandAction::Publish || action
                == CommandAction::Confirm ==> start_cleared(plan, events) == (true, true, true)
        }),
{
    lemma_start_cleared(plan, events);
}

/// How far stopping a session has come.
#[derive(Clone, Copy, Debug, PartialEq, Eq, Structural)]
pub enum StopState {
    Locking,
    Recovering,
    Looking,
    TellingNone,
    DeletingNone,
    Terminating,
    VerifyingSleep,
    Deleting,
    Telling,
    Succeeded,
    Failed,
}

/// What stopping a session asks for next.
pub open spec fn stop_wants(state: StopState) -> CommandAction {
    match state {
        StopState::Locking => CommandAction::Lock,
        StopState::Recovering => CommandAction::Recover,
        StopState::Looking => CommandAction::FindActive,
        StopState::TellingNone => CommandAction::TellNone,
        StopState::DeletingNone => CommandAction::DeleteState,
        StopState::Terminating => CommandAction::Terminate,
        StopState::VerifyingSleep => CommandAction::VerifySleep,
        StopState::Deleting => CommandAction::DeleteState,
        StopState::Telling => CommandAction::TellStopped,
        StopState::Succeeded => CommandAction::Finish,
        StopState::Failed => CommandAction::Finish,
    }
}

/// Where stopping a session goes from `state` on `event`; `lid` tells whether it is one that changed the
/// sleep setting. Its state is deleted only after its process was ended and, with the lid, the
/// sleep setting seen to be back.
pub open spec fn stop_next(lid: bool, state: StopState, event: CommandEvent) -> StopState {
    match (state, event) {
        (StopState::Succeeded, _) => state,
        (StopState::Locking, CommandEvent::Done) => StopState::Recovering,
        (StopState::Recovering, CommandEvent::Done) => StopState::Looking,
        (StopState::Looking, CommandEvent::Answer(active)) => if active {
            StopState::Terminating
        } else {
            StopState::TellingNone
        },
        (StopState::TellingNone, CommandEvent::Done) => StopState::DeletingNone,
        (StopState::DeletingNone, CommandEvent::Done) => StopState::Succeeded,
        (StopState::Terminating, CommandEvent::Done) => if lid {
            StopState::VerifyingSleep
        } else {
            StopState::Deleting
        },
        (StopState::VerifyingSleep, CommandEvent::Done) => StopState::Deleting,
        (StopState::Deleting, CommandEvent::Done) => StopState::Telling,
        (StopState::Telling, CommandEvent::Done) => StopState::Succeeded,
        (_, CommandEvent::Failed) => StopState::Failed,
        _ => state,
    }
}

pub fn stop_asks(state: StopState) -> (r: CommandAction)
    ensures
        r == stop_wants(state),
{
    match state {
        StopState::Locking => CommandAction::Lock,
        StopState::Recovering => CommandAction::Recover,
        StopState::Looking => CommandAction::FindActive,
        StopState::TellingNone => CommandAction::TellNone,
        StopState::DeletingNone => CommandAction::DeleteState,
        StopState::Terminating => CommandAction::Terminate,
        StopState::VerifyingSleep => CommandAction::VerifySleep,
        StopState::Deleting => CommandAction::DeleteState,
        StopState::Telling => CommandAction::TellStopped,
        StopState::Succeeded => CommandAction::Finish,
        StopState::Failed => CommandAction::Finish,
    }
}

/// Whether a session changed the sleep setting, which only one for the lid on a Mac does.
pub fn changed_sleep(platform: Platform, saved: &Option<Session>) -> (r: bool)
    ensures
        r == (platform == Platform::Macos && (saved matches Some(s) && s@.even_lid)),
{
    match (platform, saved) {
        (Platform::Macos, Some(s)) => s.even_lid,
        _ => false,
    }
}

/// Where stopping a session goes from `state` on `event`.
pub fn stop_unix(lid: bool, state: StopState, event: CommandEvent) -> (r: StopState)
    ensures
        r == stop_next(lid, state, event),
{
    match (state, event) {
        (StopState::Succeeded, _) => state,
        (StopState::Locking, CommandEvent::Done) => StopState::Recovering,
        (StopState::Recovering, CommandEvent::Done) => StopState::Looking,
        (StopState::Looking, CommandEvent::Answer(active)) => if active {
            StopState::Terminating
        } else {
            StopState::TellingNone
        },
        (StopState::TellingNone, CommandEvent::Done) => StopState::DeletingNone,
        (StopState::DeletingNone, CommandEvent::Done) => StopState::Succeeded,
        (StopState::Terminating, CommandEvent::Done) => if lid {
            StopState::VerifyingSleep
        } else {
            StopState::Deleting
        },
        (StopState::VerifyingSleep, CommandEvent::Done) => StopState::Deleting,
        (StopState::Deleting, CommandEvent::Done) => StopState::Telling,
        (StopState::Telling, CommandEvent::Done) => StopState::Succeeded,
        (_, CommandEvent::Failed) => StopState::Failed,
        _ => state,
    }
}

/// The state of an active session is deleted only right after its process was ended, or after the sleep
/// setting was seen to be back; and a lid session's only after the latter.
pub proof fn law_stop_deletes_last(lid: bool, state: StopState, event: CommandEvent)
    ensures
        stop_next(lid, state, event) is Deleting && state !is Deleting ==> event
            == CommandEvent::Done && (stop_wants(state) == CommandAction::VerifySleep || (!lid
            && stop_wants(state) == CommandAction::Terminate)),
{
}

/// Where a stop stands after these events.
pub open spec fn stop_after(lid: bool, events: Seq<CommandEvent>) -> StopState
    decreases events.len(),
{
    if events.len() == 0 {
        StopState::Locking
    } else {
        stop_next(lid, stop_after(lid, events.drop_last()), events.last())
    }
}

/// A stop that finds no session touches no process and no setting, and fails only where something that it
/// asked for failed: to stop again is safe.
pub proof fn law_stopping_again_is_safe(lid: bool, events: Seq<CommandEvent>)
    requires
        forall|i: int| 0 <= i < events.len() ==> #[trigger] events[i] != CommandEvent::Answer(true),
    ensures
        stop_wants(stop_after(lid, events)) != CommandAction::Terminate,
        stop_wants(stop_after(lid, events)) != CommandAction::VerifySleep,
        (forall|i: int| 0 <= i < events.len() ==> #[trigger] events[i] != CommandEvent::Failed)
            ==> stop_after(lid, events) != StopState::Failed,
    decreases events.len(),
{
    if events.len() > 0 {
        let before = events.drop_last();
        assert forall|i: int| 0 <= i < before.len() implies #[trigger] before[i] == events[i] by {}
        law_stopping_again_is_safe(lid, before);
        assert(events.last() == events[events.len() - 1]);
    }
}

/// How far telling of a session has come.
#[derive(Clone, Copy, Debug, PartialEq, Eq, Structural)]
pub enum StatusState {
    Locking,
    Recovering,
    Looking,
    TellingNone,
    Showing,
    Succeeded,
    Failed,
}

/// What telling of a session asks for next.
pub fn status_asks(state: StatusState) -> (r: CommandAction)
    ensures
        r == (match state {
            StatusState::Locking => CommandAction::Lock,
            StatusState::Recovering => CommandAction::Recover,
            StatusState::Looking => CommandAction::FindActive,
            StatusState::TellingNone => CommandAction::TellNone,
            StatusState::Showing => CommandAction::ShowStatus,
            _ => CommandAction::Finish,
        }),
{
    match state {
        StatusState::Locking => CommandAction::Lock,
        StatusState::Recovering => CommandAction::Recover,
        StatusState::Looking => CommandAction::FindActive,
        StatusState::TellingNone => CommandAction::TellNone,
        StatusState::Showing => CommandAction::ShowStatus,
        _ => CommandAction::Finish,
    }
}

/// Where telling of a session goes from `state` on `event`.
pub fn status_unix(state: StatusState, event: CommandEvent) -> (r: StatusState)
    ensures
        r == (match (state, event) {
            (StatusState::Succeeded, _) => state,
            (StatusState::Locking, CommandEvent::Done) => StatusState::Recovering,
            (StatusState::Recovering, CommandEvent::Done) => StatusState::Looking,
            (StatusState::Looking, CommandEvent::Answer(active)) => if active {
                StatusState::Showing
            } else {
                StatusState::TellingNone
            },
            (StatusState::TellingNone, CommandEvent::Done) => StatusState::Succeeded,
            (StatusState::Showing, CommandEvent::Done) => StatusState::Succeeded,
            (_, CommandEvent::Failed) => StatusState::Failed,
            _ => state,
        }),
{
    match (state, event) {
        (StatusState::Succeeded, _) => state,
        (StatusState::Locking, CommandEvent::Done) => StatusState::Recovering,
        (StatusState::Recovering, CommandEvent::Done) => StatusState::Looking,
        (StatusState::Looking, CommandEvent::Answer(active)) => if active {
            StatusState::Showing
        } else {
            StatusState::TellingNone
        },
        (StatusState::TellingNone, CommandEvent::Done) => StatusState::Succeeded,
        (StatusState::Showing, CommandEvent::Done) => StatusState::Succeeded,
        (_, CommandEvent::Failed) => StatusState::Failed,
        _ => state,
    }
}

/// What waiting for a helper's session comes to, look by look.
#[derive(Clone, Copy, Debug, PartialEq, Eq, Structural)]
pub enum AwaitStep {
    /// The session is there.
    Published,
    /// It will not come any more.
    GivenUp,
    /// Look again in a tenth of a second.
    Again,
}

/// How many looks are taken.
pub const AWAIT_LOOKS: u8 = 50;

/// What a look for a helper's session comes to, with so many looks taken before. `found` is the active
/// session that was seen, `alive` whether the helper still runs.
pub fn wait_for_supervisor_session(
    supervisor_pid: u32,
    even_lid: bool,
    looks: u8,
    found: &Option<Session>,
    alive: bool,
) -> (r: AwaitStep)
    ensures
        r == (if looks >= AWAIT_LOOKS {
            AwaitStep::GivenUp
        } else if found matches Some(s) && s@.pid == supervisor_pid && s@.even_lid == even_lid {
            AwaitStep::Published
        } else if !alive {
            AwaitStep::GivenUp
        } else {
            AwaitStep::Again
        }),
{
    if looks >= AWAIT_LOOKS {
        return AwaitStep::GivenUp;
    }
    match found {
        Some(s) => if s.pid == supervisor_pid && s.even_lid == even_lid {
            return AwaitStep::Published;
        },
        None => {},
    }
    if !alive {
        AwaitStep::GivenUp
    } else {
        AwaitStep::Again
    }
}

/// What is answered of something that works or does not.
pub open spec fn answered(ok: bool) -> CommandEvent {
    if ok {
        CommandEvent::Done
    } else {
        CommandEvent::Failed
    }
}

/// A system as a start meets it: what it answers, and what the start has done to it so far.
pub struct StartWorld {
    pub locks: bool,
    pub recovers: bool,
    pub active: bool,
    pub lid_starts: bool,
    /// Whether the battery can be read, the charge where it is met already, and which way it goes.
    pub readable: bool,
    pub met: Option<i32>,
    pub up: bool,
    pub probes: bool,
    /// Whether the command can be worked out, and a process be started.
    pub prepares: bool,
    pub spawns: bool,
    pub alive: bool,
    pub publishes: bool,
    pub exited: bool,
    /// The charge where it has been met by now.
    pub met_later: Option<i32>,
    /// Whether the lid session, the helper or the command runs.
    pub lid: bool,
    pub helper: bool,
    pub child: bool,
    pub saved: bool,
    /// Whether the user was told of the session, and the charge that the user was told of.
    pub confirmed: bool,
    pub told: Option<i32>,
}

impl StartWorld {
    /// What the system answers to an action, and what it is then.
    pub open spec fn answer(self, action: CommandAction) -> (StartWorld, CommandEvent) {
        match action {
            CommandAction::Lock => (self, answered(self.locks)),
            CommandAction::Recover => (self, answered(self.recovers)),
            CommandAction::FindActive => (self, CommandEvent::Answer(self.active)),
            CommandAction::StartLid => (
                StartWorld { lid: self.lid_starts, ..self },
                answered(self.lid_starts),
            ),
            CommandAction::PrepareCharge => (
                self,
                if !self.readable {
                    CommandEvent::Failed
                } else {
                    match self.met {
                        Some(percent) => CommandEvent::Percent(percent),
                        None => CommandEvent::ChargeWait(self.up),
                    }
                },
            ),
            CommandAction::ProbeLid => (self, answered(self.probes)),
            CommandAction::SpawnHelper => (
                StartWorld { helper: self.spawns, ..self },
                answered(self.spawns),
            ),
            CommandAction::AwaitSession => (self, CommandEvent::Answer(self.publishes)),
            CommandAction::CheckHelper => (self, CommandEvent::Answer(self.exited)),
            CommandAction::KillHelper => (StartWorld { helper: false, ..self }, CommandEvent::Done),
            CommandAction::ReadMetCharge(_) => (
                self,
                match self.met_later {
                    Some(percent) => CommandEvent::Percent(percent),
                    None => CommandEvent::Failed,
                },
            ),
            CommandAction::PrepareCommand => (self, answered(self.prepares)),
            CommandAction::Spawn => (StartWorld { child: self.spawns, ..self }, answered(self.spawns)),
            CommandAction::CheckAlive => (
                StartWorld { child: self.child && self.alive, ..self },
                answered(self.alive),
            ),
            CommandAction::Publish => (
                StartWorld { saved: self.publishes, ..self },
                answered(self.publishes),
            ),
            CommandAction::KillChild => (StartWorld { child: false, ..self }, CommandEvent::Done),
            CommandAction::Confirm => (
                StartWorld { confirmed: true, ..self },
                CommandEvent::Done,
            ),
            CommandAction::TellChargeMet(percent) => (
                StartWorld { told: Some(percent), ..self },
                CommandEvent::Done,
            ),
            _ => (self, CommandEvent::Done),
        }
    }
}

/// A step of a start.
pub open spec fn start_step(plan: StartPlan, at: (StartState, StartWorld)) -> (
    StartState,
    StartWorld,
) {
    let (world, event) = at.1.answer(start_wants(at.0));
    (start_next(plan, at.0, event), world)
}

/// Where a start stands after so many steps.
#[verifier::opaque]
pub open spec fn start_steps(plan: StartPlan, at: (StartState, StartWorld), steps: nat) -> (
    StartState,
    StartWorld,
)
    decreases steps,
{
    if steps == 0 {
        at
    } else {
        start_steps(plan, start_step(plan, at), (steps - 1) as nat)
    }
}

/// What nothing of has been started and nobody been told.
pub open spec fn untouched(world: StartWorld) -> bool {
    !world.lid && !world.helper && !world.child && !world.saved && !world.confirmed && world.told
        is None
}

proof fn lemma_started_charge(plan: StartPlan, world: StartWorld)
    requires
        untouched(world),
    ensures
        ({
            let (state, after) = start_steps(plan, (StartState::PreparingCharge, world), 9);
            if !world.readable {
                state is Failed && untouched(after)
            } else if world.met is Some {
                state is Succeeded && after.told == world.met && !after.helper && !after.child
            } else if plan.platform == Platform::Linux && plan.even_lid && !world.probes {
                state is Failed && untouched(after)
            } else if !world.spawns {
                state is Failed && untouched(after)
            } else if world.publishes {
                state is Succeeded && after.helper && after.confirmed && after.told is None
            } else if world.exited && world.met_later is Some {
                state is Succeeded && !after.helper && !after.confirmed && after.told
                    == world.met_later
            } else {
                state == StartState::Failed(CommandFault::NotPublished) && !after.helper
                    && !after.confirmed
            }
        }),
{
    let up = world.up;
    let c0 = (StartState::PreparingCharge, world);
    lemma_start_unrolls(plan, c0, 9);
    if world.readable && world.met is None {
        let probing = plan.platform == Platform::Linux && plan.even_lid;
        let n: nat = if probing {
            7
        } else {
            8
        };
        if probing {
            let c1 = (StartState::ProbingLid { up }, world);
            assert(start_step(plan, c0) == c1);
            lemma_start_unrolls(plan, c1, 8);
        }
        if !probing || world.probes {
            let c2 = (StartState::SpawningHelper { up }, world);
            assert(start_steps(plan, c0, 9) == start_steps(plan, c2, n));
            lemma_start_unrolls(plan, c2, n);
            if world.spawns {
                let w3 = StartWorld { helper: true, ..world };
                let c3 = (StartState::Awaiting { up }, w3);
                assert(start_step(plan, c2) == c3);
                lemma_start_unrolls(plan, c3, (n - 1) as nat);
                if world.publishes {
                    let c4 = (StartState::Confirming, w3);
                    assert(start_step(plan, c3) == c4);
                    lemma_start_unrolls(plan, c4, (n - 2) as nat);
                    lemma_start_ended(plan, start_step(plan, c4), (n - 3) as nat);
                } else {
                    let c4 = (StartState::CheckingHelper { up }, w3);
                    assert(start_step(plan, c3) == c4);
                    lemma_start_unrolls(plan, c4, (n - 2) as nat);
                    let c5 = (StartState::KillingHelper { up, exited: world.exited }, w3);
                    assert(start_step(plan, c4) == c5);
                    lemma_start_unrolls(plan, c5, (n - 3) as nat);
                    let w6 = StartWorld { helper: false, ..w3 };
                    if world.exited {
                        let c6 = (StartState::ReadingCharge { up }, w6);
                        assert(start_step(plan, c5) == c6);
                        lemma_start_unrolls(plan, c6, (n - 4) as nat);
                        if world.met_later is Some {
                            let percent = world.met_later->0;
                            let c7 = (StartState::TellingMet { percent }, w6);
                            assert(start_step(plan, c6) == c7);
                            lemma_start_unrolls(plan, c7, (n - 5) as nat);
                            lemma_start_ended(plan, start_step(plan, c7), (n - 6) as nat);
                        } else {
                            lemma_start_ended(plan, start_step(plan, c6), (n - 5) as nat);
                        }
                    } else {
                        lemma_start_ended(plan, start_step(plan, c5), (n - 4) as nat);
                    }
                }
            } else {
                lemma_start_ended(plan, start_step(plan, c2), (n - 1) as nat);
            }
        } else {
            lemma_start_ended(
                plan,
                start_step(plan, (StartState::ProbingLid { up }, world)),
                7,
            );
        }
    } else if world.readable {
        let percent = world.met->0;
        let c1 = (StartState::TellingMet { percent }, world);
        assert(start_step(plan, c0) == c1);
        lemma_start_unrolls(plan, c1, 8);
        lemma_start_ended(plan, start_step(plan, c1), 7);
    } else {
        lemma_start_ended(plan, start_step(plan, c0), 8);
    }
}

proof fn lemma_start_unrolls(plan: StartPlan, at: (StartState, StartWorld), steps: nat)
    requires
        steps > 0,
    ensures
        start_steps(plan, at, steps) == start_steps(
            plan,
            start_step(plan, at),
            (steps - 1) as nat,
        ),
{
    reveal(start_steps);
}

proof fn lemma_start_ended(plan: StartPlan, at: (StartState, StartWorld), steps: nat)
    requires
        at.0 is Succeeded || at.0 is Failed,
    ensures
        start_steps(plan, at, steps) == at,
    decreases steps,
{
    reveal(start_steps);
    if steps > 0 {
        assert(start_step(plan, at) == at);
        lemma_start_ended(plan, at, (steps - 1) as nat);
    }
}

proof fn lemma_started_until(plan: StartPlan, world: StartWorld)
    requires
        untouched(world),
    ensures
        ({
            let (state, after) = start_steps(plan, (StartState::PreparingUntil, world), 9);
            if !world.prepares || !world.spawns {
                state is Failed && untouched(after)
            } else if world.publishes {
                state is Succeeded && after.helper && after.confirmed && !after.child
            } else {
                state == StartState::Failed(CommandFault::NotPublished) && !after.helper
                    && !after.confirmed && !after.child
            }
        }),
{
    let c0 = (StartState::PreparingUntil, world);
    lemma_start_unrolls(plan, c0, 9);
    let c1 = start_step(plan, c0);
    if world.prepares {
        assert(c1 == (StartState::SpawningUntil, world));
        lemma_start_unrolls(plan, c1, 8);
        let c2 = start_step(plan, c1);
        if world.spawns {
            let w = StartWorld { helper: true, ..world };
            assert(c2 == (StartState::AwaitingUntil, w));
            lemma_start_unrolls(plan, c2, 7);
            let c3 = start_step(plan, c2);
            if world.publishes {
                assert(c3 == (StartState::Confirming, w));
            } else {
                assert(c3 == (StartState::KillingUntil, w));
            }
            lemma_start_unrolls(plan, c3, 6);
            lemma_start_ended(plan, start_step(plan, c3), 5);
        } else {
            lemma_start_ended(plan, c2, 7);
        }
    } else {
        lemma_start_ended(plan, c1, 8);
    }
}

#[verifier::rlimit(40)]
proof fn lemma_started_command(plan: StartPlan, world: StartWorld)
    requires
        untouched(world),
    ensures
        ({
            let (state, after) = start_steps(plan, (StartState::PreparingCommand, world), 9);
            if world.prepares && world.spawns && world.alive && world.publishes {
                state is Succeeded && after.child && after.saved && after.confirmed && !after.helper
            } else {
                state is Failed && untouched(after)
            }
        }),
{
    let c0 = (StartState::PreparingCommand, world);
    lemma_start_unrolls(plan, c0, 9);
    let c1 = start_step(plan, c0);
    if world.prepares {
        assert(c1 == (StartState::Spawning, world));
        lemma_start_unrolls(plan, c1, 8);
        let c2 = start_step(plan, c1);
        if world.spawns {
            let w = StartWorld { child: true, ..world };
            assert(c2 == (StartState::CheckingAlive, w));
            lemma_start_unrolls(plan, c2, 7);
            let c3 = start_step(plan, c2);
            if world.alive {
                assert(c3 == (StartState::Publishing, w));
                lemma_start_unrolls(plan, c3, 6);
                let c4 = start_step(plan, c3);
                lemma_start_unrolls(plan, c4, 5);
                let c5 = start_step(plan, c4);
                if world.publishes {
                    let published = StartWorld { saved: true, ..w };
                    assert(c4 == (StartState::Confirming, published));
                    assert(c5 == (
                        StartState::Succeeded,
                        StartWorld { confirmed: true, ..published },
                    ));
                } else {
                    assert(c4 == (StartState::KillingChild, w));
                    assert(c5 == (StartState::Failed(CommandFault::LastError), world));
                }
                lemma_start_ended(plan, c5, 4);
            } else {
                lemma_start_ended(plan, c3, 6);
            }
        } else {
            lemma_start_ended(plan, c2, 7);
        }
    } else {
        lemma_start_ended(plan, c1, 8);
    }
}

/// A start comes to an end, and leaves a session running exactly where the user is told of it. While another
/// session is active, and wherever a step fails, nothing is left behind. A charge that is met already
/// is told of, and starts nothing.
pub proof fn law_starts_come_to_their_end(plan: StartPlan, world: StartWorld)
    requires
        untouched(world),
    ensures
        ({
            let (state, after) = start_steps(plan, (StartState::Locking, world), 12);
            let cleared = world.locks && world.recovers && !world.active;
            let lid = plan.platform == Platform::Macos && plan.even_lid;
            let waits = plan.charge && world.met is None;
            &&& state is Succeeded || state is Failed
            &&& world.locks && world.recovers && world.active ==> state == StartState::Failed(
                CommandFault::AlreadyActive,
            )
            &&& !cleared ==> state is Failed && untouched(after)
            &&& cleared && lid ==> (state is Succeeded <==> world.lid_starts) && after.lid
                == world.lid_starts && !after.helper && !after.child
            &&& cleared && !lid && plan.charge && world.readable && world.met is Some ==> state
                is Succeeded && after.told == world.met && !after.helper && !after.child
            &&& cleared && !lid && waits && world.readable && world.spawns && world.publishes && (
            plan.even_lid && plan.platform == Platform::Linux ==> world.probes) ==> state
                is Succeeded && after.helper && after.confirmed && after.told is None
            &&& cleared && !lid && waits && !world.publishes ==> !after.helper && !after.confirmed && (
            state is Succeeded ==> after.told == world.met_later && after.told is Some)
            &&& cleared && !lid && !plan.charge && plan.until ==> (state is Succeeded
                <==> world.prepares && world.spawns && world.publishes) && after.helper == (state
                is Succeeded) && after.confirmed == (state is Succeeded) && !after.child
            &&& cleared && !lid && !plan.charge && !plan.until ==> (state is Succeeded
                <==> world.prepares && world.spawns && world.alive && world.publishes)
                && after.child == (state is Succeeded) && after.saved == (state is Succeeded)
                && after.confirmed == (state is Succeeded) && !after.helper
        }),
{
    lemma_start_reaches(plan, world);
    if world.locks && world.recovers && !world.active {
        if plan.platform == Platform::Macos && plan.even_lid {
            let c3 = (StartState::StartingLid, world);
            lemma_start_unrolls(plan, c3, 9);
            lemma_start_ended(plan, start_step(plan, c3), 8);
        } else if plan.charge {
            lemma_started_charge(plan, world);
        } else if plan.until {
            lemma_started_until(plan, world);
        } else {
            lemma_started_command(plan, world);
        }
    }
}

proof fn lemma_start_reaches(plan: StartPlan, world: StartWorld)
    ensures
        ({
            let end = start_steps(plan, (StartState::Locking, world), 12);
            if world.locks && world.recovers && !world.active {
                end == start_steps(plan, (start_route(plan), world), 9)
            } else if world.locks && world.recovers {
                end == (StartState::Failed(CommandFault::AlreadyActive), world)
            } else {
                end == (StartState::Failed(CommandFault::LastError), world)
            }
        }),
{
    let c0 = (StartState::Locking, world);
    lemma_start_unrolls(plan, c0, 12);
    let c1 = start_step(plan, c0);
    if world.locks {
        assert(c1 == (StartState::Recovering, world));
        lemma_start_unrolls(plan, c1, 11);
        let c2 = start_step(plan, c1);
        if world.recovers {
            assert(c2 == (StartState::Looking, world));
            lemma_start_unrolls(plan, c2, 10);
            let c3 = start_step(plan, c2);
            if world.active {
                lemma_start_ended(plan, c3, 9);
            } else {
                assert(c3 == (start_route(plan), world));
            }
        } else {
            lemma_start_ended(plan, c2, 10);
        }
    } else {
        lemma_start_ended(plan, c1, 11);
    }
}

/// Where a request goes: to the helper for the lid on a Mac, to the one for a charge or a time of day where it
/// has one, and to a command alone otherwise.
pub proof fn law_requests_take_their_route(
    platform: Platform,
    parsed: Parsed,
    deadline: Option<Timestamp>,
    plan: StartPlan,
)
    requires
        call_ensures(plan_start, (platform, &parsed, deadline), plan),
    ensures
        ({
            let lid = platform == Platform::Macos && parsed.even_lid;
            &&& start_route(plan) is StartingLid <==> lid
            &&& start_route(plan) is PreparingCharge <==> !lid && parsed.charge_target is Some
            &&& start_route(plan) is PreparingUntil <==> !lid && parsed.charge_target is None
                && deadline is Some
            &&& start_route(plan) is PreparingCommand <==> !lid && parsed.charge_target is None
                && deadline is None
        }),
{
}

/// A session says what was asked for: it starts now, and ends at its deadline where it has one, so many seconds
/// later where it is to last so many, and not by itself otherwise.
pub proof fn law_sessions_say_what_was_asked(
    parsed: Parsed,
    pid: u32,
    now: Timestamp,
    deadline: Option<Timestamp>,
    s: Session,
)
    requires
        now.valid() && now.nanos < 1_000_000_000,
        end_exists(parsed.timeout_sec, now),
        call_ensures(session_until, (&parsed, pid, now, deadline), s),
    ensures
        s@.pid == pid && s@.started_at == Some(now),
        s@.mode == (if parsed.no_display {
            "system-only"@
        } else {
            "display+system"@
        }),
        s@.trigger == parsed.trigger@ && s@.detail == parsed.trigger_detail@,
        s@.even_lid == parsed.even_lid,
        deadline is Some ==> s@.ends_at == deadline,
        deadline is None ==> (parsed.timeout_sec matches Some(t) ==> (s@.ends_at matches Some(end)
            && time::nanos_between(end, now) == t * 1_000_000_000)),
        deadline is None && parsed.timeout_sec is None ==> s@.ends_at is None,
{
}

/// A saved state is kept where its process runs, put right where it may have changed the sleep setting, left
/// alone where it cannot be read and may be about the lid, and deleted otherwise.
pub proof fn law_stale_states_are_seen_to(
    platform: Platform,
    saved: Saved,
    live: Option<(u64, Seq<char>)>,
)
    ensures
        ({
            let r = stale_decision(platform, Some(saved), live);
            match saved {
                Saved::Malformed(hints) => (r == StaleDecision::Reject <==> hints) && (r
                    == StaleDecision::Delete <==> !hints),
                Saved::Valid(s) => {
                    let runs = live matches Some(process) && s.is_process(platform, process);
                    &&& r == StaleDecision::Keep <==> runs
                    &&& r == StaleDecision::RestoreThenDelete <==> !runs && s.even_lid && platform
                        == Platform::Macos
                    &&& r == StaleDecision::Delete <==> !runs && !(s.even_lid && platform
                        == Platform::Macos)
                },
            }
        }),
        stale_decision(platform, None, live) == StaleDecision::Keep,
{
}

/// A system as a stop meets it: what it answers, and what the stop has done to it so far.
pub struct StopWorld {
    pub locks: bool,
    pub recovers: bool,
    pub active: bool,
    pub terminates: bool,
    /// Whether the sleep setting is back, or can be put back.
    pub sleep_back: bool,
    pub deletes: bool,
    /// Whether the session's process runs, and its state is saved.
    pub running: bool,
    pub saved: bool,
    /// Whether the sleep setting was seen to be back.
    pub verified: bool,
    /// Whether the user was told that the session was stopped, or that there is none.
    pub told_stopped: bool,
    pub told_none: bool,
}

impl StopWorld {
    /// What the system answers to an action, and what it is then.
    pub open spec fn answer(self, action: CommandAction) -> (StopWorld, CommandEvent) {
        match action {
            CommandAction::Lock => (self, answered(self.locks)),
            CommandAction::Recover => (self, answered(self.recovers)),
            CommandAction::FindActive => (self, CommandEvent::Answer(self.active)),
            CommandAction::Terminate => (
                StopWorld { running: self.running && !self.terminates, ..self },
                answered(self.terminates),
            ),
            CommandAction::VerifySleep => (
                StopWorld { verified: self.sleep_back, ..self },
                answered(self.sleep_back),
            ),
            CommandAction::DeleteState => (
                StopWorld { saved: self.saved && !self.deletes, ..self },
                answered(self.deletes),
            ),
            CommandAction::TellStopped => (
                StopWorld { told_stopped: true, ..self },
                CommandEvent::Done,
            ),
            CommandAction::TellNone => (
                StopWorld { told_none: true, ..self },
                CommandEvent::Done,
            ),
            _ => (self, CommandEvent::Done),
        }
    }
}

/// A step of a stop.
pub open spec fn stop_step(lid: bool, at: (StopState, StopWorld)) -> (StopState, StopWorld) {
    let (world, event) = at.1.answer(stop_wants(at.0));
    (stop_next(lid, at.0, event), world)
}

/// Where a stop stands after so many steps.
#[verifier::opaque]
pub open spec fn stop_steps(lid: bool, at: (StopState, StopWorld), steps: nat) -> (
    StopState,
    StopWorld,
)
    decreases steps,
{
    if steps == 0 {
        at
    } else {
        stop_steps(lid, stop_step(lid, at), (steps - 1) as nat)
    }
}

proof fn lemma_stop_unrolls(lid: bool, at: (StopState, StopWorld), steps: nat)
    requires
        steps > 0,
    ensures
        stop_steps(lid, at, steps) == stop_steps(lid, stop_step(lid, at), (steps - 1) as nat),
{
    reveal(stop_steps);
}

proof fn lemma_stop_ended(lid: bool, at: (StopState, StopWorld), steps: nat)
    requires
        at.0 is Succeeded || at.0 is Failed,
    ensures
        stop_steps(lid, at, steps) == at,
    decreases steps,
{
    reveal(stop_steps);
    if steps > 0 {
        assert(stop_step(lid, at) == at);
        lemma_stop_ended(lid, at, (steps - 1) as nat);
    }
}

/// A stop comes to an end. Where it succeeds no process of the session runs and no state of it is left, the
/// sleep setting was seen to be back where the session had changed it, and the user is told what was
/// found; where it fails the user is told neither that the session was stopped nor that there is
/// none, unless its state could not be deleted.
pub proof fn law_stops_come_to_their_end(lid: bool, world: StopWorld)
    requires
        world.running == world.active,
        world.saved && !world.verified && !world.told_stopped && !world.told_none,
    ensures
        ({
            let (state, after) = stop_steps(lid, (StopState::Locking, world), 8);
            let reached = world.locks && world.recovers;
            let ended = world.terminates && (lid ==> world.sleep_back);
            &&& state is Succeeded <==> reached && world.deletes && (world.active ==> ended)
            &&& state is Succeeded ==> !after.running && !after.saved && after.told_stopped
                == world.active && after.told_none == !world.active && (world.active && lid
                ==> after.verified)
            &&& state !is Succeeded ==> state is Failed && after.saved && !after.told_stopped && (
            after.told_none ==> !world.active)
            &&& after.running <==> world.active && !(reached && world.terminates)
        }),
{
    let c0 = (StopState::Locking, world);
    lemma_stop_unrolls(lid, c0, 8);
    let c1 = stop_step(lid, c0);
    if world.locks {
        assert(c1 == (StopState::Recovering, world));
        lemma_stop_unrolls(lid, c1, 7);
        let c2 = stop_step(lid, c1);
        if world.recovers {
            assert(c2 == (StopState::Looking, world));
            lemma_stop_unrolls(lid, c2, 6);
            let c3 = stop_step(lid, c2);
            lemma_stop_unrolls(lid, c3, 5);
            let c4 = stop_step(lid, c3);
            if world.active {
                assert(c3 == (StopState::Terminating, world));
                if world.terminates {
                    lemma_stop_unrolls(lid, c4, 4);
                    let c5 = stop_step(lid, c4);
                    if lid {
                        if world.sleep_back {
                            lemma_stop_unrolls(lid, c5, 3);
                            let c6 = stop_step(lid, c5);
                            if world.deletes {
                                lemma_stop_unrolls(lid, c6, 2);
                                lemma_stop_ended(lid, stop_step(lid, c6), 1);
                            } else {
                                lemma_stop_ended(lid, c6, 2);
                            }
                        } else {
                            lemma_stop_ended(lid, c5, 3);
                        }
                    } else if world.deletes {
                        lemma_stop_unrolls(lid, c5, 3);
                        lemma_stop_ended(lid, stop_step(lid, c5), 2);
                    } else {
                        lemma_stop_ended(lid, c5, 3);
                    }
                } else {
                    lemma_stop_ended(lid, c4, 4);
                }
            } else {
                assert(c3 == (StopState::TellingNone, world));
                lemma_stop_unrolls(lid, c4, 4);
                lemma_stop_ended(lid, stop_step(lid, c4), 3);
            }
        } else {
            lemma_stop_ended(lid, c2, 6);
        }
    } else {
        lemma_stop_ended(lid, c1, 7);
    }
}

/// The status takes the lock, sees to a stale state and looks, in this order; then it shows the session that is
/// active, and tells that there is none only where there is none. Where a step fails, it fails.
pub proof fn law_status_shows_what_is_active(
    active: bool,
    recovering: StatusState,
    looking: StatusState,
    telling: StatusState,
    ended: StatusState,
    asked: (CommandAction, CommandAction, CommandAction, CommandAction),
)
    requires
        call_ensures(status_unix, (StatusState::Locking, CommandEvent::Done), recovering),
        call_ensures(status_unix, (recovering, CommandEvent::Done), looking),
        call_ensures(status_unix, (looking, CommandEvent::Answer(active)), telling),
        call_ensures(status_unix, (telling, CommandEvent::Done), ended),
        call_ensures(status_asks, (StatusState::Locking,), asked.0),
        call_ensures(status_asks, (recovering,), asked.1),
        call_ensures(status_asks, (looking,), asked.2),
        call_ensures(status_asks, (telling,), asked.3),
    ensures
        asked.0 == CommandAction::Lock,
        asked.1 == CommandAction::Recover,
        asked.2 == CommandAction::FindActive,
        active ==> asked.3 == CommandAction::ShowStatus,
        !active ==> asked.3 == CommandAction::TellNone,
        ended is Succeeded,
        forall|failed: StatusState| #[trigger]
            call_ensures(status_unix, (StatusState::Locking, CommandEvent::Failed), failed)
                ==> failed is Failed,
        forall|failed: StatusState| #[trigger]
            call_ensures(status_unix, (looking, CommandEvent::Failed), failed) ==> failed is Failed,
{
}

/// A helper's session is waited for as long as the helper runs, fifty looks at most; it is taken for published
/// where the session that was found has the helper's number and holds the lid just where that was
/// asked for.
pub proof fn law_helpers_are_waited_for(
    supervisor_pid: u32,
    even_lid: bool,
    looks: u8,
    found: Option<Session>,
    alive: bool,
    r: AwaitStep,
)
    requires
        call_ensures(
            wait_for_supervisor_session,
            (supervisor_pid, even_lid, looks, &found, alive),
            r,
        ),
    ensures
        ({
            let own = found matches Some(s) && s@.pid == supervisor_pid && s@.even_lid == even_lid;
            &&& r == AwaitStep::Published <==> own && looks < 50
            &&& r == AwaitStep::Again <==> !own && alive && looks < 50
        }),
{
}

/// A charge is met once it is at its target or past it, on the way that it goes.
pub proof fn law_charges_are_met_at_their_target(
    target: i32,
    up: bool,
    percent: i32,
    r: Option<i32>,
    unread: Option<i32>,
)
    requires
        call_ensures(current_charge_met, (target, up, Some(percent)), r),
        call_ensures(current_charge_met, (target, up, None::<i32>), unread),
    ensures
        r == Some(percent) || r is None,
        percent == target ==> r is Some,
        percent > target ==> (r is Some <==> up),
        percent < target ==> (r is Some <==> !up),
        unread is None,
{
}

/// The sleep setting is only looked at again after a session for the lid, and only on a Mac.
pub proof fn law_sleep_is_changed_for_the_lid(platform: Platform, saved: Option<Session>, r: bool)
    requires
        call_ensures(changed_sleep, (platform, &saved), r),
    ensures
        r ==> platform == Platform::Macos && saved is Some && saved->0@.even_lid,
        !r && platform == Platform::Macos && saved is Some ==> !saved->0@.even_lid,
{
}

} // verus!
