//! The sleep setting of a Mac: turned off for a lid session, and put back whatever happens.

use vstd::prelude::*;
use vstd::string::*;

use crate::error::{AppError, Fault};
use crate::text;
use crate::time::Span;

verus! {

/// What the system answers.
#[derive(Clone, Copy, Debug, PartialEq, Eq, Structural)]
pub enum SleepEvent {
    /// The sleep setting, as it was read.
    Setting(i32),
    /// The answer to a question.
    Answer(bool),
    /// A charge that has come to its target, and what it is.
    Percent(i32),
    Done,
    Failed,
}

/// What is asked of the system.
#[derive(Clone, Copy, Debug, PartialEq, Eq, Structural)]
pub enum SleepAction {
    ReadSetting,
    /// Set the sleep setting without asking anybody, and tell whether that worked.
    SetQuietly(i32),
    /// Set the sleep setting, with the user there to give a password.
    SetWithUser(i32),
    /// Tell whether a user is there.
    CheckConsole,
    /// Say how the sleep setting is put right by hand.
    Rescue(i32),
    /// Put the sleep setting back, asking the user only if need be and possible.
    RestoreWithPrompt(i32),
    /// Put the sleep setting back, asking the user.
    RestoreWithUser(i32),
    Sleep(Span),
    /// Say that a session that crashed was recovered.
    TellRecovered,
    /// Say that the sleep setting was put back after the helper had ended.
    TellRestored,
    /// See what a target charge asks for.
    PrepareCharge,
    /// See that the user may change the sleep setting.
    EnsurePermission,
    /// Save what a recovery needs.
    WriteRecoveryRecord,
    Launch,
    /// Wait for the helper's session, and tell whether it came.
    AwaitSession,
    /// Tell whether the helper has ended.
    CheckHelper,
    /// Tell the charge if it has come to its target.
    ReadMetCharge,
    DeleteState,
    /// Tell the user of the session.
    Confirm,
    /// Tell the user that the charge is met.
    TellChargeMet,
    Finish,
}

/// Why something failed. Where a call failed, it says why itself.
#[derive(Clone, Copy, Debug, PartialEq, Eq, Structural)]
pub enum SleepFault {
    /// The call that failed last.
    LastError,
    /// The first of two calls that failed.
    FirstError,
    /// Nobody was there to ask.
    NoConsole,
    /// The sleep setting should be the first and is the second.
    NotRestored { prior: i32, after: i32 },
    /// A session that crashed left this sleep setting, and it stayed.
    NotRecovered { after: i32 },
    /// The sleep setting could not be turned off for the lid.
    NotEnabled { current: i32 },
    /// The helper did not publish its session.
    NotPublished,
}

impl SleepFault {
    /// What is said of the fault. `no_console` is what is said where nobody was there.
    pub open spec fn text(self, no_console: Seq<char>) -> Seq<char> {
        match self {
            SleepFault::LastError => Seq::empty(),
            SleepFault::FirstError => Seq::empty(),
            SleepFault::NoConsole => no_console,
            SleepFault::NotRestored { prior, after } => "failed to restore SleepDisabled to "@
                + text::signed_decimal(prior as int) + "; current value is "@
                + text::signed_decimal(after as int),
            SleepFault::NotRecovered { after } => {
                "failed to recover crashed lid session; SleepDisabled is "@ + text::signed_decimal(
                    after as int,
                )
            },
            SleepFault::NotEnabled { current } => {
                "failed to enable --even-lid; SleepDisabled is "@ + text::signed_decimal(
                    current as int,
                )
            },
            SleepFault::NotPublished => "lid supervisor failed to publish session state"@,
        }
    }

    /// What is said of the fault. `no_console` is what is said where nobody was there.
    pub fn message(self, no_console: &str) -> (r: String)
        ensures
            r@ == self.text(no_console@),
    {
        match self {
            SleepFault::NoConsole => no_console.to_owned(),
            SleepFault::NotRestored { prior, after } => {
                let mut m = "failed to restore SleepDisabled to ".to_owned();
                m.append(text::signed_decimal_text(prior as i64).as_str());
                m.append("; current value is ");
                m.append(text::signed_decimal_text(after as i64).as_str());
                m
            },
            SleepFault::NotRecovered { after } => {
                let mut m = "failed to recover crashed lid session; SleepDisabled is ".to_owned();
                m.append(text::signed_decimal_text(after as i64).as_str());
                m
            },
            SleepFault::NotEnabled { current } => {
                let mut m = "failed to enable --even-lid; SleepDisabled is ".to_owned();
                m.append(text::signed_decimal_text(current as i64).as_str());
                m
            },
            SleepFault::NotPublished => "lid supervisor failed to publish session state".to_owned(),
            _ => {
                let m = String::new();
                assert(m@ =~= Seq::<char>::empty());
                m
            },
        }
    }
}

/// How far putting the sleep setting back has come.
#[derive(Clone, Copy, Debug, PartialEq, Eq, Structural)]
pub enum RestoreState {
    SettingQuietly,
    CheckingQuietly,
    CheckingConsole,
    Setting,
    Verifying,
    Rescuing(SleepFault),
    Restored,
    Failed(SleepFault),
}

/// What putting the sleep setting back asks for next.
pub open spec fn restore_wants(prior: i32, state: RestoreState) -> SleepAction {
    match state {
        RestoreState::SettingQuietly => SleepAction::SetQuietly(prior),
        RestoreState::CheckingQuietly => SleepAction::ReadSetting,
        RestoreState::CheckingConsole => SleepAction::CheckConsole,
        RestoreState::Setting => SleepAction::SetWithUser(prior),
        RestoreState::Verifying => SleepAction::ReadSetting,
        RestoreState::Rescuing(_) => SleepAction::Rescue(prior),
        RestoreState::Restored => SleepAction::Finish,
        RestoreState::Failed(_) => SleepAction::Finish,
    }
}

/// Where putting the sleep setting back goes from `state` on `event`. It counts as put back only when it
/// was read as what it was before; whenever that fails the user is told how to do it by hand.
pub open spec fn restore_next(prior: i32, state: RestoreState, event: SleepEvent) -> RestoreState {
    match (state, event) {
        (RestoreState::SettingQuietly, SleepEvent::Answer(done)) => if done {
            RestoreState::CheckingQuietly
        } else {
            RestoreState::CheckingConsole
        },
        (RestoreState::SettingQuietly, SleepEvent::Failed) => RestoreState::CheckingConsole,
        (RestoreState::CheckingQuietly, SleepEvent::Setting(value)) => if value == prior {
            RestoreState::Restored
        } else {
            RestoreState::CheckingConsole
        },
        (RestoreState::CheckingQuietly, SleepEvent::Failed) => RestoreState::CheckingConsole,
        (RestoreState::CheckingConsole, SleepEvent::Answer(there)) => if there {
            RestoreState::Setting
        } else {
            RestoreState::Rescuing(SleepFault::NoConsole)
        },
        (RestoreState::Setting, SleepEvent::Done) => RestoreState::Verifying,
        (RestoreState::Setting, SleepEvent::Failed) => RestoreState::Rescuing(
            SleepFault::LastError,
        ),
        (RestoreState::Verifying, SleepEvent::Setting(value)) => if value == prior {
            RestoreState::Restored
        } else {
            RestoreState::Rescuing(SleepFault::NotRestored { prior, after: value })
        },
        (RestoreState::Verifying, SleepEvent::Failed) => RestoreState::Rescuing(
            SleepFault::LastError,
        ),
        (RestoreState::Rescuing(fault), SleepEvent::Done) => RestoreState::Failed(fault),
        _ => state,
    }
}

/// What putting the sleep setting back asks for next.
pub fn restore_asks(prior: i32, state: RestoreState) -> (r: SleepAction)
    ensures
        r == restore_wants(prior, state),
{
    match state {
        RestoreState::SettingQuietly => SleepAction::SetQuietly(prior),
        RestoreState::CheckingQuietly => SleepAction::ReadSetting,
        RestoreState::CheckingConsole => SleepAction::CheckConsole,
        RestoreState::Setting => SleepAction::SetWithUser(prior),
        RestoreState::Verifying => SleepAction::ReadSetting,
        RestoreState::Rescuing(_) => SleepAction::Rescue(prior),
        RestoreState::Restored => SleepAction::Finish,
        RestoreState::Failed(_) => SleepAction::Finish,
    }
}

/// Where putting the sleep setting back, asking the user only if need be, goes from `state` on `event`. It
/// starts by setting it quietly; where the user is asked in any case, it starts by setting it.
pub fn restore_disable_sleep_with_prompt_if_possible(
    prior: i32,
    state: RestoreState,
    event: SleepEvent,
) -> (r: RestoreState)
    ensures
        r == restore_next(prior, state, event),
{
    match (state, event) {
        (RestoreState::SettingQuietly, SleepEvent::Answer(done)) => if done {
            RestoreState::CheckingQuietly
        } else {
            RestoreState::CheckingConsole
        },
        (RestoreState::SettingQuietly, SleepEvent::Failed) => RestoreState::CheckingConsole,
        (RestoreState::CheckingQuietly, SleepEvent::Setting(value)) => if value == prior {
            RestoreState::Restored
        } else {
            RestoreState::CheckingConsole
        },
        (RestoreState::CheckingQuietly, SleepEvent::Failed) => RestoreState::CheckingConsole,
        (RestoreState::CheckingConsole, SleepEvent::Answer(there)) => if there {
            RestoreState::Setting
        } else {
            RestoreState::Rescuing(SleepFault::NoConsole)
        },
        _ => restore_disable_sleep_foreground(prior, state, event),
    }
}

/// Where putting the sleep setting back, with the user there, goes from `state` on `event`.
pub fn restore_disable_sleep_foreground(prior: i32, state: RestoreState, event: SleepEvent) -> (r:
    RestoreState)
    ensures
        state is Setting || state is Verifying || state is Rescuing || state is Restored
            || state is Failed ==> r == restore_next(prior, state, event),
        state is SettingQuietly || state is CheckingQuietly || state is CheckingConsole ==> r
            == state,
{
    match (state, event) {
        (RestoreState::Setting, SleepEvent::Done) => RestoreState::Verifying,
        (RestoreState::Setting, SleepEvent::Failed) => RestoreState::Rescuing(
            SleepFault::LastError,
        ),
        (RestoreState::Verifying, SleepEvent::Setting(value)) => if value == prior {
            RestoreState::Restored
        } else {
            RestoreState::Rescuing(SleepFault::NotRestored { prior, after: value })
        },
        (RestoreState::Verifying, SleepEvent::Failed) => RestoreState::Rescuing(
            SleepFault::LastError,
        ),
        (RestoreState::Rescuing(fault), SleepEvent::Done) => RestoreState::Failed(fault),
        _ => state,
    }
}

/// The sleep setting counts as put back only right after it was read as what it was before, and
/// nothing else than that is ever written.
pub proof fn law_restored_means_read_back(prior: i32, state: RestoreState, event: SleepEvent)
    ensures
        restore_next(prior, state, event) is Restored && state !is Restored ==> event
            == SleepEvent::Setting(prior),
        restore_next(prior, state, event) is Failed && state !is Failed ==> restore_wants(
            prior,
            state,
        ) == SleepAction::Rescue(prior),
        restore_wants(prior, state) matches SleepAction::SetQuietly(v) ==> v == prior,
        restore_wants(prior, state) matches SleepAction::SetWithUser(v) ==> v == prior,
{
}

/// How far recovering from a session that crashed has come.
#[derive(Clone, Copy, Debug, PartialEq, Eq, Structural)]
pub enum CrashState {
    Reading,
    Restoring,
    Verifying,
    Rescuing { after: i32 },
    Telling,
    Recovered,
    Failed(SleepFault),
}

/// What recovering from a session that crashed asks for next.
pub open spec fn crash_wants(prior: i32, state: CrashState) -> SleepAction {
    match state {
        CrashState::Reading => SleepAction::ReadSetting,
        CrashState::Restoring => SleepAction::RestoreWithPrompt(prior),
        CrashState::Verifying => SleepAction::ReadSetting,
        CrashState::Rescuing { .. } => SleepAction::Rescue(prior),
        CrashState::Telling => SleepAction::TellRecovered,
        CrashState::Recovered => SleepAction::Finish,
        CrashState::Failed(_) => SleepAction::Finish,
    }
}

/// Where recovering from a session that crashed goes from `state` on `event`. A sleep setting that was
/// switched before the session is not the session's to put back.
pub open spec fn crash_next(prior: i32, state: CrashState, event: SleepEvent) -> CrashState {
    match (state, event) {
        (CrashState::Recovered, _) => state,
        (CrashState::Failed(_), _) => state,
        (CrashState::Rescuing { after }, SleepEvent::Done) => CrashState::Failed(
            SleepFault::NotRecovered { after },
        ),
        (CrashState::Rescuing { .. }, _) => state,
        (CrashState::Telling, SleepEvent::Done) => CrashState::Recovered,
        (CrashState::Telling, _) => state,
        (CrashState::Reading, SleepEvent::Setting(current)) => if prior != 0 || current == prior {
            CrashState::Recovered
        } else {
            CrashState::Restoring
        },
        (CrashState::Restoring, SleepEvent::Done) => CrashState::Verifying,
        (CrashState::Verifying, SleepEvent::Setting(after)) => if after == prior {
            CrashState::Telling
        } else {
            CrashState::Rescuing { after }
        },
        (_, SleepEvent::Failed) => CrashState::Failed(SleepFault::LastError),
        _ => state,
    }
}

pub fn crash_asks(prior: i32, state: CrashState) -> (r: SleepAction)
    ensures
        r == crash_wants(prior, state),
{
    match state {
        CrashState::Reading => SleepAction::ReadSetting,
        CrashState::Restoring => SleepAction::RestoreWithPrompt(prior),
        CrashState::Verifying => SleepAction::ReadSetting,
        CrashState::Rescuing { .. } => SleepAction::Rescue(prior),
        CrashState::Telling => SleepAction::TellRecovered,
        CrashState::Recovered => SleepAction::Finish,
        CrashState::Failed(_) => SleepAction::Finish,
    }
}

/// Where recovering from a session that crashed goes from `state` on `event`.
pub fn recover_crashed_even_lid_unix(prior: i32, state: CrashState, event: SleepEvent) -> (r:
    CrashState)
    ensures
        r == crash_next(prior, state, event),
{
    match (state, event) {
        (CrashState::Recovered, _) => state,
        (CrashState::Failed(_), _) => state,
        (CrashState::Rescuing { after }, SleepEvent::Done) => CrashState::Failed(
            SleepFault::NotRecovered { after },
        ),
        (CrashState::Rescuing { .. }, _) => state,
        (CrashState::Telling, SleepEvent::Done) => CrashState::Recovered,
        (CrashState::Telling, _) => state,
        (CrashState::Reading, SleepEvent::Setting(current)) => if prior != 0 || current == prior {
            CrashState::Recovered
        } else {
            CrashState::Restoring
        },
        (CrashState::Restoring, SleepEvent::Done) => CrashState::Verifying,
        (CrashState::Verifying, SleepEvent::Setting(after)) => if after == prior {
            CrashState::Telling
        } else {
            CrashState::Rescuing { after }
        },
        (_, SleepEvent::Failed) => CrashState::Failed(SleepFault::LastError),
        _ => state,
    }
}

/// What is said when a session that crashed was recovered.
pub fn recovered_line(prior: i32) -> (r: &'static str)
    ensures
        r@ == (if prior == 0 {
            "wake: recovered a crashed lid session; restored normal sleep"@
        } else {
            "wake: recovered a crashed lid session; restored prior SleepDisabled value"@
        }),
{
    if prior == 0 {
        "wake: recovered a crashed lid session; restored normal sleep"
    } else {
        "wake: recovered a crashed lid session; restored prior SleepDisabled value"
    }
}

/// A session that crashed counts as recovered only when the sleep setting was read as what it was
/// before, unless the session found it switched already and had nothing of its own to undo.
pub proof fn law_recovered_means_read_back(prior: i32, state: CrashState, event: SleepEvent)
    ensures
        prior == 0 && ((crash_next(prior, state, event) is Telling && state !is Telling) || (
        crash_next(prior, state, event) is Recovered && state !is Recovered && state !is Telling))
            ==> event == SleepEvent::Setting(prior),
{
}

/// Where recovering from a session that crashed stands after these events.
pub open spec fn crash_after(prior: i32, events: Seq<SleepEvent>) -> CrashState
    decreases events.len(),
{
    if events.len() == 0 {
        CrashState::Reading
    } else {
        crash_next(prior, crash_after(prior, events.drop_last()), events.last())
    }
}

proof fn lemma_crash_owned(prior: i32, events: Seq<SleepEvent>)
    ensures
        match crash_after(prior, events) {
            CrashState::Restoring | CrashState::Verifying | CrashState::Rescuing { .. }
            | CrashState::Telling => prior == 0,
            _ => true,
        },
    decreases events.len(),
{
    if events.len() > 0 {
        lemma_crash_owned(prior, events.drop_last());
    }
}

/// Recovering from a session that crashed writes the sleep setting only where the session had switched it.
pub proof fn law_recovery_writes_only_what_was_switched(prior: i32, events: Seq<SleepEvent>)
    ensures
        crash_wants(prior, crash_after(prior, events)) is RestoreWithPrompt ==> prior == 0,
{
    lemma_crash_owned(prior, events);
}

/// How far seeing that a helper has put the sleep setting back has come, after its session was stopped.
#[derive(Clone, Copy, Debug, PartialEq, Eq, Structural)]
pub enum StopState {
    /// Looking, with so many looks taken before.
    Looking { looks: u8 },
    Pausing { looks: u8 },
    Restoring,
    Verifying,
    Rescuing { after: i32 },
    Telling,
    Restored,
    Failed(SleepFault),
}

/// How many looks are taken, a quarter of a second apart, before the last one.
pub const STOP_LOOKS: u8 = 20;

/// What it asks for next.
pub open spec fn stop_wants(prior: i32, state: StopState) -> SleepAction {
    match state {
        StopState::Looking { .. } => SleepAction::ReadSetting,
        StopState::Pausing { .. } => SleepAction::Sleep(Span { seconds: 0, nanos: 250_000_000 }),
        StopState::Restoring => SleepAction::RestoreWithPrompt(prior),
        StopState::Verifying => SleepAction::ReadSetting,
        StopState::Rescuing { .. } => SleepAction::Rescue(prior),
        StopState::Telling => SleepAction::TellRestored,
        StopState::Restored => SleepAction::Finish,
        StopState::Failed(_) => SleepAction::Finish,
    }
}

/// Where it goes from `state` on `event`: the helper is given time to put the sleep setting back; if it
/// does not, that is done here. A sleep setting that was switched before the session is not the
/// session's to put back.
pub open spec fn stop_next(prior: i32, state: StopState, event: SleepEvent) -> StopState {
    match (state, event) {
        (StopState::Restored, _) => state,
        (StopState::Failed(_), _) => state,
        (StopState::Rescuing { after }, SleepEvent::Done) => StopState::Failed(
            SleepFault::NotRestored { prior, after },
        ),
        (StopState::Rescuing { .. }, _) => state,
        (StopState::Telling, SleepEvent::Done) => StopState::Restored,
        (StopState::Telling, _) => state,
        (StopState::Looking { looks }, SleepEvent::Setting(value)) => if prior != 0 || value
            == prior {
            StopState::Restored
        } else if looks < STOP_LOOKS {
            StopState::Pausing { looks }
        } else {
            StopState::Restoring
        },
        (StopState::Pausing { looks }, SleepEvent::Done) => StopState::Looking {
            looks: if looks < STOP_LOOKS {
                (looks + 1) as u8
            } else {
                looks
            },
        },
        (StopState::Restoring, SleepEvent::Done) => StopState::Verifying,
        (StopState::Verifying, SleepEvent::Setting(after)) => if after == prior {
            StopState::Telling
        } else {
            StopState::Rescuing { after }
        },
        (_, SleepEvent::Failed) => StopState::Failed(SleepFault::LastError),
        _ => state,
    }
}

pub fn stop_asks(prior: i32, state: StopState) -> (r: SleepAction)
    ensures
        r == stop_wants(prior, state),
{
    match state {
        StopState::Looking { .. } => SleepAction::ReadSetting,
        StopState::Pausing { .. } => SleepAction::Sleep(Span { seconds: 0, nanos: 250_000_000 }),
        StopState::Restoring => SleepAction::RestoreWithPrompt(prior),
        StopState::Verifying => SleepAction::ReadSetting,
        StopState::Rescuing { .. } => SleepAction::Rescue(prior),
        StopState::Telling => SleepAction::TellRestored,
        StopState::Restored => SleepAction::Finish,
        StopState::Failed(_) => SleepAction::Finish,
    }
}

/// Where seeing that a helper has put the sleep setting back goes from `state` on `event`.
pub fn verify_disable_sleep_restored_after_stop(prior: i32, state: StopState, event: SleepEvent) -> (r:
    StopState)
    ensures
        r == stop_next(prior, state, event),
{
    match (state, event) {
        (StopState::Restored, _) => state,
        (StopState::Failed(_), _) => state,
        (StopState::Rescuing { after }, SleepEvent::Done) => StopState::Failed(
            SleepFault::NotRestored { prior, after },
        ),
        (StopState::Rescuing { .. }, _) => state,
        (StopState::Telling, SleepEvent::Done) => StopState::Restored,
        (StopState::Telling, _) => state,
        (StopState::Looking { looks }, SleepEvent::Setting(value)) => if prior != 0 || value
            == prior {
            StopState::Restored
        } else if looks < STOP_LOOKS {
            StopState::Pausing { looks }
        } else {
            StopState::Restoring
        },
        (StopState::Pausing { looks }, SleepEvent::Done) => StopState::Looking {
            looks: if looks < STOP_LOOKS {
                looks + 1
            } else {
                looks
            },
        },
        (StopState::Restoring, SleepEvent::Done) => StopState::Verifying,
        (StopState::Verifying, SleepEvent::Setting(after)) => if after == prior {
            StopState::Telling
        } else {
            StopState::Rescuing { after }
        },
        (_, SleepEvent::Failed) => StopState::Failed(SleepFault::LastError),
        _ => state,
    }
}

/// What is said when the sleep setting was put back after the helper had ended.
pub fn restored_line(prior: i32) -> (r: String)
    ensures
        r@ == "wake: restored SleepDisabled to "@ + text::signed_decimal(prior as int)
            + " after lid supervisor exit"@,
{
    let mut m = "wake: restored SleepDisabled to ".to_owned();
    m.append(text::signed_decimal_text(prior as i64).as_str());
    m.append(" after lid supervisor exit");
    m
}

/// A session counts as stopped only when the sleep setting was read as what it was before, unless the
/// session found it switched already and had nothing of its own to undo.
pub proof fn law_stopped_means_read_back(prior: i32, state: StopState, event: SleepEvent)
    ensures
        prior == 0 && ((stop_next(prior, state, event) is Telling && state !is Telling) || (
        stop_next(prior, state, event) is Restored && state !is Restored && state !is Telling))
            ==> event == SleepEvent::Setting(prior),
{
}

/// Where seeing that a helper has put the sleep setting back stands after these events.
pub open spec fn stop_after(prior: i32, events: Seq<SleepEvent>) -> StopState
    decreases events.len(),
{
    if events.len() == 0 {
        StopState::Looking { looks: 0 }
    } else {
        stop_next(prior, stop_after(prior, events.drop_last()), events.last())
    }
}

proof fn lemma_stop_owned(prior: i32, events: Seq<SleepEvent>)
    ensures
        match stop_after(prior, events) {
            StopState::Pausing { .. } | StopState::Restoring | StopState::Verifying
            | StopState::Rescuing { .. } | StopState::Telling => prior == 0,
            _ => true,
        },
    decreases events.len(),
{
    if events.len() > 0 {
        lemma_stop_owned(prior, events.drop_last());
    }
}

/// After a stop the sleep setting is written only where the session had switched it.
pub proof fn law_stop_writes_only_what_was_switched(prior: i32, events: Seq<SleepEvent>)
    ensures
        stop_wants(prior, stop_after(prior, events)) is RestoreWithPrompt ==> prior == 0,
{
    lemma_stop_owned(prior, events);
}

/// How far seeing that the user may change the sleep setting has come.
#[derive(Clone, Copy, Debug, PartialEq, Eq, Structural)]
pub enum PermissionState {
    CheckingConsole,
    Refreshing,
    Authenticating,
    Granted,
    NoConsole,
    Refused,
    Failed,
}

/// Where seeing that the user may change the sleep setting goes on an answer; a refresh that fails
/// counts as refused.
pub fn ensure_sudo_for_even_lid(state: PermissionState, event: SleepEvent) -> (r: PermissionState)
    ensures
        r == (match (state, event) {
            (PermissionState::CheckingConsole, SleepEvent::Answer(there)) => if there {
                PermissionState::Refreshing
            } else {
                PermissionState::NoConsole
            },
            (PermissionState::Refreshing, SleepEvent::Answer(fresh)) => if fresh {
                PermissionState::Granted
            } else {
                PermissionState::Authenticating
            },
            (PermissionState::Refreshing, SleepEvent::Failed) => PermissionState::Authenticating,
            (PermissionState::Authenticating, SleepEvent::Answer(granted)) => if granted {
                PermissionState::Granted
            } else {
                PermissionState::Refused
            },
            (PermissionState::Authenticating, SleepEvent::Failed) => PermissionState::Failed,
            _ => state,
        }),
{
    match (state, event) {
        (PermissionState::CheckingConsole, SleepEvent::Answer(there)) => if there {
            PermissionState::Refreshing
        } else {
            PermissionState::NoConsole
        },
        (PermissionState::Refreshing, SleepEvent::Answer(fresh)) => if fresh {
            PermissionState::Granted
        } else {
            PermissionState::Authenticating
        },
        (PermissionState::Refreshing, SleepEvent::Failed) => PermissionState::Authenticating,
        (PermissionState::Authenticating, SleepEvent::Answer(granted)) => if granted {
            PermissionState::Granted
        } else {
            PermissionState::Refused
        },
        (PermissionState::Authenticating, SleepEvent::Failed) => PermissionState::Failed,
        _ => state,
    }
}

/// The error of a permission that was not given; nothing where a failed call says why.
pub fn permission_error(state: PermissionState) -> (r: Option<AppError>)
    ensures
        match state {
            PermissionState::NoConsole => r matches Some(e) && e@ == Fault::Fail(
                "--even-lid needs an interactive terminal for the sudo prompt"@,
            ),
            PermissionState::Refused => r matches Some(e) && e@ == Fault::Fail(
                "sudo authentication failed; --even-lid was not enabled"@,
            ),
            _ => r is None,
        },
{
    match state {
        PermissionState::NoConsole => Some(
            AppError::fail("--even-lid needs an interactive terminal for the sudo prompt"),
        ),
        PermissionState::Refused => Some(
            AppError::fail("sudo authentication failed; --even-lid was not enabled"),
        ),
        _ => None,
    }
}

/// How far starting a lid session on a Mac has come.
#[derive(Clone, Copy, Debug, PartialEq, Eq, Structural)]
pub enum LidStart {
    Preparing,
    Reading,
    Permitting { prior: i32 },
    Recording { prior: i32 },
    /// From here on the sleep setting may be off.
    Enabling { prior: i32 },
    Inspecting { prior: i32 },
    UndoingEnable { prior: i32, current: i32 },
    Launching { prior: i32 },
    Awaiting { prior: i32 },
    CheckingHelper { prior: i32 },
    ReadingCharge { prior: i32 },
    /// The charge was met before the session was published.
    InspectingMet { prior: i32, percent: i32 },
    RestoringMet { prior: i32, percent: i32 },
    DeletingMet { percent: i32 },
    /// Something failed, and the sleep setting is put back as well as may be.
    Undoing { prior: i32, fault: SleepFault },
    InspectingUndone { prior: i32, fault: SleepFault },
    DeletingUndone { fault: SleepFault },
    Confirming,
    TellingMet { percent: i32 },
    Started,
    Met,
    Failed(SleepFault),
}

/// What starting a lid session asks for next.
pub open spec fn lid_start_wants(state: LidStart) -> SleepAction {
    match state {
        LidStart::Preparing => SleepAction::PrepareCharge,
        LidStart::Reading => SleepAction::ReadSetting,
        LidStart::Permitting { .. } => SleepAction::EnsurePermission,
        LidStart::Recording { .. } => SleepAction::WriteRecoveryRecord,
        LidStart::Enabling { .. } => SleepAction::SetWithUser(1),
        LidStart::Inspecting { .. } => SleepAction::ReadSetting,
        LidStart::UndoingEnable { prior, .. } => SleepAction::RestoreWithUser(prior),
        LidStart::Launching { .. } => SleepAction::Launch,
        LidStart::Awaiting { .. } => SleepAction::AwaitSession,
        LidStart::CheckingHelper { .. } => SleepAction::CheckHelper,
        LidStart::ReadingCharge { .. } => SleepAction::ReadMetCharge,
        LidStart::InspectingMet { .. } => SleepAction::ReadSetting,
        LidStart::RestoringMet { prior, .. } => SleepAction::RestoreWithUser(prior),
        LidStart::DeletingMet { .. } => SleepAction::DeleteState,
        LidStart::Undoing { prior, .. } => SleepAction::SetWithUser(prior),
        LidStart::InspectingUndone { .. } => SleepAction::ReadSetting,
        LidStart::DeletingUndone { .. } => SleepAction::DeleteState,
        LidStart::Confirming => SleepAction::Confirm,
        LidStart::TellingMet { .. } => SleepAction::TellChargeMet,
        LidStart::Started => SleepAction::Finish,
        LidStart::Met => SleepAction::Finish,
        LidStart::Failed(_) => SleepAction::Finish,
    }
}

/// Where a start that fails goes once it has come to change the sleep setting: the setting is put back
/// where the start switched it, and is left alone where it was switched before.
pub open spec fn undo(prior: i32, fault: SleepFault) -> LidStart {
    if prior == 0 {
        LidStart::Undoing { prior, fault }
    } else {
        LidStart::DeletingUndone { fault }
    }
}

fn begin_undo(prior: i32, fault: SleepFault) -> (r: LidStart)
    ensures
        r == undo(prior, fault),
{
    if prior == 0 {
        LidStart::Undoing { prior, fault }
    } else {
        LidStart::DeletingUndone { fault }
    }
}

/// Where starting a lid session goes from `state` on `event`; `charge` tells whether it waits for a
/// charge. The setting is recorded before it is changed. Where the session does not come
/// about a setting that the start switched is put back, and the record is deleted only if it reads as
/// before.
pub open spec fn lid_start_next(charge: bool, state: LidStart, event: SleepEvent) -> LidStart {
    match (state, event) {
        (LidStart::Preparing, SleepEvent::Percent(percent)) => LidStart::TellingMet { percent },
        (LidStart::Preparing, SleepEvent::Done) => LidStart::Reading,
        (LidStart::Preparing, SleepEvent::Failed) => LidStart::Failed(SleepFault::LastError),
        (LidStart::Reading, SleepEvent::Setting(prior)) => LidStart::Permitting { prior },
        (LidStart::Reading, SleepEvent::Failed) => LidStart::Failed(SleepFault::LastError),
        (LidStart::Permitting { prior }, SleepEvent::Done) => LidStart::Recording { prior },
        (LidStart::Permitting { .. }, SleepEvent::Failed) => LidStart::Failed(
            SleepFault::LastError,
        ),
        (LidStart::Recording { prior }, SleepEvent::Done) => LidStart::Enabling { prior },
        (LidStart::Recording { .. }, SleepEvent::Failed) => LidStart::Failed(
            SleepFault::LastError,
        ),
        (LidStart::Enabling { prior }, SleepEvent::Done) => LidStart::Inspecting { prior },
        (LidStart::Enabling { prior }, SleepEvent::Failed) => undo(prior, SleepFault::FirstError),
        (LidStart::Inspecting { prior }, SleepEvent::Setting(current)) => if current == 1 {
            LidStart::Launching { prior }
        } else if prior == 0 {
            LidStart::UndoingEnable { prior, current }
        } else {
            LidStart::DeletingUndone { fault: SleepFault::NotEnabled { current } }
        },
        (LidStart::Inspecting { prior }, SleepEvent::Failed) => undo(prior, SleepFault::FirstError),
        (LidStart::UndoingEnable { prior, current }, SleepEvent::Done) => undo(prior, SleepFault::NotEnabled { current }),
        (LidStart::UndoingEnable { prior, .. }, SleepEvent::Failed) => undo(prior, SleepFault::FirstError),
        (LidStart::Launching { prior }, SleepEvent::Done) => LidStart::Awaiting { prior },
        (LidStart::Launching { prior }, SleepEvent::Failed) => undo(prior, SleepFault::FirstError),
        (LidStart::Awaiting { prior }, SleepEvent::Answer(published)) => if published {
            LidStart::Confirming
        } else {
            LidStart::CheckingHelper { prior }
        },
        (LidStart::CheckingHelper { prior }, SleepEvent::Answer(exited)) => if exited && charge {
            LidStart::ReadingCharge { prior }
        } else {
            undo(prior, SleepFault::NotPublished)
        },
        (LidStart::CheckingHelper { prior }, SleepEvent::Failed) => undo(prior, SleepFault::FirstError),
        (LidStart::ReadingCharge { prior }, SleepEvent::Percent(percent)) => {
            LidStart::InspectingMet { prior, percent }
        },
        (LidStart::ReadingCharge { prior }, SleepEvent::Failed) => undo(prior, SleepFault::NotPublished),
        (LidStart::InspectingMet { prior, percent }, SleepEvent::Setting(current)) => {
            if prior != 0 || current == prior {
                LidStart::DeletingMet { percent }
            } else {
                LidStart::RestoringMet { prior, percent }
            }
        },
        (LidStart::InspectingMet { .. }, SleepEvent::Failed) => LidStart::Failed(
            SleepFault::LastError,
        ),
        (LidStart::RestoringMet { percent, .. }, SleepEvent::Done) => LidStart::DeletingMet {
            percent,
        },
        (LidStart::RestoringMet { .. }, SleepEvent::Failed) => LidStart::Failed(
            SleepFault::LastError,
        ),
        (LidStart::DeletingMet { percent }, SleepEvent::Done) => LidStart::TellingMet { percent },
        (LidStart::DeletingMet { .. }, SleepEvent::Failed) => LidStart::Failed(
            SleepFault::LastError,
        ),
        (LidStart::Undoing { prior, fault }, SleepEvent::Done) => LidStart::InspectingUndone {
            prior,
            fault,
        },
        (LidStart::Undoing { prior, fault }, SleepEvent::Failed) => LidStart::InspectingUndone {
            prior,
            fault,
        },
        (LidStart::InspectingUndone { prior, fault }, SleepEvent::Setting(current)) => {
            if current == prior {
                LidStart::DeletingUndone { fault }
            } else {
                LidStart::Failed(fault)
            }
        },
        (LidStart::InspectingUndone { fault, .. }, SleepEvent::Failed) => LidStart::Failed(fault),
        (LidStart::DeletingUndone { fault }, SleepEvent::Done) => LidStart::Failed(fault),
        (LidStart::DeletingUndone { .. }, SleepEvent::Failed) => LidStart::Failed(
            SleepFault::LastError,
        ),
        (LidStart::Confirming, SleepEvent::Done) => LidStart::Started,
        (LidStart::TellingMet { .. }, SleepEvent::Done) => LidStart::Met,
        _ => state,
    }
}

pub fn lid_start_asks(state: LidStart) -> (r: SleepAction)
    ensures
        r == lid_start_wants(state),
{
    match state {
        LidStart::Preparing => SleepAction::PrepareCharge,
        LidStart::Reading => SleepAction::ReadSetting,
        LidStart::Permitting { .. } => SleepAction::EnsurePermission,
        LidStart::Recording { .. } => SleepAction::WriteRecoveryRecord,
        LidStart::Enabling { .. } => SleepAction::SetWithUser(1),
        LidStart::Inspecting { .. } => SleepAction::ReadSetting,
        LidStart::UndoingEnable { prior, .. } => SleepAction::RestoreWithUser(prior),
        LidStart::Launching { .. } => SleepAction::Launch,
        LidStart::Awaiting { .. } => SleepAction::AwaitSession,
        LidStart::CheckingHelper { .. } => SleepAction::CheckHelper,
        LidStart::ReadingCharge { .. } => SleepAction::ReadMetCharge,
        LidStart::InspectingMet { .. } => SleepAction::ReadSetting,
        LidStart::RestoringMet { prior, .. } => SleepAction::RestoreWithUser(prior),
        LidStart::DeletingMet { .. } => SleepAction::DeleteState,
        LidStart::Undoing { prior, .. } => SleepAction::SetWithUser(prior),
        LidStart::InspectingUndone { .. } => SleepAction::ReadSetting,
        LidStart::DeletingUndone { .. } => SleepAction::DeleteState,
        LidStart::Confirming => SleepAction::Confirm,
        LidStart::TellingMet { .. } => SleepAction::TellChargeMet,
        LidStart::Started => SleepAction::Finish,
        LidStart::Met => SleepAction::Finish,
        LidStart::Failed(_) => SleepAction::Finish,
    }
}

/// Where starting a lid session goes from `state` on `event`.
pub fn start_lid_supervisor(charge: bool, state: LidStart, event: SleepEvent) -> (r: LidStart)
    ensures
        r == lid_start_next(charge, state, event),
{
    match (state, event) {
        (LidStart::Preparing, SleepEvent::Percent(percent)) => LidStart::TellingMet { percent },
        (LidStart::Preparing, SleepEvent::Done) => LidStart::Reading,
        (LidStart::Preparing, SleepEvent::Failed) => LidStart::Failed(SleepFault::LastError),
        (LidStart::Reading, SleepEvent::Setting(prior)) => LidStart::Permitting { prior },
        (LidStart::Reading, SleepEvent::Failed) => LidStart::Failed(SleepFault::LastError),
        (LidStart::Permitting { prior }, SleepEvent::Done) => LidStart::Recording { prior },
        (LidStart::Permitting { .. }, SleepEvent::Failed) => LidStart::Failed(
            SleepFault::LastError,
        ),
        (LidStart::Recording { prior }, SleepEvent::Done) => LidStart::Enabling { prior },
        (LidStart::Recording { .. }, SleepEvent::Failed) => LidStart::Failed(
            SleepFault::LastError,
        ),
        (LidStart::Enabling { prior }, SleepEvent::Done) => LidStart::Inspecting { prior },
        (LidStart::Enabling { prior }, SleepEvent::Failed) => begin_undo(prior, SleepFault::FirstError),
        (LidStart::Inspecting { prior }, SleepEvent::Setting(current)) => if current == 1 {
            LidStart::Launching { prior }
        } else if prior == 0 {
            LidStart::UndoingEnable { prior, current }
        } else {
            LidStart::DeletingUndone { fault: SleepFault::NotEnabled { current } }
        },
        (LidStart::Inspecting { prior }, SleepEvent::Failed) => begin_undo(prior, SleepFault::FirstError),
        (LidStart::UndoingEnable { prior, current }, SleepEvent::Done) => begin_undo(prior, SleepFault::NotEnabled { current }),
        (LidStart::UndoingEnable { prior, .. }, SleepEvent::Failed) => begin_undo(prior, SleepFault::FirstError),
        (LidStart::Launching { prior }, SleepEvent::Done) => LidStart::Awaiting { prior },
        (LidStart::Launching { prior }, SleepEvent::Failed) => begin_undo(prior, SleepFault::FirstError),
        (LidStart::Awaiting { prior }, SleepEvent::Answer(published)) => if published {
            LidStart::Confirming
        } else {
            LidStart::CheckingHelper { prior }
        },
        (LidStart::CheckingHelper { prior }, SleepEvent::Answer(exited)) => if exited && charge {
            LidStart::ReadingCharge { prior }
        } else {
            begin_undo(prior, SleepFault::NotPublished)
        },
        (LidStart::CheckingHelper { prior }, SleepEvent::Failed) => begin_undo(prior, SleepFault::FirstError),
        (LidStart::ReadingCharge { prior }, SleepEvent::Percent(percent)) => {
            LidStart::InspectingMet { prior, percent }
        },
        (LidStart::ReadingCharge { prior }, SleepEvent::Failed) => begin_undo(prior, SleepFault::NotPublished),
        (LidStart::InspectingMet { prior, percent }, SleepEvent::Setting(current)) => {
            if prior != 0 || current == prior {
                LidStart::DeletingMet { percent }
            } else {
                LidStart::RestoringMet { prior, percent }
            }
        },
        (LidStart::InspectingMet { .. }, SleepEvent::Failed) => LidStart::Failed(
            SleepFault::LastError,
        ),
        (LidStart::RestoringMet { percent, .. }, SleepEvent::Done) => LidStart::DeletingMet {
            percent,
        },
        (LidStart::RestoringMet { .. }, SleepEvent::Failed) => LidStart::Failed(
            SleepFault::LastError,
        ),
        (LidStart::DeletingMet { percent }, SleepEvent::Done) => LidStart::TellingMet { percent },
        (LidStart::DeletingMet { .. }, SleepEvent::Failed) => LidStart::Failed(
            SleepFault::LastError,
        ),
        (LidStart::Undoing { prior, fault }, SleepEvent::Done) => LidStart::InspectingUndone {
            prior,
            fault,
        },
        (LidStart::Undoing { prior, fault }, SleepEvent::Failed) => LidStart::InspectingUndone {
            prior,
            fault,
        },
        (LidStart::InspectingUndone { prior, fault }, SleepEvent::Setting(current)) => {
            if current == prior {
                LidStart::DeletingUndone { fault }
            } else {
                LidStart::Failed(fault)
            }
        },
        (LidStart::InspectingUndone { fault, .. }, SleepEvent::Failed) => LidStart::Failed(fault),
        (LidStart::DeletingUndone { fault }, SleepEvent::Done) => LidStart::Failed(fault),
        (LidStart::DeletingUndone { .. }, SleepEvent::Failed) => LidStart::Failed(
            SleepFault::LastError,
        ),
        (LidStart::Confirming, SleepEvent::Done) => LidStart::Started,
        (LidStart::TellingMet { .. }, SleepEvent::Done) => LidStart::Met,
        _ => state,
    }
}

/// Where starting a lid session begins.
pub open spec fn lid_start_begin(charge: bool) -> LidStart {
    if charge {
        LidStart::Preparing
    } else {
        LidStart::Reading
    }
}

pub fn begin_lid_start(charge: bool) -> (r: LidStart)
    ensures
        r == lid_start_begin(charge),
{
    if charge {
        LidStart::Preparing
    } else {
        LidStart::Reading
    }
}

/// Where starting a lid session stands after these events.
pub open spec fn lid_start_after(charge: bool, events: Seq<SleepEvent>) -> LidStart
    decreases events.len(),
{
    if events.len() == 0 {
        lid_start_begin(charge)
    } else {
        lid_start_next(charge, lid_start_after(charge, events.drop_last()), events.last())
    }
}

/// The sleep setting that was read before, in the states that know it.
pub open spec fn prior_of(state: LidStart) -> Option<i32> {
    match state {
        LidStart::Permitting { prior } => Some(prior),
        LidStart::Recording { prior } => Some(prior),
        LidStart::Enabling { prior } => Some(prior),
        LidStart::Inspecting { prior } => Some(prior),
        LidStart::UndoingEnable { prior, .. } => Some(prior),
        LidStart::Launching { prior } => Some(prior),
        LidStart::Awaiting { prior } => Some(prior),
        LidStart::CheckingHelper { prior } => Some(prior),
        LidStart::ReadingCharge { prior } => Some(prior),
        LidStart::InspectingMet { prior, .. } => Some(prior),
        LidStart::RestoringMet { prior, .. } => Some(prior),
        LidStart::Undoing { prior, .. } => Some(prior),
        LidStart::InspectingUndone { prior, .. } => Some(prior),
        _ => None,
    }
}

/// Whether the record of the change is in place, and whether the sleep setting may be switched by the
/// start, after these events. It may from the first attempt to switch it on, until it was read
/// as before or put back; a setting that was switched before is not switched by the start.
pub open spec fn lid_start_did(charge: bool, events: Seq<SleepEvent>) -> (bool, bool)
    decreases events.len(),
{
    if events.len() == 0 {
        (false, false)
    } else {
        let before = events.drop_last();
        let did = lid_start_did(charge, before);
        let event = events.last();
        let state = lid_start_after(charge, before);
        match lid_start_wants(state) {
            SleepAction::WriteRecoveryRecord => (did.0 || event == SleepEvent::Done, did.1),
            SleepAction::SetWithUser(_) => (
                did.0,
                did.1 || (prior_of(state) == Some(0i32) && (event == SleepEvent::Done || event
                    == SleepEvent::Failed)),
            ),
            SleepAction::RestoreWithUser(_) => (did.0, did.1 && event != SleepEvent::Done),
            SleepAction::ReadSetting => (
                did.0,
                did.1 && !(match state {
                    LidStart::InspectingMet { prior, .. } => event == SleepEvent::Setting(prior),
                    LidStart::InspectingUndone { prior, .. } => event == SleepEvent::Setting(prior),
                    _ => false,
                }),
            ),
            SleepAction::DeleteState => (did.0 && event != SleepEvent::Done, did.1),
            _ => did,
        }
    }
}

proof fn lemma_lid_start(charge: bool, events: Seq<SleepEvent>)
    ensures
        ({
            let did = lid_start_did(charge, events);
            &&& did.1 ==> did.0
            &&& did.1 ==> (prior_of(lid_start_after(charge, events)) matches Some(prior) ==> prior
                == 0)
            &&& match lid_start_after(charge, events) {
                LidStart::UndoingEnable { prior, .. } | LidStart::RestoringMet { prior, .. }
                | LidStart::Undoing { prior, .. } | LidStart::InspectingUndone { prior, .. } => did.0
                    && prior == 0,
                LidStart::Preparing | LidStart::Reading | LidStart::Permitting { .. }
                | LidStart::Recording { .. } => !did.0 && !did.1,
                LidStart::TellingMet { .. } | LidStart::Met => !did.1,
                LidStart::DeletingMet { .. } | LidStart::DeletingUndone { .. } => did.0 && !did.1,
                LidStart::Failed(_) => true,
                _ => did.0,
            }
        }),
    decreases events.len(),
{
    if events.len() > 0 {
        lemma_lid_start(charge, events.drop_last());
    }
}

/// Whatever happens while a lid session starts, the sleep setting is switched only once the record of the
/// change is in place, that record is never gone while the setting may be switched, and the
/// setting is put back only where it was switched.
pub proof fn law_sleep_changes_are_recorded(charge: bool, events: Seq<SleepEvent>)
    ensures
        ({
            let did = lid_start_did(charge, events);
            let wants = lid_start_wants(lid_start_after(charge, events));
            &&& did.1 ==> did.0
            &&& wants is SetWithUser ==> did.0
            &&& wants == SleepAction::DeleteState ==> !did.1
            &&& wants matches SleepAction::SetWithUser(value) ==> value == 0 || value == 1
            &&& wants matches SleepAction::RestoreWithUser(value) ==> value == 0
        }),
{
    lemma_lid_start(charge, events);
}

/// A Mac as putting the sleep setting back meets it: what it answers, and what was done to it so far.
pub struct SettingWorld {
    pub value: i32,
    pub readable: bool,
    /// Whether the setting can be written quietly, somebody is there, and it can be written with them.
    pub quiet: bool,
    pub console: bool,
    pub with_user: bool,
    /// Whether the setting stays as it was written.
    pub sticks: bool,
    /// Whether the setting can be put back by the steps for that.
    pub restores: bool,
    /// The value that the user was told to write by hand.
    pub rescued: Option<i32>,
    pub told: bool,
    pub slept: int,
}

impl SettingWorld {
    /// The machine once `value` was written.
    pub open spec fn written(self, value: i32) -> SettingWorld {
        if self.sticks {
            SettingWorld { value, ..self }
        } else {
            self
        }
    }

    /// What the machine answers to an action, and what it is then.
    pub open spec fn answer(self, action: SleepAction) -> (SettingWorld, SleepEvent) {
        match action {
            SleepAction::ReadSetting => (
                self,
                if self.readable {
                    SleepEvent::Setting(self.value)
                } else {
                    SleepEvent::Failed
                },
            ),
            SleepAction::SetQuietly(value) => if self.quiet {
                (self.written(value), SleepEvent::Answer(true))
            } else {
                (self, SleepEvent::Answer(false))
            },
            SleepAction::CheckConsole => (self, SleepEvent::Answer(self.console)),
            SleepAction::SetWithUser(value) => if self.with_user {
                (self.written(value), SleepEvent::Done)
            } else {
                (self, SleepEvent::Failed)
            },
            SleepAction::RestoreWithPrompt(value) => if self.restores {
                (self.written(value), SleepEvent::Done)
            } else {
                (self, SleepEvent::Failed)
            },
            SleepAction::Rescue(value) => (
                SettingWorld { rescued: Some(value), ..self },
                SleepEvent::Done,
            ),
            SleepAction::Sleep(span) => (
                SettingWorld { slept: self.slept + span.total(), ..self },
                SleepEvent::Done,
            ),
            SleepAction::TellRecovered => (SettingWorld { told: true, ..self }, SleepEvent::Done),
            SleepAction::TellRestored => (SettingWorld { told: true, ..self }, SleepEvent::Done),
            _ => (self, SleepEvent::Done),
        }
    }
}

/// A step of putting the sleep setting back.
pub open spec fn restore_step(prior: i32, at: (RestoreState, SettingWorld)) -> (
    RestoreState,
    SettingWorld,
) {
    let (world, event) = at.1.answer(restore_wants(prior, at.0));
    (restore_next(prior, at.0, event), world)
}

/// The sleep setting is put back exactly where it can be read and written, quietly or with somebody there; it
/// then is what it was before. Otherwise the user is told which value to write by hand.
pub proof fn law_sleep_is_put_back(prior: i32, world: SettingWorld)
    requires
        world.rescued is None,
    ensures
        ({
            let c1 = restore_step(prior, (RestoreState::SettingQuietly, world));
            let c2 = restore_step(prior, c1);
            let c3 = restore_step(prior, c2);
            let c4 = restore_step(prior, c3);
            let c5 = restore_step(prior, c4);
            let (state, after) = restore_step(prior, c5);
            &&& state is Restored <==> world.readable && (world.sticks || world.value == prior) && (
            world.quiet || (world.console && world.with_user))
            &&& state is Restored ==> after.value == prior && after.rescued is None
            &&& state !is Restored ==> state is Failed && after.rescued == Some(prior)
        }),
        ({
            let c1 = restore_step(prior, (RestoreState::Setting, world));
            let c2 = restore_step(prior, c1);
            let (state, after) = restore_step(prior, c2);
            &&& state is Restored <==> world.readable && world.with_user && (world.sticks
                || world.value == prior)
            &&& state is Restored ==> after.value == prior && after.rescued is None
            &&& state !is Restored ==> state is Failed && after.rescued == Some(prior)
        }),
{
    let c1 = restore_step(prior, (RestoreState::SettingQuietly, world));
    let c2 = restore_step(prior, c1);
    if world.quiet && world.readable && (world.sticks || world.value == prior) {
        assert(c2.0 is Restored);
    }
}

/// A step of recovering from a session that crashed.
pub open spec fn crash_step(prior: i32, at: (CrashState, SettingWorld)) -> (
    CrashState,
    SettingWorld,
) {
    let (world, event) = at.1.answer(crash_wants(prior, at.0));
    (crash_next(prior, at.0, event), world)
}

/// Recovering from a session that crashed puts back the setting that the session switched, and tells of it; it
/// leaves alone one that was switched before or is back already. Where that fails the session is not
/// taken for recovered.
pub proof fn law_crashed_sessions_are_recovered(prior: i32, world: SettingWorld)
    requires
        world.rescued is None && !world.told,
    ensures
        ({
            let c1 = crash_step(prior, (CrashState::Reading, world));
            let c2 = crash_step(prior, c1);
            let c3 = crash_step(prior, c2);
            let (state, after) = crash_step(prior, c3);
            let nothing = prior != 0 || world.value == prior;
            &&& !world.readable ==> state is Failed && after == world
            &&& world.readable && nothing ==> state is Recovered && after == world
            &&& world.readable && !nothing ==> (state is Recovered <==> world.restores
                && world.sticks)
            &&& world.readable && !nothing && state is Recovered ==> after.value == prior
                && after.told && after.rescued is None
            &&& state !is Recovered ==> state is Failed && !after.told
            &&& world.readable && !nothing && world.restores && !world.sticks ==> after.rescued
                == Some(prior)
        }),
{
}

/// A step of seeing that a helper has put the sleep setting back.
pub open spec fn stop_step(prior: i32, at: (StopState, SettingWorld)) -> (StopState, SettingWorld) {
    let (world, event) = at.1.answer(stop_wants(prior, at.0));
    (stop_next(prior, at.0, event), world)
}

/// After a stop the helper is given twenty quarters of a second to put the sleep setting back; if it has not by
/// then, that is done here and told. A setting that was switched before is left alone.
pub proof fn law_helpers_are_given_time(prior: i32, looks: u8, world: SettingWorld)
    requires
        looks <= 20,
        world.readable && world.rescued is None && !world.told,
    ensures
        ({
            let c1 = stop_step(prior, (StopState::Looking { looks }, world));
            let c2 = stop_step(prior, c1);
            let c3 = stop_step(prior, c2);
            let c4 = stop_step(prior, c3);
            let nothing = prior != 0 || world.value == prior;
            &&& nothing ==> c1 == (StopState::Restored, world)
            &&& !nothing && looks < 20 ==> c2 == (
                StopState::Looking { looks: (looks + 1) as u8 },
                SettingWorld { slept: world.slept + 250_000_000, ..world },
            )
            &&& !nothing && looks == 20 ==> (c4.0 is Restored <==> world.restores && world.sticks)
            &&& !nothing && looks == 20 && c4.0 is Restored ==> c4.1.value == prior && c4.1.told
            &&& !nothing && looks == 20 && c4.0 !is Restored ==> c4.0 is Failed && !c4.1.told && (
            world.restores ==> c4.1.rescued == Some(prior))
        }),
{
}

/// The user may change the sleep setting where somebody is there and the permission is fresh or is given when
/// asked for; it is asked for only where it is not fresh.
pub proof fn law_permission_is_asked_for_once(
    there: bool,
    fresh: bool,
    granted: bool,
    first: PermissionState,
    second: PermissionState,
    third: PermissionState,
)
    requires
        call_ensures(
            ensure_sudo_for_even_lid,
            (PermissionState::CheckingConsole, SleepEvent::Answer(there)),
            first,
        ),
        call_ensures(ensure_sudo_for_even_lid, (first, SleepEvent::Answer(fresh)), second),
        call_ensures(ensure_sudo_for_even_lid, (second, SleepEvent::Answer(granted)), third),
    ensures
        third is Granted <==> there && (fresh || granted),
        third is NoConsole <==> !there,
        third is Refused <==> there && !fresh && !granted,
        second is Authenticating <==> there && !fresh,
{
}

/// What is answered of something that works or does not.
pub open spec fn answered(ok: bool) -> SleepEvent {
    if ok {
        SleepEvent::Done
    } else {
        SleepEvent::Failed
    }
}

/// A Mac as the start of a lid session meets it: what it answers, and what the start has done to it so far.
pub struct LidWorld {
    /// Whether the battery can be read, and the charge where it is met already.
    pub battery: bool,
    pub met: Option<i32>,
    pub readable: bool,
    pub value: i32,
    pub permits: bool,
    pub records: bool,
    pub sets: bool,
    pub sticks: bool,
    pub launches: bool,
    pub publishes: bool,
    pub exited: bool,
    /// The charge where it has been met by now.
    pub met_later: Option<i32>,
    /// Whether the record of the change is in place.
    pub record: bool,
    pub launched: bool,
    pub confirmed: bool,
    pub told: bool,
}

impl LidWorld {
    /// The machine once `value` was written.
    pub open spec fn written(self, value: i32) -> LidWorld {
        if self.sticks {
            LidWorld { value, ..self }
        } else {
            self
        }
    }

    /// What the machine answers to an action, and what it is then.
    pub open spec fn answer(self, action: SleepAction) -> (LidWorld, SleepEvent) {
        match action {
            SleepAction::PrepareCharge => (
                self,
                if !self.battery {
                    SleepEvent::Failed
                } else {
                    match self.met {
                        Some(percent) => SleepEvent::Percent(percent),
                        None => SleepEvent::Done,
                    }
                },
            ),
            SleepAction::ReadSetting => (
                self,
                if self.readable {
                    SleepEvent::Setting(self.value)
                } else {
                    SleepEvent::Failed
                },
            ),
            SleepAction::EnsurePermission => (self, answered(self.permits)),
            SleepAction::WriteRecoveryRecord => (
                LidWorld { record: self.records, ..self },
                answered(self.records),
            ),
            SleepAction::SetWithUser(value) => if self.sets {
                (self.written(value), SleepEvent::Done)
            } else {
                (self, SleepEvent::Failed)
            },
            SleepAction::RestoreWithUser(value) => if self.sets {
                (self.written(value), SleepEvent::Done)
            } else {
                (self, SleepEvent::Failed)
            },
            SleepAction::Launch => (
                LidWorld { launched: self.launches, ..self },
                answered(self.launches),
            ),
            SleepAction::AwaitSession => (self, SleepEvent::Answer(self.publishes)),
            SleepAction::CheckHelper => (self, SleepEvent::Answer(self.exited)),
            SleepAction::ReadMetCharge => (
                self,
                match self.met_later {
                    Some(percent) => SleepEvent::Percent(percent),
                    None => SleepEvent::Failed,
                },
            ),
            SleepAction::DeleteState => (LidWorld { record: false, ..self }, SleepEvent::Done),
            SleepAction::Confirm => (LidWorld { confirmed: true, ..self }, SleepEvent::Done),
            SleepAction::TellChargeMet => (LidWorld { told: true, ..self }, SleepEvent::Done),
            _ => (self, SleepEvent::Done),
        }
    }
}

/// A step of starting a lid session.
pub open spec fn lid_start_step(charge: bool, at: (LidStart, LidWorld)) -> (LidStart, LidWorld) {
    let (world, event) = at.1.answer(lid_start_wants(at.0));
    (lid_start_next(charge, at.0, event), world)
}

/// Where starting a lid session stands after so many steps.
#[verifier::opaque]
pub open spec fn lid_start_steps(charge: bool, at: (LidStart, LidWorld), steps: nat) -> (
    LidStart,
    LidWorld,
)
    decreases steps,
{
    if steps == 0 {
        at
    } else {
        lid_start_steps(charge, lid_start_step(charge, at), (steps - 1) as nat)
    }
}

proof fn lemma_lid_unrolls(charge: bool, at: (LidStart, LidWorld), steps: nat)
    requires
        steps > 0,
    ensures
        lid_start_steps(charge, at, steps) == lid_start_steps(
            charge,
            lid_start_step(charge, at),
            (steps - 1) as nat,
        ),
{
    reveal(lid_start_steps);
}

proof fn lemma_lid_ended(charge: bool, at: (LidStart, LidWorld), steps: nat)
    requires
        at.0 is Started || at.0 is Met || at.0 is Failed,
    ensures
        lid_start_steps(charge, at, steps) == at,
    decreases steps,
{
    reveal(lid_start_steps);
    if steps > 0 {
        assert(lid_start_step(charge, at) == at);
        lemma_lid_ended(charge, at, (steps - 1) as nat);
    }
}

#[verifier::rlimit(50)]
proof fn lemma_lid_undone(charge: bool, prior: i32, fault: SleepFault, world: LidWorld, steps: nat)
    requires
        prior == 0 || (prior == 1 && world.value == prior),
        world.readable,
        world.value == prior || (world.sets && world.sticks),
        steps > 3,
    ensures
        ({
            let (state, after) = lid_start_steps(charge, (undo(prior, fault), world), steps);
            state == LidStart::Failed(fault) && after.value == prior && !after.record
                && after.confirmed == world.confirmed && after.told == world.told
        }),
{
    let c0 = (undo(prior, fault), world);
    lemma_lid_unrolls(charge, c0, steps);
    let c1 = lid_start_step(charge, c0);
    if prior == 0 {
        let w1 = if world.sets {
            world.written(prior)
        } else {
            world
        };
        assert(c1 == (LidStart::InspectingUndone { prior, fault }, w1));
        lemma_lid_unrolls(charge, c1, (steps - 1) as nat);
        let c2 = lid_start_step(charge, c1);
        assert(c2 == (LidStart::DeletingUndone { fault }, w1));
        lemma_lid_unrolls(charge, c2, (steps - 2) as nat);
        let c3 = lid_start_step(charge, c2);
        assert(c3 == (LidStart::Failed(fault), LidWorld { record: false, ..w1 }));
        lemma_lid_ended(charge, c3, (steps - 3) as nat);
    } else {
        assert(c1 == (LidStart::Failed(fault), LidWorld { record: false, ..world }));
        lemma_lid_ended(charge, c1, (steps - 1) as nat);
    }
}

#[verifier::rlimit(50)]
proof fn lemma_lid_met(charge: bool, prior: i32, percent: i32, world: LidWorld, steps: nat)
    requires
        prior == 0 || (prior == 1 && world.value == prior),
        world.readable,
        world.value == prior || (world.sets && world.sticks),
        steps > 4,
    ensures
        ({
            let (state, after) = lid_start_steps(
                charge,
                (LidStart::InspectingMet { prior, percent }, world),
                steps,
            );
            state is Met && after.value == prior && !after.record && after.confirmed
                == world.confirmed && after.told
        }),
{
    let c0 = (LidStart::InspectingMet { prior, percent }, world);
    lemma_lid_unrolls(charge, c0, steps);
    let c1 = lid_start_step(charge, c0);
    lemma_lid_unrolls(charge, c1, (steps - 1) as nat);
    let c2 = lid_start_step(charge, c1);
    lemma_lid_unrolls(charge, c2, (steps - 2) as nat);
    let c3 = lid_start_step(charge, c2);
    if prior != 0 || world.value == prior {
        assert(c1 == (LidStart::DeletingMet { percent }, world));
        let gone = LidWorld { record: false, ..world };
        assert(c2 == (LidStart::TellingMet { percent }, gone));
        assert(c3 == (LidStart::Met, LidWorld { told: true, ..gone }));
        lemma_lid_ended(charge, c3, (steps - 3) as nat);
    } else {
        assert(c1 == (LidStart::RestoringMet { prior, percent }, world));
        let back = LidWorld { value: prior, ..world };
        assert(c2 == (LidStart::DeletingMet { percent }, back));
        let gone = LidWorld { record: false, ..back };
        assert(c3 == (LidStart::TellingMet { percent }, gone));
        lemma_lid_unrolls(charge, c3, (steps - 3) as nat);
        let c4 = lid_start_step(charge, c3);
        assert(c4 == (LidStart::Met, LidWorld { told: true, ..gone }));
        lemma_lid_ended(charge, c4, (steps - 4) as nat);
    }
}

/// What the start comes to once the sleep setting is off.
proof fn lemma_lid_launched(charge: bool, prior: i32, world: LidWorld, steps: nat)
    requires
        prior == 0 || (prior == 1 && world.value == prior),
        world.readable && world.value == 1,
        world.value == prior || (world.sets && world.sticks),
        !world.confirmed && !world.told,
        world.record,
        steps > 9,
    ensures
        ({
            let (state, after) = lid_start_steps(
                charge,
                (LidStart::Launching { prior }, world),
                steps,
            );
            if world.launches && world.publishes {
                state is Started && after.confirmed && after.launched && after.record && after.value
                    == 1 && !after.told
            } else {
                &&& !after.confirmed && !after.record && after.value == prior
                &&& state is Met <==> charge && world.launches && world.exited && world.met_later
                    is Some
                &&& state !is Met ==> state is Failed
                &&& after.told == (state is Met)
            }
        }),
{
    let c0 = (LidStart::Launching { prior }, world);
    lemma_lid_unrolls(charge, c0, steps);
    let c1 = lid_start_step(charge, c0);
    if world.launches {
        let w = LidWorld { launched: true, ..world };
        assert(c1 == (LidStart::Awaiting { prior }, w));
        lemma_lid_unrolls(charge, c1, (steps - 1) as nat);
        let c2 = lid_start_step(charge, c1);
        lemma_lid_unrolls(charge, c2, (steps - 2) as nat);
        let c3 = lid_start_step(charge, c2);
        if world.publishes {
            assert(c2 == (LidStart::Confirming, w));
            lemma_lid_ended(charge, c3, (steps - 3) as nat);
        } else {
            assert(c2 == (LidStart::CheckingHelper { prior }, w));
            if world.exited && charge {
                assert(c3 == (LidStart::ReadingCharge { prior }, w));
                lemma_lid_unrolls(charge, c3, (steps - 3) as nat);
                let c4 = lid_start_step(charge, c3);
                match world.met_later {
                    Some(percent) => {
                        assert(c4 == (LidStart::InspectingMet { prior, percent }, w));
                        lemma_lid_met(charge, prior, percent, w, (steps - 4) as nat);
                    },
                    None => {
                        assert(c4 == (undo(prior, SleepFault::NotPublished), w));
                        lemma_lid_undone(
                            charge,
                            prior,
                            SleepFault::NotPublished,
                            w,
                            (steps - 4) as nat,
                        );
                    },
                }
            } else {
                assert(c3 == (undo(prior, SleepFault::NotPublished), w));
                lemma_lid_undone(charge, prior, SleepFault::NotPublished, w, (steps - 3) as nat);
            }
        }
    } else {
        let w = LidWorld { launched: false, ..world };
        assert(c1 == (undo(prior, SleepFault::FirstError), w));
        lemma_lid_undone(charge, prior, SleepFault::FirstError, w, (steps - 1) as nat);
    }
}

proof fn lemma_lid_recorded(charge: bool, world: LidWorld, steps: nat)
    requires
        world.value == 0 || world.value == 1,
        world.readable,
        !world.confirmed && !world.told && world.record,
        steps > 13,
    ensures
        ({
            let prior = world.value;
            let (state, after) = lid_start_steps(
                charge,
                (LidStart::Enabling { prior }, world),
                steps,
            );
            let enabled = world.sets && (world.sticks || prior == 1);
            if enabled && world.launches && world.publishes {
                state is Started && after.confirmed && after.launched && after.record && after.value
                    == 1 && !after.told
            } else {
                &&& !after.confirmed && !after.record && after.value == prior
                &&& state is Met <==> charge && enabled && world.launches && world.exited
                    && world.met_later is Some
                &&& state !is Met ==> state is Failed
                &&& after.told == (state is Met)
            }
        }),
{
    let prior = world.value;
    let c0 = (LidStart::Enabling { prior }, world);
    lemma_lid_unrolls(charge, c0, steps);
    let c1 = lid_start_step(charge, c0);
    if world.sets {
        let w = world.written(1);
        assert(c1 == (LidStart::Inspecting { prior }, w));
        lemma_lid_unrolls(charge, c1, (steps - 1) as nat);
        let c2 = lid_start_step(charge, c1);
        if w.value == 1 {
            assert(c2 == (LidStart::Launching { prior }, w));
            lemma_lid_launched(charge, prior, w, (steps - 2) as nat);
        } else {
            assert(c2 == (LidStart::UndoingEnable { prior, current: w.value }, w));
            lemma_lid_unrolls(charge, c2, (steps - 2) as nat);
            let fault = SleepFault::NotEnabled { current: w.value };
            assert(lid_start_step(charge, c2) == (undo(prior, fault), w));
            lemma_lid_undone(charge, prior, fault, w, (steps - 3) as nat);
        }
    } else {
        assert(c1 == (undo(prior, SleepFault::FirstError), world));
        lemma_lid_undone(charge, prior, SleepFault::FirstError, world, (steps - 1) as nat);
    }
}

/// The start of a lid session comes to an end. It succeeds exactly where the setting can be read, changed and
/// recorded and the helper publishes its session, or where the charge is met; the user is told which. A
/// session that runs has the setting off and a record of what it was; otherwise the setting is what it
/// was before and no record is left.
pub proof fn law_lid_starts_come_to_their_end(charge: bool, world: LidWorld)
    requires
        world.value == 0 || world.value == 1,
        !world.record && !world.launched && !world.confirmed && !world.told,
    ensures
        ({
            let (state, after) = lid_start_steps(charge, (lid_start_begin(charge), world), 20);
            let met = charge && world.battery && world.met is Some;
            let begun = (charge ==> world.battery) && !met && world.readable && world.permits
                && world.records;
            let enabled = world.sets && (world.sticks || world.value == 1);
            &&& state is Started <==> begun && enabled && world.launches && world.publishes
            &&& state is Met <==> met || (charge && begun && enabled && world.launches
                && !world.publishes && world.exited && world.met_later is Some)
            &&& state !is Started && state !is Met ==> state is Failed
            &&& state is Started ==> after.value == 1 && after.record && after.launched
            &&& state !is Started ==> after.value == world.value && !after.record
            &&& after.confirmed == (state is Started) && after.told == (state is Met)
            &&& !begun ==> !after.launched
        }),
{
    if charge {
        let c0 = (LidStart::Preparing, world);
        lemma_lid_unrolls(charge, c0, 20);
        let c1 = lid_start_step(charge, c0);
        if !world.battery {
            lemma_lid_ended(charge, c1, 19);
        } else if world.met is Some {
            lemma_lid_unrolls(charge, c1, 19);
            lemma_lid_ended(charge, lid_start_step(charge, c1), 18);
        } else {
            assert(c1 == (LidStart::Reading, world));
            lemma_lid_reads(charge, world, 19);
        }
    } else {
        lemma_lid_reads(charge, world, 20);
    }
}

proof fn lemma_lid_reads(charge: bool, world: LidWorld, steps: nat)
    requires
        world.value == 0 || world.value == 1,
        !world.record && !world.launched && !world.confirmed && !world.told,
        steps > 17,
    ensures
        ({
            let (state, after) = lid_start_steps(charge, (LidStart::Reading, world), steps);
            let begun = world.readable && world.permits && world.records;
            let enabled = world.sets && (world.sticks || world.value == 1);
            &&& state is Started <==> begun && enabled && world.launches && world.publishes
            &&& state is Met <==> charge && begun && enabled && world.launches && !world.publishes
                && world.exited && world.met_later is Some
            &&& state !is Started && state !is Met ==> state is Failed
            &&& state is Started ==> after.value == 1 && after.record && after.launched
            &&& state !is Started ==> after.value == world.value && !after.record
            &&& after.confirmed == (state is Started) && after.told == (state is Met)
            &&& !begun ==> !after.launched
        }),
{
    let prior = world.value;
    let c0 = (LidStart::Reading, world);
    lemma_lid_unrolls(charge, c0, steps);
    let c1 = lid_start_step(charge, c0);
    if world.readable {
        assert(c1 == (LidStart::Permitting { prior }, world));
        lemma_lid_unrolls(charge, c1, (steps - 1) as nat);
        let c2 = lid_start_step(charge, c1);
        if world.permits {
            assert(c2 == (LidStart::Recording { prior }, world));
            lemma_lid_unrolls(charge, c2, (steps - 2) as nat);
            let c3 = lid_start_step(charge, c2);
            if world.records {
                let w = LidWorld { record: true, ..world };
                assert(c3 == (LidStart::Enabling { prior }, w));
                lemma_lid_recorded(charge, w, (steps - 3) as nat);
            } else {
                lemma_lid_ended(charge, c3, (steps - 3) as nat);
            }
        } else {
            lemma_lid_ended(charge, c2, (steps - 2) as nat);
        }
    } else {
        lemma_lid_ended(charge, c1, (steps - 1) as nat);
    }
}

} // verus!
