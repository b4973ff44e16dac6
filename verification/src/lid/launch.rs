//! Starting the process that watches over the lid, and giving it up.

use vstd::prelude::*;
use vstd::string::*;

use super::{LeaseRef, WatchdogState};
use crate::error::{AppError, Fault, combine_cleanup, outcome};
use crate::error;
use crate::platform::Platform;
use crate::text;
use crate::time::Span;

verus! {

/// What the system answers.
#[derive(Clone, Copy, Debug, PartialEq, Eq, Structural)]
pub enum LaunchEvent {
    Done,
    Failed,
    /// The answer to a question.
    Answer(bool),
}

/// What starting a watchdog asks for.
#[derive(Clone, Copy, Debug, PartialEq, Eq, Structural)]
pub enum LaunchAction {
    /// Work out the state directory as the helper reads it.
    EncodeDirectory,
    /// Reserve a lease for the helper.
    ReserveLease,
    /// Record that a watchdog is to come.
    WritePending,
    /// Work out the helper's command.
    PrepareCommand,
    SpawnHelper,
    /// Wait until the helper has its lease, so long at most.
    AwaitClaim { seconds: u64 },
    /// Keep the helper's lease.
    CommitLease,
    Unlock,
    /// Wait until the watchdog is ready, so long at most.
    AwaitReady { seconds: u64 },
    /// Ask the session's owner to stop.
    RequestStop,
    /// Tell whether the owner ended within so long.
    AwaitOwner { seconds: u64 },
    /// Wait until the helper has ended, so long at most.
    AwaitHelper { seconds: u64 },
    /// Wait until the watchdog that is recorded has ended, so long at most.
    AwaitRecorded { seconds: u64 },
    Lock,
    /// Tell whether the saved session or watchdog is another owner's.
    CheckOwner,
    /// Put the lid back if it is not, and clear the marker.
    RollBack,
    RemoveSession,
    ClearStop,
    RemoveWatchdog,
    /// Give up the helper's lease.
    DiscardLease,
    Finish,
}

/// What giving up a start has to deal with: a helper that was started, and a lease that was kept.
#[derive(Clone, Copy, Debug, PartialEq, Eq, Structural)]
pub struct Abort {
    pub helper: bool,
    pub committed: bool,
}

/// How far giving up a start has come.
#[derive(Clone, Copy, Debug, PartialEq, Eq, Structural)]
pub enum AbortStep {
    Unlocking,
    RequestingStop,
    AwaitingOwner,
    AwaitingHelper,
    AwaitingRecorded,
    Locking,
    CheckingOwner,
    RollingBack,
    RemovingSession,
    ClearingStop,
    RemovingWatchdog,
}

/// How far starting a watchdog has come.
#[derive(Clone, Copy, Debug, PartialEq, Eq, Structural)]
pub enum LaunchState {
    Encoding,
    Reserving,
    WritingPending,
    PreparingCommand,
    Spawning,
    AwaitingClaim,
    Committing,
    Unlocking,
    AwaitingReady,
    Aborting { abort: Abort, step: AbortStep },
    Discarding { cleanup_failed: bool },
    Succeeded,
    /// The first failure says why; cleaning up and giving up the lease may have failed too.
    Failed { cleanup_failed: bool, discard_failed: bool },
}

/// Where starting a watchdog begins; a session that needs none is done.
pub open spec fn launch_start(platform: Platform, even_lid: bool) -> LaunchState {
    if !even_lid || platform == Platform::Linux {
        LaunchState::Succeeded
    } else if platform == Platform::Windows {
        LaunchState::Encoding
    } else {
        LaunchState::Reserving
    }
}

pub fn begin_launch(platform: Platform, even_lid: bool) -> (r: LaunchState)
    ensures
        r == launch_start(platform, even_lid),
{
    if !even_lid {
        return LaunchState::Succeeded;
    }
    match platform {
        Platform::Linux => LaunchState::Succeeded,
        Platform::Windows => LaunchState::Encoding,
        Platform::Macos => LaunchState::Reserving,
    }
}

/// What starting a watchdog asks for next.
pub open spec fn launch_wants(state: LaunchState) -> LaunchAction {
    match state {
        LaunchState::Encoding => LaunchAction::EncodeDirectory,
        LaunchState::Reserving => LaunchAction::ReserveLease,
        LaunchState::WritingPending => LaunchAction::WritePending,
        LaunchState::PreparingCommand => LaunchAction::PrepareCommand,
        LaunchState::Spawning => LaunchAction::SpawnHelper,
        LaunchState::AwaitingClaim => LaunchAction::AwaitClaim { seconds: 15 },
        LaunchState::Committing => LaunchAction::CommitLease,
        LaunchState::Unlocking => LaunchAction::Unlock,
        LaunchState::AwaitingReady => LaunchAction::AwaitReady { seconds: 15 },
        LaunchState::Aborting { step, .. } => match step {
            AbortStep::Unlocking => LaunchAction::Unlock,
            AbortStep::RequestingStop => LaunchAction::RequestStop,
            AbortStep::AwaitingOwner => LaunchAction::AwaitOwner { seconds: 15 },
            AbortStep::AwaitingHelper => LaunchAction::AwaitHelper { seconds: 15 },
            AbortStep::AwaitingRecorded => LaunchAction::AwaitRecorded { seconds: 15 },
            AbortStep::Locking => LaunchAction::Lock,
            AbortStep::CheckingOwner => LaunchAction::CheckOwner,
            AbortStep::RollingBack => LaunchAction::RollBack,
            AbortStep::RemovingSession => LaunchAction::RemoveSession,
            AbortStep::ClearingStop => LaunchAction::ClearStop,
            AbortStep::RemovingWatchdog => LaunchAction::RemoveWatchdog,
        },
        LaunchState::Discarding { .. } => LaunchAction::DiscardLease,
        _ => LaunchAction::Finish,
    }
}

/// Where giving up a start begins while the lock is held.
pub open spec fn give_up(helper: bool) -> LaunchState {
    LaunchState::Aborting {
        abort: Abort { helper, committed: false },
        step: AbortStep::Unlocking,
    }
}

/// Where giving up a start leads once the cleanup is over.
pub open spec fn gave_up(abort: Abort, cleanup_failed: bool) -> LaunchState {
    if abort.committed {
        LaunchState::Discarding { cleanup_failed }
    } else {
        LaunchState::Failed { cleanup_failed, discard_failed: false }
    }
}

/// Where giving up a start goes from `step` on `event`. The owner is stopped first, then the helper and the
/// recorded watchdog are waited for; only then the lid is put back, unless the records are another
/// owner's by then.
pub open spec fn abort_next(abort: Abort, step: AbortStep, event: LaunchEvent) -> LaunchState {
    let at = |step: AbortStep| LaunchState::Aborting { abort, step };
    match (step, event) {
        (AbortStep::Unlocking, LaunchEvent::Done) => at(AbortStep::RequestingStop),
        (AbortStep::RequestingStop, LaunchEvent::Done) => at(AbortStep::AwaitingOwner),
        (AbortStep::AwaitingOwner, LaunchEvent::Answer(ended)) => if !ended {
            gave_up(abort, true)
        } else if abort.helper {
            at(AbortStep::AwaitingHelper)
        } else {
            at(AbortStep::AwaitingRecorded)
        },
        (AbortStep::AwaitingHelper, LaunchEvent::Done) => at(AbortStep::AwaitingRecorded),
        (AbortStep::AwaitingRecorded, LaunchEvent::Done) => at(AbortStep::Locking),
        (AbortStep::Locking, LaunchEvent::Done) => at(AbortStep::CheckingOwner),
        (AbortStep::CheckingOwner, LaunchEvent::Answer(another)) => if another {
            gave_up(abort, false)
        } else {
            at(AbortStep::RollingBack)
        },
        (AbortStep::RollingBack, LaunchEvent::Done) => at(AbortStep::RemovingSession),
        (AbortStep::RemovingSession, LaunchEvent::Done) => at(AbortStep::ClearingStop),
        (AbortStep::ClearingStop, LaunchEvent::Done) => at(AbortStep::RemovingWatchdog),
        (AbortStep::RemovingWatchdog, LaunchEvent::Done) => gave_up(abort, false),
        (AbortStep::Unlocking, LaunchEvent::Failed) => at(AbortStep::Unlocking),
        (_, LaunchEvent::Failed) => gave_up(abort, true),
        _ => at(step),
    }
}

/// Where starting a watchdog goes from `state` on `event`.
pub open spec fn launch_next(platform: Platform, state: LaunchState, event: LaunchEvent) -> LaunchState {
    match (state, event) {
        (LaunchState::Encoding, LaunchEvent::Done) => LaunchState::Reserving,
        (LaunchState::Encoding, LaunchEvent::Failed) => give_up(false),
        (LaunchState::Reserving, LaunchEvent::Done) => LaunchState::WritingPending,
        (LaunchState::Reserving, LaunchEvent::Failed) => give_up(false),
        (LaunchState::WritingPending, LaunchEvent::Done) => if platform == Platform::Macos {
            LaunchState::PreparingCommand
        } else {
            LaunchState::Spawning
        },
        (LaunchState::WritingPending, LaunchEvent::Failed) => give_up(false),
        (LaunchState::PreparingCommand, LaunchEvent::Done) => LaunchState::Spawning,
        (LaunchState::PreparingCommand, LaunchEvent::Failed) => give_up(false),
        (LaunchState::Spawning, LaunchEvent::Done) => LaunchState::AwaitingClaim,
        (LaunchState::Spawning, LaunchEvent::Failed) => give_up(false),
        (LaunchState::AwaitingClaim, LaunchEvent::Done) => LaunchState::Committing,
        (LaunchState::AwaitingClaim, LaunchEvent::Failed) => give_up(true),
        (LaunchState::Committing, LaunchEvent::Done) => LaunchState::Unlocking,
        (LaunchState::Unlocking, LaunchEvent::Done) => LaunchState::AwaitingReady,
        (LaunchState::AwaitingReady, LaunchEvent::Done) => LaunchState::Succeeded,
        (LaunchState::AwaitingReady, LaunchEvent::Failed) => LaunchState::Aborting {
            abort: Abort { helper: true, committed: true },
            step: AbortStep::RequestingStop,
        },
        (LaunchState::Aborting { abort, step }, _) => abort_next(abort, step, event),
        (LaunchState::Discarding { cleanup_failed }, LaunchEvent::Done) => LaunchState::Failed {
            cleanup_failed,
            discard_failed: false,
        },
        (LaunchState::Discarding { cleanup_failed }, LaunchEvent::Failed) => LaunchState::Failed {
            cleanup_failed,
            discard_failed: true,
        },
        _ => state,
    }
}

pub fn launch_asks(state: LaunchState) -> (r: LaunchAction)
    ensures
        r == launch_wants(state),
{
    match state {
        LaunchState::Encoding => LaunchAction::EncodeDirectory,
        LaunchState::Reserving => LaunchAction::ReserveLease,
        LaunchState::WritingPending => LaunchAction::WritePending,
        LaunchState::PreparingCommand => LaunchAction::PrepareCommand,
        LaunchState::Spawning => LaunchAction::SpawnHelper,
        LaunchState::AwaitingClaim => LaunchAction::AwaitClaim { seconds: 15 },
        LaunchState::Committing => LaunchAction::CommitLease,
        LaunchState::Unlocking => LaunchAction::Unlock,
        LaunchState::AwaitingReady => LaunchAction::AwaitReady { seconds: 15 },
        LaunchState::Aborting { step, .. } => match step {
            AbortStep::Unlocking => LaunchAction::Unlock,
            AbortStep::RequestingStop => LaunchAction::RequestStop,
            AbortStep::AwaitingOwner => LaunchAction::AwaitOwner { seconds: 15 },
            AbortStep::AwaitingHelper => LaunchAction::AwaitHelper { seconds: 15 },
            AbortStep::AwaitingRecorded => LaunchAction::AwaitRecorded { seconds: 15 },
            AbortStep::Locking => LaunchAction::Lock,
            AbortStep::CheckingOwner => LaunchAction::CheckOwner,
            AbortStep::RollingBack => LaunchAction::RollBack,
            AbortStep::RemovingSession => LaunchAction::RemoveSession,
            AbortStep::ClearingStop => LaunchAction::ClearStop,
            AbortStep::RemovingWatchdog => LaunchAction::RemoveWatchdog,
        },
        LaunchState::Discarding { .. } => LaunchAction::DiscardLease,
        _ => LaunchAction::Finish,
    }
}

fn start_giving_up(helper: bool) -> (r: LaunchState)
    ensures
        r == give_up(helper),
{
    LaunchState::Aborting {
        abort: Abort { helper, committed: false },
        step: AbortStep::Unlocking,
    }
}

fn end_giving_up(abort: Abort, cleanup_failed: bool) -> (r: LaunchState)
    ensures
        r == gave_up(abort, cleanup_failed),
{
    if abort.committed {
        LaunchState::Discarding { cleanup_failed }
    } else {
        LaunchState::Failed { cleanup_failed, discard_failed: false }
    }
}

/// Where giving up a start goes from `step` on `event`.
pub fn abort_watchdog_start(abort: Abort, step: AbortStep, event: LaunchEvent) -> (r: LaunchState)
    ensures
        r == abort_next(abort, step, event),
{
    let next = match (step, event) {
        (AbortStep::Unlocking, LaunchEvent::Done) => AbortStep::RequestingStop,
        (AbortStep::RequestingStop, LaunchEvent::Done) => AbortStep::AwaitingOwner,
        (AbortStep::AwaitingOwner, LaunchEvent::Answer(ended)) => {
            if !ended {
                return end_giving_up(abort, true);
            }
            if abort.helper {
                AbortStep::AwaitingHelper
            } else {
                AbortStep::AwaitingRecorded
            }
        },
        (AbortStep::AwaitingHelper, LaunchEvent::Done) => AbortStep::AwaitingRecorded,
        (AbortStep::AwaitingRecorded, LaunchEvent::Done) => AbortStep::Locking,
        (AbortStep::Locking, LaunchEvent::Done) => AbortStep::CheckingOwner,
        (AbortStep::CheckingOwner, LaunchEvent::Answer(another)) => {
            if another {
                return end_giving_up(abort, false);
            }
            AbortStep::RollingBack
        },
        (AbortStep::RollingBack, LaunchEvent::Done) => AbortStep::RemovingSession,
        (AbortStep::RemovingSession, LaunchEvent::Done) => AbortStep::ClearingStop,
        (AbortStep::ClearingStop, LaunchEvent::Done) => AbortStep::RemovingWatchdog,
        (AbortStep::RemovingWatchdog, LaunchEvent::Done) => return end_giving_up(abort, false),
        (AbortStep::Unlocking, LaunchEvent::Failed) => AbortStep::Unlocking,
        (_, LaunchEvent::Failed) => return end_giving_up(abort, true),
        _ => step,
    };
    LaunchState::Aborting { abort, step: next }
}

/// Where starting a watchdog goes from `state` on `event`.
pub fn launch_watchdog(platform: Platform, state: LaunchState, event: LaunchEvent) -> (r: LaunchState)
    ensures
        r == launch_next(platform, state, event),
{
    match (state, event) {
        (LaunchState::Encoding, LaunchEvent::Done) => LaunchState::Reserving,
        (LaunchState::Encoding, LaunchEvent::Failed) => start_giving_up(false),
        (LaunchState::Reserving, LaunchEvent::Done) => LaunchState::WritingPending,
        (LaunchState::Reserving, LaunchEvent::Failed) => start_giving_up(false),
        (LaunchState::WritingPending, LaunchEvent::Done) => match platform {
            Platform::Macos => LaunchState::PreparingCommand,
            _ => LaunchState::Spawning,
        },
        (LaunchState::WritingPending, LaunchEvent::Failed) => start_giving_up(false),
        (LaunchState::PreparingCommand, LaunchEvent::Done) => LaunchState::Spawning,
        (LaunchState::PreparingCommand, LaunchEvent::Failed) => start_giving_up(false),
        (LaunchState::Spawning, LaunchEvent::Done) => LaunchState::AwaitingClaim,
        (LaunchState::Spawning, LaunchEvent::Failed) => start_giving_up(false),
        (LaunchState::AwaitingClaim, LaunchEvent::Done) => LaunchState::Committing,
        (LaunchState::AwaitingClaim, LaunchEvent::Failed) => start_giving_up(true),
        (LaunchState::Committing, LaunchEvent::Done) => LaunchState::Unlocking,
        (LaunchState::Unlocking, LaunchEvent::Done) => LaunchState::AwaitingReady,
        (LaunchState::AwaitingReady, LaunchEvent::Done) => LaunchState::Succeeded,
        (LaunchState::AwaitingReady, LaunchEvent::Failed) => LaunchState::Aborting {
            abort: Abort { helper: true, committed: true },
            step: AbortStep::RequestingStop,
        },
        (LaunchState::Aborting { abort, step }, _) => abort_watchdog_start(abort, step, event),
        (LaunchState::Discarding { cleanup_failed }, LaunchEvent::Done) => LaunchState::Failed {
            cleanup_failed,
            discard_failed: false,
        },
        (LaunchState::Discarding { cleanup_failed }, LaunchEvent::Failed) => LaunchState::Failed {
            cleanup_failed,
            discard_failed: true,
        },
        _ => state,
    }
}

/// Where starting a watchdog stands after these events.
pub open spec fn launch_after(platform: Platform, events: Seq<LaunchEvent>) -> LaunchState
    decreases events.len(),
{
    if events.len() == 0 {
        launch_start(platform, true)
    } else {
        launch_next(platform, launch_after(platform, events.drop_last()), events.last())
    }
}

/// What starting a watchdog has led to.
pub struct LaunchTrace {
    /// Whether a watchdog to come was recorded.
    pub recorded: bool,
    /// Whether a helper was started, and is known to have ended.
    pub helper: bool,
    pub helper_ended: bool,
    /// Whether the owner, and the recorded watchdog, are known to have ended.
    pub owner_ended: bool,
    pub watchdog_ended: bool,
    /// Whether the lock is held.
    pub locked: bool,
}

/// What starting a watchdog has led to after these events. The lock is held at first.
pub open spec fn launch_did(platform: Platform, events: Seq<LaunchEvent>) -> LaunchTrace
    decreases events.len(),
{
    if events.len() == 0 {
        LaunchTrace {
            recorded: false,
            helper: false,
            helper_ended: false,
            owner_ended: false,
            watchdog_ended: false,
            locked: true,
        }
    } else {
        let before = events.drop_last();
        let did = launch_did(platform, before);
        match (launch_wants(launch_after(platform, before)), events.last()) {
            (LaunchAction::WritePending, LaunchEvent::Done) => LaunchTrace { recorded: true, ..did },
            (LaunchAction::SpawnHelper, LaunchEvent::Done) => LaunchTrace { helper: true, ..did },
            (LaunchAction::AwaitOwner { .. }, LaunchEvent::Answer(ended)) => LaunchTrace {
                owner_ended: ended,
                ..did
            },
            (LaunchAction::AwaitHelper { .. }, LaunchEvent::Done) => LaunchTrace {
                helper_ended: true,
                ..did
            },
            (LaunchAction::AwaitRecorded { .. }, LaunchEvent::Done) => LaunchTrace {
                watchdog_ended: true,
                ..did
            },
            (LaunchAction::Unlock, LaunchEvent::Done) => LaunchTrace { locked: false, ..did },
            (LaunchAction::Lock, LaunchEvent::Done) => LaunchTrace { locked: true, ..did },
            _ => did,
        }
    }
}

proof fn lemma_launch(platform: Platform, events: Seq<LaunchEvent>)
    ensures
        ({
            let did = launch_did(platform, events);
            match launch_after(platform, events) {
                LaunchState::Encoding | LaunchState::Reserving | LaunchState::WritingPending => {
                    did.locked && !did.helper
                },
                LaunchState::PreparingCommand | LaunchState::Spawning => did.locked && did.recorded
                    && !did.helper,
                LaunchState::AwaitingClaim | LaunchState::Committing | LaunchState::Unlocking => {
                    did.locked && did.recorded && did.helper
                },
                LaunchState::AwaitingReady => !did.locked && did.recorded && did.helper,
                LaunchState::Aborting { abort, step } => {
                    &&& did.helper == abort.helper
                    &&& match step {
                        AbortStep::Unlocking => did.locked,
                        AbortStep::RequestingStop | AbortStep::AwaitingOwner => !did.locked,
                        AbortStep::AwaitingHelper => !did.locked && did.owner_ended,
                        AbortStep::AwaitingRecorded => !did.locked && did.owner_ended && (did.helper
                            ==> did.helper_ended),
                        AbortStep::Locking => !did.locked && did.owner_ended && (did.helper
                            ==> did.helper_ended) && did.watchdog_ended,
                        _ => did.locked && did.owner_ended && (did.helper ==> did.helper_ended)
                            && did.watchdog_ended,
                    }
                },
                _ => true,
            }
        }),
    decreases events.len(),
{
    if events.len() > 0 {
        lemma_launch(platform, events.drop_last());
    }
}

/// Whatever happens, a helper is started only after its watchdog was recorded. The lid is put back and records
/// are removed only under the lock, and only after the owner, a helper that was started and the
/// recorded watchdog have ended. Nothing is waited for to end or to become ready under the lock.
pub proof fn law_launches_are_given_up_in_order(platform: Platform, events: Seq<LaunchEvent>)
    ensures
        ({
            let did = launch_did(platform, events);
            let action = launch_wants(launch_after(platform, events));
            &&& action is SpawnHelper ==> did.recorded && did.locked
            &&& action is RollBack || action is RemoveSession || action is RemoveWatchdog
                ==> did.locked && did.owner_ended && did.watchdog_ended && (did.helper
                ==> did.helper_ended)
            &&& action is AwaitOwner || action is AwaitHelper || action is AwaitRecorded
                || action is AwaitReady ==> !did.locked
        }),
{
    lemma_launch(platform, events);
}

/// The error of a start that was given up: the failure that led to it, what cleaning up came to and what
/// giving up the lease came to.
pub fn finish_watchdog_launch(
    first: AppError,
    cleanup: Result<(), AppError>,
    discard: Result<(), AppError>,
) -> (r: Result<(), AppError>)
    ensures
        outcome(r) == error::combined(
            error::combined(Err::<(), Fault>(first@), outcome(cleanup)),
            outcome(discard),
        ),
{
    combine_cleanup(combine_cleanup(Err(first), cleanup), discard)
}

fn exited_with(code: u32) -> (r: AppError)
    ensures
        r@ == Fault::Fail(
            "lid watchdog exited during startup with code "@ + text::decimal(code as nat),
        ),
{
    let mut m = "lid watchdog exited during startup with code ".to_owned();
    m.append(text::decimal_text(code as u64).as_str());
    AppError::Fail(m)
}

/// What a result comes to, if there is one yet.
pub open spec fn maybe_outcome(r: Option<Result<(), AppError>>) -> Option<Result<(), Fault>> {
    match r {
        Some(r) => Some(outcome(r)),
        None => None,
    }
}

/// What a look at a helper that should claim its lease comes to; look again in a tenth of a second where there
/// is nothing yet. `ended` tells the code that it ended with, if it has; `elapsed` how long it has been waited
/// for, which is fifteen seconds at most.
pub fn wait_for_child_claimed(elapsed: Span, ended: Option<u32>, claimed: bool) -> (r: Option<
    Result<(), AppError>,
>)
    ensures
        maybe_outcome(r) == (if elapsed.seconds >= 15 {
            Some(
                Err::<(), Fault>(Fault::Fail("lid watchdog did not claim its process lease"@)),
            )
        } else {
            match ended {
                Some(code) => Some(
                    Err(
                        Fault::Fail(
                            "lid watchdog exited during startup with code "@ + text::decimal(
                                code as nat,
                            ),
                        ),
                    ),
                ),
                None => if claimed {
                    Some(Ok(()))
                } else {
                    None
                },
            }
        }),
{
    if elapsed.seconds >= 15 {
        return Some(Err(AppError::fail("lid watchdog did not claim its process lease")));
    }
    match ended {
        Some(code) => Some(Err(exited_with(code))),
        None => if claimed {
            Some(Ok(()))
        } else {
            None
        },
    }
}

/// What a look at a watchdog that should become ready comes to; look again in a tenth of a second where there is
/// nothing yet. It is waited for fifteen seconds at most.
pub fn wait_for_child_ready(elapsed: Span, ready: bool, ended: Option<u32>) -> (r: Option<
    Result<(), AppError>,
>)
    ensures
        maybe_outcome(r) == (if elapsed.seconds >= 15 {
            Some(Err::<(), Fault>(Fault::Fail("lid watchdog did not publish ready state"@)))
        } else if ready {
            match ended {
                None => Some(Ok(())),
                Some(_) => Some(Err(Fault::Fail("lid watchdog exited during startup"@))),
            }
        } else {
            match ended {
                None => None,
                Some(code) => Some(
                    Err(
                        Fault::Fail(
                            "lid watchdog exited during startup with code "@ + text::decimal(
                                code as nat,
                            ),
                        ),
                    ),
                ),
            }
        }),
{
    if elapsed.seconds >= 15 {
        return Some(Err(AppError::fail("lid watchdog did not publish ready state")));
    }
    if ready {
        return match ended {
            None => Some(Ok(())),
            Some(_) => Some(Err(AppError::fail("lid watchdog exited during startup"))),
        };
    }
    match ended {
        None => None,
        Some(code) => Some(Err(exited_with(code))),
    }
}

/// What a look at a helper that should end comes to; look again in a tenth of a second where there is nothing yet.
/// It is waited for fifteen seconds at most.
pub fn wait_for_helper_exit(elapsed: Span, ended: bool) -> (r: Option<Result<(), AppError>>)
    ensures
        maybe_outcome(r) == (if elapsed.seconds >= 15 {
            Some(
                Err::<(), Fault>(Fault::Fail("lid watchdog did not exit after startup failure"@)),
            )
        } else if ended {
            Some(Ok(()))
        } else {
            None
        }),
{
    if elapsed.seconds >= 15 {
        Some(Err(AppError::fail("lid watchdog did not exit after startup failure")))
    } else if ended {
        Some(Ok(()))
    } else {
        None
    }
}

/// Whether the watchdog that is recorded, if one is, is to be waited for. It must watch the session of `owner`.
pub fn recorded_watchdog(owner: &LeaseRef, state: Option<&WatchdogState>) -> (r: Result<bool, AppError>)
    ensures
        outcome(r) == (match state {
            None => Ok::<bool, Fault>(false),
            Some(state) => if state@.owner == owner@ {
                Ok(true)
            } else {
                Err(Fault::Fail("lid watchdog state changed during startup cleanup"@))
            },
        }),
{
    match state {
        None => Ok(false),
        Some(state) => {
            if state.owner.same(owner) {
                Ok(true)
            } else {
                Err(AppError::fail("lid watchdog state changed during startup cleanup"))
            }
        },
    }
}

/// The recorded watchdog must end in time.
pub fn wait_recorded_watchdog_exit(ended: bool) -> (r: Result<(), AppError>)
    ensures
        outcome(r) == (if ended {
            Ok::<(), Fault>(())
        } else {
            Err(Fault::Fail("lid watchdog remained alive after its owner"@))
        }),
{
    if ended {
        Ok(())
    } else {
        Err(AppError::fail("lid watchdog remained alive after its owner"))
    }
}

/// The session's owner must end in time.
pub fn request_owner_stop(ended: bool) -> (r: Result<(), AppError>)
    ensures
        outcome(r) == (if ended {
            Ok::<(), Fault>(())
        } else {
            Err(Fault::Fail("could not stop lid session owner"@))
        }),
{
    if ended {
        Ok(())
    } else {
        Err(AppError::fail("could not stop lid session owner"))
    }
}

/// Whether the watchdog of the session of `owner` has published itself, by what is recorded. Where it is known
/// which process it is, it must be that one; and it must live, which is asked only then.
pub open spec fn publication(
    owner: (u32, Seq<char>),
    state: Option<super::Watch>,
    expected_pid: Option<u32>,
    live: Result<bool, Fault>,
) -> Result<bool, Fault> {
    match state {
        None => Ok(false),
        Some(watch) => if watch.owner != owner {
            Err(Fault::Fail("lid watchdog published mismatched ready state"@))
        } else if watch.watchdog.0 == 0 {
            Ok(false)
        } else if expected_pid matches Some(pid) && watch.watchdog.0 != pid {
            Err(Fault::Fail("lid watchdog published mismatched ready state"@))
        } else {
            match live {
                Err(e) => Err(e),
                Ok(true) => Ok(true),
                Ok(false) => Err(Fault::Fail("lid watchdog exited during startup"@)),
            }
        },
    }
}

pub fn published_watchdog_state(
    owner: &LeaseRef,
    state: Option<&WatchdogState>,
    expected_pid: Option<u32>,
    live: Result<bool, AppError>,
) -> (r: Result<bool, AppError>)
    ensures
        outcome(r) == publication(owner@, super::maybe_watch(state), expected_pid, outcome(live)),
{
    let state = match state {
        None => return Ok(false),
        Some(state) => state,
    };
    if !state.owner.same(owner) {
        return Err(AppError::fail("lid watchdog published mismatched ready state"));
    }
    if state.watchdog.pid == 0 {
        return Ok(false);
    }
    match expected_pid {
        Some(pid) => {
            if state.watchdog.pid != pid {
                return Err(AppError::fail("lid watchdog published mismatched ready state"));
            }
        },
        None => {},
    }
    match live {
        Err(e) => Err(e),
        Ok(true) => Ok(true),
        Ok(false) => Err(AppError::fail("lid watchdog exited during startup")),
    }
}

/// Whether the watchdog of the session of `owner` has published itself and is ready.
pub fn ready_state(
    owner: &LeaseRef,
    state: Option<&WatchdogState>,
    expected_pid: Option<u32>,
    live: Result<bool, AppError>,
) -> (r: Result<bool, AppError>)
    ensures
        outcome(r) == (match publication(
            owner@,
            super::maybe_watch(state),
            expected_pid,
            outcome(live),
        ) {
            Ok(published) => Ok::<bool, Fault>(
                published && (super::maybe_watch(state) matches Some(watch) && watch.ready),
            ),
            Err(e) => Err(e),
        }),
{
    match published_watchdog_state(owner, state, expected_pid, live) {
        Err(e) => Err(e),
        Ok(published) => match state {
            Some(state) => Ok(published && state.ready),
            None => Ok(false),
        },
    }
}

/// What a look of a session at its watchdog comes to.
#[derive(Clone, Copy, Debug, PartialEq, Eq, Structural)]
pub enum ReadyWait {
    Ready,
    Stopped,
    Mismatched,
    Exited,
    Disappeared,
    NotPublished,
    NotReady,
    /// Look again in a tenth of a second; whether the watchdog has been recorded so far.
    Again { published: bool },
}

/// What a look of a session at its watchdog comes to: the watchdog must be recorded within fifteen seconds, stay
/// so, live, and become ready within five minutes, both from the first look on. `live` is asked only where a
/// process is recorded.
pub open spec fn ready_wait(
    owner: (u32, Seq<char>),
    published: bool,
    stop_requested: bool,
    state: Option<super::Watch>,
    live: bool,
    elapsed: Span,
) -> ReadyWait {
    if stop_requested {
        ReadyWait::Stopped
    } else {
        match state {
            Some(watch) => if watch.owner != owner {
                ReadyWait::Mismatched
            } else if watch.watchdog.0 > 0 && !live {
                ReadyWait::Exited
            } else if watch.watchdog.0 > 0 && watch.ready {
                ReadyWait::Ready
            } else if elapsed.seconds >= 300 {
                ReadyWait::NotReady
            } else {
                ReadyWait::Again { published: true }
            },
            None => if published {
                ReadyWait::Disappeared
            } else if elapsed.seconds >= 15 {
                ReadyWait::NotPublished
            } else {
                ReadyWait::Again { published: false }
            },
        }
    }
}

pub fn wait_ready(
    owner: &LeaseRef,
    published: bool,
    stop_requested: bool,
    state: Option<&WatchdogState>,
    live: bool,
    elapsed: Span,
) -> (r: ReadyWait)
    ensures
        r == ready_wait(
            owner@,
            published,
            stop_requested,
            super::maybe_watch(state),
            live,
            elapsed,
        ),
{
    if stop_requested {
        return ReadyWait::Stopped;
    }
    match state {
        Some(state) => {
            if !state.owner.same(owner) {
                return ReadyWait::Mismatched;
            }
            if state.watchdog.pid > 0 {
                if !live {
                    return ReadyWait::Exited;
                }
                if state.ready {
                    return ReadyWait::Ready;
                }
            }
            if elapsed.seconds >= 300 {
                return ReadyWait::NotReady;
            }
            ReadyWait::Again { published: true }
        },
        None => {
            if published {
                ReadyWait::Disappeared
            } else if elapsed.seconds >= 15 {
                ReadyWait::NotPublished
            } else {
                ReadyWait::Again { published: false }
            }
        },
    }
}

/// A session goes on only where its own watchdog lives and is ready; and a watchdog that was seen once is not
/// waited for again once it is gone.
pub proof fn law_sessions_wait_for_their_own_watchdog(
    owner: (u32, Seq<char>),
    published: bool,
    stop_requested: bool,
    state: Option<super::Watch>,
    live: bool,
    elapsed: Span,
)
    ensures
        ({
            let r = ready_wait(
                owner,
                published,
                stop_requested,
                state,
                live,
                elapsed,
            );
            &&& r is Ready ==> live && !stop_requested && (state matches Some(watch) && watch.owner
                == owner && watch.ready && watch.watchdog.0 > 0)
            &&& published && state is None ==> !(r is Again)
            &&& r matches ReadyWait::Again { published: p } ==> (published ==> p)
        }),
{
}

/// The error of a session whose watchdog did not become ready.
pub fn ready_wait_error(wait: ReadyWait) -> (r: AppError)
    ensures
        r@ == Fault::Fail(
            match wait {
                ReadyWait::Stopped => "session stopped during lid startup"@,
                ReadyWait::Mismatched => "lid watchdog published mismatched ready state"@,
                ReadyWait::Exited => "lid watchdog exited during startup"@,
                ReadyWait::Disappeared => "lid watchdog state disappeared during startup"@,
                ReadyWait::NotPublished => "lid watchdog did not publish startup state"@,
                _ => "lid watchdog did not become ready"@,
            },
        ),
{
    match wait {
        ReadyWait::Stopped => AppError::fail("session stopped during lid startup"),
        ReadyWait::Mismatched => AppError::fail("lid watchdog published mismatched ready state"),
        ReadyWait::Exited => AppError::fail("lid watchdog exited during startup"),
        ReadyWait::Disappeared => AppError::fail("lid watchdog state disappeared during startup"),
        ReadyWait::NotPublished => AppError::fail("lid watchdog did not publish startup state"),
        _ => AppError::fail("lid watchdog did not become ready"),
    }
}

/// A system as starting a watchdog meets it: what it answers, what fails, and what was done to it so far.
pub struct LaunchWorld {
    pub owner_ends: bool,
    /// Whether the records are another owner's by then.
    pub foreign: bool,
    /// What fails, if anything does.
    pub fails: Option<LaunchAction>,
    pub recorded: bool,
    pub helper: bool,
    pub committed: bool,
    pub stop_requested: bool,
    pub helper_awaited: bool,
    pub rolled_back: bool,
    pub session_removed: bool,
    pub watchdog_removed: bool,
    pub discarded: bool,
}

impl LaunchWorld {
    /// What the system answers to an action, and what it is then.
    pub open spec fn answer(self, action: LaunchAction) -> (LaunchWorld, LaunchEvent) {
        if self.fails == Some(action) {
            (self, LaunchEvent::Failed)
        } else {
            match action {
                LaunchAction::WritePending => (
                    LaunchWorld { recorded: true, ..self },
                    LaunchEvent::Done,
                ),
                LaunchAction::SpawnHelper => (
                    LaunchWorld { helper: true, ..self },
                    LaunchEvent::Done,
                ),
                LaunchAction::CommitLease => (
                    LaunchWorld { committed: true, ..self },
                    LaunchEvent::Done,
                ),
                LaunchAction::RequestStop => (
                    LaunchWorld { stop_requested: true, ..self },
                    LaunchEvent::Done,
                ),
                LaunchAction::AwaitOwner { .. } => (self, LaunchEvent::Answer(self.owner_ends)),
                LaunchAction::AwaitHelper { .. } => (
                    LaunchWorld { helper_awaited: true, ..self },
                    LaunchEvent::Done,
                ),
                LaunchAction::CheckOwner => (self, LaunchEvent::Answer(self.foreign)),
                LaunchAction::RollBack => (
                    LaunchWorld { rolled_back: true, ..self },
                    LaunchEvent::Done,
                ),
                LaunchAction::RemoveSession => (
                    LaunchWorld { session_removed: true, ..self },
                    LaunchEvent::Done,
                ),
                LaunchAction::RemoveWatchdog => (
                    LaunchWorld { watchdog_removed: true, ..self },
                    LaunchEvent::Done,
                ),
                LaunchAction::DiscardLease => (
                    LaunchWorld { discarded: true, ..self },
                    LaunchEvent::Done,
                ),
                _ => (self, LaunchEvent::Done),
            }
        }
    }

    /// Whether nothing has been done yet.
    pub open spec fn untouched(self) -> bool {
        !self.recorded && !self.helper && !self.committed && !self.stop_requested
            && !self.helper_awaited && !self.rolled_back && !self.session_removed
            && !self.watchdog_removed && !self.discarded
    }

    /// Whether nothing that giving up asks for fails.
    pub open spec fn gives_up_well(self) -> bool {
        match self.fails {
            None => true,
            Some(a) => a is EncodeDirectory || a is ReserveLease || a is WritePending
                || a is PrepareCommand || a is SpawnHelper || a is AwaitClaim || a is AwaitReady,
        }
    }
}

/// A step of starting a watchdog.
pub open spec fn launch_step(platform: Platform, at: (LaunchState, LaunchWorld)) -> (
    LaunchState,
    LaunchWorld,
) {
    let (world, event) = at.1.answer(launch_wants(at.0));
    (launch_next(platform, at.0, event), world)
}

/// Where starting a watchdog stands after so many steps.
#[verifier::opaque]
pub open spec fn launch_steps(platform: Platform, at: (LaunchState, LaunchWorld), steps: nat) -> (
    LaunchState,
    LaunchWorld,
)
    decreases steps,
{
    if steps == 0 {
        at
    } else {
        launch_steps(platform, launch_step(platform, at), (steps - 1) as nat)
    }
}

proof fn lemma_launch_unrolls(platform: Platform, at: (LaunchState, LaunchWorld), steps: nat)
    requires
        steps > 0,
    ensures
        launch_steps(platform, at, steps) == launch_steps(
            platform,
            launch_step(platform, at),
            (steps - 1) as nat,
        ),
{
    reveal(launch_steps);
}

proof fn lemma_launch_ended(platform: Platform, at: (LaunchState, LaunchWorld), steps: nat)
    requires
        at.0 is Succeeded || at.0 is Failed,
    ensures
        launch_steps(platform, at, steps) == at,
    decreases steps,
{
    reveal(launch_steps);
    if steps > 0 {
        assert(launch_step(platform, at) == at);
        lemma_launch_ended(platform, at, (steps - 1) as nat);
    }
}

/// What giving up comes to once it has ended the cleanup.
proof fn lemma_launch_gave_up(
    platform: Platform,
    abort: Abort,
    cleanup_failed: bool,
    world: LaunchWorld,
    steps: nat,
)
    requires
        world.gives_up_well(),
        !world.discarded,
        steps > 1,
    ensures
        launch_steps(platform, (gave_up(abort, cleanup_failed), world), steps) == (
            LaunchState::Failed { cleanup_failed, discard_failed: false },
            LaunchWorld { discarded: abort.committed, ..world },
        ),
{
    let c0 = (gave_up(abort, cleanup_failed), world);
    if abort.committed {
        lemma_launch_unrolls(platform, c0, steps);
        lemma_launch_ended(platform, launch_step(platform, c0), (steps - 1) as nat);
    } else {
        lemma_launch_ended(platform, c0, steps);
    }
}

#[verifier::rlimit(50)]
proof fn lemma_launch_given_up(
    platform: Platform,
    abort: Abort,
    world: LaunchWorld,
    steps: nat,
)
    requires
        world.gives_up_well(),
        !world.rolled_back && !world.session_removed && !world.watchdog_removed && !world.discarded
            && !world.helper_awaited,
        steps > 12,
    ensures
        ({
            let (state, after) = launch_steps(
                platform,
                (LaunchState::Aborting { abort, step: AbortStep::RequestingStop }, world),
                steps,
            );
            let cleans = world.owner_ends && !world.foreign;
            &&& state == (LaunchState::Failed {
                cleanup_failed: !world.owner_ends,
                discard_failed: false,
            })
            &&& after.stop_requested
            &&& after.rolled_back == cleans && after.session_removed == cleans
                && after.watchdog_removed == cleans
            &&& after.helper_awaited == (world.owner_ends && abort.helper)
            &&& after.discarded == abort.committed
        }),
{
    let c0 = (LaunchState::Aborting { abort, step: AbortStep::RequestingStop }, world);
    lemma_launch_unrolls(platform, c0, steps);
    let w1 = LaunchWorld { stop_requested: true, ..world };
    let c1 = (LaunchState::Aborting { abort, step: AbortStep::AwaitingOwner }, w1);
    assert(launch_step(platform, c0) == c1);
    lemma_launch_unrolls(platform, c1, (steps - 1) as nat);
    let c2 = launch_step(platform, c1);
    if !world.owner_ends {
        assert(c2 == (gave_up(abort, true), w1));
        lemma_launch_gave_up(platform, abort, true, w1, (steps - 2) as nat);
    } else {
        let w2 = LaunchWorld { helper_awaited: abort.helper, ..w1 };
        let n: nat = if abort.helper {
            (steps - 3) as nat
        } else {
            (steps - 2) as nat
        };
        let c3 = (LaunchState::Aborting { abort, step: AbortStep::AwaitingRecorded }, w2);
        if abort.helper {
            assert(c2 == (LaunchState::Aborting { abort, step: AbortStep::AwaitingHelper }, w1));
            lemma_launch_unrolls(platform, c2, (steps - 2) as nat);
            assert(launch_step(platform, c2) == c3);
        } else {
            assert(c2 == c3);
        }
        lemma_launch_cleans(platform, abort, w2, n);
    }
}

proof fn lemma_launch_cleans(platform: Platform, abort: Abort, world: LaunchWorld, steps: nat)
    requires
        world.gives_up_well(),
        !world.rolled_back && !world.session_removed && !world.watchdog_removed
            && !world.discarded,
        steps > 9,
    ensures
        launch_steps(
            platform,
            (LaunchState::Aborting { abort, step: AbortStep::AwaitingRecorded }, world),
            steps,
        ) == (
            LaunchState::Failed { cleanup_failed: false, discard_failed: false },
            LaunchWorld {
                rolled_back: !world.foreign,
                session_removed: !world.foreign,
                watchdog_removed: !world.foreign,
                discarded: abort.committed,
                ..world
            },
        ),
{
    let c0 = (LaunchState::Aborting { abort, step: AbortStep::AwaitingRecorded }, world);
    lemma_launch_unrolls(platform, c0, steps);
    let c1 = (LaunchState::Aborting { abort, step: AbortStep::Locking }, world);
    assert(launch_step(platform, c0) == c1);
    lemma_launch_unrolls(platform, c1, (steps - 1) as nat);
    let c2 = (LaunchState::Aborting { abort, step: AbortStep::CheckingOwner }, world);
    assert(launch_step(platform, c1) == c2);
    lemma_launch_unrolls(platform, c2, (steps - 2) as nat);
    let c3 = launch_step(platform, c2);
    if world.foreign {
        assert(c3 == (gave_up(abort, false), world));
        lemma_launch_gave_up(platform, abort, false, world, (steps - 3) as nat);
    } else {
        assert(c3 == (LaunchState::Aborting { abort, step: AbortStep::RollingBack }, world));
        lemma_launch_unrolls(platform, c3, (steps - 3) as nat);
        let w4 = LaunchWorld { rolled_back: true, ..world };
        let c4 = (LaunchState::Aborting { abort, step: AbortStep::RemovingSession }, w4);
        assert(launch_step(platform, c3) == c4);
        lemma_launch_unrolls(platform, c4, (steps - 4) as nat);
        let w5 = LaunchWorld { session_removed: true, ..w4 };
        let c5 = (LaunchState::Aborting { abort, step: AbortStep::ClearingStop }, w5);
        assert(launch_step(platform, c4) == c5);
        lemma_launch_unrolls(platform, c5, (steps - 5) as nat);
        let c6 = (LaunchState::Aborting { abort, step: AbortStep::RemovingWatchdog }, w5);
        assert(launch_step(platform, c5) == c6);
        lemma_launch_unrolls(platform, c6, (steps - 6) as nat);
        let w7 = LaunchWorld { watchdog_removed: true, ..w5 };
        assert(launch_step(platform, c6) == (gave_up(abort, false), w7));
        lemma_launch_gave_up(platform, abort, false, w7, (steps - 7) as nat);
    }
}

/// A session that needs no watchdog is done at once. Where nothing fails a watchdog is recorded and started, its
/// lease is kept and it is ready. One that does not become ready is given up: the owner is asked to stop,
/// helper and watchdog are waited for, the lid is put back and the records are removed, unless they
/// are another owner's by then or the owner does not end; and the lease is given up in any case.
pub proof fn law_watchdogs_are_started_or_given_up(
    platform: Platform,
    even_lid: bool,
    world: LaunchWorld,
)
    requires
        world.untouched(),
        world.fails is None || world.fails == Some(LaunchAction::AwaitReady { seconds: 15 }),
    ensures
        ({
            let (state, after) = launch_steps(
                platform,
                (launch_start(platform, even_lid), world),
                30,
            );
            let needed = even_lid && platform != Platform::Linux;
            let cleans = world.owner_ends && !world.foreign;
            &&& !needed ==> state is Succeeded && after == world
            &&& needed && world.fails is None ==> state is Succeeded && after.recorded
                && after.helper && after.committed && !after.stop_requested && !after.rolled_back
            &&& needed && world.fails is Some ==> state is Failed && after.stop_requested
                && after.discarded && after.rolled_back == cleans && after.session_removed == cleans
                && after.watchdog_removed == cleans && after.helper_awaited == world.owner_ends
        }),
{
    let needed = even_lid && platform != Platform::Linux;
    if !needed {
        lemma_launch_ended(platform, (LaunchState::Succeeded, world), 30);
    } else if platform == Platform::Windows {
        let c0 = (LaunchState::Encoding, world);
        lemma_launch_unrolls(platform, c0, 30);
        assert(launch_step(platform, c0) == (LaunchState::Reserving, world));
        lemma_launch_reserved(platform, world, 29);
    } else {
        lemma_launch_reserved(platform, world, 30);
    }
}

proof fn lemma_launch_reserved(platform: Platform, world: LaunchWorld, steps: nat)
    requires
        world.untouched(),
        world.fails is None || world.fails == Some(LaunchAction::AwaitReady { seconds: 15 }),
        steps > 24,
    ensures
        ({
            let (state, after) = launch_steps(platform, (LaunchState::Reserving, world), steps);
            let cleans = world.owner_ends && !world.foreign;
            &&& world.fails is None ==> state is Succeeded && after.recorded && after.helper
                && after.committed && !after.stop_requested && !after.rolled_back
            &&& world.fails is Some ==> state is Failed && after.stop_requested && after.discarded
                && after.rolled_back == cleans && after.session_removed == cleans
                && after.watchdog_removed == cleans && after.helper_awaited == world.owner_ends
        }),
{
    let c0 = (LaunchState::Reserving, world);
    lemma_launch_unrolls(platform, c0, steps);
    let c1 = (LaunchState::WritingPending, world);
    assert(launch_step(platform, c0) == c1);
    lemma_launch_unrolls(platform, c1, (steps - 1) as nat);
    let w2 = LaunchWorld { recorded: true, ..world };
    let c2 = (LaunchState::Spawning, w2);
    let n: nat = if platform == Platform::Macos {
        (steps - 3) as nat
    } else {
        (steps - 2) as nat
    };
    if platform == Platform::Macos {
        let prepared = (LaunchState::PreparingCommand, w2);
        assert(launch_step(platform, c1) == prepared);
        lemma_launch_unrolls(platform, prepared, (steps - 2) as nat);
        assert(launch_step(platform, prepared) == c2);
    } else {
        assert(launch_step(platform, c1) == c2);
    }
    lemma_launch_unrolls(platform, c2, n);
    let w3 = LaunchWorld { helper: true, ..w2 };
    let c3 = (LaunchState::AwaitingClaim, w3);
    assert(launch_step(platform, c2) == c3);
    lemma_launch_unrolls(platform, c3, (n - 1) as nat);
    let c4 = (LaunchState::Committing, w3);
    assert(launch_step(platform, c3) == c4);
    lemma_launch_unrolls(platform, c4, (n - 2) as nat);
    let w5 = LaunchWorld { committed: true, ..w3 };
    let c5 = (LaunchState::Unlocking, w5);
    assert(launch_step(platform, c4) == c5);
    lemma_launch_unrolls(platform, c5, (n - 3) as nat);
    let c6 = (LaunchState::AwaitingReady, w5);
    assert(launch_step(platform, c5) == c6);
    lemma_launch_unrolls(platform, c6, (n - 4) as nat);
    let c7 = launch_step(platform, c6);
    if world.fails is None {
        assert(c7 == (LaunchState::Succeeded, w5));
        lemma_launch_ended(platform, c7, (n - 5) as nat);
    } else {
        let abort = Abort { helper: true, committed: true };
        assert(c7 == (LaunchState::Aborting { abort, step: AbortStep::RequestingStop }, w5));
        lemma_launch_given_up(platform, abort, w5, (n - 5) as nat);
    }
}

/// Wherever a start fails before the helper has its lease, all is given up under the lock: the owner is asked to
/// stop, a helper that was started is waited for, and then the lid is put back.
pub proof fn law_early_failures_are_given_up(
    platform: Platform,
    state: LaunchState,
    world: LaunchWorld,
)
    requires
        world.gives_up_well(),
        !world.rolled_back && !world.session_removed && !world.watchdog_removed && !world.discarded
            && !world.helper_awaited,
        state is Encoding || state is Reserving || state is WritingPending || state
            is PreparingCommand || state is Spawning || state is AwaitingClaim,
        world.fails == Some(launch_wants(state)),
    ensures
        ({
            let (end, after) = launch_steps(platform, (state, world), 20);
            let cleans = world.owner_ends && !world.foreign;
            &&& end is Failed && after.stop_requested && !after.discarded
            &&& after.rolled_back == cleans && after.session_removed == cleans
                && after.watchdog_removed == cleans
            &&& after.helper_awaited == (world.owner_ends && state is AwaitingClaim)
        }),
{
    let c0 = (state, world);
    lemma_launch_unrolls(platform, c0, 20);
    let helper = state is AwaitingClaim;
    let c1 = (give_up(helper), world);
    assert(launch_step(platform, c0) == c1);
    lemma_launch_unrolls(platform, c1, 19);
    let abort = Abort { helper, committed: false };
    assert(launch_step(platform, c1) == (
        LaunchState::Aborting { abort, step: AbortStep::RequestingStop },
        world,
    ));
    lemma_launch_given_up(platform, abort, world, 18);
}

/// A watchdog has published itself exactly where the record is the owner's, names a process, and that is the
/// expected one and lives; before it names one there is nothing yet, and anything else is an error.
pub proof fn law_watchdogs_publish_themselves(
    owner: (u32, Seq<char>),
    state: Option<super::Watch>,
    expected_pid: Option<u32>,
    live: Result<bool, Fault>,
)
    ensures
        ({
            let r = publication(owner, state, expected_pid, live);
            let own = state matches Some(watch) && watch.owner == owner;
            let named = own && state->0.watchdog.0 != 0;
            let right = named && (expected_pid matches Some(pid) ==> state->0.watchdog.0 == pid);
            &&& r == Ok::<bool, Fault>(true) <==> right && live == Ok::<bool, Fault>(true)
            &&& r == Ok::<bool, Fault>(false) <==> state is None || (own && !named)
        }),
{
}

/// A session is told in order: that it was stopped, that the record is another's, that its watchdog has ended,
/// that it is ready, or that its time is over: fifteen seconds without a record, five minutes with one.
pub proof fn law_sessions_wait_so_long(
    owner: (u32, Seq<char>),
    published: bool,
    stop_requested: bool,
    state: Option<super::Watch>,
    live: bool,
    elapsed: Span,
)
    ensures
        ({
            let r = ready_wait(owner, published, stop_requested, state, live, elapsed);
            let own = state matches Some(watch) && watch.owner == owner;
            let named = own && state->0.watchdog.0 > 0;
            &&& r is Stopped <==> stop_requested
            &&& !stop_requested ==> {
                &&& r is Mismatched <==> state is Some && !own
                &&& r is Exited <==> named && !live
                &&& r is Ready <==> named && live && state->0.ready
                &&& r is Disappeared <==> state is None && published
                &&& r is NotPublished <==> state is None && !published && elapsed.seconds >= 15
                &&& r is NotReady <==> own && !(named && (!live || state->0.ready))
                    && elapsed.seconds >= 300
                &&& r matches ReadyWait::Again { published: p } ==> p == (state is Some)
            }
        }),
{
}

/// A helper is waited for fifteen seconds at most: to claim its lease and to become ready, which it must do
/// before it ends, and to end once it is given up.
pub proof fn law_helpers_are_waited_for(
    elapsed: Span,
    ended: Option<u32>,
    answer: bool,
    claimed: Option<Result<(), AppError>>,
    ready: Option<Result<(), AppError>>,
    gone: Option<Result<(), AppError>>,
)
    requires
        call_ensures(wait_for_child_claimed, (elapsed, ended, answer), claimed),
        call_ensures(wait_for_child_ready, (elapsed, answer, ended), ready),
        call_ensures(wait_for_helper_exit, (elapsed, answer), gone),
    ensures
        claimed matches Some(Ok(_)) <==> elapsed.seconds < 15 && ended is None && answer,
        claimed is None <==> elapsed.seconds < 15 && ended is None && !answer,
        ready matches Some(Ok(_)) <==> elapsed.seconds < 15 && ended is None && answer,
        ready is None <==> elapsed.seconds < 15 && ended is None && !answer,
        gone matches Some(Ok(_)) <==> elapsed.seconds < 15 && answer,
        gone is None <==> elapsed.seconds < 15 && !answer,
{
}

/// A recorded watchdog is waited for where it watches the owner's session; one that watches another's is an
/// error, and nothing is waited for where none is recorded.
pub proof fn law_recorded_watchdogs_are_the_owners(
    owner: LeaseRef,
    state: Option<&WatchdogState>,
    r: Result<bool, AppError>,
)
    requires
        call_ensures(recorded_watchdog, (&owner, state), r),
    ensures
        r == Ok::<bool, AppError>(true) <==> (state matches Some(s) && s@.owner == owner@),
        r == Ok::<bool, AppError>(false) <==> state is None,
{
}

} // verus!
