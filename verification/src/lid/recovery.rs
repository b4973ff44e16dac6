//! What is done with records of a lid that were left over, and how a lid session is stopped.

use vstd::prelude::*;
use vstd::string::*;

use super::{
    LeaseRef, Marker, OwnedSession, Prepared, WatchdogState, marked_actions, sleep_from_marker,
    snapshot_from_marker, uses_watchdog,
};
use crate::error::{AppError, Fault, outcome};
use crate::platform::Platform;

verus! {

/// What a saved session is found to be.
#[derive(Clone, Copy, Debug, PartialEq, Eq, Structural)]
pub enum RecoverySession {
    Missing,
    Malformed,
    LiveOrdinary,
    LiveLid,
    Stale,
}

/// What the record of a watchdog is found to be.
#[derive(Clone, Copy, Debug, PartialEq, Eq, Structural)]
pub enum RecoveryWatchdog {
    Missing,
    Malformed,
    Valid { watchdog_live: bool, owner_live: bool, owner_matches_session: bool },
}

/// What is to be done.
#[derive(Clone, Copy, Debug, PartialEq, Eq, Structural)]
pub enum RecoveryDecision {
    Keep,
    Remove,
    Restore,
    QuiesceRestore,
    Reject,
}

/// Whether a recorded watchdog or the owner it watches lives.
pub open spec fn something_lives(watchdog: RecoveryWatchdog) -> bool {
    watchdog matches RecoveryWatchdog::Valid { watchdog_live, owner_live, .. } && (watchdog_live
        || owner_live)
}

/// What is to be done with the records of a lid. With a `marker` the lid is to be put back, unless its session
/// goes on; what lives is stopped first, and what belongs to another session is not touched. Without
/// one there is nothing to put back, and only what is dead is removed.
pub open spec fn decision(
    marker: bool,
    session: RecoverySession,
    watchdog: RecoveryWatchdog,
) -> RecoveryDecision {
    if watchdog is Malformed {
        RecoveryDecision::Reject
    } else if !marker {
        if session is Malformed || session is LiveLid || something_lives(watchdog) {
            RecoveryDecision::Reject
        } else if session is Stale || watchdog is Valid {
            RecoveryDecision::Remove
        } else {
            RecoveryDecision::Keep
        }
    } else if session is LiveOrdinary {
        RecoveryDecision::Reject
    } else {
        match watchdog {
            RecoveryWatchdog::Valid { watchdog_live, owner_live, owner_matches_session } => {
                if !(session is Missing) && !owner_matches_session && something_lives(watchdog) {
                    RecoveryDecision::Reject
                } else if session is LiveLid && watchdog_live {
                    RecoveryDecision::Keep
                } else if session is LiveLid || something_lives(watchdog) {
                    RecoveryDecision::QuiesceRestore
                } else {
                    RecoveryDecision::Restore
                }
            },
            _ => if session is LiveLid {
                RecoveryDecision::Keep
            } else {
                RecoveryDecision::Restore
            },
        }
    }
}

pub fn decide_recovery(marker: bool, session: RecoverySession, watchdog: RecoveryWatchdog) -> (r:
    RecoveryDecision)
    ensures
        r == decision(marker, session, watchdog),
{
    if !marker {
        return match (session, watchdog) {
            (RecoverySession::Malformed, _) => RecoveryDecision::Reject,
            (RecoverySession::LiveLid, _) => RecoveryDecision::Reject,
            (_, RecoveryWatchdog::Malformed) => RecoveryDecision::Reject,
            (_, RecoveryWatchdog::Valid { watchdog_live, owner_live, .. }) => if watchdog_live
                || owner_live {
                RecoveryDecision::Reject
            } else {
                RecoveryDecision::Remove
            },
            (RecoverySession::Stale, _) => RecoveryDecision::Remove,
            _ => RecoveryDecision::Keep,
        };
    }
    match (session, watchdog) {
        (_, RecoveryWatchdog::Malformed) => RecoveryDecision::Reject,
        (RecoverySession::LiveOrdinary, _) => RecoveryDecision::Reject,
        (RecoverySession::LiveLid, RecoveryWatchdog::Missing) => RecoveryDecision::Keep,
        (_, RecoveryWatchdog::Missing) => RecoveryDecision::Restore,
        (
            RecoverySession::Missing,
            RecoveryWatchdog::Valid { watchdog_live, owner_live, .. },
        ) => if watchdog_live || owner_live {
            RecoveryDecision::QuiesceRestore
        } else {
            RecoveryDecision::Restore
        },
        (_, RecoveryWatchdog::Valid { watchdog_live, owner_live, owner_matches_session }) => {
            let live_lid = session == RecoverySession::LiveLid;
            if !owner_matches_session && (watchdog_live || owner_live) {
                RecoveryDecision::Reject
            } else if live_lid && watchdog_live {
                RecoveryDecision::Keep
            } else if live_lid || watchdog_live || owner_live {
                RecoveryDecision::QuiesceRestore
            } else {
                RecoveryDecision::Restore
            }
        },
    }
}

/// Recovery does not guess. What cannot be read of a watchdog is refused. The lid is put back only where a
/// marker says so, and without stopping anything only where nothing lives. Records are removed
/// only where there is no marker and nothing lives. With a marker nothing is left alone but a live
/// lid session.
pub proof fn law_recovery_does_not_guess(
    marker: bool,
    session: RecoverySession,
    watchdog: RecoveryWatchdog,
)
    ensures
        ({
            let d = decision(marker, session, watchdog);
            &&& watchdog is Malformed ==> d is Reject
            &&& d is Restore || d is QuiesceRestore ==> marker && !(session is LiveOrdinary)
            &&& d is Restore ==> !something_lives(watchdog) && !(session is LiveLid)
            &&& d is Remove ==> !marker && !something_lives(watchdog) && !(session is LiveLid)
                && !(session is Malformed)
            &&& d is Keep && marker ==> session is LiveLid
            &&& d is Keep && !marker ==> watchdog is Missing && (session is Missing
                || session is LiveOrdinary)
            &&& d is QuiesceRestore ==> something_lives(watchdog) || session is LiveLid
        }),
{
}

/// What a saved session is. `saved` holds it where it can be read, and `owner_live` tells whether its process
/// lives.
pub fn recovery_session(
    platform: Platform,
    saved: &Result<Option<OwnedSession>, AppError>,
    owner_live: bool,
) -> (r: RecoverySession)
    ensures
        r == (match saved {
            Err(_) => RecoverySession::Malformed,
            Ok(None) => RecoverySession::Missing,
            Ok(Some(session)) => if !owner_live {
                RecoverySession::Stale
            } else if session.spec@.even_lid && platform != Platform::Linux {
                RecoverySession::LiveLid
            } else {
                RecoverySession::LiveOrdinary
            },
        }),
{
    match saved {
        Err(_) => RecoverySession::Malformed,
        Ok(None) => RecoverySession::Missing,
        Ok(Some(session)) => {
            if !owner_live {
                RecoverySession::Stale
            } else if uses_watchdog(platform, &session.spec) {
                RecoverySession::LiveLid
            } else {
                RecoverySession::LiveOrdinary
            }
        },
    }
}

/// What the record of a watchdog is. `lives` tells whether the watchdog and its owner live.
pub fn recovery_watchdog(
    saved: &Result<Option<OwnedSession>, AppError>,
    watchdog: &Result<Option<WatchdogState>, AppError>,
    lives: (bool, bool),
) -> (r: RecoveryWatchdog)
    ensures
        r == (match watchdog {
            Err(_) => RecoveryWatchdog::Malformed,
            Ok(None) => RecoveryWatchdog::Missing,
            Ok(Some(state)) => RecoveryWatchdog::Valid {
                watchdog_live: lives.0,
                owner_live: lives.1,
                owner_matches_session: saved matches Ok(Some(session)) && session.owner@
                    == state.owner@,
            },
        }),
{
    match watchdog {
        Err(_) => RecoveryWatchdog::Malformed,
        Ok(None) => RecoveryWatchdog::Missing,
        Ok(Some(state)) => {
            let matching = match saved {
                Ok(Some(session)) => session.owner.same(&state.owner),
                _ => false,
            };
            RecoveryWatchdog::Valid {
                watchdog_live: lives.0,
                owner_live: lives.1,
                owner_matches_session: matching,
            }
        },
    }
}

/// The error of records that do not fit together: what could not be read, if anything.
pub fn rejection(saved: Option<AppError>, watchdog: Option<AppError>) -> (r: AppError)
    ensures
        r@ == (match (saved, watchdog) {
            (Some(e), _) => e@,
            (None, Some(e)) => e@,
            (None, None) => Fault::Fail("inconsistent lid recovery state"@),
        }),
{
    match (saved, watchdog) {
        (Some(e), _) => e,
        (None, Some(e)) => e,
        (None, None) => AppError::fail("inconsistent lid recovery state"),
    }
}

/// What the system answers.
#[derive(Clone, Copy, Debug, PartialEq, Eq, Structural)]
pub enum LidEvent {
    Done,
    Failed,
    /// The answer to a question.
    Answer(bool),
    /// What the saved session is.
    Session(RecoverySession),
    /// What the record of the watchdog is.
    Watchdog(RecoveryWatchdog),
}

/// What recovery, rolling back and stopping ask for.
#[derive(Clone, Copy, Debug, PartialEq, Eq, Structural)]
pub enum LidAction {
    /// Remove the leases of processes that are gone.
    CleanLeases,
    /// Tell whether there is a marker, and read it.
    ReadMarker,
    /// Tell what the saved session is.
    ReadSession,
    /// Tell what the record of the watchdog is.
    ReadWatchdog,
    /// Read out of the marker what is to be put back.
    ReadSnapshot,
    /// Tell whether the lid is as the marker says it was.
    CheckRestored,
    ClearMarker,
    /// Put the lid back, with more rights.
    RestoreElevated,
    /// Put the lid back from here.
    RestoreLid,
    /// Stop what still lives.
    Quiesce,
    /// Put the lid back if it is not, and clear the marker.
    RollBack,
    RemoveState,
    RemoveWatchdog,
    /// Clear requests to stop that nobody waits for.
    ReconcileStop,
    /// Tell whether the saved session and watchdog are another owner's.
    CheckOwner,
    /// Ask the owner to stop.
    RequestStop,
    /// Tell whether the owner ended within so long.
    AwaitOwner { seconds: u64 },
    /// Tell whether the watchdog ended within so long.
    AwaitWatchdog { seconds: u64 },
    /// Clear the request to stop.
    ClearStop,
    /// Make sure that the helper's program can be trusted.
    CheckProgram,
    /// Tell whether there is a terminal to ask on.
    CheckTerminal,
    /// Ask the user for more rights.
    Authenticate,
    WriteMarker,
    Finish,
}

/// How far recovery has come.
#[derive(Clone, Copy, Debug, PartialEq, Eq, Structural)]
pub enum RecoveryState {
    CleaningLeases,
    ReadingMarker,
    ReadingSession { marker: bool },
    ReadingWatchdog { marker: bool, session: RecoverySession },
    RemovingStale { watchdog: bool },
    RemovingDead,
    ReadingSnapshot { quiesce: bool },
    Quiescing,
    RollingBack,
    RemovingState,
    RemovingWatchdog,
    ReconcilingStop,
    Succeeded,
    /// The records do not fit together.
    Rejected,
    /// This system has no lid to put back.
    Unsupported,
    Failed,
}

/// What recovery asks for next.
pub open spec fn recovery_wants(state: RecoveryState) -> LidAction {
    match state {
        RecoveryState::CleaningLeases => LidAction::CleanLeases,
        RecoveryState::ReadingMarker => LidAction::ReadMarker,
        RecoveryState::ReadingSession { .. } => LidAction::ReadSession,
        RecoveryState::ReadingWatchdog { .. } => LidAction::ReadWatchdog,
        RecoveryState::RemovingStale { .. } => LidAction::RemoveState,
        RecoveryState::RemovingDead => LidAction::RemoveWatchdog,
        RecoveryState::ReadingSnapshot { .. } => LidAction::ReadSnapshot,
        RecoveryState::Quiescing => LidAction::Quiesce,
        RecoveryState::RollingBack => LidAction::RollBack,
        RecoveryState::RemovingState => LidAction::RemoveState,
        RecoveryState::RemovingWatchdog => LidAction::RemoveWatchdog,
        RecoveryState::ReconcilingStop => LidAction::ReconcileStop,
        _ => LidAction::Finish,
    }
}

/// Where a decision leads.
pub open spec fn decided(
    platform: Platform,
    marker: bool,
    session: RecoverySession,
    watchdog: RecoveryWatchdog,
) -> RecoveryState {
    match decision(marker, session, watchdog) {
        RecoveryDecision::Keep => RecoveryState::Succeeded,
        RecoveryDecision::Reject => RecoveryState::Rejected,
        RecoveryDecision::Remove => if session is Stale {
            RecoveryState::RemovingStale { watchdog: watchdog is Valid }
        } else if watchdog is Valid {
            RecoveryState::RemovingDead
        } else {
            RecoveryState::Succeeded
        },
        RecoveryDecision::Restore => if platform == Platform::Linux {
            RecoveryState::Unsupported
        } else {
            RecoveryState::ReadingSnapshot { quiesce: false }
        },
        RecoveryDecision::QuiesceRestore => if platform == Platform::Linux {
            RecoveryState::Unsupported
        } else {
            RecoveryState::ReadingSnapshot { quiesce: true }
        },
    }
}

/// Where recovery goes from `state` on `event`.
pub open spec fn recovery_next(platform: Platform, state: RecoveryState, event: LidEvent) -> RecoveryState {
    match (state, event) {
        (RecoveryState::Succeeded, _) => state,
        (RecoveryState::Rejected, _) => state,
        (RecoveryState::Unsupported, _) => state,
        (RecoveryState::CleaningLeases, LidEvent::Done) => RecoveryState::ReadingMarker,
        (RecoveryState::ReadingMarker, LidEvent::Answer(marker)) => RecoveryState::ReadingSession {
            marker,
        },
        (RecoveryState::ReadingSession { marker }, LidEvent::Session(session)) => {
            RecoveryState::ReadingWatchdog { marker, session }
        },
        (RecoveryState::ReadingWatchdog { marker, session }, LidEvent::Watchdog(watchdog)) => {
            decided(platform, marker, session, watchdog)
        },
        (RecoveryState::RemovingStale { watchdog }, LidEvent::Done) => if watchdog {
            RecoveryState::RemovingDead
        } else {
            RecoveryState::Succeeded
        },
        (RecoveryState::RemovingDead, LidEvent::Done) => RecoveryState::Succeeded,
        (RecoveryState::ReadingSnapshot { quiesce }, LidEvent::Done) => if quiesce {
            RecoveryState::Quiescing
        } else {
            RecoveryState::RollingBack
        },
        (RecoveryState::Quiescing, LidEvent::Done) => RecoveryState::RollingBack,
        (RecoveryState::RollingBack, LidEvent::Done) => RecoveryState::RemovingState,
        (RecoveryState::RemovingState, LidEvent::Done) => RecoveryState::RemovingWatchdog,
        (RecoveryState::RemovingWatchdog, LidEvent::Done) => RecoveryState::ReconcilingStop,
        (RecoveryState::ReconcilingStop, LidEvent::Done) => RecoveryState::Succeeded,
        (_, LidEvent::Failed) => RecoveryState::Failed,
        _ => state,
    }
}

pub fn recovery_asks(state: RecoveryState) -> (r: LidAction)
    ensures
        r == recovery_wants(state),
{
    match state {
        RecoveryState::CleaningLeases => LidAction::CleanLeases,
        RecoveryState::ReadingMarker => LidAction::ReadMarker,
        RecoveryState::ReadingSession { .. } => LidAction::ReadSession,
        RecoveryState::ReadingWatchdog { .. } => LidAction::ReadWatchdog,
        RecoveryState::RemovingStale { .. } => LidAction::RemoveState,
        RecoveryState::RemovingDead => LidAction::RemoveWatchdog,
        RecoveryState::ReadingSnapshot { .. } => LidAction::ReadSnapshot,
        RecoveryState::Quiescing => LidAction::Quiesce,
        RecoveryState::RollingBack => LidAction::RollBack,
        RecoveryState::RemovingState => LidAction::RemoveState,
        RecoveryState::RemovingWatchdog => LidAction::RemoveWatchdog,
        RecoveryState::ReconcilingStop => LidAction::ReconcileStop,
        _ => LidAction::Finish,
    }
}

fn decide(
    platform: Platform,
    marker: bool,
    session: RecoverySession,
    watchdog: RecoveryWatchdog,
) -> (r: RecoveryState)
    ensures
        r == decided(platform, marker, session, watchdog),
{
    let recorded = match watchdog {
        RecoveryWatchdog::Valid { .. } => true,
        _ => false,
    };
    let linux = match platform {
        Platform::Linux => true,
        _ => false,
    };
    match decide_recovery(marker, session, watchdog) {
        RecoveryDecision::Keep => RecoveryState::Succeeded,
        RecoveryDecision::Reject => RecoveryState::Rejected,
        RecoveryDecision::Remove => if session == RecoverySession::Stale {
            RecoveryState::RemovingStale { watchdog: recorded }
        } else if recorded {
            RecoveryState::RemovingDead
        } else {
            RecoveryState::Succeeded
        },
        RecoveryDecision::Restore => if linux {
            RecoveryState::Unsupported
        } else {
            RecoveryState::ReadingSnapshot { quiesce: false }
        },
        RecoveryDecision::QuiesceRestore => if linux {
            RecoveryState::Unsupported
        } else {
            RecoveryState::ReadingSnapshot { quiesce: true }
        },
    }
}

/// Where recovery goes from `state` on `event`.
pub fn recover_unlocked(platform: Platform, state: RecoveryState, event: LidEvent) -> (r: RecoveryState)
    ensures
        r == recovery_next(platform, state, event),
{
    match (state, event) {
        (RecoveryState::Succeeded, _) => state,
        (RecoveryState::Rejected, _) => state,
        (RecoveryState::Unsupported, _) => state,
        (RecoveryState::CleaningLeases, LidEvent::Done) => RecoveryState::ReadingMarker,
        (RecoveryState::ReadingMarker, LidEvent::Answer(marker)) => RecoveryState::ReadingSession {
            marker,
        },
        (RecoveryState::ReadingSession { marker }, LidEvent::Session(session)) => {
            RecoveryState::ReadingWatchdog { marker, session }
        },
        (RecoveryState::ReadingWatchdog { marker, session }, LidEvent::Watchdog(watchdog)) => {
            decide(platform, marker, session, watchdog)
        },
        (RecoveryState::RemovingStale { watchdog }, LidEvent::Done) => if watchdog {
            RecoveryState::RemovingDead
        } else {
            RecoveryState::Succeeded
        },
        (RecoveryState::RemovingDead, LidEvent::Done) => RecoveryState::Succeeded,
        (RecoveryState::ReadingSnapshot { quiesce }, LidEvent::Done) => if quiesce {
            RecoveryState::Quiescing
        } else {
            RecoveryState::RollingBack
        },
        (RecoveryState::Quiescing, LidEvent::Done) => RecoveryState::RollingBack,
        (RecoveryState::RollingBack, LidEvent::Done) => RecoveryState::RemovingState,
        (RecoveryState::RemovingState, LidEvent::Done) => RecoveryState::RemovingWatchdog,
        (RecoveryState::RemovingWatchdog, LidEvent::Done) => RecoveryState::ReconcilingStop,
        (RecoveryState::ReconcilingStop, LidEvent::Done) => RecoveryState::Succeeded,
        (_, LidEvent::Failed) => RecoveryState::Failed,
        _ => state,
    }
}

/// The error of a recovery that ended badly without a call that failed.
pub fn unsupported_recovery() -> (r: AppError)
    ensures
        r@ == Fault::Fail("lid restoration marker found on unsupported platform"@),
{
    AppError::fail("lid restoration marker found on unsupported platform")
}

/// Where recovery stands after these events.
pub open spec fn recovery_after(platform: Platform, events: Seq<LidEvent>) -> RecoveryState
    decreases events.len(),
{
    if events.len() == 0 {
        RecoveryState::CleaningLeases
    } else {
        recovery_next(platform, recovery_after(platform, events.drop_last()), events.last())
    }
}

/// What recovery has found and done after these events: what it was told of marker, session and watchdog, if
/// it was told all three; and whether it stopped what lived, and put the lid back.
pub open spec fn recovery_did(platform: Platform, events: Seq<LidEvent>) -> (
    Option<(bool, RecoverySession, RecoveryWatchdog)>,
    bool,
    bool,
)
    decreases events.len(),
{
    if events.len() == 0 {
        (None, false, false)
    } else {
        let before = events.drop_last();
        let did = recovery_did(platform, before);
        match (recovery_after(platform, before), events.last()) {
            (RecoveryState::ReadingWatchdog { marker, session }, LidEvent::Watchdog(watchdog)) => (
                Some((marker, session, watchdog)),
                did.1,
                did.2,
            ),
            (RecoveryState::Quiescing, LidEvent::Done) => (did.0, true, did.2),
            (RecoveryState::RollingBack, LidEvent::Done) => (did.0, did.1, true),
            _ => did,
        }
    }
}

proof fn lemma_recovery(platform: Platform, events: Seq<LidEvent>)
    ensures
        ({
            let did = recovery_did(platform, events);
            let restores = did.0 matches Some((m, s, w)) && {
                ||| decision(m, s, w) is Restore
                ||| decision(m, s, w) is QuiesceRestore && did.1
            };
            match recovery_after(platform, events) {
                RecoveryState::CleaningLeases | RecoveryState::ReadingMarker
                | RecoveryState::ReadingSession { .. } | RecoveryState::ReadingWatchdog { .. } => {
                    did == (None::<(bool, RecoverySession, RecoveryWatchdog)>, false, false)
                },
                RecoveryState::RemovingStale { .. } | RecoveryState::RemovingDead => {
                    did.0 matches Some((m, s, w)) && decision(m, s, w) is Remove
                },
                RecoveryState::ReadingSnapshot { quiesce } => did.0 matches Some((m, s, w))
                    && decision(m, s, w) == (if quiesce {
                    RecoveryDecision::QuiesceRestore
                } else {
                    RecoveryDecision::Restore
                }),
                RecoveryState::Quiescing => did.0 matches Some((m, s, w)) && decision(
                    m,
                    s,
                    w,
                ) is QuiesceRestore,
                RecoveryState::RollingBack => restores,
                RecoveryState::RemovingState | RecoveryState::RemovingWatchdog
                | RecoveryState::ReconcilingStop => restores && did.2,
                _ => true,
            }
        }),
    decreases events.len(),
{
    if events.len() > 0 {
        lemma_recovery(platform, events.drop_last());
    }
}

/// Whatever happens, the lid is put back only where that was decided, and after what lived was stopped; and
/// records are removed only where the decision was to remove them, or after the lid was put back.
pub proof fn law_recovery_keeps_records_until_the_lid_is_back(
    platform: Platform,
    events: Seq<LidEvent>,
)
    ensures
        ({
            let did = recovery_did(platform, events);
            let action = recovery_wants(recovery_after(platform, events));
            &&& action is RollBack ==> (did.0 matches Some((m, s, w)) && (decision(
                m,
                s,
                w,
            ) is Restore || (decision(m, s, w) is QuiesceRestore && did.1)))
            &&& action is RemoveState || action is RemoveWatchdog ==> did.2 || (did.0 matches Some(
                (m, s, w),
            ) && decision(m, s, w) is Remove)
        }),
{
    lemma_recovery(platform, events);
}

/// Whose process is to be stopped before the lid is put back: the owner of a lid session, or else the one that
/// the watchdog watches.
pub fn quiesce_owner<'a>(
    saved: Option<&'a OwnedSession>,
    watchdog: Option<&'a WatchdogState>,
) -> (r: Option<&'a LeaseRef>)
    ensures
        (match r {
            Some(owner) => Some(owner@),
            None => None,
        }) == (match (saved, watchdog) {
            (Some(session), _) if session.spec@.even_lid => Some(session.owner@),
            (_, Some(state)) => Some(state.owner@),
            _ => None,
        }),
{
    match saved {
        Some(session) => {
            if session.spec.even_lid {
                return Some(&session.owner);
            }
        },
        None => {},
    }
    match watchdog {
        Some(state) => Some(&state.owner),
        None => None,
    }
}

/// How far stopping what lives has come.
#[derive(Clone, Copy, Debug, PartialEq, Eq, Structural)]
pub enum QuiesceState {
    RequestingStop,
    AwaitingOwner,
    AwaitingWatchdog,
    Succeeded,
    /// The owner did not end in time.
    OwnerStuck,
    /// The watchdog did not end in time.
    WatchdogStuck,
    Failed,
}

/// Where stopping what lives starts: with the owner, if there is one, then the watchdog, if there is one.
pub open spec fn quiesce_start(owner: bool, watchdog: bool) -> QuiesceState {
    if owner {
        QuiesceState::RequestingStop
    } else if watchdog {
        QuiesceState::AwaitingWatchdog
    } else {
        QuiesceState::Succeeded
    }
}

pub fn begin_quiesce(owner: bool, watchdog: bool) -> (r: QuiesceState)
    ensures
        r == quiesce_start(owner, watchdog),
{
    if owner {
        QuiesceState::RequestingStop
    } else if watchdog {
        QuiesceState::AwaitingWatchdog
    } else {
        QuiesceState::Succeeded
    }
}

pub fn quiesce_asks(state: QuiesceState) -> (r: LidAction)
    ensures
        r == (match state {
            QuiesceState::RequestingStop => LidAction::RequestStop,
            QuiesceState::AwaitingOwner => LidAction::AwaitOwner { seconds: 15 },
            QuiesceState::AwaitingWatchdog => LidAction::AwaitWatchdog { seconds: 15 },
            _ => LidAction::Finish,
        }),
{
    match state {
        QuiesceState::RequestingStop => LidAction::RequestStop,
        QuiesceState::AwaitingOwner => LidAction::AwaitOwner { seconds: 15 },
        QuiesceState::AwaitingWatchdog => LidAction::AwaitWatchdog { seconds: 15 },
        _ => LidAction::Finish,
    }
}

/// Where stopping what lives goes from `state` on `event`. `watchdog` tells whether there is one.
pub fn quiesce_recovery(watchdog: bool, state: QuiesceState, event: LidEvent) -> (r: QuiesceState)
    ensures
        r == (match (state, event) {
            (QuiesceState::RequestingStop, LidEvent::Done) => QuiesceState::AwaitingOwner,
            (QuiesceState::AwaitingOwner, LidEvent::Answer(ended)) => if !ended {
                QuiesceState::OwnerStuck
            } else if watchdog {
                QuiesceState::AwaitingWatchdog
            } else {
                QuiesceState::Succeeded
            },
            (QuiesceState::AwaitingWatchdog, LidEvent::Answer(ended)) => if ended {
                QuiesceState::Succeeded
            } else {
                QuiesceState::WatchdogStuck
            },
            (QuiesceState::Succeeded, _) => state,
            (QuiesceState::OwnerStuck, _) => state,
            (QuiesceState::WatchdogStuck, _) => state,
            (_, LidEvent::Failed) => QuiesceState::Failed,
            _ => state,
        }),
{
    match (state, event) {
        (QuiesceState::RequestingStop, LidEvent::Done) => QuiesceState::AwaitingOwner,
        (QuiesceState::AwaitingOwner, LidEvent::Answer(ended)) => if !ended {
            QuiesceState::OwnerStuck
        } else if watchdog {
            QuiesceState::AwaitingWatchdog
        } else {
            QuiesceState::Succeeded
        },
        (QuiesceState::AwaitingWatchdog, LidEvent::Answer(ended)) => if ended {
            QuiesceState::Succeeded
        } else {
            QuiesceState::WatchdogStuck
        },
        (QuiesceState::Succeeded, _) => state,
        (QuiesceState::OwnerStuck, _) => state,
        (QuiesceState::WatchdogStuck, _) => state,
        (_, LidEvent::Failed) => QuiesceState::Failed,
        _ => state,
    }
}

/// The error of something that could not be stopped.
pub fn quiesce_error(watchdog: bool) -> (r: AppError)
    ensures
        r@ == Fault::Fail(
            if watchdog {
                "lid watchdog did not exit after its owner"@
            } else {
                "could not stop lid session owner"@
            },
        ),
{
    if watchdog {
        AppError::fail("lid watchdog did not exit after its owner")
    } else {
        AppError::fail("could not stop lid session owner")
    }
}

/// How far putting the lid back has come.
#[derive(Clone, Copy, Debug, PartialEq, Eq, Structural)]
pub enum RollbackState {
    ReadingMarker,
    ReadingSnapshot,
    CheckingRestored { known: bool },
    ClearingMarker,
    ReadingMarkerAgain,
    RestoringElevated,
    CheckingCleared,
    Succeeded,
    /// The marker is still there.
    NotCleared,
    Failed,
}

/// What putting the lid back asks for next.
pub open spec fn rollback_wants(state: RollbackState) -> LidAction {
    match state {
        RollbackState::ReadingMarker => LidAction::ReadMarker,
        RollbackState::ReadingSnapshot => LidAction::ReadSnapshot,
        RollbackState::CheckingRestored { .. } => LidAction::CheckRestored,
        RollbackState::ClearingMarker => LidAction::ClearMarker,
        RollbackState::ReadingMarkerAgain => LidAction::ReadMarker,
        RollbackState::RestoringElevated => LidAction::RestoreElevated,
        RollbackState::CheckingCleared => LidAction::ReadMarker,
        _ => LidAction::Finish,
    }
}

/// Where putting the lid back goes from `state` on `event`. If the lid is as the marker says it was, the marker is
/// cleared; else a helper puts it back, and clears the marker.
pub open spec fn rollback_next(state: RollbackState, event: LidEvent) -> RollbackState {
    match (state, event) {
        (RollbackState::Succeeded, _) => state,
        (RollbackState::NotCleared, _) => state,
        (RollbackState::ReadingMarker, LidEvent::Answer(marker)) => if marker {
            RollbackState::ReadingSnapshot
        } else {
            RollbackState::Succeeded
        },
        (RollbackState::ReadingSnapshot, LidEvent::Done) => RollbackState::CheckingRestored {
            known: false,
        },
        (RollbackState::CheckingRestored { known }, LidEvent::Answer(restored)) => if restored {
            RollbackState::ClearingMarker
        } else if known {
            RollbackState::RestoringElevated
        } else {
            RollbackState::ReadingMarkerAgain
        },
        (RollbackState::ClearingMarker, LidEvent::Done) => RollbackState::Succeeded,
        (RollbackState::ReadingMarkerAgain, LidEvent::Answer(marker)) => if marker {
            RollbackState::RestoringElevated
        } else {
            RollbackState::Succeeded
        },
        (RollbackState::RestoringElevated, LidEvent::Done) => RollbackState::CheckingCleared,
        (RollbackState::CheckingCleared, LidEvent::Answer(marker)) => if marker {
            RollbackState::NotCleared
        } else {
            RollbackState::Succeeded
        },
        (_, LidEvent::Failed) => RollbackState::Failed,
        _ => state,
    }
}

pub fn rollback_asks(state: RollbackState) -> (r: LidAction)
    ensures
        r == rollback_wants(state),
{
    match state {
        RollbackState::ReadingMarker => LidAction::ReadMarker,
        RollbackState::ReadingSnapshot => LidAction::ReadSnapshot,
        RollbackState::CheckingRestored { .. } => LidAction::CheckRestored,
        RollbackState::ClearingMarker => LidAction::ClearMarker,
        RollbackState::ReadingMarkerAgain => LidAction::ReadMarker,
        RollbackState::RestoringElevated => LidAction::RestoreElevated,
        RollbackState::CheckingCleared => LidAction::ReadMarker,
        _ => LidAction::Finish,
    }
}

/// What a prepared session marked, where it says something on this system.
pub open spec fn marked(platform: Platform, marker: Marker) -> Result<(), Fault> {
    match platform {
        Platform::Linux => Err(Fault::Fail("unexpected Linux lid recovery state"@)),
        Platform::Windows => match marked_actions(marker) {
            Ok(_) => Ok(()),
            Err(e) => Err(e),
        },
        Platform::Macos => match marker {
            Marker::Macos { .. } => Ok(()),
            Marker::Windows { .. } => Err(
                Fault::Fail("Windows lid restoration marker found on macOS"@),
            ),
        },
    }
}

/// Where undoing a start begins: its marker is known, and must say something on this system.
pub fn rollback_start(platform: Platform, prepared: &Prepared) -> (r: Result<RollbackState, AppError>)
    ensures
        outcome(r) == (match marked(platform, prepared.marker@) {
            Ok(_) => Ok::<RollbackState, Fault>(RollbackState::CheckingRestored { known: true }),
            Err(e) => Err(e),
        }),
{
    match platform {
        Platform::Linux => return Err(AppError::fail("unexpected Linux lid recovery state")),
        Platform::Windows => match snapshot_from_marker(&prepared.marker) {
            Ok(_) => {},
            Err(e) => return Err(e),
        },
        Platform::Macos => match sleep_from_marker(&prepared.marker) {
            Ok(_) => {},
            Err(e) => return Err(e),
        },
    }
    Ok(RollbackState::CheckingRestored { known: true })
}

/// Where putting the lid back goes from `state` on `event`.
pub fn rollback_pending_marker(state: RollbackState, event: LidEvent) -> (r: RollbackState)
    ensures
        r == rollback_next(state, event),
{
    match (state, event) {
        (RollbackState::Succeeded, _) => state,
        (RollbackState::NotCleared, _) => state,
        (RollbackState::ReadingMarker, LidEvent::Answer(marker)) => if marker {
            RollbackState::ReadingSnapshot
        } else {
            RollbackState::Succeeded
        },
        (RollbackState::ReadingSnapshot, LidEvent::Done) => RollbackState::CheckingRestored {
            known: false,
        },
        (RollbackState::CheckingRestored { known }, LidEvent::Answer(restored)) => if restored {
            RollbackState::ClearingMarker
        } else if known {
            RollbackState::RestoringElevated
        } else {
            RollbackState::ReadingMarkerAgain
        },
        (RollbackState::ClearingMarker, LidEvent::Done) => RollbackState::Succeeded,
        (RollbackState::ReadingMarkerAgain, LidEvent::Answer(marker)) => if marker {
            RollbackState::RestoringElevated
        } else {
            RollbackState::Succeeded
        },
        (RollbackState::RestoringElevated, LidEvent::Done) => RollbackState::CheckingCleared,
        (RollbackState::CheckingCleared, LidEvent::Answer(marker)) => if marker {
            RollbackState::NotCleared
        } else {
            RollbackState::Succeeded
        },
        (_, LidEvent::Failed) => RollbackState::Failed,
        _ => state,
    }
}

/// The error of a marker that is still there after the lid was put back.
pub fn marker_not_cleared() -> (r: AppError)
    ensures
        r@ == Fault::Fail("lid restoration marker was not cleared"@),
{
    AppError::fail("lid restoration marker was not cleared")
}

/// The marker is cleared from here only where the lid was found to be back; and putting it back succeeds only
/// where the marker was cleared or found to be gone.
pub proof fn law_markers_go_after_the_lid_is_back(state: RollbackState, event: LidEvent)
    ensures
        rollback_wants(rollback_next(state, event)) is ClearMarker && !(rollback_wants(
            state,
        ) is ClearMarker) ==> rollback_wants(state) is CheckRestored && event == LidEvent::Answer(
            true,
        ),
        rollback_next(state, event) is Succeeded && !(state is Succeeded) ==> (rollback_wants(
            state,
        ) is ClearMarker && event is Done) || (rollback_wants(state) is ReadMarker && event
            == LidEvent::Answer(false)),
{
}

/// How far stopping a lid session has come.
#[derive(Clone, Copy, Debug, PartialEq, Eq, Structural)]
pub enum FinishState {
    CheckingOwner,
    Quiescing,
    RollingBack,
    RemovingSession,
    ClearingStop,
    RemovingWatchdog,
    Succeeded,
    /// Linux has no lid sessions of this kind.
    Unexpected,
    Failed,
}

/// What stopping a lid session asks for next.
pub open spec fn finish_wants(state: FinishState) -> LidAction {
    match state {
        FinishState::CheckingOwner => LidAction::CheckOwner,
        FinishState::Quiescing => LidAction::Quiesce,
        FinishState::RollingBack => LidAction::RollBack,
        FinishState::RemovingSession => LidAction::RemoveState,
        FinishState::ClearingStop => LidAction::ClearStop,
        FinishState::RemovingWatchdog => LidAction::RemoveWatchdog,
        _ => LidAction::Finish,
    }
}

/// Where stopping a lid session goes from `state` on `event`. Nothing is touched where the records are another
/// owner's.
pub open spec fn finish_next(state: FinishState, event: LidEvent) -> FinishState {
    match (state, event) {
        (FinishState::Succeeded, _) => state,
        (FinishState::Unexpected, _) => state,
        (FinishState::CheckingOwner, LidEvent::Answer(another)) => if another {
            FinishState::Succeeded
        } else {
            FinishState::Quiescing
        },
        (FinishState::Quiescing, LidEvent::Done) => FinishState::RollingBack,
        (FinishState::RollingBack, LidEvent::Done) => FinishState::RemovingSession,
        (FinishState::RemovingSession, LidEvent::Done) => FinishState::ClearingStop,
        (FinishState::ClearingStop, LidEvent::Done) => FinishState::RemovingWatchdog,
        (FinishState::RemovingWatchdog, LidEvent::Done) => FinishState::Succeeded,
        (_, LidEvent::Failed) => FinishState::Failed,
        _ => state,
    }
}

/// Where stopping a lid session begins.
pub fn begin_finish(platform: Platform) -> (r: FinishState)
    ensures
        r == (if platform == Platform::Linux {
            FinishState::Unexpected
        } else {
            FinishState::CheckingOwner
        }),
{
    match platform {
        Platform::Linux => FinishState::Unexpected,
        _ => FinishState::CheckingOwner,
    }
}

pub fn finish_asks(state: FinishState) -> (r: LidAction)
    ensures
        r == finish_wants(state),
{
    match state {
        FinishState::CheckingOwner => LidAction::CheckOwner,
        FinishState::Quiescing => LidAction::Quiesce,
        FinishState::RollingBack => LidAction::RollBack,
        FinishState::RemovingSession => LidAction::RemoveState,
        FinishState::ClearingStop => LidAction::ClearStop,
        FinishState::RemovingWatchdog => LidAction::RemoveWatchdog,
        _ => LidAction::Finish,
    }
}

/// Where stopping a lid session goes from `state` on `event`.
pub fn finish_stop(state: FinishState, event: LidEvent) -> (r: FinishState)
    ensures
        r == finish_next(state, event),
{
    match (state, event) {
        (FinishState::Succeeded, _) => state,
        (FinishState::Unexpected, _) => state,
        (FinishState::CheckingOwner, LidEvent::Answer(another)) => if another {
            FinishState::Succeeded
        } else {
            FinishState::Quiescing
        },
        (FinishState::Quiescing, LidEvent::Done) => FinishState::RollingBack,
        (FinishState::RollingBack, LidEvent::Done) => FinishState::RemovingSession,
        (FinishState::RemovingSession, LidEvent::Done) => FinishState::ClearingStop,
        (FinishState::ClearingStop, LidEvent::Done) => FinishState::RemovingWatchdog,
        (FinishState::RemovingWatchdog, LidEvent::Done) => FinishState::Succeeded,
        (_, LidEvent::Failed) => FinishState::Failed,
        _ => state,
    }
}

/// The error of a lid session where there should be none.
pub fn unexpected_session() -> (r: AppError)
    ensures
        r@ == Fault::Fail("unexpected Linux lid session"@),
{
    AppError::fail("unexpected Linux lid session")
}

/// A stop removes the session only right after the lid was put back, which it does only after what lived was
/// stopped; and the watchdog's record goes last.
pub proof fn law_stops_put_the_lid_back_first(state: FinishState, event: LidEvent)
    ensures
        finish_wants(finish_next(state, event)) is RemoveState && !(finish_wants(
            state,
        ) is RemoveState) ==> finish_wants(state) is RollBack && event is Done,
        finish_wants(finish_next(state, event)) is RollBack && !(finish_wants(state) is RollBack)
            ==> finish_wants(state) is Quiesce && event is Done,
        finish_next(state, event) is Succeeded && !(state is Succeeded) ==> (finish_wants(
            state,
        ) is RemoveWatchdog && event is Done) || (finish_wants(state) is CheckOwner && event
            == LidEvent::Answer(true)),
{
}

/// Whether the saved session is to be removed once its watchdog is done: it must be the watched one's, and
/// its process must have ended. Nothing is to be removed where there is none.
pub fn remove_matching_session(owner: &LeaseRef, current: Option<&OwnedSession>, live: bool) -> (r:
    Result<bool, AppError>)
    ensures
        outcome(r) == (match current {
            None => Ok::<bool, Fault>(false),
            Some(actual) => if actual.owner@ != owner@ {
                Err(Fault::Fail("session owner changed before lid restoration"@))
            } else if live {
                Err(Fault::Fail("lid session owner is still running after watchdog exit"@))
            } else {
                Ok(true)
            },
        }),
{
    match current {
        None => Ok(false),
        Some(actual) => {
            if !actual.owner.same(owner) {
                Err(AppError::fail("session owner changed before lid restoration"))
            } else if live {
                Err(AppError::fail("lid session owner is still running after watchdog exit"))
            } else {
                Ok(true)
            }
        },
    }
}

/// How far a helper that puts the lid back has come.
#[derive(Clone, Copy, Debug, PartialEq, Eq, Structural)]
pub enum RestoreState {
    ReadingMarker,
    ReadingSnapshot,
    Restoring,
    Clearing,
    Succeeded,
    NoMarker,
    Failed,
}

pub fn restore_asks(state: RestoreState) -> (r: LidAction)
    ensures
        r == (match state {
            RestoreState::ReadingMarker => LidAction::ReadMarker,
            RestoreState::ReadingSnapshot => LidAction::ReadSnapshot,
            RestoreState::Restoring => LidAction::RestoreLid,
            RestoreState::Clearing => LidAction::ClearMarker,
            _ => LidAction::Finish,
        }),
{
    match state {
        RestoreState::ReadingMarker => LidAction::ReadMarker,
        RestoreState::ReadingSnapshot => LidAction::ReadSnapshot,
        RestoreState::Restoring => LidAction::RestoreLid,
        RestoreState::Clearing => LidAction::ClearMarker,
        _ => LidAction::Finish,
    }
}

/// Where a helper that puts the lid back goes from `state` on `event`. The marker goes only after the lid is
/// back.
pub fn run_restore(state: RestoreState, event: LidEvent) -> (r: RestoreState)
    ensures
        r == (match (state, event) {
            (RestoreState::ReadingMarker, LidEvent::Answer(marker)) => if marker {
                RestoreState::ReadingSnapshot
            } else {
                RestoreState::NoMarker
            },
            (RestoreState::ReadingSnapshot, LidEvent::Done) => RestoreState::Restoring,
            (RestoreState::Restoring, LidEvent::Done) => RestoreState::Clearing,
            (RestoreState::Clearing, LidEvent::Done) => RestoreState::Succeeded,
            (RestoreState::Succeeded, _) => state,
            (RestoreState::NoMarker, _) => state,
            (_, LidEvent::Failed) => RestoreState::Failed,
            _ => state,
        }),
{
    match (state, event) {
        (RestoreState::ReadingMarker, LidEvent::Answer(marker)) => if marker {
            RestoreState::ReadingSnapshot
        } else {
            RestoreState::NoMarker
        },
        (RestoreState::ReadingSnapshot, LidEvent::Done) => RestoreState::Restoring,
        (RestoreState::Restoring, LidEvent::Done) => RestoreState::Clearing,
        (RestoreState::Clearing, LidEvent::Done) => RestoreState::Succeeded,
        (RestoreState::Succeeded, _) => state,
        (RestoreState::NoMarker, _) => state,
        (_, LidEvent::Failed) => RestoreState::Failed,
        _ => state,
    }
}

/// The word that tells a helper where the state is.
pub fn restore_word(args: &[String]) -> (r: Result<&str, AppError>)
    ensures
        match r {
            Ok(word) => args@.len() == 1 && word@ == args@[0]@,
            Err(e) => args@.len() != 1 && e@ == Fault::Fail(
                "lid restore expects a state directory"@,
            ),
        },
{
    if args.len() == 1 {
        Ok(args[0].as_str())
    } else {
        Err(AppError::fail("lid restore expects a state directory"))
    }
}

/// The error of a helper that finds nothing to put back.
pub fn missing_marker() -> (r: AppError)
    ensures
        r@ == Fault::Fail("no lid restoration marker found"@),
{
    AppError::fail("no lid restoration marker found")
}

/// How far preparing a lid session has come.
#[derive(Clone, Copy, Debug, PartialEq, Eq, Structural)]
pub enum PrepareState {
    CheckingProgram,
    CheckingTerminal,
    Authenticating,
    ReadingSnapshot,
    WritingMarker,
    Prepared,
    NotNeeded,
    /// There is no terminal to ask for a password on.
    NoTerminal,
    Failed,
}

/// Where preparing a session begins.
pub open spec fn prepare_begin(platform: Platform, even_lid: bool) -> PrepareState {
    if !even_lid || platform == Platform::Linux {
        PrepareState::NotNeeded
    } else if platform == Platform::Macos {
        PrepareState::CheckingProgram
    } else {
        PrepareState::ReadingSnapshot
    }
}

pub fn begin_prepare(platform: Platform, even_lid: bool) -> (r: PrepareState)
    ensures
        r == prepare_begin(platform, even_lid),
{
    if !even_lid {
        return PrepareState::NotNeeded;
    }
    match platform {
        Platform::Linux => PrepareState::NotNeeded,
        Platform::Macos => PrepareState::CheckingProgram,
        Platform::Windows => PrepareState::ReadingSnapshot,
    }
}

/// What preparing a session asks for next.
pub open spec fn prepare_wants(state: PrepareState) -> LidAction {
    match state {
        PrepareState::CheckingProgram => LidAction::CheckProgram,
        PrepareState::CheckingTerminal => LidAction::CheckTerminal,
        PrepareState::Authenticating => LidAction::Authenticate,
        PrepareState::ReadingSnapshot => LidAction::ReadSnapshot,
        PrepareState::WritingMarker => LidAction::WriteMarker,
        _ => LidAction::Finish,
    }
}

pub fn prepare_asks(state: PrepareState) -> (r: LidAction)
    ensures
        r == prepare_wants(state),
{
    match state {
        PrepareState::CheckingProgram => LidAction::CheckProgram,
        PrepareState::CheckingTerminal => LidAction::CheckTerminal,
        PrepareState::Authenticating => LidAction::Authenticate,
        PrepareState::ReadingSnapshot => LidAction::ReadSnapshot,
        PrepareState::WritingMarker => LidAction::WriteMarker,
        _ => LidAction::Finish,
    }
}

/// Where preparing a session goes from `state` on `event`: what is there is marked before anything is changed.
pub fn prepare_start(state: PrepareState, event: LidEvent) -> (r: PrepareState)
    ensures
        r == (match (state, event) {
            (PrepareState::CheckingProgram, LidEvent::Done) => PrepareState::CheckingTerminal,
            (PrepareState::CheckingTerminal, LidEvent::Answer(terminal)) => if terminal {
                PrepareState::Authenticating
            } else {
                PrepareState::NoTerminal
            },
            (PrepareState::Authenticating, LidEvent::Done) => PrepareState::ReadingSnapshot,
            (PrepareState::ReadingSnapshot, LidEvent::Done) => PrepareState::WritingMarker,
            (PrepareState::WritingMarker, LidEvent::Done) => PrepareState::Prepared,
            (PrepareState::Prepared, _) => state,
            (PrepareState::NotNeeded, _) => state,
            (PrepareState::NoTerminal, _) => state,
            (_, LidEvent::Failed) => PrepareState::Failed,
            _ => state,
        }),
{
    match (state, event) {
        (PrepareState::CheckingProgram, LidEvent::Done) => PrepareState::CheckingTerminal,
        (PrepareState::CheckingTerminal, LidEvent::Answer(terminal)) => if terminal {
            PrepareState::Authenticating
        } else {
            PrepareState::NoTerminal
        },
        (PrepareState::Authenticating, LidEvent::Done) => PrepareState::ReadingSnapshot,
        (PrepareState::ReadingSnapshot, LidEvent::Done) => PrepareState::WritingMarker,
        (PrepareState::WritingMarker, LidEvent::Done) => PrepareState::Prepared,
        (PrepareState::Prepared, _) => state,
        (PrepareState::NotNeeded, _) => state,
        (PrepareState::NoTerminal, _) => state,
        (_, LidEvent::Failed) => PrepareState::Failed,
        _ => state,
    }
}

/// The error of a lid session without a terminal.
pub fn no_terminal() -> (r: AppError)
    ensures
        r@ == Fault::Fail("--even-lid needs an interactive terminal for sudo authentication"@),
{
    AppError::fail("--even-lid needs an interactive terminal for sudo authentication")
}

/// Recovery refuses exactly where a record cannot be read that it needs, where something lives without a marker,
/// and where with a marker an ordinary session lives or what lives belongs to another session. Otherwise,
/// with a marker, it leaves a live lid session alone whose watchdog lives or was never recorded.
pub proof fn law_recovery_refuses_what_does_not_fit(
    marker: bool,
    session: RecoverySession,
    watchdog: RecoveryWatchdog,
)
    ensures
        ({
            let d = decision(marker, session, watchdog);
            let lives = watchdog matches RecoveryWatchdog::Valid {
                watchdog_live,
                owner_live,
                ..
            } && (watchdog_live || owner_live);
            let foreign = watchdog matches RecoveryWatchdog::Valid {
                owner_matches_session,
                ..
            } && !owner_matches_session;
            &&& d is Reject <==> watchdog is Malformed || (!marker && (session is Malformed
                || session is LiveLid || lives)) || (marker && (session is LiveOrdinary || (lives
                && foreign && session !is Missing)))
            &&& d is Keep && marker <==> d !is Reject && marker && session is LiveLid && (watchdog
                is Missing || (watchdog matches RecoveryWatchdog::Valid { watchdog_live, .. }
                && watchdog_live))
            &&& d is Remove <==> d !is Reject && !marker && (session is Stale || watchdog is Valid)
        }),
{
}

/// What the records are found to be: a session lives where its process does, has the lid where it asks for it
/// and the system keeps it so, and is the watched one where both have the same owner.
pub proof fn law_records_are_taken_for_what_they_are(
    platform: Platform,
    saved: Result<Option<OwnedSession>, AppError>,
    owner_live: bool,
    watchdog: Result<Option<WatchdogState>, AppError>,
    lives: (bool, bool),
    session: RecoverySession,
    found: RecoveryWatchdog,
)
    requires
        call_ensures(recovery_session, (platform, &saved, owner_live), session),
        call_ensures(recovery_watchdog, (&saved, &watchdog, lives), found),
    ensures
        saved is Err <==> session is Malformed,
        saved matches Ok(None) ==> session is Missing,
        saved matches Ok(Some(s)) ==> (session is Stale <==> !owner_live) && (session is LiveLid
            <==> owner_live && s.spec@.even_lid && platform != Platform::Linux) && (session
            is LiveOrdinary <==> owner_live && !(s.spec@.even_lid && platform != Platform::Linux)),
        watchdog is Err <==> found is Malformed,
        watchdog matches Ok(None) ==> found is Missing,
        watchdog matches Ok(Some(w)) ==> (found matches RecoveryWatchdog::Valid {
            watchdog_live,
            owner_live,
            owner_matches_session,
        } && watchdog_live == lives.0 && owner_live == lives.1 && (owner_matches_session <==> (
        saved matches Ok(Some(s)) && s.owner@ == w.owner@))),
{
}

/// A system as recovery, rolling back and stopping meet it: what they are told, what fails, and what was done to
/// it so far.
pub struct LidWorld {
    pub marker: bool,
    pub session: RecoverySession,
    pub watchdog: RecoveryWatchdog,
    /// Whether the lid is as the marker says it was.
    pub restored: bool,
    /// Whether the records are another owner's.
    pub foreign: bool,
    /// What fails, if anything does.
    pub fails: Option<LidAction>,
    /// Whether the helper with more rights clears the marker.
    pub clears: bool,
    pub quiesced: bool,
    pub rolled_back: bool,
    pub state_removed: bool,
    pub watchdog_removed: bool,
    pub stop_cleared: bool,
    pub elevated: bool,
}

impl LidWorld {
    /// What the system answers to an action, and what it is then.
    pub open spec fn answer(self, action: LidAction) -> (LidWorld, LidEvent) {
        if self.fails == Some(action) {
            (self, LidEvent::Failed)
        } else {
            match action {
                LidAction::ReadMarker => (self, LidEvent::Answer(self.marker)),
                LidAction::ReadSession => (self, LidEvent::Session(self.session)),
                LidAction::ReadWatchdog => (self, LidEvent::Watchdog(self.watchdog)),
                LidAction::CheckRestored => (self, LidEvent::Answer(self.restored)),
                LidAction::ClearMarker => (LidWorld { marker: false, ..self }, LidEvent::Done),
                LidAction::RestoreElevated => (
                    LidWorld {
                        elevated: true,
                        restored: true,
                        marker: self.marker && !self.clears,
                        ..self
                    },
                    LidEvent::Done,
                ),
                LidAction::Quiesce => (LidWorld { quiesced: true, ..self }, LidEvent::Done),
                LidAction::RollBack => (LidWorld { rolled_back: true, ..self }, LidEvent::Done),
                LidAction::RemoveState => (
                    LidWorld { state_removed: true, ..self },
                    LidEvent::Done,
                ),
                LidAction::RemoveWatchdog => (
                    LidWorld { watchdog_removed: true, ..self },
                    LidEvent::Done,
                ),
                LidAction::ClearStop => (LidWorld { stop_cleared: true, ..self }, LidEvent::Done),
                LidAction::ReconcileStop => (
                    LidWorld { stop_cleared: true, ..self },
                    LidEvent::Done,
                ),
                LidAction::CheckOwner => (self, LidEvent::Answer(self.foreign)),
                _ => (self, LidEvent::Done),
            }
        }
    }

    /// Whether nothing has been done yet.
    pub open spec fn untouched(self) -> bool {
        !self.quiesced && !self.rolled_back && !self.state_removed && !self.watchdog_removed
            && !self.stop_cleared && !self.elevated
    }
}

/// A step of recovery.
pub open spec fn recovery_step(platform: Platform, at: (RecoveryState, LidWorld)) -> (
    RecoveryState,
    LidWorld,
) {
    let (world, event) = at.1.answer(recovery_wants(at.0));
    (recovery_next(platform, at.0, event), world)
}

/// Where recovery stands after so many steps.
#[verifier::opaque]
pub open spec fn recovery_steps(
    platform: Platform,
    at: (RecoveryState, LidWorld),
    steps: nat,
) -> (RecoveryState, LidWorld)
    decreases steps,
{
    if steps == 0 {
        at
    } else {
        recovery_steps(platform, recovery_step(platform, at), (steps - 1) as nat)
    }
}

proof fn lemma_recovery_unrolls(platform: Platform, at: (RecoveryState, LidWorld), steps: nat)
    requires
        steps > 0,
    ensures
        recovery_steps(platform, at, steps) == recovery_steps(
            platform,
            recovery_step(platform, at),
            (steps - 1) as nat,
        ),
{
    reveal(recovery_steps);
}

proof fn lemma_recovery_ended(platform: Platform, at: (RecoveryState, LidWorld), steps: nat)
    requires
        at.0 is Succeeded || at.0 is Failed || at.0 is Rejected || at.0 is Unsupported,
    ensures
        recovery_steps(platform, at, steps) == at,
    decreases steps,
{
    reveal(recovery_steps);
    if steps > 0 {
        assert(recovery_step(platform, at) == at);
        lemma_recovery_ended(platform, at, (steps - 1) as nat);
    }
}

/// What recovery comes to once the lid is to be put back.
proof fn lemma_recovery_restores(
    platform: Platform,
    quiesce: bool,
    world: LidWorld,
    steps: nat,
)
    requires
        world.untouched(),
        world.fails is None,
        steps > 6,
    ensures
        recovery_steps(platform, (RecoveryState::ReadingSnapshot { quiesce }, world), steps) == (
            RecoveryState::Succeeded,
            LidWorld {
                quiesced: quiesce,
                rolled_back: true,
                state_removed: true,
                watchdog_removed: true,
                stop_cleared: true,
                ..world
            },
        ),
{
    let c0 = (RecoveryState::ReadingSnapshot { quiesce }, world);
    lemma_recovery_unrolls(platform, c0, steps);
    let w1 = LidWorld { quiesced: quiesce, ..world };
    let n: nat = if quiesce {
        (steps - 2) as nat
    } else {
        (steps - 1) as nat
    };
    if quiesce {
        let c1 = (RecoveryState::Quiescing, world);
        assert(recovery_step(platform, c0) == c1);
        lemma_recovery_unrolls(platform, c1, (steps - 1) as nat);
        assert(recovery_step(platform, c1) == (RecoveryState::RollingBack, w1));
    } else {
        assert(recovery_step(platform, c0) == (RecoveryState::RollingBack, w1));
    }
    let c2 = (RecoveryState::RollingBack, w1);
    lemma_recovery_unrolls(platform, c2, n);
    let w3 = LidWorld { rolled_back: true, ..w1 };
    let c3 = (RecoveryState::RemovingState, w3);
    assert(recovery_step(platform, c2) == c3);
    lemma_recovery_unrolls(platform, c3, (n - 1) as nat);
    let w4 = LidWorld { state_removed: true, ..w3 };
    let c4 = (RecoveryState::RemovingWatchdog, w4);
    assert(recovery_step(platform, c3) == c4);
    lemma_recovery_unrolls(platform, c4, (n - 2) as nat);
    let w5 = LidWorld { watchdog_removed: true, ..w4 };
    let c5 = (RecoveryState::ReconcilingStop, w5);
    assert(recovery_step(platform, c4) == c5);
    lemma_recovery_unrolls(platform, c5, (n - 3) as nat);
    lemma_recovery_ended(platform, recovery_step(platform, c5), (n - 4) as nat);
}

/// Where nothing fails, recovery does what was decided: it puts the lid back and removes the records, after it
/// stopped what lives where that was decided; it removes what is dead and nothing else; or it touches
/// nothing. On Linux there is no lid to put back.
pub proof fn law_recovery_does_what_was_decided(platform: Platform, world: LidWorld)
    requires
        world.untouched(),
        world.fails is None,
    ensures
        ({
            let (state, after) = recovery_steps(
                platform,
                (RecoveryState::CleaningLeases, world),
                16,
            );
            match decision(world.marker, world.session, world.watchdog) {
                RecoveryDecision::Keep => state is Succeeded && after == world,
                RecoveryDecision::Reject => state is Rejected && after == world,
                RecoveryDecision::Remove => state is Succeeded && after.state_removed == (
                world.session is Stale) && after.watchdog_removed == (world.watchdog is Valid)
                    && !after.rolled_back && !after.quiesced,
                RecoveryDecision::Restore => if platform == Platform::Linux {
                    state is Unsupported && after == world
                } else {
                    state is Succeeded && after.rolled_back && !after.quiesced
                        && after.state_removed && after.watchdog_removed && after.stop_cleared
                },
                RecoveryDecision::QuiesceRestore => if platform == Platform::Linux {
                    state is Unsupported && after == world
                } else {
                    state is Succeeded && after.rolled_back && after.quiesced && after.state_removed
                        && after.watchdog_removed && after.stop_cleared
                },
            }
        }),
{
    let c0 = (RecoveryState::CleaningLeases, world);
    lemma_recovery_unrolls(platform, c0, 16);
    let c1 = (RecoveryState::ReadingMarker, world);
    assert(recovery_step(platform, c0) == c1);
    lemma_recovery_unrolls(platform, c1, 15);
    let c2 = (RecoveryState::ReadingSession { marker: world.marker }, world);
    assert(recovery_step(platform, c1) == c2);
    lemma_recovery_unrolls(platform, c2, 14);
    let c3 = (
        RecoveryState::ReadingWatchdog { marker: world.marker, session: world.session },
        world,
    );
    assert(recovery_step(platform, c2) == c3);
    lemma_recovery_unrolls(platform, c3, 13);
    let c4 = (decided(platform, world.marker, world.session, world.watchdog), world);
    assert(recovery_step(platform, c3) == c4);
    match c4.0 {
        RecoveryState::ReadingSnapshot { quiesce } => {
            lemma_recovery_restores(platform, quiesce, world, 12);
        },
        RecoveryState::RemovingStale { watchdog } => {
            lemma_recovery_unrolls(platform, c4, 12);
            let c5 = recovery_step(platform, c4);
            let w5 = LidWorld { state_removed: true, ..world };
            if watchdog {
                assert(c5 == (RecoveryState::RemovingDead, w5));
                lemma_recovery_unrolls(platform, c5, 11);
                lemma_recovery_ended(platform, recovery_step(platform, c5), 10);
            } else {
                lemma_recovery_ended(platform, c5, 11);
            }
        },
        RecoveryState::RemovingDead => {
            lemma_recovery_unrolls(platform, c4, 12);
            lemma_recovery_ended(platform, recovery_step(platform, c4), 11);
        },
        _ => {
            lemma_recovery_ended(platform, c4, 12);
        },
    }
}

/// A step of putting the lid back.
pub open spec fn rollback_step(at: (RollbackState, LidWorld)) -> (RollbackState, LidWorld) {
    let (world, event) = at.1.answer(rollback_wants(at.0));
    (rollback_next(at.0, event), world)
}

/// Putting the lid back does nothing without a marker; with one it clears it where the lid is back already, and
/// has the helper put the lid back and clear the marker where it is not. It succeeds exactly where no
/// marker is left, and then the lid is back.
pub proof fn law_rolling_back_clears_the_marker(world: LidWorld)
    requires
        world.untouched(),
    ensures
        ({
            let c1 = rollback_step((RollbackState::ReadingMarker, world));
            let c2 = rollback_step(c1);
            let c3 = rollback_step(c2);
            let c4 = rollback_step(c3);
            let c5 = rollback_step(c4);
            let (state, after) = rollback_step(c5);
            &&& world.fails is None ==> (state is Succeeded <==> !world.marker || world.restored
                || world.clears)
            &&& world.fails is None && state !is Succeeded ==> state is NotCleared
            &&& state is Succeeded ==> !after.marker && (world.marker ==> after.restored)
            &&& state is Succeeded ==> (after.elevated <==> world.marker && !world.restored)
            &&& world.fails == Some(LidAction::RestoreElevated) && world.marker && !world.restored
                ==> state is Failed && after.marker
            &&& world.fails == Some(LidAction::ClearMarker) && world.marker && world.restored
                ==> state is Failed && after.marker
        }),
{
    let c1 = rollback_step((RollbackState::ReadingMarker, world));
    let c2 = rollback_step(c1);
    let c3 = rollback_step(c2);
    let c4 = rollback_step(c3);
    if world.fails is None && world.marker {
        assert(c1 == (RollbackState::ReadingSnapshot, world));
        assert(c2 == (RollbackState::CheckingRestored { known: false }, world));
        if world.restored {
            assert(c3 == (RollbackState::ClearingMarker, world));
            assert(c4.0 is Succeeded);
        } else {
            assert(c3 == (RollbackState::ReadingMarkerAgain, world));
            assert(c4 == (RollbackState::RestoringElevated, world));
        }
    }
}

/// A step of stopping a lid session.
pub open spec fn finish_step(at: (FinishState, LidWorld)) -> (FinishState, LidWorld) {
    let (world, event) = at.1.answer(finish_wants(at.0));
    (finish_next(at.0, event), world)
}

/// Stopping a lid session stops what lives, puts the lid back and removes all its records; where they are another
/// owner's it touches nothing, and where the lid cannot be put back it keeps them.
pub proof fn law_lid_stops_come_to_their_end(world: LidWorld)
    requires
        world.untouched(),
    ensures
        ({
            let c1 = finish_step((FinishState::CheckingOwner, world));
            let c2 = finish_step(c1);
            let c3 = finish_step(c2);
            let c4 = finish_step(c3);
            let c5 = finish_step(c4);
            let (state, after) = finish_step(c5);
            &&& world.fails is None ==> state is Succeeded
            &&& world.fails is None && world.foreign ==> after == world
            &&& state is Succeeded && !world.foreign ==> after.quiesced && after.rolled_back
                && after.state_removed && after.stop_cleared && after.watchdog_removed
            &&& world.fails == Some(LidAction::RollBack) && !world.foreign ==> state is Failed
                && !after.state_removed && !after.watchdog_removed
            &&& world.fails == Some(LidAction::Quiesce) && !world.foreign ==> state is Failed
                && !after.rolled_back && !after.state_removed
        }),
{
}

/// What lives is stopped in order: the owner is asked to end and must, then the watchdog must, where there is
/// one; nothing is waited for that is not there.
pub proof fn law_what_lives_is_stopped(
    owner: bool,
    watchdog: bool,
    owner_ends: bool,
    watchdog_ends: bool,
    first: QuiesceState,
    asked: QuiesceState,
    ended: QuiesceState,
    last: QuiesceState,
    waits: LidAction,
)
    requires
        call_ensures(begin_quiesce, (owner, watchdog), first),
        owner ==> call_ensures(quiesce_recovery, (watchdog, first, LidEvent::Done), asked),
        owner ==> call_ensures(
            quiesce_recovery,
            (watchdog, asked, LidEvent::Answer(owner_ends)),
            ended,
        ),
        !owner ==> ended == first,
        call_ensures(quiesce_recovery, (watchdog, ended, LidEvent::Answer(watchdog_ends)), last),
        call_ensures(quiesce_asks, (first,), waits),
    ensures
        last is Succeeded <==> (owner ==> owner_ends) && (watchdog ==> watchdog_ends),
        last is OwnerStuck <==> owner && !owner_ends,
        last is WatchdogStuck <==> (owner ==> owner_ends) && watchdog && !watchdog_ends,
        owner ==> waits == LidAction::RequestStop,
        !owner && watchdog ==> waits is AwaitWatchdog,
{
}

/// The owner of a lid session is stopped before the one that a watchdog watches; without either nobody is.
pub proof fn law_the_sessions_owner_is_stopped(
    saved: Option<&OwnedSession>,
    watchdog: Option<&WatchdogState>,
    r: Option<&LeaseRef>,
)
    requires
        call_ensures(quiesce_owner, (saved, watchdog), r),
    ensures
        saved matches Some(s) ==> (s.spec@.even_lid ==> (r matches Some(owner) && owner@
            == s.owner@)),
        (saved matches Some(s) ==> !s.spec@.even_lid) ==> (watchdog matches Some(w) ==> (r
            matches Some(owner) && owner@ == w.owner@)),
        (saved matches Some(s) ==> !s.spec@.even_lid) && watchdog is None ==> r is None,
{
}

/// A session is removed only where it is the watched one's and its process has ended.
pub proof fn law_only_ended_sessions_are_removed(
    owner: LeaseRef,
    current: Option<&OwnedSession>,
    live: bool,
    r: Result<bool, AppError>,
)
    requires
        call_ensures(remove_matching_session, (&owner, current, live), r),
    ensures
        r == Ok::<bool, AppError>(true) <==> (current matches Some(s) && s.owner@ == owner@ && !live),
        r == Ok::<bool, AppError>(false) <==> current is None,
{
}

/// The helper puts the lid back before it clears the marker, and does nothing without one.
pub proof fn law_helpers_put_the_lid_back(
    marker: bool,
    read: RestoreState,
    known: RestoreState,
    back: RestoreState,
    last: RestoreState,
    asked: (LidAction, LidAction, LidAction),
)
    requires
        call_ensures(run_restore, (RestoreState::ReadingMarker, LidEvent::Answer(marker)), read),
        call_ensures(run_restore, (read, LidEvent::Done), known),
        call_ensures(run_restore, (known, LidEvent::Done), back),
        call_ensures(run_restore, (back, LidEvent::Done), last),
        call_ensures(restore_asks, (read,), asked.0),
        call_ensures(restore_asks, (known,), asked.1),
        call_ensures(restore_asks, (back,), asked.2),
    ensures
        marker ==> asked.0 == LidAction::ReadSnapshot && asked.1 == LidAction::RestoreLid && asked.2
            == LidAction::ClearMarker && last is Succeeded,
        !marker ==> last is NoMarker && asked.0 == LidAction::Finish,
        marker ==> forall|failed: RestoreState| #[trigger]
            call_ensures(run_restore, (known, LidEvent::Failed), failed) ==> failed is Failed,
{
}

/// Only a lid session on a system that keeps the lid needs preparing. On a Mac the program must be one to trust
/// and the user must be there and give permission; everywhere what is there is marked before anything is
/// changed.
pub proof fn law_lid_sessions_are_prepared(
    terminal: bool,
    trusted: PrepareState,
    there: PrepareState,
    allowed: PrepareState,
    read: PrepareState,
    written: PrepareState,
)
    requires
        call_ensures(prepare_start, (PrepareState::CheckingProgram, LidEvent::Done), trusted),
        call_ensures(prepare_start, (trusted, LidEvent::Answer(terminal)), there),
        call_ensures(prepare_start, (there, LidEvent::Done), allowed),
        call_ensures(prepare_start, (allowed, LidEvent::Done), read),
        call_ensures(prepare_start, (read, LidEvent::Done), written),
    ensures
        terminal ==> prepare_wants(there) == LidAction::Authenticate && prepare_wants(allowed)
            == LidAction::ReadSnapshot && prepare_wants(read) == LidAction::WriteMarker && written
            is Prepared,
        !terminal ==> written is NoTerminal,
        forall|platform: Platform, even_lid: bool| #[trigger]
            prepare_begin(platform, even_lid) is NotNeeded <==> !even_lid || platform
                == Platform::Linux,
        prepare_wants(prepare_begin(Platform::Macos, true)) == LidAction::CheckProgram,
        prepare_wants(prepare_begin(Platform::Windows, true)) == LidAction::ReadSnapshot,
{
}

} // verus!
