//! The process that watches over the lid: it changes what the lid does, and puts it back when the session ends.

use vstd::prelude::*;
use vstd::string::*;

use super::{LidRestore, LeaseRef, OwnedSession, WatchdogState};
use crate::error::{AppError, Fault, chain, combine_cleanup, outcome};
use crate::error;
use crate::platform::Platform;
use crate::time::Span;

verus! {

/// What a watchdog was told: its lease, and on Windows where the state is.
pub fn watchdog_words(platform: Platform, args: &[String]) -> (r: Result<
    (String, Option<String>),
    AppError,
>)
    ensures
        match r {
            Ok((token, directory)) => {
                &&& args@.len() == (if platform == Platform::Windows {
                    2int
                } else {
                    1
                })
                &&& token@ == args@[0]@
                &&& match directory {
                    Some(d) => platform == Platform::Windows && d@ == args@[1]@,
                    None => platform != Platform::Windows,
                }
            },
            Err(e) => if platform == Platform::Windows {
                args@.len() != 2 && e@ == Fault::Fail(
                    "lid watchdog expects a process lease and state directory"@,
                )
            } else {
                args@.len() != 1 && e@ == Fault::Fail("lid watchdog expects a process lease"@)
            },
        },
{
    match platform {
        Platform::Windows => {
            if args.len() != 2 {
                return Err(
                    AppError::fail("lid watchdog expects a process lease and state directory"),
                );
            }
            Ok((args[0].clone(), Some(args[1].clone())))
        },
        _ => {
            if args.len() != 1 {
                return Err(AppError::fail("lid watchdog expects a process lease"));
            }
            Ok((args[0].clone(), None))
        },
    }
}

/// Whether what is recorded is the start that this watchdog was launched for.
pub fn pending_matches(owner: &LeaseRef, token: &str, pending: &WatchdogState) -> (r: bool)
    ensures
        r == (pending@.owner == owner@ && !pending@.ready && pending@.watchdog == (0u32, token@)),
{
    pending.owner.same(owner) && !pending.ready && pending.watchdog.pid == 0 && crate::text::same(
        pending.watchdog.token.as_str(),
        token,
    )
}

/// A watchdog starts only where everything is still as it was when it was launched.
pub fn validate_watchdog_start(
    saved: &OwnedSession,
    marker: &LidRestore,
    pending: &WatchdogState,
    current: Option<&OwnedSession>,
    owner_live: bool,
    stop_requested: bool,
    current_marker: Option<&LidRestore>,
    current_watchdog: Option<&WatchdogState>,
) -> (r: Result<(), AppError>)
    ensures
        outcome(r) == (if {
            &&& current matches Some(c) && c.owner@ == saved.owner@ && c.spec@ == saved.spec@
                && c.spec@.even_lid
            &&& owner_live
            &&& !stop_requested
            &&& current_marker matches Some(m) && m@ == marker@
            &&& current_watchdog matches Some(w) && w@ == pending@
        } {
            Ok::<(), Fault>(())
        } else {
            Err(Fault::Fail("lid watchdog startup was cancelled"@))
        }),
{
    let session_same = match current {
        Some(c) => c.owner.same(&saved.owner) && c.spec.even_lid && c.spec.same(&saved.spec),
        None => false,
    };
    let marker_same = match current_marker {
        Some(m) => m.same(marker),
        None => false,
    };
    let watchdog_same = match current_watchdog {
        Some(w) => w.same(pending),
        None => false,
    };
    if session_same && owner_live && !stop_requested && marker_same && watchdog_same {
        Ok(())
    } else {
        Err(AppError::fail("lid watchdog startup was cancelled"))
    }
}

/// What the system answers.
#[derive(Clone, Copy, Debug, PartialEq, Eq, Structural)]
pub enum WatchEvent {
    Done,
    Failed,
    /// What was to be read is not there.
    Missing,
    /// The answer to a question.
    Answer(bool),
}

/// What a watchdog asks for.
#[derive(Clone, Copy, Debug, PartialEq, Eq, Structural)]
pub enum WatchAction {
    /// Find the state directory.
    DecodeDirectory,
    ClaimLease,
    /// Read the session; tell whether it has the lid.
    ReadSession,
    /// Tell whether the session's owner lives.
    CheckOwner,
    ReadMarker,
    /// Read out of the marker what is to be put back.
    ReadSnapshot,
    /// Read what is recorded of the watchdog; tell whether it is this one's start.
    ReadPending,
    /// Tell whether the owner is gone or was asked to stop.
    CheckCancelled,
    /// Tell whether the lock could be taken.
    TryLock,
    Sleep(Span),
    /// Check that everything is still as it was.
    Validate,
    /// Record that this is the watchdog.
    PublishStarting,
    /// Change what the lid does.
    DisableLid,
    /// Record that the lid is changed.
    PublishReady,
    RestoreLid,
    ClearMarker,
    RemoveWatchdog,
    Unlock,
    /// Tell whether the lid is still changed.
    CheckLid,
    /// Ask the owner to stop, and wait until it has, so long at most.
    StopOwner { seconds: u64 },
    RemoveSession,
    ClearStop,
    Finish,
}

/// Why a watchdog failed.
#[derive(Clone, Copy, Debug, PartialEq, Eq, Structural)]
pub enum WatchFault {
    /// The call that failed says why.
    FirstError,
    NoSession,
    NotLive,
    NoMarker,
    Cancelled,
    StateChanged,
    PowerChanged,
}

/// What ended the watching: nothing but the session's end, or a fault, after which the owner may have been hard
/// to stop.
#[derive(Clone, Copy, Debug, PartialEq, Eq, Structural)]
pub struct Verdict {
    pub fault: Option<WatchFault>,
    pub stop_failed: bool,
}

/// How far a watchdog has come.
#[derive(Clone, Copy, Debug, PartialEq, Eq, Structural)]
pub enum WatchState {
    Decoding,
    Claiming,
    ReadingSession,
    CheckingOwner,
    ReadingMarker,
    ReadingSnapshot,
    ReadingPending,
    CheckingCancelled,
    TryingLock,
    PausingBriefly,
    Validating,
    /// The start is off; the record of it is removed.
    Cancelling { fault: WatchFault },
    PublishingStarting,
    Disabling,
    PublishingReady,
    /// The change failed and is undone.
    UndoingChange,
    UndoingMarker,
    UndoingRecord,
    Unlocking,
    WatchingOwner,
    WatchingLid,
    Pausing,
    /// Watching failed; the owner is to stop if it lives.
    CheckingOwnerAgain { fault: WatchFault },
    StoppingOwner { fault: WatchFault },
    Restoring { verdict: Verdict },
    RemovingSession { verdict: Verdict },
    ClearingStop { verdict: Verdict },
    ClearingMarker { verdict: Verdict },
    RemovingRecord { verdict: Verdict },
    Succeeded,
    /// It failed before anything was changed, and removing the record of it may have failed too.
    Failed { fault: WatchFault, cleanup_failed: bool },
    /// The change failed, and undoing it may have failed too.
    ChangeFailed { rollback_failed: bool },
    /// It watched, and then something failed: the watching, or the cleaning up behind it.
    WatchFailed { verdict: Verdict, cleanup_failed: bool },
}

/// Where a watchdog begins.
pub open spec fn watch_start(platform: Platform) -> WatchState {
    if platform == Platform::Windows {
        WatchState::Decoding
    } else {
        WatchState::Claiming
    }
}

pub fn begin_watch(platform: Platform) -> (r: WatchState)
    ensures
        r == watch_start(platform),
{
    match platform {
        Platform::Windows => WatchState::Decoding,
        _ => WatchState::Claiming,
    }
}

/// What a watchdog asks for next.
pub open spec fn watch_wants(state: WatchState) -> WatchAction {
    match state {
        WatchState::Decoding => WatchAction::DecodeDirectory,
        WatchState::Claiming => WatchAction::ClaimLease,
        WatchState::ReadingSession => WatchAction::ReadSession,
        WatchState::CheckingOwner => WatchAction::CheckOwner,
        WatchState::ReadingMarker => WatchAction::ReadMarker,
        WatchState::ReadingSnapshot => WatchAction::ReadSnapshot,
        WatchState::ReadingPending => WatchAction::ReadPending,
        WatchState::CheckingCancelled => WatchAction::CheckCancelled,
        WatchState::TryingLock => WatchAction::TryLock,
        WatchState::PausingBriefly => WatchAction::Sleep(Span { seconds: 0, nanos: 100_000_000 }),
        WatchState::Validating => WatchAction::Validate,
        WatchState::Cancelling { .. } => WatchAction::RemoveWatchdog,
        WatchState::PublishingStarting => WatchAction::PublishStarting,
        WatchState::Disabling => WatchAction::DisableLid,
        WatchState::PublishingReady => WatchAction::PublishReady,
        WatchState::UndoingChange => WatchAction::RestoreLid,
        WatchState::UndoingMarker => WatchAction::ClearMarker,
        WatchState::UndoingRecord => WatchAction::RemoveWatchdog,
        WatchState::Unlocking => WatchAction::Unlock,
        WatchState::WatchingOwner => WatchAction::CheckOwner,
        WatchState::WatchingLid => WatchAction::CheckLid,
        WatchState::Pausing => WatchAction::Sleep(Span { seconds: 1, nanos: 0 }),
        WatchState::CheckingOwnerAgain { .. } => WatchAction::CheckOwner,
        WatchState::StoppingOwner { .. } => WatchAction::StopOwner { seconds: 15 },
        WatchState::Restoring { .. } => WatchAction::RestoreLid,
        WatchState::RemovingSession { .. } => WatchAction::RemoveSession,
        WatchState::ClearingStop { .. } => WatchAction::ClearStop,
        WatchState::ClearingMarker { .. } => WatchAction::ClearMarker,
        WatchState::RemovingRecord { .. } => WatchAction::RemoveWatchdog,
        _ => WatchAction::Finish,
    }
}

/// A failure before anything was changed.
pub open spec fn refused(fault: WatchFault) -> WatchState {
    WatchState::Failed { fault, cleanup_failed: false }
}

/// Where the end of the watching leads.
pub open spec fn ended(fault: Option<WatchFault>, stop_failed: bool) -> WatchState {
    WatchState::Restoring { verdict: Verdict { fault, stop_failed } }
}

/// Where a watchdog goes from `state` on `event`, up to the lock.
pub open spec fn before_lock(state: WatchState, event: WatchEvent) -> WatchState {
    match (state, event) {
        (WatchState::Decoding, WatchEvent::Done) => WatchState::Claiming,
        (WatchState::Claiming, WatchEvent::Done) => WatchState::ReadingSession,
        (WatchState::ReadingSession, WatchEvent::Missing) => refused(WatchFault::NoSession),
        (WatchState::ReadingSession, WatchEvent::Answer(lid)) => if lid {
            WatchState::CheckingOwner
        } else {
            refused(WatchFault::NotLive)
        },
        (WatchState::CheckingOwner, WatchEvent::Answer(live)) => if live {
            WatchState::ReadingMarker
        } else {
            refused(WatchFault::NotLive)
        },
        (WatchState::ReadingMarker, WatchEvent::Missing) => refused(WatchFault::NoMarker),
        (WatchState::ReadingMarker, WatchEvent::Done) => WatchState::ReadingSnapshot,
        (WatchState::ReadingSnapshot, WatchEvent::Done) => WatchState::ReadingPending,
        (WatchState::ReadingPending, WatchEvent::Missing) => refused(WatchFault::Cancelled),
        (WatchState::ReadingPending, WatchEvent::Answer(matching)) => if matching {
            WatchState::CheckingCancelled
        } else {
            refused(WatchFault::StateChanged)
        },
        (WatchState::CheckingCancelled, WatchEvent::Answer(cancelled)) => if cancelled {
            WatchState::Cancelling { fault: WatchFault::Cancelled }
        } else {
            WatchState::TryingLock
        },
        (WatchState::TryingLock, WatchEvent::Answer(locked)) => if locked {
            WatchState::Validating
        } else {
            WatchState::PausingBriefly
        },
        (WatchState::PausingBriefly, WatchEvent::Done) => WatchState::CheckingCancelled,
        (_, WatchEvent::Failed) => refused(WatchFault::FirstError),
        _ => state,
    }
}

/// Where a watchdog goes from `state` on `event`. Under the lock it checks that its start still stands, records
/// itself, changes the lid and records that; if that fails, the change is undone and what is
/// recorded goes in order. Then it watches until the owner ends or the lid is no longer changed,
/// puts the lid back and removes what is recorded, its own record last.
pub open spec fn watch_next(state: WatchState, event: WatchEvent) -> WatchState {
    match (state, event) {
        (WatchState::Validating, WatchEvent::Done) => WatchState::PublishingStarting,
        (WatchState::Validating, WatchEvent::Failed) => WatchState::Cancelling {
            fault: WatchFault::FirstError,
        },
        (WatchState::Validating, _) => state,
        (WatchState::Cancelling { fault }, WatchEvent::Done) => WatchState::Failed {
            fault,
            cleanup_failed: false,
        },
        (WatchState::Cancelling { fault }, WatchEvent::Failed) => WatchState::Failed {
            fault,
            cleanup_failed: true,
        },
        (WatchState::Cancelling { .. }, _) => state,
        (WatchState::PublishingStarting, WatchEvent::Done) => WatchState::Disabling,
        (WatchState::PublishingStarting, WatchEvent::Failed) => refused(WatchFault::FirstError),
        (WatchState::PublishingStarting, _) => state,
        (WatchState::Disabling, WatchEvent::Done) => WatchState::PublishingReady,
        (WatchState::Disabling, WatchEvent::Failed) => WatchState::UndoingChange,
        (WatchState::Disabling, _) => state,
        (WatchState::PublishingReady, WatchEvent::Done) => WatchState::Unlocking,
        (WatchState::PublishingReady, WatchEvent::Failed) => WatchState::UndoingChange,
        (WatchState::PublishingReady, _) => state,
        (WatchState::UndoingChange, WatchEvent::Done) => WatchState::UndoingMarker,
        (WatchState::UndoingMarker, WatchEvent::Done) => WatchState::UndoingRecord,
        (WatchState::UndoingRecord, WatchEvent::Done) => WatchState::ChangeFailed {
            rollback_failed: false,
        },
        (
            WatchState::UndoingChange | WatchState::UndoingMarker | WatchState::UndoingRecord,
            WatchEvent::Failed,
        ) => WatchState::ChangeFailed { rollback_failed: true },
        (WatchState::UndoingChange | WatchState::UndoingMarker | WatchState::UndoingRecord, _) => state,
        (WatchState::Unlocking, WatchEvent::Done) => WatchState::WatchingOwner,
        (WatchState::Unlocking, _) => state,
        (WatchState::WatchingOwner, WatchEvent::Answer(alive)) => if alive {
            WatchState::WatchingLid
        } else {
            ended(None, false)
        },
        (WatchState::WatchingLid, WatchEvent::Answer(active)) => if active {
            WatchState::Pausing
        } else {
            WatchState::CheckingOwnerAgain { fault: WatchFault::PowerChanged }
        },
        (WatchState::WatchingOwner | WatchState::WatchingLid, WatchEvent::Failed) => {
            WatchState::CheckingOwnerAgain { fault: WatchFault::FirstError }
        },
        (WatchState::WatchingOwner | WatchState::WatchingLid, _) => state,
        (WatchState::Pausing, WatchEvent::Done) => WatchState::WatchingOwner,
        (WatchState::Pausing, _) => state,
        (WatchState::CheckingOwnerAgain { fault }, WatchEvent::Answer(alive)) => if alive {
            WatchState::StoppingOwner { fault }
        } else {
            ended(Some(fault), false)
        },
        (WatchState::CheckingOwnerAgain { fault }, WatchEvent::Failed) => ended(Some(fault), true),
        (WatchState::CheckingOwnerAgain { .. }, _) => state,
        (WatchState::StoppingOwner { fault }, WatchEvent::Done) => ended(Some(fault), false),
        (WatchState::StoppingOwner { fault }, WatchEvent::Failed) => ended(Some(fault), true),
        (WatchState::StoppingOwner { .. }, _) => state,
        (WatchState::Restoring { verdict }, WatchEvent::Done) => WatchState::RemovingSession {
            verdict,
        },
        (WatchState::RemovingSession { verdict }, WatchEvent::Done) => WatchState::ClearingStop {
            verdict,
        },
        (WatchState::ClearingStop { verdict }, WatchEvent::Done) => WatchState::ClearingMarker {
            verdict,
        },
        (WatchState::ClearingMarker { verdict }, WatchEvent::Done) => WatchState::RemovingRecord {
            verdict,
        },
        (WatchState::RemovingRecord { verdict }, WatchEvent::Done) => match verdict.fault {
            None => WatchState::Succeeded,
            Some(_) => WatchState::WatchFailed { verdict, cleanup_failed: false },
        },
        (
            WatchState::Restoring { verdict }
            | WatchState::RemovingSession { verdict }
            | WatchState::ClearingStop { verdict }
            | WatchState::ClearingMarker { verdict }
            | WatchState::RemovingRecord { verdict },
            WatchEvent::Failed,
        ) => WatchState::WatchFailed { verdict, cleanup_failed: true },
        (
            WatchState::Restoring { .. }
            | WatchState::RemovingSession { .. }
            | WatchState::ClearingStop { .. }
            | WatchState::ClearingMarker { .. }
            | WatchState::RemovingRecord { .. }
            | WatchState::Succeeded
            | WatchState::Failed { .. }
            | WatchState::ChangeFailed { .. }
            | WatchState::WatchFailed { .. },
            _,
        ) => state,
        _ => before_lock(state, event),
    }
}

pub fn watch_asks(state: WatchState) -> (r: WatchAction)
    ensures
        r == watch_wants(state),
{
    match state {
        WatchState::Decoding => WatchAction::DecodeDirectory,
        WatchState::Claiming => WatchAction::ClaimLease,
        WatchState::ReadingSession => WatchAction::ReadSession,
        WatchState::CheckingOwner => WatchAction::CheckOwner,
        WatchState::ReadingMarker => WatchAction::ReadMarker,
        WatchState::ReadingSnapshot => WatchAction::ReadSnapshot,
        WatchState::ReadingPending => WatchAction::ReadPending,
        WatchState::CheckingCancelled => WatchAction::CheckCancelled,
        WatchState::TryingLock => WatchAction::TryLock,
        WatchState::PausingBriefly => WatchAction::Sleep(Span { seconds: 0, nanos: 100_000_000 }),
        WatchState::Validating => WatchAction::Validate,
        WatchState::Cancelling { .. } => WatchAction::RemoveWatchdog,
        WatchState::PublishingStarting => WatchAction::PublishStarting,
        WatchState::Disabling => WatchAction::DisableLid,
        WatchState::PublishingReady => WatchAction::PublishReady,
        WatchState::UndoingChange => WatchAction::RestoreLid,
        WatchState::UndoingMarker => WatchAction::ClearMarker,
        WatchState::UndoingRecord => WatchAction::RemoveWatchdog,
        WatchState::Unlocking => WatchAction::Unlock,
        WatchState::WatchingOwner => WatchAction::CheckOwner,
        WatchState::WatchingLid => WatchAction::CheckLid,
        WatchState::Pausing => WatchAction::Sleep(Span { seconds: 1, nanos: 0 }),
        WatchState::CheckingOwnerAgain { .. } => WatchAction::CheckOwner,
        WatchState::StoppingOwner { .. } => WatchAction::StopOwner { seconds: 15 },
        WatchState::Restoring { .. } => WatchAction::RestoreLid,
        WatchState::RemovingSession { .. } => WatchAction::RemoveSession,
        WatchState::ClearingStop { .. } => WatchAction::ClearStop,
        WatchState::ClearingMarker { .. } => WatchAction::ClearMarker,
        WatchState::RemovingRecord { .. } => WatchAction::RemoveWatchdog,
        _ => WatchAction::Finish,
    }
}

fn refuse(fault: WatchFault) -> (r: WatchState)
    ensures
        r == refused(fault),
{
    WatchState::Failed { fault, cleanup_failed: false }
}

fn end(fault: Option<WatchFault>, stop_failed: bool) -> (r: WatchState)
    ensures
        r == ended(fault, stop_failed),
{
    WatchState::Restoring { verdict: Verdict { fault, stop_failed } }
}

fn start_watching(state: WatchState, event: WatchEvent) -> (r: WatchState)
    ensures
        r == before_lock(state, event),
{
    match (state, event) {
        (WatchState::Decoding, WatchEvent::Done) => WatchState::Claiming,
        (WatchState::Claiming, WatchEvent::Done) => WatchState::ReadingSession,
        (WatchState::ReadingSession, WatchEvent::Missing) => refuse(WatchFault::NoSession),
        (WatchState::ReadingSession, WatchEvent::Answer(lid)) => if lid {
            WatchState::CheckingOwner
        } else {
            refuse(WatchFault::NotLive)
        },
        (WatchState::CheckingOwner, WatchEvent::Answer(live)) => if live {
            WatchState::ReadingMarker
        } else {
            refuse(WatchFault::NotLive)
        },
        (WatchState::ReadingMarker, WatchEvent::Missing) => refuse(WatchFault::NoMarker),
        (WatchState::ReadingMarker, WatchEvent::Done) => WatchState::ReadingSnapshot,
        (WatchState::ReadingSnapshot, WatchEvent::Done) => WatchState::ReadingPending,
        (WatchState::ReadingPending, WatchEvent::Missing) => refuse(WatchFault::Cancelled),
        (WatchState::ReadingPending, WatchEvent::Answer(matching)) => if matching {
            WatchState::CheckingCancelled
        } else {
            refuse(WatchFault::StateChanged)
        },
        (WatchState::CheckingCancelled, WatchEvent::Answer(cancelled)) => if cancelled {
            WatchState::Cancelling { fault: WatchFault::Cancelled }
        } else {
            WatchState::TryingLock
        },
        (WatchState::TryingLock, WatchEvent::Answer(locked)) => if locked {
            WatchState::Validating
        } else {
            WatchState::PausingBriefly
        },
        (WatchState::PausingBriefly, WatchEvent::Done) => WatchState::CheckingCancelled,
        (_, WatchEvent::Failed) => refuse(WatchFault::FirstError),
        _ => state,
    }
}

/// Where a watchdog goes from `state` on `event`.
pub fn run_watchdog(state: WatchState, event: WatchEvent) -> (r: WatchState)
    ensures
        r == watch_next(state, event),
{
    match state {
        WatchState::Validating => match event {
            WatchEvent::Done => WatchState::PublishingStarting,
            WatchEvent::Failed => WatchState::Cancelling { fault: WatchFault::FirstError },
            _ => state,
        },
        WatchState::Cancelling { fault } => match event {
            WatchEvent::Done => WatchState::Failed { fault, cleanup_failed: false },
            WatchEvent::Failed => WatchState::Failed { fault, cleanup_failed: true },
            _ => state,
        },
        WatchState::PublishingStarting => match event {
            WatchEvent::Done => WatchState::Disabling,
            WatchEvent::Failed => refuse(WatchFault::FirstError),
            _ => state,
        },
        WatchState::Disabling => match event {
            WatchEvent::Done => WatchState::PublishingReady,
            WatchEvent::Failed => WatchState::UndoingChange,
            _ => state,
        },
        WatchState::PublishingReady => match event {
            WatchEvent::Done => WatchState::Unlocking,
            WatchEvent::Failed => WatchState::UndoingChange,
            _ => state,
        },
        WatchState::UndoingChange => match event {
            WatchEvent::Done => WatchState::UndoingMarker,
            WatchEvent::Failed => WatchState::ChangeFailed { rollback_failed: true },
            _ => state,
        },
        WatchState::UndoingMarker => match event {
            WatchEvent::Done => WatchState::UndoingRecord,
            WatchEvent::Failed => WatchState::ChangeFailed { rollback_failed: true },
            _ => state,
        },
        WatchState::UndoingRecord => match event {
            WatchEvent::Done => WatchState::ChangeFailed { rollback_failed: false },
            WatchEvent::Failed => WatchState::ChangeFailed { rollback_failed: true },
            _ => state,
        },
        WatchState::Unlocking => match event {
            WatchEvent::Done => WatchState::WatchingOwner,
            _ => state,
        },
        WatchState::WatchingOwner => match event {
            WatchEvent::Answer(true) => WatchState::WatchingLid,
            WatchEvent::Answer(false) => end(None, false),
            WatchEvent::Failed => WatchState::CheckingOwnerAgain { fault: WatchFault::FirstError },
            _ => state,
        },
        WatchState::WatchingLid => match event {
            WatchEvent::Answer(true) => WatchState::Pausing,
            WatchEvent::Answer(false) => WatchState::CheckingOwnerAgain {
                fault: WatchFault::PowerChanged,
            },
            WatchEvent::Failed => WatchState::CheckingOwnerAgain { fault: WatchFault::FirstError },
            _ => state,
        },
        WatchState::Pausing => match event {
            WatchEvent::Done => WatchState::WatchingOwner,
            _ => state,
        },
        WatchState::CheckingOwnerAgain { fault } => match event {
            WatchEvent::Answer(true) => WatchState::StoppingOwner { fault },
            WatchEvent::Answer(false) => end(Some(fault), false),
            WatchEvent::Failed => end(Some(fault), true),
            _ => state,
        },
        WatchState::StoppingOwner { fault } => match event {
            WatchEvent::Done => end(Some(fault), false),
            WatchEvent::Failed => end(Some(fault), true),
            _ => state,
        },
        WatchState::Restoring { verdict } => match event {
            WatchEvent::Done => WatchState::RemovingSession { verdict },
            WatchEvent::Failed => WatchState::WatchFailed { verdict, cleanup_failed: true },
            _ => state,
        },
        WatchState::RemovingSession { verdict } => match event {
            WatchEvent::Done => WatchState::ClearingStop { verdict },
            WatchEvent::Failed => WatchState::WatchFailed { verdict, cleanup_failed: true },
            _ => state,
        },
        WatchState::ClearingStop { verdict } => match event {
            WatchEvent::Done => WatchState::ClearingMarker { verdict },
            WatchEvent::Failed => WatchState::WatchFailed { verdict, cleanup_failed: true },
            _ => state,
        },
        WatchState::ClearingMarker { verdict } => match event {
            WatchEvent::Done => WatchState::RemovingRecord { verdict },
            WatchEvent::Failed => WatchState::WatchFailed { verdict, cleanup_failed: true },
            _ => state,
        },
        WatchState::RemovingRecord { verdict } => match event {
            WatchEvent::Done => match verdict.fault {
                None => WatchState::Succeeded,
                Some(_) => WatchState::WatchFailed { verdict, cleanup_failed: false },
            },
            WatchEvent::Failed => WatchState::WatchFailed { verdict, cleanup_failed: true },
            _ => state,
        },
        WatchState::Succeeded => state,
        WatchState::Failed { .. } => state,
        WatchState::ChangeFailed { .. } => state,
        WatchState::WatchFailed { .. } => state,
        _ => start_watching(state, event),
    }
}

/// Where a watchdog stands after these events.
pub open spec fn watch_after(platform: Platform, events: Seq<WatchEvent>) -> WatchState
    decreases events.len(),
{
    if events.len() == 0 {
        watch_start(platform)
    } else {
        watch_next(watch_after(platform, events.drop_last()), events.last())
    }
}

/// What a watchdog has led to.
pub struct WatchTrace {
    /// Whether it holds the lock.
    pub locked: bool,
    /// Whether it recorded itself.
    pub recorded: bool,
    /// Whether it set out to change the lid, and whether it put the lid back behind that.
    pub changed: bool,
    pub restored: bool,
    /// Whether the marker was cleared.
    pub unmarked: bool,
}

/// What a watchdog has led to after these events.
pub open spec fn watch_did(platform: Platform, events: Seq<WatchEvent>) -> WatchTrace
    decreases events.len(),
{
    if events.len() == 0 {
        WatchTrace {
            locked: false,
            recorded: false,
            changed: false,
            restored: false,
            unmarked: false,
        }
    } else {
        let before = events.drop_last();
        let did = watch_did(platform, before);
        let event = events.last();
        match watch_wants(watch_after(platform, before)) {
            WatchAction::TryLock => WatchTrace {
                locked: did.locked || event == WatchEvent::Answer(true),
                ..did
            },
            WatchAction::Unlock => WatchTrace {
                locked: did.locked && event != WatchEvent::Done,
                ..did
            },
            WatchAction::PublishStarting => WatchTrace {
                recorded: did.recorded || event == WatchEvent::Done,
                ..did
            },
            WatchAction::DisableLid => WatchTrace { changed: true, ..did },
            WatchAction::RestoreLid => WatchTrace {
                restored: did.restored || event == WatchEvent::Done,
                ..did
            },
            WatchAction::ClearMarker => WatchTrace {
                unmarked: did.unmarked || event == WatchEvent::Done,
                ..did
            },
            _ => did,
        }
    }
}

proof fn lemma_watch(platform: Platform, events: Seq<WatchEvent>)
    ensures
        ({
            let did = watch_did(platform, events);
            match watch_after(platform, events) {
                WatchState::Decoding | WatchState::Claiming | WatchState::ReadingSession
                | WatchState::CheckingOwner | WatchState::ReadingMarker
                | WatchState::ReadingSnapshot | WatchState::ReadingPending
                | WatchState::CheckingCancelled | WatchState::TryingLock
                | WatchState::PausingBriefly => !did.changed && !did.restored && !did.recorded
                    && !did.unmarked,
                WatchState::Validating | WatchState::PublishingStarting => did.locked
                    && !did.changed && !did.restored && !did.unmarked,
                WatchState::Cancelling { .. } | WatchState::Failed { .. } => !did.changed,
                WatchState::Disabling => did.locked && did.recorded && !did.restored
                    && !did.unmarked,
                WatchState::PublishingReady | WatchState::UndoingChange => did.locked
                    && did.recorded && did.changed && !did.restored && !did.unmarked,
                WatchState::UndoingMarker => did.changed && did.restored && !did.unmarked,
                WatchState::UndoingRecord => did.changed && did.restored && did.unmarked,
                WatchState::ChangeFailed { rollback_failed } => did.changed && (!rollback_failed
                    ==> did.restored && did.unmarked),
                WatchState::Unlocking => did.changed && !did.restored && !did.unmarked,
                WatchState::WatchingOwner | WatchState::WatchingLid | WatchState::Pausing
                | WatchState::CheckingOwnerAgain { .. } | WatchState::StoppingOwner { .. }
                | WatchState::Restoring { .. } => did.changed && !did.restored && !did.unmarked,
                WatchState::RemovingSession { .. } | WatchState::ClearingStop { .. }
                | WatchState::ClearingMarker { .. } => did.changed && did.restored
                    && !did.unmarked,
                WatchState::RemovingRecord { .. } => did.changed && did.restored && did.unmarked,
                WatchState::Succeeded => did.changed && did.restored && did.unmarked,
                WatchState::WatchFailed { cleanup_failed, .. } => did.changed && (!cleanup_failed
                    ==> did.restored && did.unmarked),
            }
        }),
    decreases events.len(),
{
    if events.len() > 0 {
        lemma_watch(platform, events.drop_last());
    }
}

/// Whatever happens, the lid is changed only under the lock and after the watchdog recorded itself. The marker is
/// cleared and the session removed only after the lid was put back, and after a change the watchdog's
/// record goes only after the marker.
pub proof fn law_watchdogs_are_recorded_while_the_lid_is_changed(
    platform: Platform,
    events: Seq<WatchEvent>,
)
    ensures
        ({
            let did = watch_did(platform, events);
            let action = watch_wants(watch_after(platform, events));
            &&& action is DisableLid ==> did.locked && did.recorded
            &&& action is ClearMarker || action is RemoveSession ==> did.restored
            &&& action is RemoveWatchdog && did.changed ==> did.restored && did.unmarked
        }),
{
    lemma_watch(platform, events);
}

/// Whatever happens, a watchdog that set out to change the lid ends well only after it put the lid back, and
/// ends badly without that only where putting it back or what comes behind it failed.
pub proof fn law_watchdogs_put_the_lid_back(platform: Platform, events: Seq<WatchEvent>)
    ensures
        ({
            let did = watch_did(platform, events);
            match watch_after(platform, events) {
                WatchState::Succeeded => did.restored && did.unmarked,
                WatchState::ChangeFailed { rollback_failed } => !rollback_failed ==> did.restored
                    && did.unmarked,
                WatchState::WatchFailed { cleanup_failed, .. } => !cleanup_failed ==> did.restored
                    && did.unmarked,
                WatchState::Failed { .. } => !did.changed,
                _ => true,
            }
        }),
{
    lemma_watch(platform, events);
}

/// The error that a fault stands for; `first` is what the call said that failed, if one did.
pub open spec fn fault_error(fault: WatchFault, first: Fault) -> Fault {
    match fault {
        WatchFault::FirstError => first,
        WatchFault::NoSession => Fault::Fail("lid watchdog found no session"@),
        WatchFault::NotLive => Fault::Fail(
            "lid watchdog requires a matching live even-lid session"@,
        ),
        WatchFault::NoMarker => Fault::Fail("lid watchdog found no restoration marker"@),
        WatchFault::Cancelled => Fault::Fail("lid watchdog startup was cancelled"@),
        WatchFault::StateChanged => Fault::Fail("lid watchdog startup state changed"@),
        WatchFault::PowerChanged => Fault::Fail(
            "lid protection ended because the power configuration changed"@,
        ),
    }
}

pub fn watch_fault(fault: WatchFault, first: AppError) -> (r: AppError)
    ensures
        r@ == fault_error(fault, first@),
{
    match fault {
        WatchFault::FirstError => first,
        WatchFault::NoSession => AppError::fail("lid watchdog found no session"),
        WatchFault::NotLive => AppError::fail(
            "lid watchdog requires a matching live even-lid session",
        ),
        WatchFault::NoMarker => AppError::fail("lid watchdog found no restoration marker"),
        WatchFault::Cancelled => AppError::fail("lid watchdog startup was cancelled"),
        WatchFault::StateChanged => AppError::fail("lid watchdog startup state changed"),
        WatchFault::PowerChanged => AppError::fail(
            "lid protection ended because the power configuration changed",
        ),
    }
}

/// The error of a change that failed, and of undoing it if that failed too.
pub fn change_failure(change: AppError, rollback: Result<(), AppError>) -> (r: AppError)
    ensures
        r@ == (match outcome(rollback) {
            Ok(_) => change@,
            Err(e) => error::chained(change@, "; rollback failed: "@, e),
        }),
{
    match rollback {
        Ok(_) => change,
        Err(e) => chain(&change, "; rollback failed: ", &e),
    }
}

/// What a watchdog that watched comes to: what ended the watching, what stopping the owner came to, and what
/// cleaning up came to.
pub fn watch_result(
    watched: Result<(), AppError>,
    stopped: Result<(), AppError>,
    cleanup: Result<(), AppError>,
) -> (r: Result<(), AppError>)
    ensures
        outcome(r) == error::combined(
            error::combined(outcome(watched), outcome(stopped)),
            outcome(cleanup),
        ),
{
    combine_cleanup(combine_cleanup(watched, stopped), cleanup)
}

/// A system as a watchdog meets it: what it answers, what fails, and what was done to it so far.
pub struct WatchWorld {
    /// Whether the session has the lid, where there is one.
    pub session: Option<bool>,
    pub owner_alive: bool,
    pub marker: bool,
    /// Whether what is recorded is this watchdog's start, where something is.
    pub pending: Option<bool>,
    pub cancelled: bool,
    pub lock_free: bool,
    /// Whether the lid is still changed.
    pub lid_active: bool,
    /// What fails, if anything does.
    pub fails: Option<WatchAction>,
    pub locked: bool,
    pub recorded: bool,
    pub changed: bool,
    pub ready: bool,
    pub restored: bool,
    pub owner_stopped: bool,
    pub session_removed: bool,
    pub stop_cleared: bool,
    pub marker_cleared: bool,
    pub record_removed: bool,
}

impl WatchWorld {
    /// What the system answers to an action, and what it is then.
    pub open spec fn answer(self, action: WatchAction) -> (WatchWorld, WatchEvent) {
        if self.fails == Some(action) {
            (self, WatchEvent::Failed)
        } else {
            match action {
                WatchAction::ReadSession => (
                    self,
                    match self.session {
                        Some(lid) => WatchEvent::Answer(lid),
                        None => WatchEvent::Missing,
                    },
                ),
                WatchAction::CheckOwner => (self, WatchEvent::Answer(self.owner_alive)),
                WatchAction::ReadMarker => (
                    self,
                    if self.marker {
                        WatchEvent::Done
                    } else {
                        WatchEvent::Missing
                    },
                ),
                WatchAction::ReadPending => (
                    self,
                    match self.pending {
                        Some(matching) => WatchEvent::Answer(matching),
                        None => WatchEvent::Missing,
                    },
                ),
                WatchAction::CheckCancelled => (self, WatchEvent::Answer(self.cancelled)),
                WatchAction::TryLock => (
                    WatchWorld { locked: self.lock_free, ..self },
                    WatchEvent::Answer(self.lock_free),
                ),
                WatchAction::Unlock => (WatchWorld { locked: false, ..self }, WatchEvent::Done),
                WatchAction::PublishStarting => (
                    WatchWorld { recorded: true, ..self },
                    WatchEvent::Done,
                ),
                WatchAction::DisableLid => (
                    WatchWorld { changed: true, ..self },
                    WatchEvent::Done,
                ),
                WatchAction::PublishReady => (WatchWorld { ready: true, ..self }, WatchEvent::Done),
                WatchAction::RestoreLid => (
                    WatchWorld { changed: false, restored: true, ..self },
                    WatchEvent::Done,
                ),
                WatchAction::ClearMarker => (
                    WatchWorld { marker_cleared: true, ..self },
                    WatchEvent::Done,
                ),
                WatchAction::RemoveWatchdog => (
                    WatchWorld { record_removed: true, ..self },
                    WatchEvent::Done,
                ),
                WatchAction::CheckLid => (self, WatchEvent::Answer(self.lid_active)),
                WatchAction::StopOwner { .. } => (
                    WatchWorld { owner_stopped: true, ..self },
                    WatchEvent::Done,
                ),
                WatchAction::RemoveSession => (
                    WatchWorld { session_removed: true, ..self },
                    WatchEvent::Done,
                ),
                WatchAction::ClearStop => (
                    WatchWorld { stop_cleared: true, ..self },
                    WatchEvent::Done,
                ),
                _ => (self, WatchEvent::Done),
            }
        }
    }

    /// Whether nothing has been done yet.
    pub open spec fn untouched(self) -> bool {
        !self.locked && !self.recorded && !self.changed && !self.ready && !self.restored
            && !self.owner_stopped && !self.session_removed && !self.stop_cleared
            && !self.marker_cleared && !self.record_removed
    }
}

/// A step of a watchdog.
pub open spec fn watch_step(at: (WatchState, WatchWorld)) -> (WatchState, WatchWorld) {
    let (world, event) = at.1.answer(watch_wants(at.0));
    (watch_next(at.0, event), world)
}

/// Whether a watchdog sleeps or has ended.
pub open spec fn watch_at_rest(state: WatchState) -> bool {
    state is Pausing || state is PausingBriefly || state is Succeeded || state is Failed || state
        is ChangeFailed || state is WatchFailed
}

/// Where a watchdog next comes to sleep or to its end, within so many steps.
#[verifier::opaque]
pub open spec fn watch_rests(at: (WatchState, WatchWorld), steps: nat) -> (WatchState, WatchWorld)
    decreases steps,
{
    if steps == 0 || watch_at_rest(at.0) {
        at
    } else {
        watch_rests(watch_step(at), (steps - 1) as nat)
    }
}

proof fn lemma_watch_unrolls(at: (WatchState, WatchWorld), steps: nat)
    requires
        steps > 0,
        !watch_at_rest(at.0),
    ensures
        watch_rests(at, steps) == watch_rests(watch_step(at), (steps - 1) as nat),
{
    reveal(watch_rests);
}

proof fn lemma_watch_rested(at: (WatchState, WatchWorld), steps: nat)
    requires
        watch_at_rest(at.0),
    ensures
        watch_rests(at, steps) == at,
{
    reveal(watch_rests);
}

proof fn lemma_watch_restores(verdict: Verdict, world: WatchWorld, steps: nat)
    requires
        world.fails is None,
        steps > 5,
    ensures
        watch_rests((WatchState::Restoring { verdict }, world), steps) == (
            if verdict.fault is None {
                WatchState::Succeeded
            } else {
                WatchState::WatchFailed { verdict, cleanup_failed: false }
            },
            WatchWorld {
                changed: false,
                restored: true,
                session_removed: true,
                stop_cleared: true,
                marker_cleared: true,
                record_removed: true,
                ..world
            },
        ),
{
    let c0 = (WatchState::Restoring { verdict }, world);
    lemma_watch_unrolls(c0, steps);
    let w1 = WatchWorld { changed: false, restored: true, ..world };
    let c1 = (WatchState::RemovingSession { verdict }, w1);
    assert(watch_step(c0) == c1);
    lemma_watch_unrolls(c1, (steps - 1) as nat);
    let w2 = WatchWorld { session_removed: true, ..w1 };
    let c2 = (WatchState::ClearingStop { verdict }, w2);
    assert(watch_step(c1) == c2);
    lemma_watch_unrolls(c2, (steps - 2) as nat);
    let w3 = WatchWorld { stop_cleared: true, ..w2 };
    let c3 = (WatchState::ClearingMarker { verdict }, w3);
    assert(watch_step(c2) == c3);
    lemma_watch_unrolls(c3, (steps - 3) as nat);
    let w4 = WatchWorld { marker_cleared: true, ..w3 };
    let c4 = (WatchState::RemovingRecord { verdict }, w4);
    assert(watch_step(c3) == c4);
    lemma_watch_unrolls(c4, (steps - 4) as nat);
    lemma_watch_rested(watch_step(c4), (steps - 5) as nat);
}

proof fn lemma_watch_round(world: WatchWorld, steps: nat)
    requires
        world.fails is None,
        steps > 12,
    ensures
        ({
            let (state, after) = watch_rests((WatchState::WatchingOwner, world), steps);
            let clean = after.restored && !after.changed && after.session_removed
                && after.stop_cleared && after.marker_cleared && after.record_removed;
            if !world.owner_alive {
                state is Succeeded && clean && after.owner_stopped == world.owner_stopped
            } else if world.lid_active {
                state is Pausing && after == world
            } else {
                state == (WatchState::WatchFailed {
                    verdict: Verdict { fault: Some(WatchFault::PowerChanged), stop_failed: false },
                    cleanup_failed: false,
                }) && clean && after.owner_stopped
            }
        }),
{
    let c0 = (WatchState::WatchingOwner, world);
    lemma_watch_unrolls(c0, steps);
    let c1 = watch_step(c0);
    if !world.owner_alive {
        let verdict = Verdict { fault: None, stop_failed: false };
        assert(c1 == (WatchState::Restoring { verdict }, world));
        lemma_watch_restores(verdict, world, (steps - 1) as nat);
    } else {
        assert(c1 == (WatchState::WatchingLid, world));
        lemma_watch_unrolls(c1, (steps - 1) as nat);
        let c2 = watch_step(c1);
        if world.lid_active {
            lemma_watch_rested(c2, (steps - 2) as nat);
        } else {
            let fault = WatchFault::PowerChanged;
            assert(c2 == (WatchState::CheckingOwnerAgain { fault }, world));
            lemma_watch_unrolls(c2, (steps - 2) as nat);
            let c3 = (WatchState::StoppingOwner { fault }, world);
            assert(watch_step(c2) == c3);
            lemma_watch_unrolls(c3, (steps - 3) as nat);
            let stopped = WatchWorld { owner_stopped: true, ..world };
            let verdict = Verdict { fault: Some(fault), stop_failed: false };
            assert(watch_step(c3) == (WatchState::Restoring { verdict }, stopped));
            lemma_watch_restores(verdict, stopped, (steps - 4) as nat);
        }
    }
}

/// A watchdog goes on as long as the owner lives and the lid is changed, a second at a time. When the owner has
/// ended it puts the lid back and removes all records, and ends well; when the lid is no longer changed
/// it stops the owner first, does the same, and says what happened.
pub proof fn law_watchdogs_end_when_they_should(world: WatchWorld)
    requires
        world.fails is None,
    ensures
        watch_wants(WatchState::Pausing) == WatchAction::Sleep(Span { seconds: 1, nanos: 0 }),
        ({
            let (state, after) = watch_rests(watch_step((WatchState::Pausing, world)), 20);
            let clean = after.restored && !after.changed && after.session_removed
                && after.stop_cleared && after.marker_cleared && after.record_removed;
            if !world.owner_alive {
                state is Succeeded && clean && after.owner_stopped == world.owner_stopped
            } else if world.lid_active {
                state is Pausing && after == world
            } else {
                state == (WatchState::WatchFailed {
                    verdict: Verdict { fault: Some(WatchFault::PowerChanged), stop_failed: false },
                    cleanup_failed: false,
                }) && clean && after.owner_stopped
            }
        }),
{
    assert(watch_step((WatchState::Pausing, world)) == (WatchState::WatchingOwner, world));
    lemma_watch_round(world, 20);
}

/// What a watchdog comes to once it has the lock.
proof fn lemma_watch_locked(world: WatchWorld, steps: nat)
    requires
        world.locked && !world.recorded && !world.changed && !world.ready && !world.restored
            && !world.marker_cleared && !world.record_removed,
        world.owner_alive && world.lid_active,
        world.fails is None || world.fails == Some(WatchAction::Validate) || world.fails == Some(
            WatchAction::DisableLid,
        ) || world.fails == Some(WatchAction::PublishReady),
        steps > 20,
    ensures
        ({
            let (state, after) = watch_rests((WatchState::Validating, world), steps);
            match world.fails {
                None => state is Pausing && after.recorded && after.changed && after.ready
                    && !after.locked,
                Some(WatchAction::Validate) => state is Failed && !after.changed && !after.recorded
                    && after.record_removed,
                _ => state == (WatchState::ChangeFailed { rollback_failed: false })
                    && !after.changed && after.marker_cleared && after.record_removed
                    && !after.ready,
            }
        }),
{
    let c0 = (WatchState::Validating, world);
    lemma_watch_unrolls(c0, steps);
    let c1 = watch_step(c0);
    if world.fails == Some(WatchAction::Validate) {
        assert(c1 == (WatchState::Cancelling { fault: WatchFault::FirstError }, world));
        lemma_watch_unrolls(c1, (steps - 1) as nat);
        lemma_watch_rested(watch_step(c1), (steps - 2) as nat);
    } else {
        assert(c1 == (WatchState::PublishingStarting, world));
        lemma_watch_unrolls(c1, (steps - 1) as nat);
        let w2 = WatchWorld { recorded: true, ..world };
        let c2 = (WatchState::Disabling, w2);
        assert(watch_step(c1) == c2);
        lemma_watch_unrolls(c2, (steps - 2) as nat);
        let c3 = watch_step(c2);
        if world.fails == Some(WatchAction::DisableLid) {
            assert(c3 == (WatchState::UndoingChange, w2));
            lemma_watch_undone(w2, (steps - 3) as nat);
        } else {
            let w3 = WatchWorld { changed: true, ..w2 };
            assert(c3 == (WatchState::PublishingReady, w3));
            lemma_watch_unrolls(c3, (steps - 3) as nat);
            let c4 = watch_step(c3);
            if world.fails is Some {
                assert(c4 == (WatchState::UndoingChange, w3));
                lemma_watch_undone(w3, (steps - 4) as nat);
            } else {
                let w4 = WatchWorld { ready: true, ..w3 };
                assert(c4 == (WatchState::Unlocking, w4));
                lemma_watch_unrolls(c4, (steps - 4) as nat);
                let w5 = WatchWorld { locked: false, ..w4 };
                assert(watch_step(c4) == (WatchState::WatchingOwner, w5));
                lemma_watch_round(w5, (steps - 5) as nat);
            }
        }
    }
}

proof fn lemma_watch_undone(world: WatchWorld, steps: nat)
    requires
        world.fails == Some(WatchAction::DisableLid) || world.fails == Some(
            WatchAction::PublishReady,
        ),
        steps > 3,
    ensures
        watch_rests((WatchState::UndoingChange, world), steps) == (
            WatchState::ChangeFailed { rollback_failed: false },
            WatchWorld {
                changed: false,
                restored: true,
                marker_cleared: true,
                record_removed: true,
                ..world
            },
        ),
{
    let c0 = (WatchState::UndoingChange, world);
    lemma_watch_unrolls(c0, steps);
    let w1 = WatchWorld { changed: false, restored: true, ..world };
    let c1 = (WatchState::UndoingMarker, w1);
    assert(watch_step(c0) == c1);
    lemma_watch_unrolls(c1, (steps - 1) as nat);
    let w2 = WatchWorld { marker_cleared: true, ..w1 };
    let c2 = (WatchState::UndoingRecord, w2);
    assert(watch_step(c1) == c2);
    lemma_watch_unrolls(c2, (steps - 2) as nat);
    lemma_watch_rested(watch_step(c2), (steps - 3) as nat);
}

/// A watchdog changes the lid only for a live session with the lid that is marked, where the start that is
/// recorded is its own and was not cancelled; it says which of these is missing. It waits for the lock a
/// tenth of a second at a time. Where the lid cannot be changed, all is undone.
pub proof fn law_watchdogs_start_when_they_should(platform: Platform, world: WatchWorld)
    requires
        world.untouched(),
        world.lid_active,
        world.fails is None || world.fails == Some(WatchAction::Validate) || world.fails == Some(
            WatchAction::DisableLid,
        ) || world.fails == Some(WatchAction::PublishReady),
    ensures
        ({
            let (state, after) = watch_rests((watch_start(platform), world), 40);
            if world.session is None {
                state == (WatchState::Failed {
                    fault: WatchFault::NoSession,
                    cleanup_failed: false,
                }) && after == world
            } else if world.session == Some(false) || !world.owner_alive {
                state == (WatchState::Failed {
                    fault: WatchFault::NotLive,
                    cleanup_failed: false,
                }) && after == world
            } else if !world.marker {
                state == (WatchState::Failed {
                    fault: WatchFault::NoMarker,
                    cleanup_failed: false,
                }) && after == world
            } else if world.pending is None {
                state == (WatchState::Failed {
                    fault: WatchFault::Cancelled,
                    cleanup_failed: false,
                }) && after == world
            } else if world.pending == Some(false) {
                state == (WatchState::Failed {
                    fault: WatchFault::StateChanged,
                    cleanup_failed: false,
                }) && after == world
            } else if world.cancelled {
                state == (WatchState::Failed {
                    fault: WatchFault::Cancelled,
                    cleanup_failed: false,
                }) && after.record_removed && !after.changed
            } else if !world.lock_free {
                state is PausingBriefly && after == world && watch_wants(state)
                    == WatchAction::Sleep(Span { seconds: 0, nanos: 100_000_000 })
            } else {
                match world.fails {
                    None => state is Pausing && after.recorded && after.changed && after.ready
                        && !after.locked,
                    Some(WatchAction::Validate) => state is Failed && !after.changed
                        && !after.recorded && after.record_removed,
                    _ => state == (WatchState::ChangeFailed { rollback_failed: false })
                        && !after.changed && after.marker_cleared && after.record_removed
                        && !after.ready,
                }
            }
        }),
{
    lemma_watch_claims(world, 39);
    lemma_watch_claims(world, 40);
    let claimed = (WatchState::Claiming, world);
    if world.session is Some {
        assert(world.session->0 ==> world.session == Some(true));
        assert(!world.session->0 ==> world.session == Some(false));
    }
    if world.pending is Some {
        assert(world.pending->0 ==> world.pending == Some(true));
        assert(!world.pending->0 ==> world.pending == Some(false));
    }
    if platform == Platform::Windows {
        let c0 = (WatchState::Decoding, world);
        lemma_watch_unrolls(c0, 40);
        assert(watch_step(c0) == claimed);
        assert(watch_rests((watch_start(platform), world), 40) == watch_rests(claimed, 39));
    } else {
        assert(watch_rests((watch_start(platform), world), 40) == watch_rests(claimed, 40));
    }
}

#[verifier::rlimit(40)]
proof fn lemma_watch_claims(world: WatchWorld, steps: nat)
    requires
        world.untouched(),
        world.lid_active,
        world.fails is None || world.fails == Some(WatchAction::Validate) || world.fails == Some(
            WatchAction::DisableLid,
        ) || world.fails == Some(WatchAction::PublishReady),
        steps > 32,
    ensures
        ({
            let (state, after) = watch_rests((WatchState::Claiming, world), steps);
            if world.session is None {
                state == (WatchState::Failed {
                    fault: WatchFault::NoSession,
                    cleanup_failed: false,
                }) && after == world
            } else if world.session == Some(false) || !world.owner_alive {
                state == (WatchState::Failed {
                    fault: WatchFault::NotLive,
                    cleanup_failed: false,
                }) && after == world
            } else if !world.marker {
                state == (WatchState::Failed {
                    fault: WatchFault::NoMarker,
                    cleanup_failed: false,
                }) && after == world
            } else if world.pending is None {
                state == (WatchState::Failed {
                    fault: WatchFault::Cancelled,
                    cleanup_failed: false,
                }) && after == world
            } else if world.pending == Some(false) {
                state == (WatchState::Failed {
                    fault: WatchFault::StateChanged,
                    cleanup_failed: false,
                }) && after == world
            } else if world.cancelled {
                state == (WatchState::Failed {
                    fault: WatchFault::Cancelled,
                    cleanup_failed: false,
                }) && after.record_removed && !after.changed
            } else if !world.lock_free {
                state is PausingBriefly && after == world
            } else {
                (state, after) == watch_rests(
                    (WatchState::Validating, WatchWorld { locked: true, ..world }),
                    (steps - 8) as nat,
                )
            }
        }),
        world.session == Some(true) && world.owner_alive && world.marker && world.pending == Some(
            true,
        ) && !world.cancelled && world.lock_free ==> ({
            let (state, after) = watch_rests((WatchState::Claiming, world), steps);
            match world.fails {
                None => state is Pausing && after.recorded && after.changed && after.ready
                    && !after.locked,
                Some(WatchAction::Validate) => state is Failed && !after.changed && !after.recorded
                    && after.record_removed,
                _ => state == (WatchState::ChangeFailed { rollback_failed: false })
                    && !after.changed && after.marker_cleared && after.record_removed
                    && !after.ready,
            }
        }),
{
    let c0 = (WatchState::Claiming, world);
    lemma_watch_unrolls(c0, steps);
    let c1 = (WatchState::ReadingSession, world);
    assert(watch_step(c0) == c1);
    lemma_watch_unrolls(c1, (steps - 1) as nat);
    let c2 = watch_step(c1);
    if world.session != Some(true) {
        lemma_watch_rested(c2, (steps - 2) as nat);
    } else {
        assert(c2 == (WatchState::CheckingOwner, world));
        lemma_watch_unrolls(c2, (steps - 2) as nat);
        let c3 = watch_step(c2);
        if !world.owner_alive {
            lemma_watch_rested(c3, (steps - 3) as nat);
        } else {
            assert(c3 == (WatchState::ReadingMarker, world));
            lemma_watch_unrolls(c3, (steps - 3) as nat);
            let c4 = watch_step(c3);
            if !world.marker {
                lemma_watch_rested(c4, (steps - 4) as nat);
            } else {
                assert(c4 == (WatchState::ReadingSnapshot, world));
                lemma_watch_unrolls(c4, (steps - 4) as nat);
                let c5 = (WatchState::ReadingPending, world);
                assert(watch_step(c4) == c5);
                lemma_watch_unrolls(c5, (steps - 5) as nat);
                let c6 = watch_step(c5);
                if world.pending != Some(true) {
                    lemma_watch_rested(c6, (steps - 6) as nat);
                } else {
                    assert(c6 == (WatchState::CheckingCancelled, world));
                    lemma_watch_unrolls(c6, (steps - 6) as nat);
                    let c7 = watch_step(c6);
                    lemma_watch_unrolls(c7, (steps - 7) as nat);
                    let c8 = watch_step(c7);
                    if world.cancelled {
                        assert(c7 == (
                            WatchState::Cancelling { fault: WatchFault::Cancelled },
                            world,
                        ));
                        lemma_watch_rested(c8, (steps - 8) as nat);
                    } else {
                        assert(c7 == (WatchState::TryingLock, world));
                        if !world.lock_free {
                            assert(c8 == (WatchState::PausingBriefly, world));
                            lemma_watch_rested(c8, (steps - 8) as nat);
                        } else {
                            let w = WatchWorld { locked: true, ..world };
                            assert(c8 == (WatchState::Validating, w));
                            lemma_watch_locked(w, (steps - 8) as nat);
                        }
                    }
                }
            }
        }
    }
}

/// The start that is recorded is a watchdog's own exactly where it has the session's owner and the watchdog's
/// lease, and no watchdog yet; and the start stands exactly where the session is the same one, still
/// with the lid, its owner lives and was not asked to stop, and marker and record are unchanged.
pub proof fn law_starts_stand_while_nothing_changes(
    owner: LeaseRef,
    token: &str,
    recorded: WatchdogState,
    own: bool,
    saved: OwnedSession,
    marker: LidRestore,
    pending: WatchdogState,
    current: Option<&OwnedSession>,
    owner_live: bool,
    stop_requested: bool,
    current_marker: Option<&LidRestore>,
    current_watchdog: Option<&WatchdogState>,
    r: Result<(), AppError>,
)
    requires
        call_ensures(pending_matches, (&owner, token, &recorded), own),
        call_ensures(
            validate_watchdog_start,
            (
                &saved,
                &marker,
                &pending,
                current,
                owner_live,
                stop_requested,
                current_marker,
                current_watchdog,
            ),
            r,
        ),
    ensures
        own <==> recorded@.owner == owner@ && recorded@.watchdog.0 == 0 && recorded@.watchdog.1
            == token@ && !recorded@.ready,
        r is Ok ==> owner_live && !stop_requested && current is Some && current->0.owner@
            == saved.owner@ && current->0.spec@ == saved.spec@ && saved.spec@.even_lid
            && current_marker is Some && current_marker->0@ == marker@ && current_watchdog is Some
            && current_watchdog->0@ == pending@,
        owner_live && !stop_requested && current == Some(&saved) && saved.spec@.even_lid
            && current_marker == Some(&marker) && current_watchdog == Some(&pending) ==> r is Ok,
{
}

} // verus!
