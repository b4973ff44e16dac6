//! Starting, stopping and telling of sessions on Windows, and recovering the lid actions.

use vstd::prelude::*;
use vstd::string::*;

use super::Parsed;
use crate::error::{AppError, Fault, outcome};
use crate::platform::Platform;
use crate::platform::windows::LidHealth;
use crate::session::{SavedState, Saved, Session, Record, LidRecord, maybe_saved};
use crate::sysutil::Identity;
use crate::text;
use crate::time::Span;

verus! {

/// What a saved state is found to be.
#[derive(Clone, Copy, Debug, PartialEq, Eq, Structural)]
pub enum FoundState {
    Missing,
    Malformed,
    Ordinary,
    Lid,
}

/// What a saved state is found to be.
pub open spec fn found_state(saved: Option<Saved>) -> FoundState {
    match saved {
        None => FoundState::Missing,
        Some(Saved::Malformed(_)) => FoundState::Malformed,
        Some(Saved::Valid(s)) => if s.even_lid {
            FoundState::Lid
        } else {
            FoundState::Ordinary
        },
    }
}

pub fn classify_saved(saved: &Option<SavedState>) -> (r: FoundState)
    ensures
        r == found_state(maybe_saved(*saved)),
{
    match saved {
        None => FoundState::Missing,
        Some(SavedState::Malformed(_)) => FoundState::Malformed,
        Some(SavedState::Valid(s)) => if s.even_lid {
            FoundState::Lid
        } else {
            FoundState::Ordinary
        },
    }
}

/// Whose process runs under a worker's number and time of creation.
#[derive(Clone, Copy, Debug, PartialEq, Eq, Structural)]
pub enum FoundWorker {
    Missing,
    Matching,
    /// Another program's.
    Foreign,
}

/// Whose process was found to run where the session's worker should. `live` is the one that has its
/// number and time of creation and runs.
pub fn exact_worker(saved: &Session, live: &Option<Identity>) -> (r: FoundWorker)
    ensures
        r == (match live {
            None => FoundWorker::Missing,
            Some(process) => if saved@.is_process(Platform::Windows, process@) {
                FoundWorker::Matching
            } else {
                FoundWorker::Foreign
            },
        }),
{
    match live {
        None => FoundWorker::Missing,
        Some(process) => if saved.matches_identity(Platform::Windows, process) {
            FoundWorker::Matching
        } else {
            FoundWorker::Foreign
        },
    }
}

/// The error of another program's process where the worker should be.
pub fn foreign_worker(saved: &Session) -> (r: AppError)
    ensures
        r@ == Fault::Fail(
            "worker "@ + text::decimal(saved@.pid as nat)
                + " has an unexpected executable identity; state retained"@,
        ),
{
    let mut m = "worker ".to_owned();
    m.append(text::decimal_text(saved.pid as u64).as_str());
    m.append(" has an unexpected executable identity; state retained");
    AppError::Fail(m)
}

/// What the system answers.
#[derive(Clone, Copy, Debug, PartialEq, Eq, Structural)]
pub enum WindowsEvent {
    Done,
    Failed,
    /// What the saved state is.
    Saved(FoundState),
    /// Whose process runs where the worker should.
    Worker(FoundWorker),
    /// The answer to a question.
    Answer(bool),
    /// A charge that has come to its target.
    Percent(i32),
    /// What comparing the saved state with the processes led to.
    Reconciled(Reconciled),
    /// How a process ended: not yet, well or badly.
    Ended(Option<bool>),
}

/// What the saved state and the processes come to.
#[derive(Clone, Copy, Debug, PartialEq, Eq, Structural)]
pub enum Reconciled {
    /// No session is active.
    Nothing,
    /// A session is active, with a guardian where it has the lid.
    Active { guardian: bool },
    /// A lid session whose guardian is gone.
    BrokenGuardian,
}

/// How far comparing the saved state with the processes has come.
#[derive(Clone, Copy, Debug, PartialEq, Eq, Structural)]
pub enum ReconcileState {
    Reading,
    FindingWorker { lid: bool },
    DeletingStale,
    FindingGuardian { worker: bool },
    AwaitingGuardian,
    Recovering,
    Ended(Reconciled),
    /// The saved state cannot be read, and is left as it is.
    Malformed,
    /// Another program's process runs where the worker should.
    ForeignWorker,
    Failed,
}

/// What comparing asks for.
#[derive(Clone, Copy, Debug, PartialEq, Eq, Structural)]
pub enum ReconcileAction {
    ReadSaved,
    FindWorker,
    FindGuardian,
    /// Wait for the guardian's end, so long at most.
    AwaitGuardian { seconds: u64 },
    /// Restore the lid actions, and delete the state.
    FinishOrRecover,
    DeleteState,
    Finish,
}

/// What comparing asks for next.
pub open spec fn reconcile_wants(state: ReconcileState) -> ReconcileAction {
    match state {
        ReconcileState::Reading => ReconcileAction::ReadSaved,
        ReconcileState::FindingWorker { .. } => ReconcileAction::FindWorker,
        ReconcileState::DeletingStale => ReconcileAction::DeleteState,
        ReconcileState::FindingGuardian { .. } => ReconcileAction::FindGuardian,
        ReconcileState::AwaitingGuardian => ReconcileAction::AwaitGuardian { seconds: 15 },
        ReconcileState::Recovering => ReconcileAction::FinishOrRecover,
        _ => ReconcileAction::Finish,
    }
}

/// Where comparing goes from `state` on `event`. Without a worker an ordinary state is deleted and a
/// lid session is recovered, after its guardian where one still runs; with a worker but no
/// guardian nothing is touched.
pub open spec fn reconcile_next(state: ReconcileState, event: WindowsEvent) -> ReconcileState {
    match (state, event) {
        (ReconcileState::Ended(_), _) => state,
        (ReconcileState::Malformed, _) => state,
        (ReconcileState::ForeignWorker, _) => state,
        (ReconcileState::Reading, WindowsEvent::Saved(found)) => match found {
            FoundState::Missing => ReconcileState::Ended(Reconciled::Nothing),
            FoundState::Malformed => ReconcileState::Malformed,
            FoundState::Ordinary => ReconcileState::FindingWorker { lid: false },
            FoundState::Lid => ReconcileState::FindingWorker { lid: true },
        },
        (ReconcileState::FindingWorker { lid }, WindowsEvent::Worker(found)) => match found {
            FoundWorker::Foreign => ReconcileState::ForeignWorker,
            FoundWorker::Matching => if lid {
                ReconcileState::FindingGuardian { worker: true }
            } else {
                ReconcileState::Ended(Reconciled::Active { guardian: false })
            },
            FoundWorker::Missing => if lid {
                ReconcileState::FindingGuardian { worker: false }
            } else {
                ReconcileState::DeletingStale
            },
        },
        (ReconcileState::DeletingStale, WindowsEvent::Done) => ReconcileState::Ended(
            Reconciled::Nothing,
        ),
        (ReconcileState::FindingGuardian { worker }, WindowsEvent::Answer(guardian)) => {
            match (worker, guardian) {
                (true, true) => ReconcileState::Ended(Reconciled::Active { guardian: true }),
                (true, false) => ReconcileState::Ended(Reconciled::BrokenGuardian),
                (false, true) => ReconcileState::AwaitingGuardian,
                (false, false) => ReconcileState::Recovering,
            }
        },
        (ReconcileState::AwaitingGuardian, WindowsEvent::Done) => ReconcileState::Recovering,
        (ReconcileState::Recovering, WindowsEvent::Done) => ReconcileState::Ended(
            Reconciled::Nothing,
        ),
        (_, WindowsEvent::Failed) => ReconcileState::Failed,
        _ => state,
    }
}

pub fn reconcile_asks(state: ReconcileState) -> (r: ReconcileAction)
    ensures
        r == reconcile_wants(state),
{
    match state {
        ReconcileState::Reading => ReconcileAction::ReadSaved,
        ReconcileState::FindingWorker { .. } => ReconcileAction::FindWorker,
        ReconcileState::DeletingStale => ReconcileAction::DeleteState,
        ReconcileState::FindingGuardian { .. } => ReconcileAction::FindGuardian,
        ReconcileState::AwaitingGuardian => ReconcileAction::AwaitGuardian { seconds: 15 },
        ReconcileState::Recovering => ReconcileAction::FinishOrRecover,
        _ => ReconcileAction::Finish,
    }
}

/// Where comparing the saved state with the processes goes from `state` on `event`.
pub fn reconcile_windows(state: ReconcileState, event: WindowsEvent) -> (r: ReconcileState)
    ensures
        r == reconcile_next(state, event),
{
    match (state, event) {
        (ReconcileState::Ended(_), _) => state,
        (ReconcileState::Malformed, _) => state,
        (ReconcileState::ForeignWorker, _) => state,
        (ReconcileState::Reading, WindowsEvent::Saved(found)) => match found {
            FoundState::Missing => ReconcileState::Ended(Reconciled::Nothing),
            FoundState::Malformed => ReconcileState::Malformed,
            FoundState::Ordinary => ReconcileState::FindingWorker { lid: false },
            FoundState::Lid => ReconcileState::FindingWorker { lid: true },
        },
        (ReconcileState::FindingWorker { lid }, WindowsEvent::Worker(found)) => match found {
            FoundWorker::Foreign => ReconcileState::ForeignWorker,
            FoundWorker::Matching => if lid {
                ReconcileState::FindingGuardian { worker: true }
            } else {
                ReconcileState::Ended(Reconciled::Active { guardian: false })
            },
            FoundWorker::Missing => if lid {
                ReconcileState::FindingGuardian { worker: false }
            } else {
                ReconcileState::DeletingStale
            },
        },
        (ReconcileState::DeletingStale, WindowsEvent::Done) => ReconcileState::Ended(
            Reconciled::Nothing,
        ),
        (ReconcileState::FindingGuardian { worker }, WindowsEvent::Answer(guardian)) => {
            match (worker, guardian) {
                (true, true) => ReconcileState::Ended(Reconciled::Active { guardian: true }),
                (true, false) => ReconcileState::Ended(Reconciled::BrokenGuardian),
                (false, true) => ReconcileState::AwaitingGuardian,
                (false, false) => ReconcileState::Recovering,
            }
        },
        (ReconcileState::AwaitingGuardian, WindowsEvent::Done) => ReconcileState::Recovering,
        (ReconcileState::Recovering, WindowsEvent::Done) => ReconcileState::Ended(
            Reconciled::Nothing,
        ),
        (_, WindowsEvent::Failed) => ReconcileState::Failed,
        _ => state,
    }
}

/// Where comparing stands after these events.
pub open spec fn reconcile_after(events: Seq<WindowsEvent>) -> ReconcileState
    decreases events.len(),
{
    if events.len() == 0 {
        ReconcileState::Reading
    } else {
        reconcile_next(reconcile_after(events.drop_last()), events.last())
    }
}

proof fn lemma_reconcile(events: Seq<WindowsEvent>)
    ensures
        match reconcile_after(events) {
            ReconcileState::FindingWorker { lid } => events.contains(
                WindowsEvent::Saved(
                    if lid {
                        FoundState::Lid
                    } else {
                        FoundState::Ordinary
                    },
                ),
            ),
            ReconcileState::DeletingStale => events.contains(
                WindowsEvent::Saved(FoundState::Ordinary),
            ) && events.contains(WindowsEvent::Worker(FoundWorker::Missing)),
            ReconcileState::FindingGuardian { worker } => events.contains(
                WindowsEvent::Saved(FoundState::Lid),
            ) && events.contains(
                WindowsEvent::Worker(
                    if worker {
                        FoundWorker::Matching
                    } else {
                        FoundWorker::Missing
                    },
                ),
            ),
            ReconcileState::AwaitingGuardian | ReconcileState::Recovering => events.contains(
                WindowsEvent::Saved(FoundState::Lid),
            ) && events.contains(WindowsEvent::Worker(FoundWorker::Missing)),
            _ => true,
        },
    decreases events.len(),
{
    if events.len() > 0 {
        let before = events.drop_last();
        lemma_reconcile(before);
        assert(events[events.len() - 1] == events.last());
        assert forall|e: WindowsEvent| before.contains(e) implies #[trigger] events.contains(e) by {
            let i = choose|i: int| 0 <= i < before.len() && before[i] == e;
            assert(events[i] == e);
        }
    }
}

/// A saved state is deleted, and lid actions are restored, only where the worker was found to be gone;
/// the state of a lid session is never simply deleted.
pub proof fn law_reconciling_spares_live_sessions(events: Seq<WindowsEvent>)
    ensures
        reconcile_wants(reconcile_after(events)) == ReconcileAction::DeleteState
            ==> events.contains(WindowsEvent::Saved(FoundState::Ordinary)) && events.contains(
            WindowsEvent::Worker(FoundWorker::Missing),
        ),
        reconcile_wants(reconcile_after(events)) == ReconcileAction::FinishOrRecover
            ==> events.contains(WindowsEvent::Worker(FoundWorker::Missing)),
{
    lemma_reconcile(events);
}

/// How far restoring the lid actions of a session without a worker has come.
#[derive(Clone, Copy, Debug, PartialEq, Eq, Structural)]
pub enum RecoverState {
    ReadingScheme,
    CheckingDue,
    CheckingAccess,
    Restoring,
    Deleting,
    Succeeded,
    Failed,
}

/// What restoring asks for.
#[derive(Clone, Copy, Debug, PartialEq, Eq, Structural)]
pub enum RecoverAction {
    /// Read the power scheme out of the session.
    ReadScheme,
    /// Tell whether a lid action has to be written back.
    CheckDue,
    /// See that lid actions may be written.
    CheckAccess,
    /// Restore the lid actions from here.
    Restore,
    DeleteState,
    Finish,
}

/// What restoring asks for next.
pub open spec fn recover_wants(state: RecoverState) -> RecoverAction {
    match state {
        RecoverState::ReadingScheme => RecoverAction::ReadScheme,
        RecoverState::CheckingDue => RecoverAction::CheckDue,
        RecoverState::CheckingAccess => RecoverAction::CheckAccess,
        RecoverState::Restoring => RecoverAction::Restore,
        RecoverState::Deleting => RecoverAction::DeleteState,
        _ => RecoverAction::Finish,
    }
}

/// Where restoring goes from `state` on `event`. Where a lid action has to be written back, that must
/// be allowed. It is done from here or not at all; where it fails the state is kept for another try.
pub open spec fn recover_next(state: RecoverState, event: WindowsEvent) -> RecoverState {
    match (state, event) {
        (RecoverState::ReadingScheme, WindowsEvent::Done) => RecoverState::CheckingDue,
        (RecoverState::CheckingDue, WindowsEvent::Answer(due)) => if due {
            RecoverState::CheckingAccess
        } else {
            RecoverState::Restoring
        },
        (RecoverState::CheckingAccess, WindowsEvent::Done) => RecoverState::Restoring,
        (RecoverState::Restoring, WindowsEvent::Done) => RecoverState::Deleting,
        (RecoverState::Deleting, WindowsEvent::Done) => RecoverState::Succeeded,
        (RecoverState::Succeeded, _) => state,
        (_, WindowsEvent::Failed) => RecoverState::Failed,
        _ => state,
    }
}

pub fn recover_asks(state: RecoverState) -> (r: RecoverAction)
    ensures
        r == recover_wants(state),
{
    match state {
        RecoverState::ReadingScheme => RecoverAction::ReadScheme,
        RecoverState::CheckingDue => RecoverAction::CheckDue,
        RecoverState::CheckingAccess => RecoverAction::CheckAccess,
        RecoverState::Restoring => RecoverAction::Restore,
        RecoverState::Deleting => RecoverAction::DeleteState,
        _ => RecoverAction::Finish,
    }
}

/// Where restoring the lid actions of a session without a worker goes from `state` on `event`.
pub fn finish_or_recover_lid(state: RecoverState, event: WindowsEvent) -> (r: RecoverState)
    ensures
        r == recover_next(state, event),
{
    match (state, event) {
        (RecoverState::ReadingScheme, WindowsEvent::Done) => RecoverState::CheckingDue,
        (RecoverState::CheckingDue, WindowsEvent::Answer(due)) => if due {
            RecoverState::CheckingAccess
        } else {
            RecoverState::Restoring
        },
        (RecoverState::CheckingAccess, WindowsEvent::Done) => RecoverState::Restoring,
        (RecoverState::Restoring, WindowsEvent::Done) => RecoverState::Deleting,
        (RecoverState::Deleting, WindowsEvent::Done) => RecoverState::Succeeded,
        (RecoverState::Succeeded, _) => state,
        (_, WindowsEvent::Failed) => RecoverState::Failed,
        _ => state,
    }
}

/// The state of a lid session is deleted only right after its lid actions were restored from here.
/// Where they could not be, the recovery has failed, and nothing is done from there on.
pub proof fn law_recovery_deletes_last(state: RecoverState, event: WindowsEvent)
    ensures
        recover_wants(recover_next(state, event)) == RecoverAction::DeleteState && recover_wants(
            state,
        ) != RecoverAction::DeleteState ==> event == WindowsEvent::Done && recover_wants(state)
            == RecoverAction::Restore,
        recover_wants(state) == RecoverAction::Restore && event == WindowsEvent::Failed
            ==> recover_next(state, event) == RecoverState::Failed,
        recover_wants(state) == RecoverAction::Finish ==> recover_next(state, event) == state,
{
}

/// Restoring begins only where nothing has to be written back or it was found that lid actions may be
/// written. Where they may not, the recovery has failed.
pub proof fn law_recovery_checks_access(state: RecoverState, event: WindowsEvent)
    ensures
        recover_wants(recover_next(state, event)) == RecoverAction::Restore && recover_wants(state)
            != RecoverAction::Restore ==> (recover_wants(state) == RecoverAction::CheckDue && event
            == WindowsEvent::Answer(false)) || (recover_wants(state) == RecoverAction::CheckAccess
            && event == WindowsEvent::Done),
        recover_wants(state) == RecoverAction::CheckAccess && event == WindowsEvent::Failed
            ==> recover_next(state, event) == RecoverState::Failed,
{
}

/// The session with the lid granted to the guardian `guardian`, and what it is to put back.
pub open spec fn grant(s: Record, guardian: (u32, u64), original: (Seq<char>, u32, u32)) -> Record {
    Record {
        lid: LidRecord {
            guardian_pid: guardian.0,
            guardian_start: guardian.1,
            original_scheme: original.0,
            original_ac: original.1,
            original_dc: original.2,
            ..s.lid
        },
        ..s
    }
}

/// The session that is expected once the guardian has the lid.
pub fn granted(saved: &Session, guardian: (u32, u64), original: (&str, u32, u32)) -> (r: Session)
    ensures
        r@ == grant(saved@, guardian, (original.0@, original.1, original.2)),
{
    let mut s = saved.clone();
    s.guardian_pid = guardian.0;
    s.guardian_start = guardian.1;
    s.original_scheme = original.0.to_owned();
    s.original_ac = original.1;
    s.original_dc = original.2;
    s
}

/// Where a guardian's end is waited for, what that comes to. `code` is what it ended with.
pub fn guardian_exit(
    guardian: u32,
    exited: bool,
    code: Result<u32, AppError>,
    state_path: &str,
) -> (r: Result<(), AppError>)
    ensures
        outcome(r) == (if !exited {
            Err::<(), Fault>(
                Fault::Fail(
                    "guardian "@ + text::decimal(guardian as nat)
                        + " did not exit; it was not terminated and state remains at "@
                        + state_path@,
                ),
            )
        } else {
            match outcome(code) {
                Err(e) => Err(
                    Fault::Fail(
                        e.message() + "; guardian result is unknown and state remains at "@
                            + state_path@,
                    ),
                ),
                Ok(code) => if code == 0 {
                    Ok(())
                } else {
                    Err(
                        Fault::Fail(
                            "guardian "@ + text::decimal(guardian as nat) + " exited with code "@
                                + text::decimal(code as nat) + "; state remains at "@ + state_path@,
                        ),
                    )
                },
            }
        }),
{
    if !exited {
        let mut m = "guardian ".to_owned();
        m.append(text::decimal_text(guardian as u64).as_str());
        m.append(" did not exit; it was not terminated and state remains at ");
        m.append(state_path);
        return Err(AppError::Fail(m));
    }
    match code {
        Err(e) => {
            let mut m = e.message().to_owned();
            m.append("; guardian result is unknown and state remains at ");
            m.append(state_path);
            Err(AppError::Fail(m))
        },
        Ok(code) => {
            if code == 0 {
                return Ok(());
            }
            let mut m = "guardian ".to_owned();
            m.append(text::decimal_text(guardian as u64).as_str());
            m.append(" exited with code ");
            m.append(text::decimal_text(code as u64).as_str());
            m.append("; state remains at ");
            m.append(state_path);
            Err(AppError::Fail(m))
        },
    }
}

/// Whether the lid actions are the ones that the session recorded.
pub fn lid_restored(saved: &Session, values: (u32, u32)) -> (r: bool)
    ensures
        r == (values == (saved@.lid.original_ac, saved@.lid.original_dc)),
{
    values.0 == saved.original_ac && values.1 == saved.original_dc
}

/// The lid actions must be the ones that the session recorded.
pub fn verify_lid_restored(saved: &Session, values: (u32, u32), state_path: &str) -> (r: Result<
    (),
    AppError,
>)
    ensures
        outcome(r) == (if values == (saved@.lid.original_ac, saved@.lid.original_dc) {
            Ok::<(), Fault>(())
        } else {
            Err(Fault::Fail("lid restoration did not verify; state retained at "@ + state_path@))
        }),
{
    if lid_restored(saved, values) {
        return Ok(());
    }
    let mut m = "lid restoration did not verify; state retained at ".to_owned();
    m.append(state_path);
    Err(AppError::Fail(m))
}

/// What a look for the worker's session comes to.
#[derive(Clone, Copy, Debug, PartialEq, Eq, Structural)]
pub enum WorkerWait {
    Published,
    Malformed,
    Failed,
    /// Look again in a tenth of a second.
    Again,
}

/// Whether a session is the one that the worker was to publish, still without the lid.
pub open spec fn is_provisional(s: Record, expected: Record) -> bool {
    !s.even_lid && s.pid == expected.pid && s.process_start == expected.process_start
        && text::ascii_lower(s.process_command) == text::ascii_lower(expected.process_command)
}

/// What a look for the worker's session comes to, `elapsed` after the first: it must be there within
/// five seconds, and the worker must not end before.
pub fn wait_for_windows_worker_state(
    expected: &Session,
    elapsed: Span,
    saved: &Option<SavedState>,
    exited: bool,
) -> (r: WorkerWait)
    ensures
        r == (if elapsed.seconds >= 5 {
            WorkerWait::Failed
        } else {
            match maybe_saved(*saved) {
                Some(Saved::Malformed(_)) => WorkerWait::Malformed,
                Some(Saved::Valid(s)) => if is_provisional(s, expected@) {
                    WorkerWait::Published
                } else if exited {
                    WorkerWait::Failed
                } else {
                    WorkerWait::Again
                },
                None => if exited {
                    WorkerWait::Failed
                } else {
                    WorkerWait::Again
                },
            }
        }),
{
    if elapsed.seconds >= 5 {
        return WorkerWait::Failed;
    }
    match saved {
        Some(SavedState::Malformed(_)) => return WorkerWait::Malformed,
        Some(SavedState::Valid(s)) => {
            if !s.even_lid && s.pid == expected.pid && s.process_start == expected.process_start
                && text::same_ignoring_ascii_case(
                s.process_command.as_str(),
                expected.process_command.as_str(),
            ) {
                return WorkerWait::Published;
            }
        },
        None => {},
    }
    if exited {
        WorkerWait::Failed
    } else {
        WorkerWait::Again
    }
}

/// The error of a worker that did not publish its session.
pub fn worker_wait_error(wait: WorkerWait) -> (r: AppError)
    ensures
        r@ == Fault::Fail(
            if wait == WorkerWait::Malformed {
                "Windows worker published malformed state; state retained"@
            } else {
                "Windows worker failed to publish session state"@
            },
        ),
{
    match wait {
        WorkerWait::Malformed => AppError::fail(
            "Windows worker published malformed state; state retained",
        ),
        _ => AppError::fail("Windows worker failed to publish session state"),
    }
}

/// What a look at the lid comes to.
#[derive(Clone, Copy, Debug, PartialEq, Eq, Structural)]
pub enum LidWait {
    Ready,
    WorkerExited,
    GuardianExited,
    TimedOut,
    /// Look again in a tenth of a second.
    Again,
}

/// Whether a session grants the lid as expected.
pub open spec fn grants_as_expected(s: Record, expected: Record) -> bool {
    &&& s.even_lid
    &&& (s.pid, s.process_start) == (expected.pid, expected.process_start)
    &&& (s.lid.guardian_pid, s.lid.guardian_start) == (
        expected.lid.guardian_pid,
        expected.lid.guardian_start,
    )
    &&& s.lid.original_scheme == expected.lid.original_scheme
    &&& s.lid.original_ac == expected.lid.original_ac
    &&& s.lid.original_dc == expected.lid.original_dc
    &&& text::ascii_lower(s.process_command) == text::ascii_lower(expected.process_command)
}

/// What a look at the lid comes to, `elapsed` after the first: it must be ready within half a minute, and
/// worker and guardian must run until then. The lid is ready when its actions are healthy and the
/// saved session grants it as expected.
pub fn wait_for_lid_ready(
    expected: &Session,
    elapsed: Span,
    worker_exited: bool,
    guardian_running: bool,
    saved: &Option<SavedState>,
    health: LidHealth,
) -> (r: LidWait)
    ensures
        r == (if elapsed.seconds >= 30 {
            LidWait::TimedOut
        } else if worker_exited {
            LidWait::WorkerExited
        } else if !guardian_running {
            LidWait::GuardianExited
        } else if health == LidHealth::Healthy && (maybe_saved(*saved) matches Some(
            Saved::Valid(s),
        ) && grants_as_expected(s, expected@)) {
            LidWait::Ready
        } else {
            LidWait::Again
        }),
{
    if elapsed.seconds >= 30 {
        return LidWait::TimedOut;
    }
    if worker_exited {
        return LidWait::WorkerExited;
    }
    if !guardian_running {
        return LidWait::GuardianExited;
    }
    match saved {
        Some(SavedState::Valid(s)) => {
            if health == LidHealth::Healthy && s.matches_lid_authority(
                (expected.pid, expected.process_start),
                (expected.guardian_pid, expected.guardian_start),
                (expected.original_scheme.as_str(), expected.original_ac, expected.original_dc),
            ) && text::same_ignoring_ascii_case(
                s.process_command.as_str(),
                expected.process_command.as_str(),
            ) {
                return LidWait::Ready;
            }
        },
        _ => {},
    }
    LidWait::Again
}

/// The error of a lid that did not become ready.
pub fn lid_wait_error(wait: LidWait) -> (r: AppError)
    ensures
        r@ == Fault::Fail(
            match wait {
                LidWait::WorkerExited => "worker exited during even-lid startup"@,
                LidWait::GuardianExited => "elevated guardian exited before readiness"@,
                _ => "timed out waiting for even-lid readiness"@,
            },
        ),
{
    match wait {
        LidWait::WorkerExited => AppError::fail("worker exited during even-lid startup"),
        LidWait::GuardianExited => AppError::fail("elevated guardian exited before readiness"),
        _ => AppError::fail("timed out waiting for even-lid readiness"),
    }
}

/// What a start on Windows depends on.
#[derive(Clone, Copy, Debug, PartialEq, Eq, Structural)]
pub struct WindowsPlan {
    pub charge: bool,
    pub even_lid: bool,
    /// Whether the session waits for something that can be over before the lid is ready.
    pub conditional: bool,
}

/// What the start of a request depends on. Every request but one without an end waits for something.
pub fn plan_windows(parsed: &Parsed) -> (r: WindowsPlan)
    ensures
        r == (WindowsPlan {
            charge: parsed@.charge_target is Some,
            even_lid: parsed@.even_lid,
            conditional: parsed@.trigger != "indefinite"@,
        }),
{
    WindowsPlan {
        charge: parsed.charge_target.is_some(),
        even_lid: parsed.even_lid,
        conditional: !text::same(parsed.trigger.as_str(), "indefinite"),
    }
}

/// What a start on Windows asks for.
#[derive(Clone, Copy, Debug, PartialEq, Eq, Structural)]
pub enum StartAction {
    Lock,
    /// Compare the saved state with the processes.
    Reconcile,
    PrepareCharge,
    /// See that lid actions may be written.
    CheckAccess,
    /// Record the lid actions.
    CaptureLid,
    /// Work out the worker's command.
    PrepareCommand,
    SpawnWorker,
    /// Find out who the worker is.
    IdentifyWorker,
    /// Wait for the worker's session.
    AwaitWorker,
    /// End the worker, and delete its session if it is the saved one.
    CleanUpWorker,
    SpawnGuardian,
    /// Wait until the lid is ready.
    AwaitLid,
    /// Tell how the worker ended, if it has.
    CheckWorker,
    KillWorker,
    /// Wait for the guardian's end, so long at most.
    AwaitGuardian { seconds: u64 },
    VerifyRestored,
    DeleteState,
    /// Tell the user that the condition was met before the lid was ready.
    TellCondition,
    TellChargeMet(i32),
    Confirm,
    Finish,
}

/// Why a start on Windows failed.
#[derive(Clone, Copy, Debug, PartialEq, Eq, Structural)]
pub enum StartFault {
    /// The call that failed last says why.
    LastError,
    /// The failure that made cleaning up necessary says why.
    FirstError,
    AlreadyActive,
    BrokenGuardian,
}

/// How far a start on Windows has come.
#[derive(Clone, Copy, Debug, PartialEq, Eq, Structural)]
pub enum StartState {
    Locking,
    Reconciling,
    PreparingCharge,
    CheckingAccess,
    CapturingLid,
    PreparingCommand,
    SpawningWorker,
    Identifying,
    AwaitingWorker,
    CleaningUp,
    SpawningGuardian,
    AwaitingLid,
    CheckingWorker,
    KillingWorker,
    AwaitingGuardian { met: bool },
    Verifying { met: bool },
    Deleting { met: bool },
    TellingCondition,
    TellingMet { percent: i32 },
    Confirming,
    Succeeded,
    Failed(StartFault),
}

/// What a start on Windows asks for next.
pub open spec fn start_wants(state: StartState) -> StartAction {
    match state {
        StartState::Locking => StartAction::Lock,
        StartState::Reconciling => StartAction::Reconcile,
        StartState::PreparingCharge => StartAction::PrepareCharge,
        StartState::CheckingAccess => StartAction::CheckAccess,
        StartState::CapturingLid => StartAction::CaptureLid,
        StartState::PreparingCommand => StartAction::PrepareCommand,
        StartState::SpawningWorker => StartAction::SpawnWorker,
        StartState::Identifying => StartAction::IdentifyWorker,
        StartState::AwaitingWorker => StartAction::AwaitWorker,
        StartState::CleaningUp => StartAction::CleanUpWorker,
        StartState::SpawningGuardian => StartAction::SpawnGuardian,
        StartState::AwaitingLid => StartAction::AwaitLid,
        StartState::CheckingWorker => StartAction::CheckWorker,
        StartState::KillingWorker => StartAction::KillWorker,
        StartState::AwaitingGuardian { .. } => StartAction::AwaitGuardian { seconds: 15 },
        StartState::Verifying { .. } => StartAction::VerifyRestored,
        StartState::Deleting { .. } => StartAction::DeleteState,
        StartState::TellingCondition => StartAction::TellCondition,
        StartState::TellingMet { percent } => StartAction::TellChargeMet(percent),
        StartState::Confirming => StartAction::Confirm,
        StartState::Succeeded => StartAction::Finish,
        StartState::Failed(_) => StartAction::Finish,
    }
}

/// The step behind the one that looks at the charge.
pub open spec fn past_charge(plan: WindowsPlan) -> StartState {
    if plan.even_lid {
        StartState::CheckingAccess
    } else {
        StartState::PreparingCommand
    }
}

/// Where a start on Windows goes from `state` on `event`. A lid that may not be written ends it before
/// anything is started. The worker comes first and publishes its
/// session without the lid; only then a guardian is started, which takes the lid over itself, and
/// is waited for. Until the guardian runs a failure ends the worker. Afterwards a failure ends
/// the worker, waits for the guardian, verifies that the lid actions are restored and only then
/// deletes the state; it is no failure at all if the worker had ended because what it waited for was over.
pub open spec fn start_next(plan: WindowsPlan, state: StartState, event: WindowsEvent) -> StartState {
    match (state, event) {
        (StartState::Succeeded, _) => state,
        (StartState::Failed(_), _) => state,
        (StartState::Locking, WindowsEvent::Done) => StartState::Reconciling,
        (StartState::Reconciling, WindowsEvent::Reconciled(found)) => match found {
            Reconciled::Active { .. } => StartState::Failed(StartFault::AlreadyActive),
            Reconciled::BrokenGuardian => StartState::Failed(StartFault::BrokenGuardian),
            Reconciled::Nothing => if plan.charge {
                StartState::PreparingCharge
            } else {
                past_charge(plan)
            },
        },
        (StartState::PreparingCharge, WindowsEvent::Percent(percent)) => StartState::TellingMet {
            percent,
        },
        (StartState::PreparingCharge, WindowsEvent::Done) => past_charge(plan),
        (StartState::CheckingAccess, WindowsEvent::Done) => StartState::CapturingLid,
        (StartState::CapturingLid, WindowsEvent::Done) => StartState::PreparingCommand,
        (StartState::PreparingCommand, WindowsEvent::Done) => StartState::SpawningWorker,
        (StartState::SpawningWorker, WindowsEvent::Done) => StartState::Identifying,
        (StartState::Identifying, WindowsEvent::Done) => StartState::AwaitingWorker,
        (StartState::AwaitingWorker, WindowsEvent::Done) => if plan.even_lid {
            StartState::SpawningGuardian
        } else {
            StartState::Confirming
        },
        (StartState::AwaitingWorker, WindowsEvent::Failed) => StartState::CleaningUp,
        (StartState::CleaningUp, WindowsEvent::Done) => StartState::Failed(StartFault::FirstError),
        (StartState::SpawningGuardian, WindowsEvent::Done) => StartState::AwaitingLid,
        (StartState::SpawningGuardian, WindowsEvent::Failed) => StartState::CleaningUp,
        (StartState::AwaitingLid, WindowsEvent::Done) => StartState::Confirming,
        (StartState::AwaitingLid, WindowsEvent::Failed) => StartState::CheckingWorker,
        (StartState::CheckingWorker, WindowsEvent::Ended(ended)) => match ended {
            None => StartState::KillingWorker,
            Some(success) => StartState::AwaitingGuardian { met: success && plan.conditional },
        },
        (StartState::KillingWorker, WindowsEvent::Done) => StartState::AwaitingGuardian {
            met: false,
        },
        (StartState::KillingWorker, WindowsEvent::Failed) => StartState::AwaitingGuardian {
            met: false,
        },
        (StartState::AwaitingGuardian { met }, WindowsEvent::Done) => StartState::Verifying { met },
        (StartState::Verifying { met }, WindowsEvent::Done) => StartState::Deleting { met },
        (StartState::Deleting { met }, WindowsEvent::Done) => if met {
            StartState::TellingCondition
        } else {
            StartState::Failed(StartFault::FirstError)
        },
        (StartState::TellingCondition, WindowsEvent::Done) => StartState::Succeeded,
        (StartState::TellingMet { .. }, WindowsEvent::Done) => StartState::Succeeded,
        (StartState::Confirming, WindowsEvent::Done) => StartState::Succeeded,
        (_, WindowsEvent::Failed) => StartState::Failed(StartFault::LastError),
        _ => state,
    }
}

pub fn start_asks(state: StartState) -> (r: StartAction)
    ensures
        r == start_wants(state),
{
    match state {
        StartState::Locking => StartAction::Lock,
        StartState::Reconciling => StartAction::Reconcile,
        StartState::PreparingCharge => StartAction::PrepareCharge,
        StartState::CheckingAccess => StartAction::CheckAccess,
        StartState::CapturingLid => StartAction::CaptureLid,
        StartState::PreparingCommand => StartAction::PrepareCommand,
        StartState::SpawningWorker => StartAction::SpawnWorker,
        StartState::Identifying => StartAction::IdentifyWorker,
        StartState::AwaitingWorker => StartAction::AwaitWorker,
        StartState::CleaningUp => StartAction::CleanUpWorker,
        StartState::SpawningGuardian => StartAction::SpawnGuardian,
        StartState::AwaitingLid => StartAction::AwaitLid,
        StartState::CheckingWorker => StartAction::CheckWorker,
        StartState::KillingWorker => StartAction::KillWorker,
        StartState::AwaitingGuardian { .. } => StartAction::AwaitGuardian { seconds: 15 },
        StartState::Verifying { .. } => StartAction::VerifyRestored,
        StartState::Deleting { .. } => StartAction::DeleteState,
        StartState::TellingCondition => StartAction::TellCondition,
        StartState::TellingMet { percent } => StartAction::TellChargeMet(percent),
        StartState::Confirming => StartAction::Confirm,
        StartState::Succeeded => StartAction::Finish,
        StartState::Failed(_) => StartAction::Finish,
    }
}

fn after_charge(plan: &WindowsPlan) -> (r: StartState)
    ensures
        r == past_charge(*plan),
{
    if plan.even_lid {
        StartState::CheckingAccess
    } else {
        StartState::PreparingCommand
    }
}

/// Where a start on Windows goes from `state` on `event`.
pub fn start_windows(plan: WindowsPlan, state: StartState, event: WindowsEvent) -> (r: StartState)
    ensures
        r == start_next(plan, state, event),
{
    match (state, event) {
        (StartState::Succeeded, _) => state,
        (StartState::Failed(_), _) => state,
        (StartState::Locking, WindowsEvent::Done) => StartState::Reconciling,
        (StartState::Reconciling, WindowsEvent::Reconciled(found)) => match found {
            Reconciled::Active { .. } => StartState::Failed(StartFault::AlreadyActive),
            Reconciled::BrokenGuardian => StartState::Failed(StartFault::BrokenGuardian),
            Reconciled::Nothing => if plan.charge {
                StartState::PreparingCharge
            } else {
                after_charge(&plan)
            },
        },
        (StartState::PreparingCharge, WindowsEvent::Percent(percent)) => StartState::TellingMet {
            percent,
        },
        (StartState::PreparingCharge, WindowsEvent::Done) => after_charge(&plan),
        (StartState::CheckingAccess, WindowsEvent::Done) => StartState::CapturingLid,
        (StartState::CapturingLid, WindowsEvent::Done) => StartState::PreparingCommand,
        (StartState::PreparingCommand, WindowsEvent::Done) => StartState::SpawningWorker,
        (StartState::SpawningWorker, WindowsEvent::Done) => StartState::Identifying,
        (StartState::Identifying, WindowsEvent::Done) => StartState::AwaitingWorker,
        (StartState::AwaitingWorker, WindowsEvent::Done) => if plan.even_lid {
            StartState::SpawningGuardian
        } else {
            StartState::Confirming
        },
        (StartState::AwaitingWorker, WindowsEvent::Failed) => StartState::CleaningUp,
        (StartState::CleaningUp, WindowsEvent::Done) => StartState::Failed(StartFault::FirstError),
        (StartState::SpawningGuardian, WindowsEvent::Done) => StartState::AwaitingLid,
        (StartState::SpawningGuardian, WindowsEvent::Failed) => StartState::CleaningUp,
        (StartState::AwaitingLid, WindowsEvent::Done) => StartState::Confirming,
        (StartState::AwaitingLid, WindowsEvent::Failed) => StartState::CheckingWorker,
        (StartState::CheckingWorker, WindowsEvent::Ended(ended)) => match ended {
            None => StartState::KillingWorker,
            Some(success) => StartState::AwaitingGuardian { met: success && plan.conditional },
        },
        (StartState::KillingWorker, WindowsEvent::Done) => StartState::AwaitingGuardian {
            met: false,
        },
        (StartState::KillingWorker, WindowsEvent::Failed) => StartState::AwaitingGuardian {
            met: false,
        },
        (StartState::AwaitingGuardian { met }, WindowsEvent::Done) => StartState::Verifying { met },
        (StartState::Verifying { met }, WindowsEvent::Done) => StartState::Deleting { met },
        (StartState::Deleting { met }, WindowsEvent::Done) => if met {
            StartState::TellingCondition
        } else {
            StartState::Failed(StartFault::FirstError)
        },
        (StartState::TellingCondition, WindowsEvent::Done) => StartState::Succeeded,
        (StartState::TellingMet { .. }, WindowsEvent::Done) => StartState::Succeeded,
        (StartState::Confirming, WindowsEvent::Done) => StartState::Succeeded,
        (_, WindowsEvent::Failed) => StartState::Failed(StartFault::LastError),
        _ => state,
    }
}

/// Where a start on Windows stands after these events.
pub open spec fn start_after(plan: WindowsPlan, events: Seq<WindowsEvent>) -> StartState
    decreases events.len(),
{
    if events.len() == 0 {
        StartState::Locking
    } else {
        start_next(plan, start_after(plan, events.drop_last()), events.last())
    }
}

/// Whether, after these events, no active session was found, the worker's session was published, a
/// guardian was started, and lid actions were found that may be written.
pub open spec fn start_did(plan: WindowsPlan, events: Seq<WindowsEvent>) -> (bool, bool, bool, bool)
    decreases events.len(),
{
    if events.len() == 0 {
        (false, false, false, false)
    } else {
        let before = events.drop_last();
        let did = start_did(plan, before);
        let event = events.last();
        match start_wants(start_after(plan, before)) {
            StartAction::Reconcile => (
                event == WindowsEvent::Reconciled(Reconciled::Nothing),
                did.1,
                did.2,
                did.3,
            ),
            StartAction::AwaitWorker => (did.0, event == WindowsEvent::Done, did.2, did.3),
            StartAction::SpawnGuardian => (did.0, did.1, event == WindowsEvent::Done, did.3),
            StartAction::CheckAccess => (did.0, did.1, did.2, event == WindowsEvent::Done),
            _ => did,
        }
    }
}

proof fn lemma_start(plan: WindowsPlan, events: Seq<WindowsEvent>)
    ensures
        ({
            let did = start_did(plan, events);
            match start_after(plan, events) {
                StartState::Locking | StartState::Reconciling => !did.2,
                StartState::PreparingCharge | StartState::CheckingAccess => did.0 && !did.2,
                StartState::CapturingLid | StartState::PreparingCommand
                | StartState::SpawningWorker | StartState::Identifying
                | StartState::AwaitingWorker | StartState::CleaningUp => did.0 && !did.2 && (
                plan.even_lid ==> did.3),
                StartState::SpawningGuardian => did.0 && did.1 && !did.2 && did.3 && plan.even_lid,
                StartState::AwaitingLid | StartState::CheckingWorker | StartState::KillingWorker
                | StartState::AwaitingGuardian { .. } | StartState::Verifying { .. }
                | StartState::Deleting { .. } | StartState::TellingCondition => did.0 && did.1
                    && did.2 && plan.even_lid,
                StartState::Confirming => did.0 && did.1 && (plan.even_lid <==> did.2),
                _ => true,
            }
        }),
    decreases events.len(),
{
    if events.len() > 0 {
        lemma_start(plan, events.drop_last());
    }
}

/// Whatever happens, a worker is started only where no active session was found and, for a lid session,
/// where lid actions may be written, a guardian only after the
/// worker's session was published, the user is told of a lid session only after its guardian was started,
/// and a worker is cleaned up without waiting for a guardian only where none was started.
pub proof fn law_windows_starts_go_in_order(plan: WindowsPlan, events: Seq<WindowsEvent>)
    ensures
        ({
            let did = start_did(plan, events);
            let action = start_wants(start_after(plan, events));
            &&& action == StartAction::SpawnWorker ==> did.0 && (plan.even_lid ==> did.3)
            &&& action == StartAction::SpawnGuardian ==> did.0 && did.1 && did.3 && plan.even_lid
            &&& action == StartAction::Confirm ==> did.0 && did.1 && (plan.even_lid ==> did.2)
            &&& action == StartAction::CleanUpWorker ==> !did.2
        }),
{
    lemma_start(plan, events);
}

/// Once a guardian was started, the state is deleted only right after the lid actions were verified to be
/// restored, and that is looked at only after the guardian has ended. A lid session is
/// told of only right after the lid was found ready.
pub proof fn law_windows_starts_undo_in_order(
    plan: WindowsPlan,
    state: StartState,
    event: WindowsEvent,
)
    ensures
        start_next(plan, state, event) is Deleting && state !is Deleting ==> event
            == WindowsEvent::Done && start_wants(state) == StartAction::VerifyRestored,
        start_next(plan, state, event) is Verifying && state !is Verifying ==> event
            == WindowsEvent::Done && start_wants(state) is AwaitGuardian,
        plan.even_lid && start_next(plan, state, event) is Confirming && state !is Confirming
            ==> event == WindowsEvent::Done && start_wants(state) == StartAction::AwaitLid,
{
}

/// How far stopping a session on Windows has come.
#[derive(Clone, Copy, Debug, PartialEq, Eq, Structural)]
pub enum StopState {
    Locking,
    Reconciling,
    TellingNone,
    /// The guardian is gone; the worker is ended and the state stays.
    TerminatingBroken,
    Terminating { guardian: bool },
    AwaitingGuardian,
    Verifying,
    Deleting,
    Telling,
    Succeeded,
    Broken,
    Failed,
}

/// What stopping or telling of a session on Windows asks for.
#[derive(Clone, Copy, Debug, PartialEq, Eq, Structural)]
pub enum StopAction {
    Lock,
    Reconcile,
    TellNone,
    /// End the worker, and wait until it has ended, so long at most.
    Terminate { seconds: u64 },
    /// Wait for the guardian's end, so long at most.
    AwaitGuardian { seconds: u64 },
    VerifyRestored,
    DeleteState,
    TellStopped,
    ShowStatus,
    /// Tell of the lid actions.
    ShowLid,
    Finish,
}

/// What stopping a session on Windows asks for next.
pub open spec fn stop_wants(state: StopState) -> StopAction {
    match state {
        StopState::Locking => StopAction::Lock,
        StopState::Reconciling => StopAction::Reconcile,
        StopState::TellingNone => StopAction::TellNone,
        StopState::TerminatingBroken => StopAction::Terminate { seconds: 6 },
        StopState::Terminating { .. } => StopAction::Terminate { seconds: 6 },
        StopState::AwaitingGuardian => StopAction::AwaitGuardian { seconds: 15 },
        StopState::Verifying => StopAction::VerifyRestored,
        StopState::Deleting => StopAction::DeleteState,
        StopState::Telling => StopAction::TellStopped,
        _ => StopAction::Finish,
    }
}

/// Where stopping a session on Windows goes from `state` on `event`.
pub open spec fn stop_next(state: StopState, event: WindowsEvent) -> StopState {
    match (state, event) {
        (StopState::Succeeded, _) => state,
        (StopState::Broken, _) => state,
        (StopState::Locking, WindowsEvent::Done) => StopState::Reconciling,
        (StopState::Reconciling, WindowsEvent::Reconciled(found)) => match found {
            Reconciled::Nothing => StopState::TellingNone,
            Reconciled::BrokenGuardian => StopState::TerminatingBroken,
            Reconciled::Active { guardian } => StopState::Terminating { guardian },
        },
        (StopState::TellingNone, WindowsEvent::Done) => StopState::Succeeded,
        (StopState::TerminatingBroken, WindowsEvent::Done) => StopState::Broken,
        (StopState::Terminating { guardian }, WindowsEvent::Done) => if guardian {
            StopState::AwaitingGuardian
        } else {
            StopState::Deleting
        },
        (StopState::AwaitingGuardian, WindowsEvent::Done) => StopState::Verifying,
        (StopState::Verifying, WindowsEvent::Done) => StopState::Deleting,
        (StopState::Deleting, WindowsEvent::Done) => StopState::Telling,
        (StopState::Telling, WindowsEvent::Done) => StopState::Succeeded,
        (_, WindowsEvent::Failed) => StopState::Failed,
        _ => state,
    }
}

pub fn stop_asks(state: StopState) -> (r: StopAction)
    ensures
        r == stop_wants(state),
{
    match state {
        StopState::Locking => StopAction::Lock,
        StopState::Reconciling => StopAction::Reconcile,
        StopState::TellingNone => StopAction::TellNone,
        StopState::TerminatingBroken => StopAction::Terminate { seconds: 6 },
        StopState::Terminating { .. } => StopAction::Terminate { seconds: 6 },
        StopState::AwaitingGuardian => StopAction::AwaitGuardian { seconds: 15 },
        StopState::Verifying => StopAction::VerifyRestored,
        StopState::Deleting => StopAction::DeleteState,
        StopState::Telling => StopAction::TellStopped,
        _ => StopAction::Finish,
    }
}

/// Where stopping a session on Windows goes from `state` on `event`.
pub fn stop_windows(state: StopState, event: WindowsEvent) -> (r: StopState)
    ensures
        r == stop_next(state, event),
{
    match (state, event) {
        (StopState::Succeeded, _) => state,
        (StopState::Broken, _) => state,
        (StopState::Locking, WindowsEvent::Done) => StopState::Reconciling,
        (StopState::Reconciling, WindowsEvent::Reconciled(found)) => match found {
            Reconciled::Nothing => StopState::TellingNone,
            Reconciled::BrokenGuardian => StopState::TerminatingBroken,
            Reconciled::Active { guardian } => StopState::Terminating { guardian },
        },
        (StopState::TellingNone, WindowsEvent::Done) => StopState::Succeeded,
        (StopState::TerminatingBroken, WindowsEvent::Done) => StopState::Broken,
        (StopState::Terminating { guardian }, WindowsEvent::Done) => if guardian {
            StopState::AwaitingGuardian
        } else {
            StopState::Deleting
        },
        (StopState::AwaitingGuardian, WindowsEvent::Done) => StopState::Verifying,
        (StopState::Verifying, WindowsEvent::Done) => StopState::Deleting,
        (StopState::Deleting, WindowsEvent::Done) => StopState::Telling,
        (StopState::Telling, WindowsEvent::Done) => StopState::Succeeded,
        (_, WindowsEvent::Failed) => StopState::Failed,
        _ => state,
    }
}

/// A session's state is deleted only after its worker was ended; with a guardian only after that has ended
/// too and the lid actions were verified to be restored. Where the guardian is gone it is never deleted.
pub proof fn law_windows_stop_deletes_last(state: StopState, event: WindowsEvent)
    ensures
        stop_next(state, event) is Deleting && state !is Deleting ==> event == WindowsEvent::Done
            && (state is Verifying || state == StopState::Terminating { guardian: false }),
        stop_next(state, event) is Verifying && state !is Verifying ==> event == WindowsEvent::Done
            && state is AwaitingGuardian,
        state is TerminatingBroken ==> stop_next(state, event) is TerminatingBroken || stop_next(
            state,
            event,
        ) is Broken || stop_next(state, event) is Failed,
{
}

/// Where a stop stands after these events.
pub open spec fn stop_after(events: Seq<WindowsEvent>) -> StopState
    decreases events.len(),
{
    if events.len() == 0 {
        StopState::Locking
    } else {
        stop_next(stop_after(events.drop_last()), events.last())
    }
}

/// A stop that finds no session ends no process, and fails only where something that it asked for
/// failed: to stop again is safe.
pub proof fn law_windows_stopping_again_is_safe(events: Seq<WindowsEvent>)
    requires
        forall|i: int|
            0 <= i < events.len() ==> (#[trigger] events[i] matches WindowsEvent::Reconciled(found)
                ==> found == Reconciled::Nothing),
    ensures
        stop_wants(stop_after(events)) !is Terminate,
        stop_after(events) != StopState::Broken,
        (forall|i: int| 0 <= i < events.len() ==> #[trigger] events[i] != WindowsEvent::Failed)
            ==> stop_after(events) != StopState::Failed,
    decreases events.len(),
{
    if events.len() > 0 {
        let before = events.drop_last();
        assert forall|i: int| 0 <= i < before.len() implies #[trigger] before[i] == events[i] by {}
        law_windows_stopping_again_is_safe(before);
        assert(events.last() == events[events.len() - 1]);
    }
}

/// How far telling of a session on Windows has come.
#[derive(Clone, Copy, Debug, PartialEq, Eq, Structural)]
pub enum StatusState {
    Locking,
    Reconciling,
    TellingNone,
    Showing { lid: bool },
    ShowingLid,
    Succeeded,
    Broken,
    Failed,
}

/// What telling of a session on Windows asks for next.
pub fn status_asks(state: StatusState) -> (r: StopAction)
    ensures
        r == (match state {
            StatusState::Locking => StopAction::Lock,
            StatusState::Reconciling => StopAction::Reconcile,
            StatusState::TellingNone => StopAction::TellNone,
            StatusState::Showing { .. } => StopAction::ShowStatus,
            StatusState::ShowingLid => StopAction::ShowLid,
            _ => StopAction::Finish,
        }),
{
    match state {
        StatusState::Locking => StopAction::Lock,
        StatusState::Reconciling => StopAction::Reconcile,
        StatusState::TellingNone => StopAction::TellNone,
        StatusState::Showing { .. } => StopAction::ShowStatus,
        StatusState::ShowingLid => StopAction::ShowLid,
        _ => StopAction::Finish,
    }
}

/// Where telling of a session on Windows goes from `state` on `event`. An active session has the lid
/// exactly if it has a guardian.
pub fn status_windows(state: StatusState, event: WindowsEvent) -> (r: StatusState)
    ensures
        r == (match (state, event) {
            (StatusState::Succeeded, _) => state,
            (StatusState::Broken, _) => state,
            (StatusState::Locking, WindowsEvent::Done) => StatusState::Reconciling,
            (StatusState::Reconciling, WindowsEvent::Reconciled(found)) => match found {
                Reconciled::Nothing => StatusState::TellingNone,
                Reconciled::Active { guardian } => StatusState::Showing { lid: guardian },
                Reconciled::BrokenGuardian => StatusState::Broken,
            },
            (StatusState::TellingNone, WindowsEvent::Done) => StatusState::Succeeded,
            (StatusState::Showing { lid }, WindowsEvent::Done) => if lid {
                StatusState::ShowingLid
            } else {
                StatusState::Succeeded
            },
            (StatusState::ShowingLid, WindowsEvent::Done) => StatusState::Succeeded,
            (_, WindowsEvent::Failed) => StatusState::Failed,
            _ => state,
        }),
{
    match (state, event) {
        (StatusState::Succeeded, _) => state,
        (StatusState::Broken, _) => state,
        (StatusState::Locking, WindowsEvent::Done) => StatusState::Reconciling,
        (StatusState::Reconciling, WindowsEvent::Reconciled(found)) => match found {
            Reconciled::Nothing => StatusState::TellingNone,
            Reconciled::Active { guardian } => StatusState::Showing { lid: guardian },
            Reconciled::BrokenGuardian => StatusState::Broken,
        },
        (StatusState::TellingNone, WindowsEvent::Done) => StatusState::Succeeded,
        (StatusState::Showing { lid }, WindowsEvent::Done) => if lid {
            StatusState::ShowingLid
        } else {
            StatusState::Succeeded
        },
        (StatusState::ShowingLid, WindowsEvent::Done) => StatusState::Succeeded,
        (_, WindowsEvent::Failed) => StatusState::Failed,
        _ => state,
    }
}

/// What is answered of something that works or does not.
pub open spec fn answered(ok: bool) -> WindowsEvent {
    if ok {
        WindowsEvent::Done
    } else {
        WindowsEvent::Failed
    }
}

/// A system as comparing meets it: what it answers, and what was done to it so far.
pub struct ReconcileWorld {
    pub found: FoundState,
    pub worker: FoundWorker,
    /// Whether a guardian runs, and ends in time.
    pub guardian: bool,
    pub guardian_ends: bool,
    pub recovers: bool,
    pub deletes: bool,
    /// Whether the state is saved, and the lid actions were restored.
    pub saved: bool,
    pub restored: bool,
}

impl ReconcileWorld {
    /// What the system answers to an action, and what it is then.
    pub open spec fn answer(self, action: ReconcileAction) -> (ReconcileWorld, WindowsEvent) {
        match action {
            ReconcileAction::ReadSaved => (self, WindowsEvent::Saved(self.found)),
            ReconcileAction::FindWorker => (self, WindowsEvent::Worker(self.worker)),
            ReconcileAction::FindGuardian => (self, WindowsEvent::Answer(self.guardian)),
            ReconcileAction::AwaitGuardian { .. } => (self, answered(self.guardian_ends)),
            ReconcileAction::FinishOrRecover => (
                ReconcileWorld {
                    restored: self.recovers,
                    saved: self.saved && !self.recovers,
                    ..self
                },
                answered(self.recovers),
            ),
            ReconcileAction::DeleteState => (
                ReconcileWorld { saved: self.saved && !self.deletes, ..self },
                answered(self.deletes),
            ),
            ReconcileAction::Finish => (self, WindowsEvent::Done),
        }
    }
}

/// A step of comparing.
pub open spec fn reconcile_step(at: (ReconcileState, ReconcileWorld)) -> (
    ReconcileState,
    ReconcileWorld,
) {
    let (world, event) = at.1.answer(reconcile_wants(at.0));
    (reconcile_next(at.0, event), world)
}

/// What comparing comes to: a worker that runs is an active session, with its guardian where it has the lid;
/// a session without its worker is deleted, and one with the lid is recovered first. Where the state
/// cannot be read, or another program runs where the worker should, nothing is touched.
pub proof fn law_reconciling_comes_to_its_end(world: ReconcileWorld)
    requires
        world.saved && !world.restored,
    ensures
        ({
            let c1 = reconcile_step((ReconcileState::Reading, world));
            let c2 = reconcile_step(c1);
            let c3 = reconcile_step(c2);
            let c4 = reconcile_step(c3);
            let (state, after) = reconcile_step(c4);
            match (world.found, world.worker) {
                (FoundState::Missing, _) => state == ReconcileState::Ended(Reconciled::Nothing)
                    && after == world,
                (FoundState::Malformed, _) => state is Malformed && after == world,
                (_, FoundWorker::Foreign) => state is ForeignWorker && after == world,
                (FoundState::Ordinary, FoundWorker::Matching) => state == ReconcileState::Ended(
                    Reconciled::Active { guardian: false },
                ) && after == world,
                (FoundState::Ordinary, FoundWorker::Missing) => (if world.deletes {
                    state == ReconcileState::Ended(Reconciled::Nothing) && !after.saved
                } else {
                    state is Failed && after.saved
                }) && !after.restored,
                (FoundState::Lid, FoundWorker::Matching) => after == world && state
                    == ReconcileState::Ended(
                    if world.guardian {
                        Reconciled::Active { guardian: true }
                    } else {
                        Reconciled::BrokenGuardian
                    },
                ),
                (FoundState::Lid, FoundWorker::Missing) => if (world.guardian
                    ==> world.guardian_ends) && world.recovers {
                    state == ReconcileState::Ended(Reconciled::Nothing) && after.restored
                        && !after.saved
                } else {
                    state is Failed && after == world
                },
            }
        }),
{
}

/// A system as a recovery meets it: what it answers, and what was done to it so far.
pub struct RecoverWorld {
    pub readable: bool,
    pub due: bool,
    pub allowed: bool,
    pub restores: bool,
    pub deletes: bool,
    pub restored: bool,
    pub saved: bool,
}

impl RecoverWorld {
    /// What the system answers to an action, and what it is then.
    pub open spec fn answer(self, action: RecoverAction) -> (RecoverWorld, WindowsEvent) {
        match action {
            RecoverAction::ReadScheme => (self, answered(self.readable)),
            RecoverAction::CheckDue => (self, WindowsEvent::Answer(self.due)),
            RecoverAction::CheckAccess => (self, answered(self.allowed)),
            RecoverAction::Restore => (
                RecoverWorld { restored: self.restores, ..self },
                answered(self.restores),
            ),
            RecoverAction::DeleteState => (
                RecoverWorld { saved: self.saved && !self.deletes, ..self },
                answered(self.deletes),
            ),
            RecoverAction::Finish => (self, WindowsEvent::Done),
        }
    }
}

/// A step of a recovery.
pub open spec fn recover_step(at: (RecoverState, RecoverWorld)) -> (RecoverState, RecoverWorld) {
    let (world, event) = at.1.answer(recover_wants(at.0));
    (recover_next(at.0, event), world)
}

/// A recovery restores the lid actions and deletes the state exactly where it can: the session must say which
/// they were, and where they have to be written back that must be allowed. It keeps the state
/// wherever it fails.
pub proof fn law_recoveries_come_to_their_end(world: RecoverWorld)
    requires
        world.saved && !world.restored,
    ensures
        ({
            let c1 = recover_step((RecoverState::ReadingScheme, world));
            let c2 = recover_step(c1);
            let c3 = recover_step(c2);
            let c4 = recover_step(c3);
            let (state, after) = recover_step(c4);
            let restored = world.readable && (world.due ==> world.allowed) && world.restores;
            &&& after.restored == restored
            &&& state is Succeeded <==> restored && world.deletes
            &&& after.saved <==> state !is Succeeded
            &&& state !is Succeeded ==> state is Failed
        }),
{
}

/// A system as a start on Windows meets it: what it answers, and what the start has done to it so far.
pub struct StartWorld {
    pub locks: bool,
    /// What comparing comes to, where it comes to something.
    pub reconciled: Option<Reconciled>,
    /// Whether the battery can be read, and the charge where it is met already.
    pub readable: bool,
    pub met: Option<i32>,
    pub allowed: bool,
    pub captures: bool,
    pub prepares: bool,
    pub spawns: bool,
    pub identifies: bool,
    pub worker_comes: bool,
    pub guardian_starts: bool,
    pub lid_ready: bool,
    /// How the worker has ended, where it has.
    pub ended: Option<bool>,
    pub guardian_ends: bool,
    pub verifies: bool,
    pub deletes: bool,
    /// Whether the worker and the guardian run, and the session is saved.
    pub worker: bool,
    pub guardian: bool,
    pub saved: bool,
    /// Whether the user was told of the session or of its condition, and of which charge.
    pub confirmed: bool,
    pub condition: bool,
    pub told: Option<i32>,
}

impl StartWorld {
    /// What the system answers to an action, and what it is then.
    pub open spec fn answer(self, action: StartAction) -> (StartWorld, WindowsEvent) {
        match action {
            StartAction::Lock => (self, answered(self.locks)),
            StartAction::Reconcile => (
                self,
                match self.reconciled {
                    Some(found) => WindowsEvent::Reconciled(found),
                    None => WindowsEvent::Failed,
                },
            ),
            StartAction::PrepareCharge => (
                self,
                if !self.readable {
                    WindowsEvent::Failed
                } else {
                    match self.met {
                        Some(percent) => WindowsEvent::Percent(percent),
                        None => WindowsEvent::Done,
                    }
                },
            ),
            StartAction::CheckAccess => (self, answered(self.allowed)),
            StartAction::CaptureLid => (self, answered(self.captures)),
            StartAction::PrepareCommand => (self, answered(self.prepares)),
            StartAction::SpawnWorker => (
                StartWorld { worker: self.spawns, ..self },
                answered(self.spawns),
            ),
            StartAction::IdentifyWorker => (self, answered(self.identifies)),
            StartAction::AwaitWorker => (
                StartWorld { saved: self.worker_comes, ..self },
                answered(self.worker_comes),
            ),
            StartAction::CleanUpWorker => (
                StartWorld { worker: false, saved: false, ..self },
                WindowsEvent::Done,
            ),
            StartAction::SpawnGuardian => (
                StartWorld { guardian: self.guardian_starts, ..self },
                answered(self.guardian_starts),
            ),
            StartAction::AwaitLid => (self, answered(self.lid_ready)),
            StartAction::CheckWorker => (
                StartWorld { worker: self.worker && self.ended is None, ..self },
                WindowsEvent::Ended(self.ended),
            ),
            StartAction::KillWorker => (StartWorld { worker: false, ..self }, WindowsEvent::Done),
            StartAction::AwaitGuardian { .. } => (
                StartWorld { guardian: self.guardian && !self.guardian_ends, ..self },
                answered(self.guardian_ends),
            ),
            StartAction::VerifyRestored => (self, answered(self.verifies)),
            StartAction::DeleteState => (
                StartWorld { saved: self.saved && !self.deletes, ..self },
                answered(self.deletes),
            ),
            StartAction::TellCondition => (
                StartWorld { condition: true, ..self },
                WindowsEvent::Done,
            ),
            StartAction::TellChargeMet(percent) => (
                StartWorld { told: Some(percent), ..self },
                WindowsEvent::Done,
            ),
            StartAction::Confirm => (
                StartWorld { confirmed: true, ..self },
                WindowsEvent::Done,
            ),
            StartAction::Finish => (self, WindowsEvent::Done),
        }
    }
}

/// A step of a start on Windows.
pub open spec fn start_step(plan: WindowsPlan, at: (StartState, StartWorld)) -> (
    StartState,
    StartWorld,
) {
    let (world, event) = at.1.answer(start_wants(at.0));
    (start_next(plan, at.0, event), world)
}

/// Where a start on Windows stands after so many steps.
#[verifier::opaque]
pub open spec fn start_steps(plan: WindowsPlan, at: (StartState, StartWorld), steps: nat) -> (
    StartState,
    StartWorld,
)
    decreases steps,
{
    if steps == 0 {
        at
    } else {
        start_steps(plan, start_step(plan, at), (steps - 1) as nat)
    }
}

proof fn lemma_start_unrolls(plan: WindowsPlan, at: (StartState, StartWorld), steps: nat)
    requires
        steps > 0,
    ensures
        start_steps(plan, at, steps) == start_steps(
            plan,
            start_step(plan, at),
            (steps - 1) as nat,
        ),
{
    reveal(start_steps);
}

proof fn lemma_start_ended(plan: WindowsPlan, at: (StartState, StartWorld), steps: nat)
    requires
        at.0 is Succeeded || at.0 is Failed,
    ensures
        start_steps(plan, at, steps) == at,
    decreases steps,
{
    reveal(start_steps);
    if steps > 0 {
        assert(start_step(plan, at) == at);
        lemma_start_ended(plan, at, (steps - 1) as nat);
    }
}

/// Whether nothing has been started and nobody been told.
pub open spec fn untouched(world: StartWorld) -> bool {
    !world.worker && !world.guardian && !world.saved && !world.confirmed && !world.condition
        && world.told is None
}

/// Where no session is active, what the start goes on with.
spec fn start_clear(world: StartWorld) -> bool {
    world.locks && world.reconciled == Some(Reconciled::Nothing)
}

proof fn lemma_start_reaches(plan: WindowsPlan, world: StartWorld)
    ensures
        ({
            let end = start_steps(plan, (StartState::Locking, world), 20);
            if !world.locks || world.reconciled is None {
                end == (StartState::Failed(StartFault::LastError), world)
            } else if world.reconciled->0 is Active {
                end == (StartState::Failed(StartFault::AlreadyActive), world)
            } else if world.reconciled->0 is BrokenGuardian {
                end == (StartState::Failed(StartFault::BrokenGuardian), world)
            } else if plan.charge {
                end == start_steps(plan, (StartState::PreparingCharge, world), 18)
            } else {
                end == start_steps(plan, (past_charge(plan), world), 18)
            }
        }),
{
    let c0 = (StartState::Locking, world);
    lemma_start_unrolls(plan, c0, 20);
    let c1 = start_step(plan, c0);
    if world.locks {
        assert(c1 == (StartState::Reconciling, world));
        lemma_start_unrolls(plan, c1, 19);
        let c2 = start_step(plan, c1);
        if !(world.reconciled == Some(Reconciled::Nothing)) {
            lemma_start_ended(plan, c2, 18);
        }
    } else {
        lemma_start_ended(plan, c1, 19);
    }
}

proof fn lemma_start_past_charge(plan: WindowsPlan, world: StartWorld, steps: nat)
    requires
        steps > 3,
    ensures
        ({
            let end = start_steps(plan, (past_charge(plan), world), steps);
            if plan.even_lid && !(world.allowed && world.captures) {
                end == (StartState::Failed(StartFault::LastError), world)
            } else {
                end == start_steps(
                    plan,
                    (StartState::PreparingCommand, world),
                    (if plan.even_lid {
                        steps - 2
                    } else {
                        steps as int
                    }) as nat,
                )
            }
        }),
{
    if plan.even_lid {
        let c0 = (StartState::CheckingAccess, world);
        lemma_start_unrolls(plan, c0, steps);
        let c1 = start_step(plan, c0);
        if world.allowed {
            assert(c1 == (StartState::CapturingLid, world));
            lemma_start_unrolls(plan, c1, (steps - 1) as nat);
            if !world.captures {
                lemma_start_ended(plan, start_step(plan, c1), (steps - 2) as nat);
            }
        } else {
            lemma_start_ended(plan, c1, (steps - 1) as nat);
        }
    }
}

proof fn lemma_start_works(plan: WindowsPlan, world: StartWorld, steps: nat)
    requires
        untouched(world),
        steps > 8,
    ensures
        ({
            let end = start_steps(plan, (StartState::PreparingCommand, world), steps);
            let running = StartWorld { worker: true, ..world };
            if !world.prepares || !world.spawns {
                end == (StartState::Failed(StartFault::LastError), world)
            } else if !world.identifies {
                end == (StartState::Failed(StartFault::LastError), running)
            } else if !world.worker_comes {
                end.0 is Failed && untouched(end.1)
            } else if plan.even_lid {
                end == start_steps(
                    plan,
                    (StartState::SpawningGuardian, StartWorld { saved: true, ..running }),
                    (steps - 4) as nat,
                )
            } else {
                end == (
                    StartState::Succeeded,
                    StartWorld { saved: true, confirmed: true, ..running },
                )
            }
        }),
{
    let c0 = (StartState::PreparingCommand, world);
    lemma_start_unrolls(plan, c0, steps);
    let c1 = start_step(plan, c0);
    if world.prepares {
        assert(c1 == (StartState::SpawningWorker, world));
        lemma_start_unrolls(plan, c1, (steps - 1) as nat);
        let c2 = start_step(plan, c1);
        if world.spawns {
            let running = StartWorld { worker: true, ..world };
            assert(c2 == (StartState::Identifying, running));
            lemma_start_unrolls(plan, c2, (steps - 2) as nat);
            let c3 = start_step(plan, c2);
            if world.identifies {
                assert(c3 == (StartState::AwaitingWorker, running));
                lemma_start_unrolls(plan, c3, (steps - 3) as nat);
                let c4 = start_step(plan, c3);
                if !world.worker_comes {
                    assert(c4 == (StartState::CleaningUp, running));
                    lemma_start_unrolls(plan, c4, (steps - 4) as nat);
                    let c5 = start_step(plan, c4);
                    assert(c5.0 is Failed);
                    lemma_start_ended(plan, c5, (steps - 5) as nat);
                } else if !plan.even_lid {
                    assert(c4 == (StartState::Confirming, StartWorld { saved: true, ..running }));
                    lemma_start_unrolls(plan, c4, (steps - 4) as nat);
                    lemma_start_ended(plan, start_step(plan, c4), (steps - 5) as nat);
                } else {
                    assert(c4 == (
                        StartState::SpawningGuardian,
                        StartWorld { saved: true, ..running },
                    ));
                }
            } else {
                lemma_start_ended(plan, c3, (steps - 3) as nat);
            }
        } else {
            lemma_start_ended(plan, c2, (steps - 2) as nat);
        }
    } else {
        lemma_start_ended(plan, c1, (steps - 1) as nat);
    }
}

proof fn lemma_start_undone(plan: WindowsPlan, met: bool, world: StartWorld, steps: nat)
    requires
        world.saved && !world.confirmed && !world.condition,
        steps > 4,
    ensures
        ({
            let (state, after) = start_steps(
                plan,
                (StartState::AwaitingGuardian { met }, world),
                steps,
            );
            let undone = world.guardian_ends && world.verifies && world.deletes;
            &&& state is Succeeded <==> undone && met
            &&& state !is Succeeded ==> state is Failed
            &&& !after.confirmed && after.condition == (undone && met)
            &&& after.saved <==> !undone
            &&& after.worker == world.worker
            &&& undone ==> !after.guardian
        }),
{
    let c0 = (StartState::AwaitingGuardian { met }, world);
    lemma_start_unrolls(plan, c0, steps);
    let c1 = start_step(plan, c0);
    if world.guardian_ends {
        let w1 = StartWorld { guardian: false, ..world };
        assert(c1 == (StartState::Verifying { met }, w1));
        lemma_start_unrolls(plan, c1, (steps - 1) as nat);
        let c2 = start_step(plan, c1);
        if world.verifies {
            assert(c2 == (StartState::Deleting { met }, w1));
            lemma_start_unrolls(plan, c2, (steps - 2) as nat);
            let c3 = start_step(plan, c2);
            if world.deletes && met {
                assert(c3 == (StartState::TellingCondition, StartWorld { saved: false, ..w1 }));
                lemma_start_unrolls(plan, c3, (steps - 3) as nat);
                lemma_start_ended(plan, start_step(plan, c3), (steps - 4) as nat);
            } else {
                assert(c3.0 is Failed);
                lemma_start_ended(plan, c3, (steps - 3) as nat);
            }
        } else {
            lemma_start_ended(plan, c2, (steps - 2) as nat);
        }
    } else {
        lemma_start_ended(plan, c1, (steps - 1) as nat);
    }
}

#[verifier::rlimit(60)]
proof fn lemma_start_guarded(plan: WindowsPlan, world: StartWorld, steps: nat)
    requires
        world.saved && world.worker && !world.guardian && !world.confirmed && !world.condition,
        steps > 9,
    ensures
        ({
            let (state, after) = start_steps(plan, (StartState::SpawningGuardian, world), steps);
            let met = world.ended == Some(true) && plan.conditional;
            let undone = world.guardian_ends && world.verifies && world.deletes;
            &&& world.guardian_starts && world.lid_ready ==> state is Succeeded && after.confirmed
                && after.worker && after.guardian && after.saved && !after.condition
            &&& !world.guardian_starts ==> state is Failed && !after.worker && !after.guardian
                && !after.saved && !after.confirmed && !after.condition
            &&& world.guardian_starts && !world.lid_ready ==> !after.worker && !after.confirmed && (
            state is Succeeded <==> undone && met) && (state !is Succeeded ==> state is Failed) && (
            after.saved <==> !undone) && (undone ==> !after.guardian) && (after.condition
                <==> state is Succeeded)
        }),
{
    let c0 = (StartState::SpawningGuardian, world);
    lemma_start_unrolls(plan, c0, steps);
    let c1 = start_step(plan, c0);
    if world.guardian_starts {
        let w1 = StartWorld { guardian: true, ..world };
        assert(c1 == (StartState::AwaitingLid, w1));
        lemma_start_unrolls(plan, c1, (steps - 1) as nat);
        let c2 = start_step(plan, c1);
        lemma_start_unrolls(plan, c2, (steps - 2) as nat);
        let c3 = start_step(plan, c2);
        if world.lid_ready {
            assert(c2 == (StartState::Confirming, w1));
            lemma_start_ended(plan, c3, (steps - 3) as nat);
        } else {
            assert(c2 == (StartState::CheckingWorker, w1));
            let gone = StartWorld { worker: false, ..w1 };
            match world.ended {
                Some(success) => {
                    assert(c3 == (
                        StartState::AwaitingGuardian { met: success && plan.conditional },
                        gone,
                    ));
                    lemma_start_undone(
                        plan,
                        success && plan.conditional,
                        gone,
                        (steps - 3) as nat,
                    );
                },
                None => {
                    assert(c3 == (StartState::KillingWorker, w1));
                    lemma_start_unrolls(plan, c3, (steps - 3) as nat);
                    assert(start_step(plan, c3) == (
                        StartState::AwaitingGuardian { met: false },
                        gone,
                    ));
                    lemma_start_undone(plan, false, gone, (steps - 4) as nat);
                },
            }
        }
    } else {
        assert(c1 == (StartState::CleaningUp, world));
        lemma_start_unrolls(plan, c1, (steps - 1) as nat);
        let c2 = start_step(plan, c1);
        lemma_start_ended(plan, c2, (steps - 2) as nat);
    }
}

/// A start on Windows comes to an end. The user is told of the session exactly where its worker has
/// published it and, with the lid, the guardian has found the lid ready; where the worker has met its
/// condition before that, the user is told so and nothing is left. Otherwise it fails: nothing was
/// started while another session is active or where the lid may not be written, the worker has been
/// ended, and the state is deleted once the lid actions were seen to be restored.
pub proof fn law_windows_starts_come_to_their_end(plan: WindowsPlan, world: StartWorld)
    requires
        untouched(world),
        world.identifies,
    ensures
        ({
            let (state, after) = start_steps(plan, (StartState::Locking, world), 20);
            let cleared = world.locks && world.reconciled == Some(Reconciled::Nothing);
            let met = plan.charge && world.readable && world.met is Some;
            let refused = (plan.charge && !world.readable) || (plan.even_lid && !(world.allowed
                && world.captures)) || !world.prepares || !world.spawns || !world.worker_comes;
            let undone = world.guardian_ends && world.verifies && world.deletes;
            &&& state is Succeeded || state is Failed
            &&& world.locks ==> (world.reconciled matches Some(Reconciled::Active { .. }) ==> state
                == StartState::Failed(StartFault::AlreadyActive))
            &&& world.locks ==> (world.reconciled matches Some(Reconciled::BrokenGuardian) ==> state
                == StartState::Failed(StartFault::BrokenGuardian))
            &&& !cleared ==> state is Failed && untouched(after)
            &&& cleared && met ==> state is Succeeded && after.told == world.met && !after.worker
            &&& cleared && !met && refused ==> state is Failed && untouched(after)
            &&& cleared && !met && !refused && !plan.even_lid ==> state is Succeeded && after.worker
                && after.saved && after.confirmed && !after.guardian
            &&& cleared && !met && !refused && plan.even_lid && !world.guardian_starts ==> state
                is Failed && !after.worker && !after.saved && !after.confirmed
            &&& cleared && !met && !refused && plan.even_lid && world.guardian_starts
                && world.lid_ready ==> state is Succeeded && after.worker && after.guardian
                && after.saved && after.confirmed
            &&& cleared && !met && !refused && plan.even_lid && world.guardian_starts
                && !world.lid_ready ==> !after.worker && !after.confirmed && (after.saved
                <==> !undone) && (state is Succeeded <==> undone && world.ended == Some(true)
                && plan.conditional) && after.condition == (state is Succeeded)
        }),
{
    lemma_start_reaches(plan, world);
    if start_clear(world) {
        if plan.charge {
            let c0 = (StartState::PreparingCharge, world);
            lemma_start_unrolls(plan, c0, 18);
            let c1 = start_step(plan, c0);
            if !world.readable {
                lemma_start_ended(plan, c1, 17);
            } else if world.met is Some {
                lemma_start_unrolls(plan, c1, 17);
                lemma_start_ended(plan, start_step(plan, c1), 16);
            } else {
                assert(c1 == (past_charge(plan), world));
                lemma_start_goes_on(plan, world, 17);
            }
        } else {
            lemma_start_goes_on(plan, world, 18);
        }
    }
}

proof fn lemma_start_goes_on(plan: WindowsPlan, world: StartWorld, steps: nat)
    requires
        untouched(world),
        world.identifies,
        steps > 16,
    ensures
        ({
            let (state, after) = start_steps(plan, (past_charge(plan), world), steps);
            let refused = (plan.even_lid && !(world.allowed && world.captures)) || !world.prepares
                || !world.spawns || !world.worker_comes;
            let undone = world.guardian_ends && world.verifies && world.deletes;
            &&& state is Succeeded || state is Failed
            &&& refused ==> state is Failed && untouched(after)
            &&& !refused && !plan.even_lid ==> state is Succeeded && after.worker && after.saved
                && after.confirmed && !after.guardian
            &&& !refused && plan.even_lid && !world.guardian_starts ==> state is Failed
                && !after.worker && !after.saved && !after.confirmed
            &&& !refused && plan.even_lid && world.guardian_starts && world.lid_ready ==> state
                is Succeeded && after.worker && after.guardian && after.saved && after.confirmed
            &&& !refused && plan.even_lid && world.guardian_starts && !world.lid_ready
                ==> !after.worker && !after.confirmed && (after.saved <==> !undone) && (state
                is Succeeded <==> undone && world.ended == Some(true) && plan.conditional)
                && after.condition == (state is Succeeded)
        }),
{
    lemma_start_past_charge(plan, world, steps);
    let n: nat = if plan.even_lid {
        (steps - 2) as nat
    } else {
        steps
    };
    lemma_start_works(plan, world, n);
    lemma_start_guarded(
        plan,
        StartWorld { worker: true, saved: true, ..world },
        (n - 4) as nat,
    );
}

/// Whatever but one without an end waits for something, and it is the target charge that makes a start look at the
/// battery.
pub proof fn law_windows_plans_say_what_was_asked(parsed: Parsed, plan: WindowsPlan)
    requires
        call_ensures(plan_windows, (&parsed,), plan),
    ensures
        plan.charge <==> parsed.charge_target is Some,
        plan.even_lid <==> parsed.even_lid,
        plan.conditional <==> parsed.trigger@ != "indefinite"@,
{
}

/// A system as a stop on Windows meets it: what it answers, and what the stop has done to it so far.
pub struct StopWorld {
    pub locks: bool,
    pub reconciled: Option<Reconciled>,
    pub terminates: bool,
    pub guardian_ends: bool,
    pub verifies: bool,
    pub deletes: bool,
    /// Whether the worker runs, and the session is saved.
    pub worker: bool,
    pub saved: bool,
    /// Whether the lid actions were seen to be restored.
    pub verified: bool,
    pub told_stopped: bool,
    pub told_none: bool,
}

impl StopWorld {
    /// What the system answers to an action, and what it is then.
    pub open spec fn answer(self, action: StopAction) -> (StopWorld, WindowsEvent) {
        match action {
            StopAction::Lock => (self, answered(self.locks)),
            StopAction::Reconcile => (
                self,
                match self.reconciled {
                    Some(found) => WindowsEvent::Reconciled(found),
                    None => WindowsEvent::Failed,
                },
            ),
            StopAction::Terminate { .. } => (
                StopWorld { worker: self.worker && !self.terminates, ..self },
                answered(self.terminates),
            ),
            StopAction::AwaitGuardian { .. } => (self, answered(self.guardian_ends)),
            StopAction::VerifyRestored => (
                StopWorld { verified: self.verifies, ..self },
                answered(self.verifies),
            ),
            StopAction::DeleteState => (
                StopWorld { saved: self.saved && !self.deletes, ..self },
                answered(self.deletes),
            ),
            StopAction::TellStopped => (
                StopWorld { told_stopped: true, ..self },
                WindowsEvent::Done,
            ),
            StopAction::TellNone => (StopWorld { told_none: true, ..self }, WindowsEvent::Done),
            _ => (self, WindowsEvent::Done),
        }
    }
}

/// A step of a stop on Windows.
pub open spec fn stop_step(at: (StopState, StopWorld)) -> (StopState, StopWorld) {
    let (world, event) = at.1.answer(stop_wants(at.0));
    (stop_next(at.0, event), world)
}

/// A stop on Windows comes to an end. It ends the worker that was found. Where it succeeds the state is
/// deleted, for a session with the lid after the lid actions were seen to be restored; where the guardian is
/// gone, and wherever it fails, the state is kept.
pub proof fn law_windows_stops_come_to_their_end(world: StopWorld)
    requires
        world.worker == (world.reconciled matches Some(found) && found !is Nothing),
        world.saved == world.worker,
        !world.verified && !world.told_stopped && !world.told_none,
    ensures
        ({
            let c1 = stop_step((StopState::Locking, world));
            let c2 = stop_step(c1);
            let c3 = stop_step(c2);
            let c4 = stop_step(c3);
            let c5 = stop_step(c4);
            let c6 = stop_step(c5);
            let (state, after) = stop_step(c6);
            let reached = world.locks && world.reconciled is Some;
            &&& !reached ==> state is Failed && after == world
            &&& reached ==> match world.reconciled->0 {
                Reconciled::Nothing => state is Succeeded && after.told_none && !after.told_stopped,
                Reconciled::BrokenGuardian => after.saved && after.worker == !world.terminates
                    && !after.told_stopped && if world.terminates {
                    state is Broken
                } else {
                    state is Failed
                },
                Reconciled::Active { guardian } => {
                    let undone = guardian ==> world.guardian_ends && world.verifies;
                    &&& state is Succeeded <==> world.terminates && undone && world.deletes
                    &&& state !is Succeeded ==> state is Failed && !after.told_stopped
                    &&& state is Succeeded ==> after.told_stopped && (guardian ==> after.verified)
                    &&& after.worker == !world.terminates
                    &&& after.saved <==> state !is Succeeded
                },
            }
        }),
{
    let c1 = stop_step((StopState::Locking, world));
    let c2 = stop_step(c1);
    let c3 = stop_step(c2);
    let c4 = stop_step(c3);
    if world.locks {
        assert(c1 == (StopState::Reconciling, world));
        match world.reconciled {
            Some(Reconciled::Nothing) => {
                assert(c2 == (StopState::TellingNone, world));
                assert(c3.0 is Succeeded);
            },
            Some(Reconciled::BrokenGuardian) => {
                assert(c2 == (StopState::TerminatingBroken, world));
            },
            Some(Reconciled::Active { guardian }) => {
                assert(c2 == (StopState::Terminating { guardian }, world));
                if world.terminates {
                    let gone = StopWorld { worker: false, ..world };
                    assert(c3.1 == gone);
                    assert(c3.0 == if guardian {
                        StopState::AwaitingGuardian
                    } else {
                        StopState::Deleting
                    });
                } else {
                    assert(c3.0 is Failed);
                }
            },
            None => {
                assert(c2.0 is Failed);
            },
        }
    } else {
        assert(c1.0 is Failed);
    }
}

/// The status on Windows compares first; then it shows the session that is active, and the lid where it has a
/// guardian, tells that there is none only where there is none, and fails where the guardian is gone.
pub proof fn law_windows_status_shows_what_is_active(
    found: Reconciled,
    reconciling: StatusState,
    telling: StatusState,
    next: StatusState,
    asked: (StopAction, StopAction, StopAction, StopAction),
)
    requires
        call_ensures(status_windows, (StatusState::Locking, WindowsEvent::Done), reconciling),
        call_ensures(status_windows, (reconciling, WindowsEvent::Reconciled(found)), telling),
        call_ensures(status_windows, (telling, WindowsEvent::Done), next),
        call_ensures(status_asks, (StatusState::Locking,), asked.0),
        call_ensures(status_asks, (reconciling,), asked.1),
        call_ensures(status_asks, (telling,), asked.2),
        call_ensures(status_asks, (next,), asked.3),
    ensures
        asked.0 == StopAction::Lock && asked.1 == StopAction::Reconcile,
        found is Nothing ==> asked.2 == StopAction::TellNone && next is Succeeded,
        found matches Reconciled::Active { guardian } ==> asked.2 == StopAction::ShowStatus && (
        guardian ==> asked.3 == StopAction::ShowLid) && (!guardian ==> next is Succeeded),
        found is BrokenGuardian ==> telling is Broken && next is Broken,
{
}

/// A worker's session is waited for as long as the worker runs, five seconds at most; it is taken for published
/// where the saved session has the worker's number, time of creation and program, and not yet the lid.
pub proof fn law_workers_are_waited_for(
    expected: Session,
    elapsed: Span,
    saved: Option<SavedState>,
    exited: bool,
    r: WorkerWait,
)
    requires
        call_ensures(wait_for_windows_worker_state, (&expected, elapsed, &saved, exited), r),
    ensures
        elapsed.seconds >= 5 ==> r == WorkerWait::Failed,
        r == WorkerWait::Published ==> (maybe_saved(saved) matches Some(Saved::Valid(s))
            && !s.even_lid && s.pid == expected@.pid && s.process_start == expected@.process_start),
        elapsed.seconds < 5 && (maybe_saved(saved) matches Some(Saved::Valid(s)) && !s.even_lid
            && s.pid == expected@.pid && s.process_start == expected@.process_start
            && s.process_command == expected@.process_command) ==> r == WorkerWait::Published,
        elapsed.seconds < 5 && (maybe_saved(saved) matches Some(Saved::Malformed(_))) ==> r
            == WorkerWait::Malformed,
        elapsed.seconds < 5 && maybe_saved(saved) is None ==> r == (if exited {
            WorkerWait::Failed
        } else {
            WorkerWait::Again
        }),
{
}

/// The lid is waited for as long as worker and guardian run, half a minute at most; it is ready where its
/// actions are healthy and the saved session has just the guardian and the values that were granted.
pub proof fn law_lids_are_waited_for(
    expected: Session,
    elapsed: Span,
    worker_exited: bool,
    guardian_running: bool,
    saved: Option<SavedState>,
    health: LidHealth,
    r: LidWait,
)
    requires
        call_ensures(
            wait_for_lid_ready,
            (&expected, elapsed, worker_exited, guardian_running, &saved, health),
            r,
        ),
    ensures
        r == LidWait::Ready ==> elapsed.seconds < 30 && !worker_exited && guardian_running && health
            == LidHealth::Healthy && (maybe_saved(saved) matches Some(Saved::Valid(s)) && s.even_lid
            && s.pid == expected@.pid && s.lid.guardian_pid == expected@.lid.guardian_pid
            && s.lid.guardian_start == expected@.lid.guardian_start && s.lid.original_ac
            == expected@.lid.original_ac && s.lid.original_dc == expected@.lid.original_dc
            && s.lid.original_scheme == expected@.lid.original_scheme),
        elapsed.seconds < 30 && !worker_exited && guardian_running && health == LidHealth::Healthy
            && (maybe_saved(saved) matches Some(Saved::Valid(s)) && s == expected@ && s.even_lid)
            ==> r == LidWait::Ready,
        r == LidWait::TimedOut <==> elapsed.seconds >= 30,
        r == LidWait::WorkerExited <==> elapsed.seconds < 30 && worker_exited,
        r == LidWait::GuardianExited <==> elapsed.seconds < 30 && !worker_exited
            && !guardian_running,
{
}

/// A guardian has done its work exactly where it has ended with the code nought, and the lid actions are
/// restored exactly where both are the recorded ones.
pub proof fn law_guardians_have_done_their_work(
    guardian: u32,
    exited: bool,
    code: Result<u32, AppError>,
    state_path: &str,
    r: Result<(), AppError>,
    saved: Session,
    values: (u32, u32),
    verified: Result<(), AppError>,
)
    requires
        call_ensures(guardian_exit, (guardian, exited, code, state_path), r),
        call_ensures(verify_lid_restored, (&saved, values, state_path), verified),
    ensures
        r is Ok <==> exited && (code matches Ok(n) && n == 0),
        verified is Ok <==> values.0 == saved@.lid.original_ac && values.1
            == saved@.lid.original_dc,
{
}

/// The session that is expected of a guardian says who it is and what it is to put back, and is the worker's
/// otherwise.
pub proof fn law_grants_say_what_is_put_back(
    s: Record,
    guardian: (u32, u64),
    original: (Seq<char>, u32, u32),
)
    ensures
        ({
            let r = grant(s, guardian, original);
            &&& r.lid.guardian_pid == guardian.0 && r.lid.guardian_start == guardian.1
            &&& r.lid.original_scheme == original.0 && r.lid.original_ac == original.1
                && r.lid.original_dc == original.2
            &&& r.pid == s.pid && r.process_start == s.process_start && r.process_command
                == s.process_command && r.even_lid == s.even_lid && r.trigger == s.trigger
                && r.detail == s.detail && r.mode == s.mode && r.ends_at == s.ends_at
                && r.started_at == s.started_at
        }),
{
}

/// A process is the worker's exactly where it is the session's own, and another's where something else runs; a
/// saved state is a session with the lid or without, and is malformed exactly where it cannot be read.
pub proof fn law_workers_are_told_from_others(
    saved: Session,
    live: Option<Identity>,
    found: FoundWorker,
    state: Option<SavedState>,
    class: FoundState,
)
    requires
        call_ensures(exact_worker, (&saved, &live), found),
        call_ensures(classify_saved, (&state,), class),
    ensures
        found == FoundWorker::Missing <==> live is None,
        found == FoundWorker::Matching <==> (live matches Some(process) && saved@.is_process(
            Platform::Windows,
            process@,
        )),
        class == FoundState::Missing <==> state is None,
        class == FoundState::Malformed <==> (maybe_saved(state) matches Some(Saved::Malformed(_))),
        class == FoundState::Lid <==> (maybe_saved(state) matches Some(Saved::Valid(s))
            && s.even_lid),
{
}

} // verus!
