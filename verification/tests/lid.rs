use wake::error::AppError;
use wake::lid::helper::{
    decode_helper_state_dir, encode_helper_state_dir, mac_helper_command, restore_elevated,
};
use wake::lid::launch::{
    begin_launch, finish_watchdog_launch, launch_asks, launch_watchdog, published_watchdog_state,
    ready_state, ready_wait_error, recorded_watchdog, request_owner_stop, wait_for_child_claimed,
    wait_for_child_ready, wait_for_helper_exit, wait_ready, wait_recorded_watchdog_exit,
    LaunchAction, LaunchEvent, LaunchState, ReadyWait,
};
use wake::lid::recovery::{
    begin_finish, begin_prepare, begin_quiesce, decide_recovery, finish_asks, finish_stop,
    marker_not_cleared, missing_marker, no_terminal, prepare_asks, prepare_start, quiesce_asks,
    quiesce_error, quiesce_owner, quiesce_recovery, recover_unlocked, recovery_asks,
    recovery_session, recovery_watchdog, rejection, remove_matching_session, restore_word,
    rollback_asks, rollback_pending_marker, rollback_start, run_restore, unexpected_session,
    unsupported_recovery, FinishState,
    LidAction, LidEvent, PrepareState, QuiesceState, RecoveryDecision, RecoverySession,
    RecoveryState, RecoveryWatchdog, RestoreState, RollbackState,
};
use wake::lid::recovery::RecoveryDecision::{Keep, QuiesceRestore, Reject, Remove, Restore};
use wake::lid::recovery::RecoverySession::{LiveLid, LiveOrdinary, Malformed, Missing, Stale};
use wake::lid::recovery::RecoveryWatchdog::{Malformed as BadWatchdog, Missing as NoWatchdog, Valid};
use wake::lid::watchdog::{
    begin_watch, change_failure, pending_matches, run_watchdog, validate_watchdog_start,
    watch_asks, watch_fault, watch_result, watchdog_words, WatchAction, WatchEvent, WatchFault,
    WatchState,
};
use wake::lid::{
    abort_start_cleanup, begin_change, ensure_ready, finish_after_mutation, finish_change,
    marker_from_snapshot, sleep_from_marker, snapshot_from_marker, uses_watchdog, watchdog_health,
    LeaseRef, LidRestore, OwnedSession, Prepared, WatchdogHealth, WatchdogState,
};
use wake::platform::windows::{guid_eq, parse_guid, LidSnapshot};
use wake::platform::Platform;
use wake::run::{Mode, RunSpec, Trigger};
use wake::time::Span;

fn spec(even_lid: bool) -> RunSpec {
    RunSpec {
        mode: Mode::DisplaySystem,
        trigger: Trigger::Indefinite,
        even_lid,
    }
}

#[test]
fn linux_even_lid_does_not_use_watchdog() {
    assert!(!uses_watchdog(Platform::Linux, &spec(true)));
    assert!(uses_watchdog(Platform::Macos, &spec(true)));
    assert!(!uses_watchdog(Platform::Windows, &spec(false)));
}

fn process(pid: u32) -> LeaseRef {
    LeaseRef {
        pid,
        token: format!("{pid:032x}"),
    }
}

fn units(path: &str) -> Vec<u16> {
    path.encode_utf16().collect()
}

#[test]
fn elevated_helper_state_directory_round_trips() {
    let path = units("C:\\Users\\\u{394} user\\\u{72b6}\u{614b}");
    let encoded = encode_helper_state_dir(&path);

    assert!(encoded.bytes().all(|byte| byte.is_ascii_hexdigit()));
    assert_eq!(decode_helper_state_dir(&encoded).unwrap(), path);
    let relative = encode_helper_state_dir(&units("relative"));
    for invalid in ["", "0", "zzzz", relative.as_str()] {
        assert!(decode_helper_state_dir(invalid).is_err());
    }
}

type Events = Vec<&'static str>;

/// A step that is told of and comes to `result`.
fn step(
    name: &'static str,
    result: Result<(), AppError>,
) -> impl FnOnce(Events) -> (Events, Result<(), AppError>) {
    move |mut events| {
        events.push(name);
        (events, result)
    }
}

/// A step that nobody is told of.
fn quiet(result: Result<(), AppError>) -> impl FnOnce(Events) -> (Events, Result<(), AppError>) {
    move |events| (events, result)
}

#[test]
fn startup_publishes_watchdog_before_mutation_and_readiness() {
    let (events, result) = begin_change(
        Vec::new(),
        step("watchdog", Ok(())),
        step("mutate", Ok(())),
        step("ready", Ok(())),
        quiet(Ok(())),
        quiet(Ok(())),
        quiet(Ok(())),
    );
    result.unwrap();

    assert_eq!(events, ["watchdog", "mutate", "ready"]);
}

#[test]
fn startup_failure_restores_then_clears_marker_and_watchdog() {
    let (events, result) = begin_change(
        Vec::new(),
        step("watchdog", Ok(())),
        step("mutate", Err(AppError::fail("change failed"))),
        quiet(Ok(())),
        step("restore", Ok(())),
        step("marker", Ok(())),
        step("watchdog-clear", Ok(())),
    );

    assert_eq!(result.unwrap_err().message(), "change failed");
    assert_eq!(
        events,
        ["watchdog", "mutate", "restore", "marker", "watchdog-clear"]
    );
}

#[test]
fn readiness_publication_failure_rolls_back_the_mutation() {
    let (events, result) = begin_change(
        Vec::new(),
        quiet(Ok(())),
        step("mutate", Ok(())),
        quiet(Err(AppError::fail("ready failed"))),
        step("restore", Ok(())),
        step("marker", Ok(())),
        step("watchdog", Ok(())),
    );

    assert_eq!(result.unwrap_err().message(), "ready failed");
    assert_eq!(events, ["mutate", "restore", "marker", "watchdog"]);
}

#[test]
fn failed_restore_retains_marker_and_watchdog() {
    let (events, result) = begin_change(
        Vec::new(),
        step("watchdog", Ok(())),
        quiet(Err(AppError::fail("change failed"))),
        quiet(Ok(())),
        step("restore", Err(AppError::fail("restore failed"))),
        step("marker", Ok(())),
        step("watchdog-clear", Ok(())),
    );

    assert!(result.unwrap_err().message().contains("restore failed"));
    assert_eq!(events, ["watchdog", "restore"]);
}

#[test]
fn natural_cleanup_keeps_watchdog_recorded_until_marker_is_clear() {
    let (events, result) = finish_change(
        Vec::new(),
        step("restore", Ok(())),
        step("session", Ok(())),
        step("stop", Ok(())),
        step("marker", Ok(())),
        step("watchdog", Ok(())),
    );
    result.unwrap();

    assert_eq!(
        events,
        ["restore", "session", "stop", "marker", "watchdog"]
    );
}

fn watch(owner: u32, watchdog: u32, ready: bool) -> WatchdogState {
    WatchdogState {
        owner: process(owner),
        watchdog: process(watchdog),
        ready,
    }
}

#[test]
fn watchdog_health_checks_exact_identities_and_liveness() {
    let owner = process(10);
    let watchdog = process(20);
    let ready = watch(10, 20, true);
    let starting = watch(10, 20, false);
    let wrong = watch(11, 20, true);

    assert_eq!(
        watchdog_health(&owner, Some(&ready), |candidate: &LeaseRef| Ok(
            candidate.same(&watchdog)
        ))
        .unwrap(),
        WatchdogHealth::Ready
    );
    assert_eq!(
        watchdog_health(&owner, None, |_: &LeaseRef| Ok(true)).unwrap(),
        WatchdogHealth::Missing
    );
    assert_eq!(
        watchdog_health(&owner, Some(&wrong), |_: &LeaseRef| Ok(true)).unwrap(),
        WatchdogHealth::Mismatch
    );
    assert_eq!(
        watchdog_health(&owner, Some(&starting), |_: &LeaseRef| Ok(true)).unwrap(),
        WatchdogHealth::Starting
    );
    assert_eq!(
        watchdog_health(&owner, Some(&ready), |_: &LeaseRef| Ok(false)).unwrap(),
        WatchdogHealth::Dead
    );
    assert!(
        watchdog_health(&owner, Some(&ready), |_: &LeaseRef| Err(AppError::fail(
            "unreadable lease"
        )))
        .is_err()
    );
    assert!(ensure_ready(WatchdogHealth::Ready).is_ok());
    assert!(ensure_ready(WatchdogHealth::Starting).is_err());
}

#[test]
fn recovery_decision_covers_serialized_state_without_unsafe_guessing() {
    let cases = [
        (false, Missing, NoWatchdog, Keep),
        (false, LiveOrdinary, NoWatchdog, Keep),
        (false, Stale, NoWatchdog, Remove),
        (false, LiveLid, NoWatchdog, Reject),
        (false, Malformed, NoWatchdog, Reject),
        (false, Missing, BadWatchdog, Reject),
        (
            false,
            Missing,
            Valid {
                watchdog_live: true,
                owner_live: true,
                owner_matches_session: false,
            },
            Reject,
        ),
        (
            true,
            LiveLid,
            Valid {
                watchdog_live: true,
                owner_live: true,
                owner_matches_session: true,
            },
            Keep,
        ),
        (
            true,
            LiveLid,
            Valid {
                watchdog_live: true,
                owner_live: true,
                owner_matches_session: false,
            },
            Reject,
        ),
        (true, LiveLid, NoWatchdog, Keep),
        (
            true,
            Malformed,
            Valid {
                watchdog_live: true,
                owner_live: true,
                owner_matches_session: false,
            },
            Reject,
        ),
        (
            true,
            Stale,
            Valid {
                watchdog_live: true,
                owner_live: false,
                owner_matches_session: false,
            },
            Reject,
        ),
        (
            true,
            Missing,
            Valid {
                watchdog_live: true,
                owner_live: false,
                owner_matches_session: false,
            },
            QuiesceRestore,
        ),
        (
            true,
            Malformed,
            Valid {
                watchdog_live: false,
                owner_live: false,
                owner_matches_session: false,
            },
            Restore,
        ),
        (true, Missing, NoWatchdog, Restore),
        (true, LiveOrdinary, NoWatchdog, Reject),
        (true, Missing, BadWatchdog, Reject),
    ];
    for (marker, session, watchdog, expected) in cases {
        assert_eq!(decide_recovery(marker, session, watchdog), expected);
    }
}

#[test]
fn post_mutation_error_restores_before_cleanup_and_is_preserved() {
    let (events, result) = finish_after_mutation(
        Vec::new(),
        Err(AppError::fail("monitor failed")),
        step("restore", Ok(())),
        step("session", Ok(())),
        step("stop", Ok(())),
        step("marker", Ok(())),
        step("watchdog", Ok(())),
    );

    assert_eq!(result.unwrap_err().message(), "monitor failed");
    assert_eq!(
        events,
        ["restore", "session", "stop", "marker", "watchdog"]
    );
}

#[test]
fn post_mutation_restore_failure_retains_session_and_marker() {
    let (events, result) = finish_after_mutation(
        Vec::new(),
        Err(AppError::fail("monitor failed")),
        step("restore", Err(AppError::fail("restore failed"))),
        step("session", Ok(())),
        quiet(Ok(())),
        step("marker", Ok(())),
        quiet(Ok(())),
    );

    assert!(result.unwrap_err().message().contains("restore failed"));
    assert_eq!(events, ["restore"]);
}

#[test]
fn failed_helper_start_stops_owner_and_proves_exit_before_restore() {
    let (events, result) = abort_start_cleanup(
        Vec::new(),
        step("stop-owner", Ok(())),
        step("wait-helper", Ok(())),
        step("restore", Ok(())),
    );
    result.unwrap();
    assert_eq!(events, ["stop-owner", "wait-helper", "restore"]);
}

#[test]
fn failed_helper_wait_prevents_restore() {
    let (events, result) = abort_start_cleanup(
        Vec::new(),
        step("stop-owner", Ok(())),
        step("wait-helper", Err(AppError::fail("helper still running"))),
        step("restore", Ok(())),
    );

    assert_eq!(result.unwrap_err().message(), "helper still running");
    assert_eq!(events, ["stop-owner", "wait-helper"]);
}

#[test]
fn a_failed_rollback_is_told_behind_the_failure() {
    let (_, result) = begin_change(
        Vec::new(),
        quiet(Ok(())),
        quiet(Err(AppError::fail("change failed"))),
        quiet(Ok(())),
        quiet(Ok(())),
        quiet(Err(AppError::fail("marker stuck"))),
        quiet(Ok(())),
    );
    assert_eq!(
        result.unwrap_err().message(),
        "change failed; rollback failed: marker stuck"
    );
    assert_eq!(
        change_failure(AppError::fail("a"), Err(AppError::fail("b"))).message(),
        "a; rollback failed: b"
    );
    assert_eq!(change_failure(AppError::fail("a"), Ok(())).message(), "a");
}

#[test]
fn markers_keep_what_was_there() {
    let scheme = parse_guid("381b4222-f694-41f0-9685-ff5bb260df2e").unwrap();
    let snapshot = LidSnapshot {
        scheme,
        ac: 1,
        dc: 2,
    };
    let marker = marker_from_snapshot(&snapshot);
    let read = snapshot_from_marker(&marker).unwrap();
    assert!(guid_eq(&read.scheme, &scheme));
    assert_eq!((read.ac, read.dc), (1, 2));
    assert!(marker.same(&marker_from_snapshot(&read)));
    assert_eq!(
        sleep_from_marker(&marker).unwrap_err().message(),
        "Windows lid restoration marker found on macOS"
    );
    let mac = LidRestore::Macos {
        sleep_disabled: true,
    };
    assert!(sleep_from_marker(&mac).unwrap());
    assert!(!marker.same(&mac));
    assert_eq!(
        snapshot_from_marker(&mac).unwrap_err().message(),
        "macOS lid restoration marker found on Windows"
    );
    let prepared = Prepared { marker: mac };
    assert_eq!(
        rollback_start(Platform::Linux, &prepared)
            .unwrap_err()
            .message(),
        "unexpected Linux lid recovery state"
    );
    assert!(rollback_start(Platform::Windows, &prepared).is_err());
    assert_eq!(
        rollback_start(Platform::Macos, &prepared).unwrap(),
        RollbackState::CheckingRestored { known: true }
    );
}

#[test]
fn records_are_classified() {
    let session = |even_lid| {
        Ok(Some(OwnedSession {
            spec: spec(even_lid),
            owner: process(10),
        }))
    };
    let mac = Platform::Macos;
    assert_eq!(
        recovery_session(mac, &session(true), true),
        RecoverySession::LiveLid
    );
    assert_eq!(
        recovery_session(mac, &session(false), true),
        RecoverySession::LiveOrdinary
    );
    assert_eq!(
        recovery_session(Platform::Linux, &session(true), true),
        RecoverySession::LiveOrdinary
    );
    assert_eq!(
        recovery_session(mac, &session(true), false),
        RecoverySession::Stale
    );
    assert_eq!(
        recovery_session(mac, &Err(AppError::fail("x")), false),
        RecoverySession::Malformed
    );
    assert_eq!(
        recovery_session(mac, &Ok(None), false),
        RecoverySession::Missing
    );
    assert_eq!(
        recovery_watchdog(&session(true), &Ok(Some(watch(10, 20, true))), (true, false)),
        RecoveryWatchdog::Valid {
            watchdog_live: true,
            owner_live: false,
            owner_matches_session: true,
        }
    );
    assert_eq!(
        recovery_watchdog(&session(true), &Ok(Some(watch(11, 20, true))), (false, false)),
        RecoveryWatchdog::Valid {
            watchdog_live: false,
            owner_live: false,
            owner_matches_session: false,
        }
    );
    assert_eq!(
        rejection(None, Some(AppError::fail("bad"))).message(),
        "bad"
    );
    assert_eq!(
        rejection(None, None).message(),
        "inconsistent lid recovery state"
    );
}

#[test]
fn recovery_puts_the_lid_back_before_it_removes_records() {
    let mut state = RecoveryState::CleaningLeases;
    let mut asked = Vec::new();
    while recovery_asks(state) != LidAction::Finish {
        let action = recovery_asks(state);
        asked.push(action);
        let event = match action {
            LidAction::ReadMarker => LidEvent::Answer(true),
            LidAction::ReadSession => LidEvent::Session(RecoverySession::Stale),
            LidAction::ReadWatchdog => LidEvent::Watchdog(RecoveryWatchdog::Valid {
                watchdog_live: true,
                owner_live: false,
                owner_matches_session: true,
            }),
            _ => LidEvent::Done,
        };
        state = recover_unlocked(Platform::Macos, state, event);
    }
    assert_eq!(
        asked,
        [
            LidAction::CleanLeases,
            LidAction::ReadMarker,
            LidAction::ReadSession,
            LidAction::ReadWatchdog,
            LidAction::ReadSnapshot,
            LidAction::Quiesce,
            LidAction::RollBack,
            LidAction::RemoveState,
            LidAction::RemoveWatchdog,
            LidAction::ReconcileStop,
        ]
    );
    assert_eq!(state, RecoveryState::Succeeded);
}

#[test]
fn what_lives_is_stopped_in_order() {
    let session = OwnedSession {
        spec: spec(true),
        owner: process(10),
    };
    let state = watch(11, 20, true);
    assert_eq!(quiesce_owner(Some(&session), Some(&state)).unwrap().pid, 10);
    assert_eq!(quiesce_owner(None, Some(&state)).unwrap().pid, 11);
    assert!(quiesce_owner(None, None).is_none());
    let mut quiesce = begin_quiesce(true, true);
    for (action, event) in [
        (LidAction::RequestStop, LidEvent::Done),
        (LidAction::AwaitOwner { seconds: 15 }, LidEvent::Answer(true)),
        (LidAction::AwaitWatchdog { seconds: 15 }, LidEvent::Answer(false)),
    ] {
        assert_eq!(quiesce_asks(quiesce), action);
        quiesce = quiesce_recovery(true, quiesce, event);
    }
    assert_eq!(quiesce, QuiesceState::WatchdogStuck);
}

#[test]
fn a_marker_goes_only_when_the_lid_is_back() {
    let mut state = RollbackState::ReadingMarker;
    for (action, event) in [
        (LidAction::ReadMarker, LidEvent::Answer(true)),
        (LidAction::ReadSnapshot, LidEvent::Done),
        (LidAction::CheckRestored, LidEvent::Answer(false)),
        (LidAction::ReadMarker, LidEvent::Answer(true)),
        (LidAction::RestoreElevated, LidEvent::Done),
        (LidAction::ReadMarker, LidEvent::Answer(true)),
    ] {
        assert_eq!(rollback_asks(state), action);
        state = rollback_pending_marker(state, event);
    }
    assert_eq!(state, RollbackState::NotCleared);
    let mut state = RestoreState::ReadingMarker;
    for event in [LidEvent::Answer(true), LidEvent::Done, LidEvent::Failed] {
        state = run_restore(state, event);
    }
    assert_eq!(state, RestoreState::Failed);
    assert!(restore_word(&[]).is_err());
    assert_eq!(restore_word(&["d".to_string()]).unwrap(), "d");
}

#[test]
fn a_lid_stop_touches_only_its_own_records() {
    assert_eq!(begin_finish(Platform::Linux), FinishState::Unexpected);
    let state = begin_finish(Platform::Macos);
    assert_eq!(finish_asks(state), LidAction::CheckOwner);
    assert_eq!(
        finish_stop(state, LidEvent::Answer(true)),
        FinishState::Succeeded
    );
    assert_eq!(
        finish_stop(state, LidEvent::Answer(false)),
        FinishState::Quiescing
    );
    let current = OwnedSession {
        spec: spec(true),
        owner: process(10),
    };
    assert!(!remove_matching_session(&process(10), None, false).unwrap());
    assert!(remove_matching_session(&process(10), Some(&current), false).unwrap());
    assert!(remove_matching_session(&process(10), Some(&current), true).is_err());
    assert!(remove_matching_session(&process(11), Some(&current), false).is_err());
}

#[test]
fn preparing_marks_what_is_there() {
    assert_eq!(begin_prepare(Platform::Linux, true), PrepareState::NotNeeded);
    assert_eq!(begin_prepare(Platform::Macos, false), PrepareState::NotNeeded);
    let mut state = begin_prepare(Platform::Macos, true);
    for (action, event) in [
        (LidAction::CheckProgram, LidEvent::Done),
        (LidAction::CheckTerminal, LidEvent::Answer(true)),
        (LidAction::Authenticate, LidEvent::Done),
        (LidAction::ReadSnapshot, LidEvent::Done),
        (LidAction::WriteMarker, LidEvent::Done),
    ] {
        assert_eq!(prepare_asks(state), action);
        state = prepare_start(state, event);
    }
    assert_eq!(state, PrepareState::Prepared);
}

fn launch(platform: Platform, failing: LaunchAction) -> (LaunchState, Vec<LaunchAction>) {
    let mut state = begin_launch(platform, true);
    let mut asked = Vec::new();
    while launch_asks(state) != LaunchAction::Finish {
        let action = launch_asks(state);
        asked.push(action);
        let event = if action == failing {
            LaunchEvent::Failed
        } else {
            match action {
                LaunchAction::AwaitOwner { .. } => LaunchEvent::Answer(true),
                LaunchAction::CheckOwner => LaunchEvent::Answer(false),
                _ => LaunchEvent::Done,
            }
        };
        state = launch_watchdog(platform, state, event);
    }
    (state, asked)
}

#[test]
fn a_launch_records_before_it_starts_and_gives_up_in_order() {
    let (state, asked) = launch(Platform::Windows, LaunchAction::Finish);
    assert_eq!(state, LaunchState::Succeeded);
    assert_eq!(
        asked,
        [
            LaunchAction::EncodeDirectory,
            LaunchAction::ReserveLease,
            LaunchAction::WritePending,
            LaunchAction::SpawnHelper,
            LaunchAction::AwaitClaim { seconds: 15 },
            LaunchAction::CommitLease,
            LaunchAction::Unlock,
            LaunchAction::AwaitReady { seconds: 15 },
        ]
    );
    let (state, asked) = launch(Platform::Macos, LaunchAction::AwaitReady { seconds: 15 });
    assert_eq!(
        state,
        LaunchState::Failed {
            cleanup_failed: false,
            discard_failed: false
        }
    );
    let from = asked
        .iter()
        .position(|action| *action == LaunchAction::AwaitReady { seconds: 15 })
        .unwrap();
    assert_eq!(
        &asked[from + 1..],
        [
            LaunchAction::RequestStop,
            LaunchAction::AwaitOwner { seconds: 15 },
            LaunchAction::AwaitHelper { seconds: 15 },
            LaunchAction::AwaitRecorded { seconds: 15 },
            LaunchAction::Lock,
            LaunchAction::CheckOwner,
            LaunchAction::RollBack,
            LaunchAction::RemoveSession,
            LaunchAction::ClearStop,
            LaunchAction::RemoveWatchdog,
            LaunchAction::DiscardLease,
        ]
    );
    assert_eq!(begin_launch(Platform::Linux, true), LaunchState::Succeeded);
    assert_eq!(
        finish_watchdog_launch(AppError::fail("a"), Ok(()), Err(AppError::fail("b")))
            .unwrap_err()
            .message(),
        "a; cleanup failed: b"
    );
}

#[test]
fn looks_at_a_starting_watchdog_come_to_something() {
    let (early, late) = (Span::from_millis(14_999), Span::from_millis(15_000));
    let text = |r: Option<Result<(), AppError>>| r.map(|r| r.map_err(|e| e.message().to_string()));
    assert_eq!(text(wait_for_child_claimed(early, None, false)), None);
    assert_eq!(text(wait_for_child_claimed(early, None, true)), Some(Ok(())));
    assert_eq!(
        text(wait_for_child_claimed(early, Some(3), true)),
        Some(Err("lid watchdog exited during startup with code 3".into()))
    );
    assert_eq!(
        text(wait_for_child_claimed(late, None, true)),
        Some(Err("lid watchdog did not claim its process lease".into()))
    );
    assert_eq!(text(wait_for_child_ready(early, true, None)), Some(Ok(())));
    assert_eq!(
        text(wait_for_child_ready(early, true, Some(0))),
        Some(Err("lid watchdog exited during startup".into()))
    );
    assert_eq!(text(wait_for_child_ready(early, false, None)), None);
    assert_eq!(
        text(wait_for_child_ready(late, true, None)),
        Some(Err("lid watchdog did not publish ready state".into()))
    );
    assert_eq!(text(wait_for_helper_exit(early, true)), Some(Ok(())));
    assert_eq!(text(wait_for_helper_exit(early, false)), None);
    assert_eq!(
        text(wait_for_helper_exit(late, true)),
        Some(Err("lid watchdog did not exit after startup failure".into()))
    );
    assert!(recorded_watchdog(&process(10), Some(&watch(10, 20, true))).unwrap());
    assert!(recorded_watchdog(&process(11), Some(&watch(10, 20, true))).is_err());
    assert!(wait_recorded_watchdog_exit(false).is_err());
    assert!(request_owner_stop(true).is_ok());

    let owner = process(10);
    let state = watch(10, 20, true);
    assert!(published_watchdog_state(&owner, Some(&state), Some(20), Ok(true)).unwrap());
    assert!(published_watchdog_state(&owner, Some(&state), Some(21), Ok(true)).is_err());
    assert!(published_watchdog_state(&owner, Some(&state), None, Ok(false)).is_err());
    assert!(!published_watchdog_state(&owner, Some(&watch(10, 0, false)), None, Ok(false)).unwrap());
    assert!(!ready_state(&owner, Some(&watch(10, 20, false)), None, Ok(true)).unwrap());
    assert!(ready_state(&owner, Some(&state), None, Ok(true)).unwrap());
}

#[test]
fn a_session_waits_for_its_own_watchdog() {
    let owner = process(10);
    let look = |published, state: Option<&WatchdogState>, live| {
        wait_ready(&owner, published, false, state, live, Span::from_millis(14_999))
    };
    assert_eq!(look(false, None, true), ReadyWait::Again { published: false });
    assert_eq!(look(true, None, true), ReadyWait::Disappeared);
    assert_eq!(look(false, Some(&watch(10, 20, true)), true), ReadyWait::Ready);
    assert_eq!(look(false, Some(&watch(10, 20, true)), false), ReadyWait::Exited);
    assert_eq!(look(false, Some(&watch(11, 20, true)), true), ReadyWait::Mismatched);
    assert_eq!(
        look(false, Some(&watch(10, 0, false)), true),
        ReadyWait::Again { published: true }
    );
    assert_eq!(
        wait_ready(&owner, false, true, None, true, Span::from_millis(0)),
        ReadyWait::Stopped
    );
    let starting = watch(10, 20, false);
    let waiting = |millis| {
        wait_ready(&owner, true, false, Some(&starting), true, Span::from_millis(millis))
    };
    assert_eq!(waiting(299_999), ReadyWait::Again { published: true });
    assert_eq!(waiting(300_000), ReadyWait::NotReady);
    let late = wait_ready(&owner, false, false, None, true, Span::from_millis(15_000));
    assert_eq!(late, ReadyWait::NotPublished);
    assert_eq!(
        ready_wait_error(late).message(),
        "lid watchdog did not publish startup state"
    );
}

fn watch_run(failing: WatchAction, lid: bool) -> (WatchState, Vec<WatchAction>) {
    let mut state = begin_watch(Platform::Macos);
    let mut asked = Vec::new();
    let mut looks = 0;
    while watch_asks(state) != WatchAction::Finish {
        let action = watch_asks(state);
        asked.push(action);
        let event = if action == failing {
            WatchEvent::Failed
        } else {
            match action {
                WatchAction::ReadSession
                | WatchAction::ReadPending
                | WatchAction::TryLock => WatchEvent::Answer(true),
                WatchAction::CheckOwner => {
                    looks += 1;
                    WatchEvent::Answer(looks < 4)
                }
                WatchAction::CheckLid => WatchEvent::Answer(lid),
                WatchAction::CheckCancelled => WatchEvent::Answer(false),
                _ => WatchEvent::Done,
            }
        };
        state = run_watchdog(state, event);
    }
    (state, asked)
}

#[test]
fn a_watchdog_puts_the_lid_back_when_the_owner_ends() {
    let (state, asked) = watch_run(WatchAction::Finish, true);
    assert_eq!(state, WatchState::Succeeded);
    assert_eq!(
        &asked[asked.len() - 5..],
        [
            WatchAction::RestoreLid,
            WatchAction::RemoveSession,
            WatchAction::ClearStop,
            WatchAction::ClearMarker,
            WatchAction::RemoveWatchdog,
        ]
    );
    let (state, asked) = watch_run(WatchAction::DisableLid, true);
    assert_eq!(
        state,
        WatchState::ChangeFailed {
            rollback_failed: false
        }
    );
    assert_eq!(
        &asked[asked.len() - 3..],
        [
            WatchAction::RestoreLid,
            WatchAction::ClearMarker,
            WatchAction::RemoveWatchdog,
        ]
    );
    let (state, asked) = watch_run(WatchAction::Finish, false);
    assert!(matches!(
        state,
        WatchState::WatchFailed {
            cleanup_failed: false,
            ..
        }
    ));
    assert!(asked.contains(&WatchAction::StopOwner { seconds: 15 }));
}

#[test]
fn a_watchdog_checks_its_start() {
    let saved = OwnedSession {
        spec: spec(true),
        owner: process(10),
    };
    let marker = LidRestore::Macos {
        sleep_disabled: false,
    };
    let pending = WatchdogState {
        owner: process(10),
        watchdog: LeaseRef {
            pid: 0,
            token: "t".into(),
        },
        ready: false,
    };
    assert!(pending_matches(&process(10), "t", &pending));
    assert!(!pending_matches(&process(10), "u", &pending));
    let check = |live, stop| {
        validate_watchdog_start(
            &saved,
            &marker,
            &pending,
            Some(&saved),
            live,
            stop,
            Some(&marker),
            Some(&pending),
        )
    };
    assert!(check(true, false).is_ok());
    assert_eq!(
        check(true, true).unwrap_err().message(),
        "lid watchdog startup was cancelled"
    );
    assert!(check(false, false).is_err());
    assert_eq!(
        watchdog_words(Platform::Macos, &["t".to_string()]).unwrap(),
        ("t".to_string(), None)
    );
    assert_eq!(
        watchdog_words(Platform::Windows, &["t".to_string()])
            .unwrap_err()
            .message(),
        "lid watchdog expects a process lease and state directory"
    );
    assert_eq!(
        watch_fault(WatchFault::NoMarker, AppError::fail("unused")).message(),
        "lid watchdog found no restoration marker"
    );
    assert_eq!(
        watch_result(Err(AppError::fail("a")), Ok(()), Err(AppError::fail("b")))
            .unwrap_err()
            .message(),
        "a; cleanup failed: b"
    );
}

#[test]
fn helpers_are_started_with_their_state() {
    let command = mac_helper_command(
        Ok("/state".into()),
        Ok("/usr/bin/wake".into()),
        &vec!["__lid_watchdog__".to_string(), "t".to_string()],
    )
    .unwrap();
    assert_eq!(
        command,
        [
            "/usr/bin/sudo",
            "-n",
            "/usr/bin/env",
            "WAKE_STATE_DIR=/state",
            "/usr/bin/wake",
            "__lid_watchdog__",
            "t",
        ]
    );
    assert!(mac_helper_command(Ok("/s".into()), Err(AppError::fail("x")), &vec![]).is_err());
    assert!(restore_elevated(0).is_ok());
    assert_eq!(
        restore_elevated(4).unwrap_err().message(),
        "elevated lid restoration exited with code 4"
    );
}

#[test]
fn lid_errors_say_what_is_wrong() {
    for (error, message) in [
        (
            unsupported_recovery(),
            "lid restoration marker found on unsupported platform",
        ),
        (quiesce_error(true), "lid watchdog did not exit after its owner"),
        (quiesce_error(false), "could not stop lid session owner"),
        (marker_not_cleared(), "lid restoration marker was not cleared"),
        (unexpected_session(), "unexpected Linux lid session"),
        (missing_marker(), "no lid restoration marker found"),
        (
            no_terminal(),
            "--even-lid needs an interactive terminal for sudo authentication",
        ),
    ] {
        assert_eq!(error.message(), message);
    }
}
