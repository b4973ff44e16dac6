use wake::commands::clock::{next_wall_time, seconds_until, LocalInstant, LocalResolution};
use wake::commands::report::{
    already_active, broken_guardian_stopped, charge_met_line, confirmation_lines, lid_health_line,
    pretty_duration, retained_error, sleep_rescue_lines, status_lines, stopped_line,
    windows_condition_completed,
};
use wake::commands::sleep::{
    self, begin_lid_start, crash_asks, lid_start_asks, recover_crashed_even_lid_unix, restore_asks,
    restore_disable_sleep_with_prompt_if_possible, start_lid_supervisor,
    verify_disable_sleep_restored_after_stop, CrashState, LidStart, RestoreState, SleepAction,
    SleepEvent, SleepFault,
};
use wake::commands::unix::{
    changed_sleep, charge_helper_command, charge_supervisor_command, charge_target_met,
    current_charge_met, helper_command, lid_supervisor_command, not_published, recover_stale_lid_session_unlocked,
    plan_start, requested_session, session_until, start_asks, start_unix,
    stop_asks, stop_unix, until_supervisor_command, wait_for_supervisor_session, AwaitStep,
    CommandAction, CommandEvent, CommandFault, StaleDecision, StartPlan, StartState, StopState,
};
use wake::commands::windows::{
    self, classify_saved, exact_worker, granted, guardian_exit, verify_lid_restored,
    wait_for_lid_ready, wait_for_windows_worker_state, FoundState, FoundWorker, LidWait,
    Reconciled, ReconcileAction, ReconcileState, RecoverAction, RecoverState, WindowsEvent,
    WindowsPlan, WorkerWait,
};
use wake::commands::{
    claim_boolean, claim_trigger, next_value, parse_clock, parse_int, parse_start_args, start_query,
    StartFacts, StartQuery,
};
use wake::error::AppError;
use wake::platform::windows::LidHealth;
use wake::platform::Platform;
use wake::session::{SavedState, Session};
use wake::supervisor::lid::parse_lid_args;
use wake::supervisor::unix::{parse_charge_args, parse_until_args};
use wake::sysutil::Identity;
use wake::time::{parse_utc, Span, Timestamp};

const SYSTEMS: [Platform; 3] = [Platform::Linux, Platform::Macos, Platform::Windows];

fn args(values: &[&str]) -> Vec<String> {
    values.iter().map(|value| (*value).to_string()).collect()
}

fn facts() -> StartFacts {
    StartFacts {
        until: Ok(60),
        alive: true,
        start: Ok(77),
        app: Ok(Some(42)),
    }
}

fn wall(year_days: i64, hour: i64, minute: i64) -> i64 {
    year_days * 86_400 + hour * 3600 + minute * 60
}

fn fixed(wall: i64, offset: i32) -> LocalInstant {
    LocalInstant {
        instant: Timestamp {
            seconds: wall - i64::from(offset),
            nanos: 0,
        },
        offset,
    }
}

// Days since 1970.
const NOVEMBER_3_2024: i64 = 20_030;
const MARCH_10_2024: i64 = 19_792;
const MARCH_9_2024: i64 = 19_791;

#[test]
fn startup_charge_race_uses_the_original_direction() {
    assert!(charge_target_met(80, true, 80));
    assert!(charge_target_met(80, true, 81));
    assert!(!charge_target_met(80, true, 79));
    assert!(charge_target_met(80, false, 80));
    assert!(charge_target_met(80, false, 79));
    assert!(!charge_target_met(80, false, 81));
}

#[test]
fn elapsed_even_lid_condition_is_not_a_startup_failure() {
    let saved = Session {
        trigger: "timed".into(),
        ends_at: Some(Timestamp {
            seconds: 1_700_000_000,
            nanos: 0,
        }),
        ..Session::default()
    };
    assert!(windows_condition_completed(true, &saved, None).is_some());
    assert!(windows_condition_completed(false, &saved, None).is_none());
}

#[test]
fn parser_routes_indefinite_and_rejects_duplicates() {
    for platform in SYSTEMS {
        let parsed =
            parse_start_args(platform, &args(&["forever", "--no-display"]), &facts()).unwrap();
        assert_eq!(parsed.trigger, "indefinite");
        assert!(parsed.no_display);
        for values in [
            &["--no-display", "--no-display"][..],
            &["--even-lid", "--even-lid"],
        ] {
            assert!(matches!(
                parse_start_args(platform, &args(values), &facts()),
                Err(AppError::Usage(_))
            ));
        }
    }
}

#[test]
fn linux_routes_until_charge_with_even_lid() {
    let parsed = parse_start_args(
        Platform::Linux,
        &args(&["--until-charge", "80", "--even-lid"]),
        &facts(),
    )
    .unwrap();
    assert_eq!(parsed.charge_target, Some(80));
    assert!(parsed.even_lid);
}

#[test]
fn charge_supervisor_command_appends_even_lid() {
    let exe = || Ok("/usr/bin/wake".to_string());
    let explicit = charge_supervisor_command(exe(), 80, true, "system-only", true).unwrap();
    assert_eq!(
        &explicit[1..],
        ["__supervise_charge__", "80", "true", "system-only", "true"]
    );

    let ordinary = charge_supervisor_command(exe(), 80, false, "display+system", false).unwrap();
    assert_eq!(ordinary.last().map(String::as_str), Some("false"));
}

#[test]
fn invalid_pid_is_usage() {
    for platform in SYSTEMS {
        assert!(matches!(
            parse_start_args(platform, &args(&["--while-pid", "not-a-pid"]), &facts()),
            Err(AppError::Usage(_))
        ));
    }
}

#[test]
fn until_fold_chooses_earliest_future_occurrence() {
    let requested = wall(NOVEMBER_3_2024, 1, 30);
    let now = fixed(wall(NOVEMBER_3_2024, 5, 45), 0);
    let target = next_wall_time(&now, 5400, |wall| {
        if wall == requested {
            LocalResolution::Ambiguous(fixed(wall, -4 * 3600), fixed(wall, -5 * 3600))
        } else {
            LocalResolution::Single(fixed(wall, -5 * 3600))
        }
    })
    .unwrap();
    assert_eq!(
        target.instant.seconds,
        fixed(requested, -5 * 3600).instant.seconds
    );
}

#[test]
fn until_gap_uses_first_valid_wall_time() {
    let gap_start = wall(MARCH_10_2024, 2, 0);
    let gap_end = wall(MARCH_10_2024, 3, 0);
    let now = fixed(wall(MARCH_10_2024, 1, 0), -5 * 3600);
    let target = next_wall_time(&now, 9000, |wall| {
        if (gap_start..gap_end).contains(&wall) {
            LocalResolution::Missing
        } else {
            LocalResolution::Single(fixed(wall, -4 * 3600))
        }
    })
    .unwrap();
    assert_eq!(target.instant.seconds + i64::from(target.offset), gap_end);
}

#[test]
fn until_tomorrow_uses_the_next_calendar_date() {
    let now = fixed(wall(MARCH_9_2024, 23, 0), -5 * 3600);
    let target = next_wall_time(&now, 12 * 3600, |wall| {
        let offset = if wall.div_euclid(86_400) == MARCH_9_2024 {
            -5 * 3600
        } else {
            -4 * 3600
        };
        LocalResolution::Single(fixed(wall, offset))
    })
    .unwrap();
    assert_eq!(
        (target.instant.seconds + i64::from(target.offset)).div_euclid(86_400),
        MARCH_9_2024 + 1
    );
    assert_eq!(target.offset, -4 * 3600);
}

#[test]
fn seconds_to_a_time_of_day_are_counted() {
    let now = fixed(wall(MARCH_9_2024, 23, 0), 0);
    let single = |wall| LocalResolution::Single(fixed(wall, 0));
    assert_eq!(seconds_until("23:30", &now, single).unwrap(), 1800);
    assert_eq!(seconds_until("22:00", &now, single).unwrap(), 23 * 3600);
    assert_eq!(seconds_until("23:00", &now, single).unwrap(), 24 * 3600);
    assert!(matches!(
        seconds_until("24:00", &now, single),
        Err(AppError::Usage(_))
    ));
    assert!(seconds_until("12:00", &now, |_| LocalResolution::Missing).is_err());
}

#[test]
fn the_next_time_is_at_least_a_second_away() {
    let single = |wall| LocalResolution::Single(fixed(wall, 0));
    let mut now = fixed(wall(MARCH_9_2024, 23, 0) - 1, 0);
    now.instant.nanos = 999_999_999;
    assert_eq!(seconds_until("23:00", &now, single).unwrap(), 1);
    let mut now = fixed(wall(MARCH_9_2024, 23, 0), 0);
    now.instant.nanos = 1;
    assert_eq!(seconds_until("23:00", &now, single).unwrap(), 86_400);
}

#[test]
fn a_stopped_session_without_a_guardian_tells_how_to_recover() {
    assert_eq!(
        broken_guardian_stopped(&worker_session(), "C:\\state").message(),
        "guardian for worker 7 is not running; the exact worker was stopped, but recovery state was retained at C:\\state; run 'wake stop' again to start recovery"
    );
}

#[test]
fn every_form_of_a_start_is_read() {
    let parse = |values: &[&str]| parse_start_args(Platform::Linux, &args(values), &facts());
    let timed = parse(&["1h"]).unwrap();
    assert_eq!((timed.trigger.as_str(), timed.timeout_sec), ("timed", Some(3600)));
    let until = parse(&["--until", "12:30"]).unwrap();
    assert_eq!(
        (until.trigger.as_str(), until.timeout_sec, until.trigger_detail.as_str()),
        ("until-time", Some(60), "until 12:30")
    );
    let pid = parse(&["--while-pid", "42"]).unwrap();
    assert_eq!((pid.trigger.as_str(), pid.wait_pid), ("while-pid", Some(42)));
    let app = parse(&["--while-app", "Editor"]).unwrap();
    assert_eq!((app.trigger.as_str(), app.wait_pid), ("while-app", Some(42)));
    assert!(parse(&["1h", "--until", "12:30"]).is_err());
    assert!(parse(&["--until"]).is_err());
    assert!(parse(&["--until-charge", "101"]).is_err());
    assert!(matches!(
        start_query(Platform::Linux, &args(&["--until", "12:30"])),
        Some(StartQuery::Until {
            hour: 12,
            minute: 30
        })
    ));
    assert!(start_query(Platform::Linux, &args(&["1h"])).is_none());
}

#[test]
fn small_parsers_are_strict() {
    assert_eq!(parse_int(" 7 ", "n").unwrap(), 7);
    assert!(parse_int("x", "n").is_err());
    assert_eq!(parse_clock("07:05").unwrap(), (7, 5));
    assert!(parse_clock("7").is_err());
    assert_eq!(next_value(&args(&["--until", "x"]), 0, "--until").unwrap(), "x");
    assert!(next_value(&args(&["--until"]), 0, "--until").is_err());
    assert!(claim_trigger(&Some("timed".into()), "--until").is_err());
    assert!(claim_trigger(&None, "--until").is_ok());
    let mut flag = false;
    assert!(claim_boolean(&mut flag, "--no-display").is_ok());
    assert!(flag);
    assert!(claim_boolean(&mut flag, "--no-display").is_err());
}

#[test]
fn lengths_of_time_are_pretty() {
    assert_eq!(pretty_duration(3_725), "1h02m");
    assert_eq!(pretty_duration(125), "2m05s");
    assert_eq!(pretty_duration(5), "5s");
    assert_eq!(pretty_duration(-5), "0s");
}

fn instant(seconds: i64) -> Timestamp {
    Timestamp { seconds, nanos: 0 }
}

#[test]
fn status_and_confirmation_are_told() {
    let saved = Session {
        pid: 9,
        mode: "display+system".into(),
        trigger: "timed".into(),
        detail: "1h".into(),
        started_at: Some(instant(1_000)),
        ends_at: Some(instant(4_600)),
        ..Session::default()
    };
    let lines = status_lines(Platform::Linux, &saved, instant(1_060), "03:04:05", "/state");
    assert_eq!(
        lines,
        [
            "wake: session active (pid 9)",
            "  mode      : display+system",
            "  trigger   : timed (1h)",
            "  started   : 03:04:05 (1m00s ago)",
            "  remaining : 59m00s",
        ]
    );
    let lines = confirmation_lines(Platform::Linux, &saved, "03:04:05", "04:04:05", Some("note"));
    assert!(lines.iter().any(|line| line.contains("note")));
    assert!(stopped_line(&saved).contains("(pid 9, timed)"));
    assert!(already_active(&saved).message().contains("(pid 9, timed 1h)"));
    assert!(charge_met_line(81, 80).contains("81"));
    assert!(retained_error(Platform::Windows, true, "C:\\s")
        .message()
        .contains("with lid-recovery fields"));
    assert!(sleep_rescue_lines(0, "/s").iter().any(|line| line.contains("disablesleep 0")));
    assert!(lid_health_line(LidHealth::Healthy, "scheme", (0, 0)).contains("healthy"));
}

#[test]
fn a_stale_state_is_seen_to() {
    let lid = Session {
        pid: 9,
        process_start: 5,
        process_command: "/usr/bin/caffeinate".into(),
        even_lid: true,
        ..Session::default()
    };
    assert_eq!(
        recover_stale_lid_session_unlocked(
            Platform::Macos,
            &Some(SavedState::Valid(lid.clone())),
            &None
        ),
        StaleDecision::RestoreThenDelete
    );
    assert_eq!(
        recover_stale_lid_session_unlocked(Platform::Linux, &Some(SavedState::Valid(lid)), &None),
        StaleDecision::Delete
    );
    assert_eq!(
        recover_stale_lid_session_unlocked(
            Platform::Linux,
            &Some(SavedState::Malformed(false)),
            &None
        ),
        StaleDecision::Delete
    );
}

#[test]
fn helper_commands_are_read_back() {
    let deadline = parse_utc("2024-01-02T03:04:05+00:00", "t").unwrap();
    let command = until_supervisor_command(
        Ok("/usr/bin/wake".into()),
        &deadline,
        true,
        "until 03:04",
        false,
        "sleep",
    )
    .unwrap();
    let read = parse_until_args(Platform::Linux, &command[1..]).unwrap();
    assert_eq!(read.deadline, deadline);
    assert!(read.no_display && !read.even_lid);
    assert_eq!(
        (read.detail.as_str(), read.inhibitor_scope.as_str()),
        ("until 03:04", "sleep")
    );
    let parsed = parse_start_args(Platform::Macos, &args(&["1h", "--even-lid"]), &facts()).unwrap();
    let exe = || Ok("/usr/bin/wake".to_string());
    let lid = lid_supervisor_command(exe(), &parsed, None, 0, "1h").unwrap();
    assert_eq!(lid[1], "__supervise_lid__");
    let (prior, told) = parse_lid_args(&lid[1..]);
    let told = told.unwrap();
    assert_eq!((prior, told.timeout_sec, told.deadline), (Some(0), Some(3_600), None));
    assert_eq!((told.trigger.as_str(), told.detail.as_str()), ("timed", "1h"));
    let lid = lid_supervisor_command(exe(), &parsed, Some(deadline), 1, "1h").unwrap();
    let (prior, told) = parse_lid_args(&lid[1..]);
    let told = told.unwrap();
    assert_eq!((prior, told.timeout_sec, told.deadline), (Some(1), None, Some(deadline)));
    let no_exe = || Err(AppError::fail("no exe"));
    assert!(lid_supervisor_command(no_exe(), &parsed, None, 0, "1h").is_err());
    let command = charge_helper_command(exe(), 80, true, false, "sleep").unwrap();
    let read = parse_charge_args(Platform::Linux, &command[1..]).unwrap();
    assert!(read.no_display && !read.even_lid);
    assert_eq!((read.target, read.inhibitor_scope.as_str()), (80, "sleep"));
    assert!(charge_helper_command(no_exe(), 80, true, false, "sleep").is_err());
}

#[test]
fn sessions_start_now_and_end_when_asked() {
    let parsed = parse_start_args(Platform::Linux, &args(&["1h", "--no-display"]), &facts()).unwrap();
    let session = requested_session(&parsed, 7, instant(1_000));
    assert_eq!(session.pid, 7);
    assert_eq!(session.mode, "system-only");
    assert_eq!(session.started_at, Some(instant(1_000)));
    assert_eq!(session.ends_at, Some(instant(4_600)));
    assert_eq!(current_charge_met(80, true, Some(81)), Some(81));
    assert_eq!(current_charge_met(80, true, Some(79)), None);
}

fn plan(charge: bool, until: bool, even_lid: bool) -> StartPlan {
    StartPlan {
        platform: Platform::Linux,
        charge,
        until,
        even_lid,
    }
}

#[test]
fn a_start_publishes_before_it_confirms() {
    let mut state = StartState::Locking;
    let mut asked = Vec::new();
    while start_asks(state) != CommandAction::Finish {
        let action = start_asks(state);
        asked.push(action);
        let event = match action {
            CommandAction::FindActive => CommandEvent::Answer(false),
            _ => CommandEvent::Done,
        };
        state = start_unix(plan(false, false, false), state, event);
    }
    assert_eq!(
        asked,
        [
            CommandAction::Lock,
            CommandAction::Recover,
            CommandAction::FindActive,
            CommandAction::PrepareCommand,
            CommandAction::Spawn,
            CommandAction::CheckAlive,
            CommandAction::Publish,
            CommandAction::Confirm,
        ]
    );
    assert_eq!(state, StartState::Succeeded);
}

#[test]
fn a_start_beside_an_active_session_is_refused() {
    let state = start_unix(
        plan(false, false, false),
        StartState::Looking,
        CommandEvent::Answer(true),
    );
    assert_eq!(state, StartState::Failed(CommandFault::AlreadyActive));
    assert_eq!(
        start_unix(
            plan(false, false, false),
            StartState::Publishing,
            CommandEvent::Failed
        ),
        StartState::KillingChild
    );
    assert!(not_published().message().contains("publish"));
}

#[test]
fn an_until_start_waits_for_its_helper() {
    let p = plan(false, true, false);
    let mut state = StartState::Looking;
    for (event, next) in [
        (CommandEvent::Answer(false), StartState::PreparingUntil),
        (CommandEvent::Done, StartState::SpawningUntil),
        (CommandEvent::Done, StartState::AwaitingUntil),
        (CommandEvent::Answer(false), StartState::KillingUntil),
        (
            CommandEvent::Done,
            StartState::Failed(CommandFault::NotPublished),
        ),
    ] {
        state = start_unix(p, state, event);
        assert_eq!(state, next);
    }
}

#[test]
fn a_stop_deletes_after_the_process_ended() {
    let mut state = StopState::Locking;
    let mut asked = Vec::new();
    while stop_asks(state) != CommandAction::Finish {
        let action = stop_asks(state);
        asked.push(action);
        let event = match action {
            CommandAction::FindActive => CommandEvent::Answer(true),
            _ => CommandEvent::Done,
        };
        state = stop_unix(false, state, event);
    }
    let terminated = asked.iter().position(|a| *a == CommandAction::Terminate);
    let deleted = asked.iter().position(|a| *a == CommandAction::DeleteState);
    assert!(terminated.unwrap() < deleted.unwrap());
}

#[test]
fn a_helper_is_waited_for_as_long_as_it_lives() {
    assert!(matches!(
        wait_for_supervisor_session(7, false, 0, &None, true),
        AwaitStep::Again
    ));
    assert!(!matches!(
        wait_for_supervisor_session(7, false, 0, &None, false),
        AwaitStep::Again
    ));
}

#[test]
fn a_sleep_setting_counts_as_restored_only_when_read_back() {
    let mut state = RestoreState::SettingQuietly;
    for (action, event) in [
        (SleepAction::SetQuietly(0), SleepEvent::Answer(true)),
        (SleepAction::ReadSetting, SleepEvent::Setting(0)),
    ] {
        assert_eq!(restore_asks(0, state), action);
        state = restore_disable_sleep_with_prompt_if_possible(0, state, event);
    }
    assert_eq!(state, RestoreState::Restored);
    let unread = restore_disable_sleep_with_prompt_if_possible(
        0,
        RestoreState::CheckingQuietly,
        SleepEvent::Setting(1),
    );
    assert_ne!(unread, RestoreState::Restored);
    assert!(!matches!(
        lid_start_asks(begin_lid_start(false)),
        SleepAction::Finish
    ));
}

#[test]
fn a_setting_that_was_switched_before_is_left_alone() {
    assert_eq!(
        recover_crashed_even_lid_unix(1, CrashState::Reading, SleepEvent::Setting(0)),
        CrashState::Recovered
    );
    assert_eq!(
        recover_crashed_even_lid_unix(0, CrashState::Reading, SleepEvent::Setting(1)),
        CrashState::Restoring
    );
    assert_eq!(crash_asks(0, CrashState::Restoring), SleepAction::RestoreWithPrompt(0));
    let looking = sleep::StopState::Looking { looks: 0 };
    assert_eq!(
        verify_disable_sleep_restored_after_stop(1, looking, SleepEvent::Setting(0)),
        sleep::StopState::Restored
    );
    assert_eq!(
        verify_disable_sleep_restored_after_stop(0, looking, SleepEvent::Setting(1)),
        sleep::StopState::Pausing { looks: 0 }
    );
}

fn lid_start(prior: i32, failing: SleepAction) -> (LidStart, Vec<SleepAction>) {
    let mut state = begin_lid_start(false);
    let mut asked = Vec::new();
    let mut setting = prior;
    while lid_start_asks(state) != SleepAction::Finish {
        let action = lid_start_asks(state);
        asked.push(action);
        let event = if action == failing {
            SleepEvent::Failed
        } else {
            match action {
                SleepAction::ReadSetting => SleepEvent::Setting(setting),
                SleepAction::SetWithUser(value) => {
                    setting = value;
                    SleepEvent::Done
                }
                SleepAction::AwaitSession => SleepEvent::Answer(true),
                _ => SleepEvent::Done,
            }
        };
        state = start_lid_supervisor(false, state, event);
    }
    (state, asked)
}

#[test]
fn a_lid_start_records_first_and_undoes_what_it_switched() {
    let (state, asked) = lid_start(0, SleepAction::Finish);
    assert_eq!(state, LidStart::Started);
    assert_eq!(
        asked,
        [
            SleepAction::ReadSetting,
            SleepAction::EnsurePermission,
            SleepAction::WriteRecoveryRecord,
            SleepAction::SetWithUser(1),
            SleepAction::ReadSetting,
            SleepAction::Launch,
            SleepAction::AwaitSession,
            SleepAction::Confirm,
        ]
    );
    let (state, asked) = lid_start(0, SleepAction::Launch);
    assert_eq!(state, LidStart::Failed(SleepFault::FirstError));
    assert_eq!(
        asked[6..],
        [
            SleepAction::SetWithUser(0),
            SleepAction::ReadSetting,
            SleepAction::DeleteState,
        ]
    );
    let (state, asked) = lid_start(1, SleepAction::Launch);
    assert_eq!(state, LidStart::Failed(SleepFault::FirstError));
    assert_eq!(asked[6..], [SleepAction::DeleteState]);
}

#[test]
fn to_stop_again_is_safe() {
    let mut state = StopState::Locking;
    let mut asked = Vec::new();
    while stop_asks(state) != CommandAction::Finish {
        let action = stop_asks(state);
        asked.push(action);
        let event = match action {
            CommandAction::FindActive => CommandEvent::Answer(false),
            _ => CommandEvent::Done,
        };
        state = stop_unix(false, state, event);
    }
    assert_eq!(state, StopState::Succeeded);
    assert_eq!(
        asked,
        [
            CommandAction::Lock,
            CommandAction::Recover,
            CommandAction::FindActive,
            CommandAction::TellNone,
            CommandAction::DeleteState,
        ]
    );
    let mut state = windows::StopState::Locking;
    for event in [
        WindowsEvent::Done,
        WindowsEvent::Reconciled(Reconciled::Nothing),
        WindowsEvent::Done,
    ] {
        state = windows::stop_windows(state, event);
    }
    assert_eq!(state, windows::StopState::Succeeded);
}

// Windows.

fn worker_session() -> Session {
    Session {
        pid: 7,
        process_start: 9,
        process_command: "C:\\tools\\wake.exe".into(),
        ..Session::default()
    }
}

#[test]
fn a_worker_is_known_by_its_identity() {
    let saved = worker_session();
    let own = Identity {
        start: 9,
        command: "C:\\tools\\WAKE.EXE".into(),
    };
    let other = Identity {
        start: 9,
        command: "C:\\tools\\editor.exe".into(),
    };
    assert_eq!(exact_worker(&saved, &None), FoundWorker::Missing);
    assert_eq!(exact_worker(&saved, &Some(own)), FoundWorker::Matching);
    assert_eq!(exact_worker(&saved, &Some(other)), FoundWorker::Foreign);
    assert!(windows::foreign_worker(&saved).message().starts_with("worker 7 "));
    assert_eq!(classify_saved(&None), FoundState::Missing);
    assert_eq!(
        classify_saved(&Some(SavedState::Valid(saved))),
        FoundState::Ordinary
    );
}

#[test]
fn reconciling_leaves_a_live_session_alone() {
    let mut state = ReconcileState::Reading;
    for event in [
        WindowsEvent::Saved(FoundState::Lid),
        WindowsEvent::Worker(FoundWorker::Matching),
        WindowsEvent::Answer(false),
    ] {
        state = windows::reconcile_windows(state, event);
    }
    assert_eq!(state, ReconcileState::Ended(Reconciled::BrokenGuardian));
    let mut state = ReconcileState::Reading;
    for event in [
        WindowsEvent::Saved(FoundState::Ordinary),
        WindowsEvent::Worker(FoundWorker::Missing),
    ] {
        state = windows::reconcile_windows(state, event);
    }
    assert_eq!(windows::reconcile_asks(state), ReconcileAction::DeleteState);
}

#[test]
fn recovery_restores_from_here_and_keeps_the_state_where_it_cannot() {
    let run = |due: bool, failing: Option<RecoverAction>| {
        let mut state = RecoverState::ReadingScheme;
        let mut asked = Vec::new();
        while windows::recover_asks(state) != RecoverAction::Finish {
            let action = windows::recover_asks(state);
            asked.push(action);
            let event = if Some(action) == failing {
                WindowsEvent::Failed
            } else if action == RecoverAction::CheckDue {
                WindowsEvent::Answer(due)
            } else {
                WindowsEvent::Done
            };
            state = windows::finish_or_recover_lid(state, event);
        }
        (state, asked)
    };
    let all = [
        RecoverAction::ReadScheme,
        RecoverAction::CheckDue,
        RecoverAction::CheckAccess,
        RecoverAction::Restore,
        RecoverAction::DeleteState,
    ];
    assert_eq!(run(true, None), (RecoverState::Succeeded, all.to_vec()));
    assert_eq!(
        run(false, Some(RecoverAction::CheckAccess)),
        (
            RecoverState::Succeeded,
            vec![
                RecoverAction::ReadScheme,
                RecoverAction::CheckDue,
                RecoverAction::Restore,
                RecoverAction::DeleteState,
            ]
        )
    );
    for last in 0..all.len() {
        assert_eq!(
            run(true, Some(all[last])),
            (RecoverState::Failed, all[..=last].to_vec())
        );
    }
}

#[test]
fn a_lid_that_may_not_be_written_ends_a_start_before_anything_runs() {
    let plan = WindowsPlan {
        charge: false,
        even_lid: true,
        conditional: false,
    };
    let state = windows::start_windows(
        plan,
        windows::StartState::Reconciling,
        WindowsEvent::Reconciled(Reconciled::Nothing),
    );
    assert_eq!(windows::start_asks(state), windows::StartAction::CheckAccess);
    assert_eq!(
        windows::start_windows(plan, state, WindowsEvent::Failed),
        windows::StartState::Failed(windows::StartFault::LastError)
    );
    let state = windows::start_windows(plan, state, WindowsEvent::Done);
    assert_eq!(windows::start_asks(state), windows::StartAction::CaptureLid);
}

#[test]
fn a_guardian_that_outlives_its_worker_is_waited_for() {
    let state = windows::reconcile_windows(
        ReconcileState::FindingGuardian { worker: false },
        WindowsEvent::Answer(true),
    );
    assert_eq!(
        windows::reconcile_asks(state),
        ReconcileAction::AwaitGuardian { seconds: 15 }
    );
}

#[test]
fn the_helper_is_the_one_that_was_asked_for() {
    let exe = || Ok("/usr/bin/wake".to_string());
    let no_exe = || Err(AppError::fail("no exe"));
    let deadline = parse_utc("2024-01-02T03:04:05+00:00", "deadline").unwrap();
    let parsed = parse_start_args(
        Platform::Linux,
        &args(&["--until", "22:00", "--no-display"]),
        &facts(),
    )
    .unwrap();
    let command = helper_command(exe(), &parsed, Some(deadline), "sleep").unwrap();
    assert_eq!(command[1], "__supervise_until__");
    let read = parse_until_args(Platform::Linux, &command[1..]).unwrap();
    assert_eq!(read.deadline, deadline);
    let parsed =
        parse_start_args(Platform::Linux, &args(&["--until-charge", "80"]), &facts()).unwrap();
    let command = helper_command(exe(), &parsed, None, "idle:sleep").unwrap();
    assert_eq!(
        command[1..],
        ["__supervise_charge__", "80", "false", "false", "idle:sleep"]
    );
    assert!(helper_command(no_exe(), &parsed, None, "sleep").is_err());
}

#[test]
fn a_start_goes_by_what_was_asked_for() {
    let parse = |values: &[&str]| {
        parse_start_args(Platform::Windows, &args(values), &facts()).unwrap()
    };
    let endless = windows::plan_windows(&parse(&["forever", "--even-lid"]));
    assert!(!endless.conditional && !endless.charge && endless.even_lid);
    let charge = windows::plan_windows(&parse(&["--until-charge", "80"]));
    assert!(charge.conditional && charge.charge && !charge.even_lid);
    let deadline = parse_utc("2024-01-02T03:04:05+00:00", "deadline").unwrap();
    let plan = plan_start(Platform::Linux, &parse(&["1h"]), Some(deadline));
    assert!(plan.until && !plan.charge && plan.platform == Platform::Linux);
    let mut saved = Session::default();
    assert!(!changed_sleep(Platform::Macos, &Some(saved.clone())));
    saved.even_lid = true;
    assert!(!changed_sleep(Platform::Linux, &Some(saved.clone())));
    assert!(changed_sleep(Platform::Macos, &Some(saved)));
    assert!(!changed_sleep(Platform::Macos, &None));
}

#[test]
fn a_session_with_a_deadline_ends_then() {
    let now = parse_utc("2024-01-02T03:04:05+00:00", "start").unwrap();
    let deadline = parse_utc("2024-01-02T04:00:00+00:00", "deadline").unwrap();
    let parsed = parse_start_args(Platform::Windows, &args(&["1h"]), &facts()).unwrap();
    let session = session_until(&parsed, 7, now, Some(deadline));
    assert_eq!((session.pid, session.started_at), (7, Some(now)));
    assert_eq!(session.ends_at, Some(deadline));
    let session = session_until(&parsed, 7, now, None);
    assert_eq!(session.ends_at, requested_session(&parsed, 7, now).ends_at);
}

#[test]
fn a_flag_for_the_display_may_stand_anywhere() {
    let parse = |values: &[&str]| parse_start_args(Platform::Linux, &args(values), &facts());
    for values in [
        &["--no-display", "--for", "1h"][..],
        &["--for", "1h", "--no-display"],
        &["1h", "--no-display"],
        &["--no-display", "1h"],
    ] {
        let parsed = parse(values).unwrap();
        assert!(parsed.no_display && !parsed.even_lid);
        assert_eq!((parsed.timeout_sec, parsed.trigger.as_str()), (Some(3600), "timed"));
    }
    assert!(parse(&["--for", "--no-display", "1h"]).is_err());
}

#[test]
fn a_windows_start_goes_in_order_and_undoes_itself() {
    let plan = WindowsPlan {
        charge: false,
        even_lid: true,
        conditional: true,
    };
    let run = |failing: Option<windows::StartAction>, ended: Option<bool>| {
        let mut state = windows::StartState::Locking;
        let mut asked = Vec::new();
        while windows::start_asks(state) != windows::StartAction::Finish {
            let action = windows::start_asks(state);
            asked.push(action);
            let event = if Some(action) == failing {
                WindowsEvent::Failed
            } else {
                match action {
                    windows::StartAction::Reconcile => WindowsEvent::Reconciled(Reconciled::Nothing),
                    windows::StartAction::CheckWorker => WindowsEvent::Ended(ended),
                    _ => WindowsEvent::Done,
                }
            };
            state = windows::start_windows(plan, state, event);
        }
        (state, asked)
    };
    let (state, asked) = run(None, None);
    assert_eq!(state, windows::StartState::Succeeded);
    assert_eq!(asked.last(), Some(&windows::StartAction::Confirm));
    let (state, asked) = run(Some(windows::StartAction::AwaitLid), None);
    assert_eq!(
        state,
        windows::StartState::Failed(windows::StartFault::FirstError)
    );
    assert_eq!(
        &asked[asked.len() - 5..],
        [
            windows::StartAction::CheckWorker,
            windows::StartAction::KillWorker,
            windows::StartAction::AwaitGuardian { seconds: 15 },
            windows::StartAction::VerifyRestored,
            windows::StartAction::DeleteState,
        ]
    );
    let (state, asked) = run(Some(windows::StartAction::AwaitLid), Some(true));
    assert_eq!(state, windows::StartState::Succeeded);
    assert_eq!(asked.last(), Some(&windows::StartAction::TellCondition));
    let (state, asked) = run(Some(windows::StartAction::SpawnGuardian), None);
    assert_eq!(
        state,
        windows::StartState::Failed(windows::StartFault::FirstError)
    );
    assert_eq!(asked.last(), Some(&windows::StartAction::CleanUpWorker));
}

#[test]
fn a_windows_stop_waits_for_the_guardian() {
    let mut state = windows::StopState::Reconciling;
    state = windows::stop_windows(
        state,
        WindowsEvent::Reconciled(Reconciled::Active { guardian: true }),
    );
    assert_eq!(
        windows::stop_asks(state),
        windows::StopAction::Terminate { seconds: 6 }
    );
    state = windows::stop_windows(state, WindowsEvent::Done);
    assert_eq!(
        windows::stop_asks(state),
        windows::StopAction::AwaitGuardian { seconds: 15 }
    );
    let broken = windows::stop_windows(
        windows::StopState::Reconciling,
        WindowsEvent::Reconciled(Reconciled::BrokenGuardian),
    );
    assert_eq!(
        windows::stop_windows(broken, WindowsEvent::Done),
        windows::StopState::Broken
    );
    let status = windows::status_windows(
        windows::StatusState::Showing { lid: true },
        WindowsEvent::Done,
    );
    assert_eq!(windows::status_asks(status), windows::StopAction::ShowLid);
}

#[test]
fn looks_at_worker_and_guardian_come_to_something() {
    let early = Span::from_millis(4_999);
    let expected = worker_session();
    let published = Some(SavedState::Valid(worker_session()));
    assert_eq!(
        wait_for_windows_worker_state(&expected, early, &published, false),
        WorkerWait::Published
    );
    assert_eq!(
        wait_for_windows_worker_state(&expected, early, &None, false),
        WorkerWait::Again
    );
    assert_eq!(
        wait_for_windows_worker_state(&expected, early, &None, true),
        WorkerWait::Failed
    );
    assert_eq!(
        wait_for_windows_worker_state(&expected, Span::from_millis(5_000), &published, false),
        WorkerWait::Failed
    );
    let malformed = Some(SavedState::Malformed(true));
    let wait = wait_for_windows_worker_state(&expected, early, &malformed, false);
    assert_eq!(wait, WorkerWait::Malformed);
    assert!(windows::worker_wait_error(wait).message().contains("malformed"));

    let early = Span::from_millis(29_999);
    let mut lid = granted(&expected, (11, 13), ("scheme", 1, 2));
    lid.even_lid = true;
    let saved = Some(SavedState::Valid(lid.clone()));
    assert_eq!(
        wait_for_lid_ready(&lid, early, false, true, &saved, LidHealth::Healthy),
        LidWait::Ready
    );
    assert_eq!(
        wait_for_lid_ready(&lid, early, false, true, &saved, LidHealth::DegradedScheme),
        LidWait::Again
    );
    assert_eq!(
        wait_for_lid_ready(&lid, early, true, true, &saved, LidHealth::Healthy),
        LidWait::WorkerExited
    );
    let gone = wait_for_lid_ready(&lid, early, false, false, &saved, LidHealth::Healthy);
    assert_eq!(gone, LidWait::GuardianExited);
    assert_eq!(
        windows::lid_wait_error(gone).message(),
        "elevated guardian exited before readiness"
    );
    assert_eq!(
        wait_for_lid_ready(&lid, Span::from_millis(30_000), false, true, &saved, LidHealth::Healthy),
        LidWait::TimedOut
    );
    assert!(windows::lid_restored(&lid, (1, 2)));
    assert!(verify_lid_restored(&lid, (1, 2), "C:\\s").is_ok());
    assert_eq!(
        verify_lid_restored(&lid, (0, 2), "C:\\s").unwrap_err().message(),
        "lid restoration did not verify; state retained at C:\\s"
    );
}

#[test]
fn the_end_of_a_guardian_is_told() {
    assert!(guardian_exit(5, true, Ok(0), "C:\\s").is_ok());
    assert_eq!(
        guardian_exit(5, true, Ok(3), "C:\\s").unwrap_err().message(),
        "guardian 5 exited with code 3; state remains at C:\\s"
    );
    assert_eq!(
        guardian_exit(5, false, Ok(0), "C:\\s").unwrap_err().message(),
        "guardian 5 did not exit; it was not terminated and state remains at C:\\s"
    );
    assert_eq!(
        guardian_exit(5, true, Err(AppError::fail("lost")), "C:\\s")
            .unwrap_err()
            .message(),
        "lost; guardian result is unknown and state remains at C:\\s"
    );
}
