use wake::error::AppError;
use wake::platform::Platform;
use wake::session::{parse_bool, Session};
use wake::supervisor::lid::{parse_lid_args, sleep_restore_needed, sleep_restored};
use wake::supervisor::unix::{
    charge_command, charge_session, parse_charge_args, parse_until_args, reject_macos_ordinary_even_lid,
    run_until, supervisor_inhibitor_lifetime, until_asks, until_command, until_session, HelperAction,
    HelperEvent, UntilState,
};
use wake::supervisor::windows::{
    parse_guardian_args, parse_worker_args, promote_startup_guardian_authority,
    startup_guardian_authority, startup_guardian_should_enable, worker_command, worker_target,
    GuardianArgs, WorkerSpec,
};
use wake::supervisor::{
    battery_failure_note, battery_status, charge_detail, deadline_still_pending, optional_positive,
    optional_target, optional_utc, parse_charge_target, plan_charge, poll_battery, poll_interval,
    prepare_charge, session_detail, BatteryPoll, BatteryStatus, ChargePlan, ChargePreparation,
    PreparedCharge,
};
use wake::sysutil::Identity;
use wake::time::{parse_utc, utc_text, Span, Timestamp};

fn strings(values: &[&str]) -> Vec<String> {
    values.iter().map(|value| (*value).into()).collect()
}

fn instant(raw: &str) -> Timestamp {
    parse_utc(raw, "instant").unwrap()
}

fn later(t: Timestamp, seconds: i64) -> Timestamp {
    Timestamp {
        seconds: t.seconds + seconds,
        nanos: t.nanos,
    }
}

#[test]
fn supervisor_owns_native_inhibitor_lifetime() {
    assert_eq!(supervisor_inhibitor_lifetime(4321), (None, Some(4321)));
}

#[test]
fn charge_supervisor_protocol_uses_exact_arity_without_mode() {
    for platform in [Platform::Linux, Platform::Macos] {
        let parsed = parse_charge_args(
            platform,
            &strings(&["__supervise_charge__", "80", "true", "false", ""]),
        )
        .unwrap();
        assert_eq!(parsed.target, 80);
        assert!(parsed.no_display);
        assert!(!parsed.even_lid);
        assert!(parsed.inhibitor_scope.is_empty());
    }
}

#[test]
fn linux_lid_inclusive_scope_does_not_imply_explicit_even_lid() {
    let charge = parse_charge_args(
        Platform::Linux,
        &strings(&[
            "__supervise_charge__",
            "80",
            "false",
            "false",
            "sleep:handle-lid-switch",
        ]),
    )
    .unwrap();
    assert!(!charge.even_lid);
    assert_eq!(charge.inhibitor_scope, "sleep:handle-lid-switch");

    let until = parse_until_args(
        Platform::Linux,
        &strings(&[
            "__supervise_until__",
            "2024-01-02T03:04:05+00:00",
            "false",
            "until 03:04",
            "false",
            "sleep:handle-lid-switch",
        ]),
    )
    .unwrap();
    assert!(!until.even_lid);
    assert_eq!(until.inhibitor_scope, "sleep:handle-lid-switch");
}

#[test]
fn linux_protocol_preserves_explicit_even_lid() {
    let charge = parse_charge_args(
        Platform::Linux,
        &strings(&[
            "__supervise_charge__",
            "80",
            "true",
            "true",
            "sleep:handle-lid-switch",
        ]),
    )
    .unwrap();
    assert!(charge.even_lid);

    let until = parse_until_args(
        Platform::Linux,
        &strings(&[
            "__supervise_until__",
            "2024-01-02T03:04:05+00:00",
            "true",
            "until 03:04",
            "true",
            "sleep:handle-lid-switch",
        ]),
    )
    .unwrap();
    assert!(until.even_lid);
}

#[test]
fn macos_ordinary_authority_policy_rejects_even_lid() {
    assert!(reject_macos_ordinary_even_lid(true).is_err());
    assert!(reject_macos_ordinary_even_lid(false).is_ok());
}

#[test]
fn macos_ordinary_hidden_protocols_reject_even_lid() {
    assert!(parse_charge_args(
        Platform::Macos,
        &strings(&["__supervise_charge__", "80", "false", "true", ""])
    )
    .is_err());
    assert!(parse_until_args(
        Platform::Macos,
        &strings(&[
            "__supervise_until__",
            "2024-01-02T03:04:05+00:00",
            "false",
            "until 03:04",
            "true",
            "",
        ])
    )
    .is_err());
}

#[test]
fn until_supervisor_protocol_requires_a_canonical_deadline() {
    for platform in [Platform::Linux, Platform::Macos] {
        let parsed = parse_until_args(
            platform,
            &strings(&[
                "__supervise_until__",
                "2024-01-02T03:04:05+00:00",
                "false",
                "until 03:04",
                "false",
                "idle:sleep",
            ]),
        )
        .unwrap();
        assert_eq!(utc_text(&parsed.deadline), "2024-01-02T03:04:05+00:00");
        assert!(!parsed.no_display);
        assert_eq!(parsed.detail, "until 03:04");
        assert!(!parsed.even_lid);
        assert_eq!(parsed.inhibitor_scope, "idle:sleep");

        let malformed = strings(&[
            "__supervise_until__",
            "not-a-deadline",
            "false",
            "until 03:04",
            "false",
            "idle:sleep",
        ]);
        assert!(parse_until_args(platform, &malformed).is_err());

        let missing = strings(&[
            "__supervise_until__",
            "2024-01-02T03:04:05+00:00",
            "false",
            "until 03:04",
            "false",
        ]);
        assert!(parse_until_args(platform, &missing).is_err());

        let extra = strings(&[
            "__supervise_until__",
            "2024-01-02T03:04:05+00:00",
            "false",
            "until 03:04",
            "false",
            "idle:sleep",
            "extra",
        ]);
        assert!(parse_until_args(platform, &extra).is_err());
    }
}

#[test]
fn charge_supervisor_protocol_rejects_wrong_arity_or_malformed_even_lid() {
    for platform in [Platform::Linux, Platform::Macos] {
        let missing = strings(&["__supervise_charge__", "80", "false", "false"]);
        assert!(parse_charge_args(platform, &missing).is_err());

        let extra = strings(&[
            "__supervise_charge__",
            "80",
            "false",
            "false",
            "idle:sleep",
            "extra",
        ]);
        assert!(parse_charge_args(platform, &extra).is_err());

        let malformed = strings(&["__supervise_charge__", "80", "false", "True", "idle:sleep"]);
        assert!(parse_charge_args(platform, &malformed).is_err());
    }
}

fn own_identity() -> Result<Identity, AppError> {
    Ok(Identity {
        start: 9,
        command: "C:\\tools\\wake.exe".into(),
    })
}

#[test]
fn worker_argument_parser_is_strict_without_publish() {
    let valid = strings(&[
        "__worker_windows__",
        "system-only",
        "60",
        "",
        "",
        "80",
        "up",
        "until-charge",
        "80%",
        "2024-01-02T03:04:05+00:00",
        "",
    ]);
    let parse = |args: &[String]| parse_worker_args(args, Ok(true), 7, own_identity());
    assert!(!parse(&valid).unwrap().session.even_lid);
    assert!(parse(&valid[..10]).is_err());
    let mut extra = valid.clone();
    extra.push("true".into());
    assert!(parse(&extra).is_err());
    let mut incomplete = valid;
    incomplete[3] = "42".into();
    assert!(parse(&incomplete).is_err());
}

#[test]
fn worker_command_omits_publish_and_parses_as_provisional_non_lid_state() {
    let session = Session {
        mode: "system-only".into(),
        trigger: "until-charge".into(),
        detail: "80%".into(),
        started_at: Some(
            wake::session::parse_utc("2024-01-02T03:04:05+00:00", "start time").unwrap(),
        ),
        ..Session::default()
    };
    let command = worker_command(
        Ok("C:\\tools\\wake.exe".into()),
        &session,
        Some(60),
        None,
        Some((80, true)),
    )
    .unwrap();
    assert_eq!(command.len(), 12);
    assert_eq!(
        &command[1..],
        [
            "__worker_windows__",
            "system-only",
            "60",
            "",
            "",
            "80",
            "up",
            "until-charge",
            "80%",
            "2024-01-02T03:04:05+00:00",
            "",
        ]
    );
    assert!(
        !parse_worker_args(&command[1..], Ok(true), 7, own_identity())
            .unwrap()
            .session
            .even_lid
    );
}

#[test]
fn until_worker_uses_the_absolute_end_without_changing_relative_timeouts() {
    let now = instant("2024-01-02T03:04:05+00:00");
    let mut spec = WorkerSpec {
        no_display: false,
        timeout: Some(3_600),
        target: None,
        charge: None,
        session: Session {
            trigger: "until-time".into(),
            ends_at: Some(later(now, -1)),
            ..Session::default()
        },
    };
    let elapsed = Span::from_millis(0);
    assert!(spec.lifetime_elapsed(&now, &elapsed));
    spec.session.trigger = "timed".into();
    assert!(!spec.lifetime_elapsed(&now, &elapsed));
}

#[test]
fn guardian_protocol_requires_explicit_dead_worker_authority() {
    for restore_without_worker in ["false", "true"] {
        let args = strings(&[
            "__guard_windows__",
            "7",
            "9",
            "381b4222-f694-41f0-9685-ff5bb260df2e",
            "1",
            "2",
            restore_without_worker,
            "",
            "C:\\state\\session.properties",
        ]);
        let parsed = parse_guardian_args(&args).unwrap();
        assert_eq!(
            parsed.restore_without_worker,
            restore_without_worker == "true"
        );
        assert!(parsed.deadline.is_none());
    }
}

#[test]
fn startup_guardian_checks_the_deadline_at_the_transition() {
    let now = instant("2024-01-02T03:04:05+00:00");
    assert!(startup_guardian_should_enable(
        Some(later(now, 1)),
        now,
        true,
    ));
    assert!(!startup_guardian_should_enable(Some(now), now, true));
    assert!(!startup_guardian_should_enable(None, now, false));
}

fn guardian_args(deadline: Option<Timestamp>) -> GuardianArgs {
    GuardianArgs {
        worker_pid: 7,
        worker_start: 9,
        scheme: "381b4222-f694-41f0-9685-ff5bb260df2e".into(),
        ac: 1,
        dc: 2,
        restore_without_worker: false,
        deadline,
        state_path: "C:\\state\\session.properties".into(),
    }
}

#[test]
fn startup_guardian_promotes_only_matching_provisional_state() {
    let deadline = instant("2024-01-02T03:04:05+00:00");
    let identity = Identity {
        start: 9,
        command: "C:\\tools\\wake.exe".into(),
    };
    let args = guardian_args(Some(deadline));
    let saved = Session {
        pid: 7,
        mode: "display+system".into(),
        trigger: "until-time".into(),
        detail: "until 03:04".into(),
        started_at: Some(later(deadline, -60)),
        ends_at: Some(deadline),
        process_start: 9,
        process_command: identity.command.clone(),
        ..Session::default()
    };
    let foreign = Session {
        pid: 8,
        ..saved.clone()
    };
    let authority = promote_startup_guardian_authority(saved, &args, (11, 13), &identity).unwrap();
    assert!(authority.even_lid);
    assert_eq!((authority.guardian_pid, authority.guardian_start), (11, 13));
    assert_eq!(
        (
            authority.original_scheme.as_str(),
            authority.original_ac,
            authority.original_dc,
        ),
        (args.scheme.as_str(), 1, 2)
    );
    assert!(promote_startup_guardian_authority(foreign, &args, (11, 13), &identity).is_err());
    assert!(startup_guardian_authority(None, &args, (11, 13), &identity).is_err());
}

#[test]
fn immutable_args_must_match_the_complete_session() {
    let args = guardian_args(None);
    let mut saved = Session {
        pid: 7,
        process_start: 9,
        guardian_pid: 11,
        guardian_start: 13,
        original_scheme: args.scheme.clone(),
        original_ac: 1,
        original_dc: 2,
        even_lid: true,
        ..Session::default()
    };
    let matches = |saved: &Session, guardian| {
        saved.matches_lid_authority(
            (args.worker_pid, args.worker_start),
            guardian,
            (&args.scheme, args.ac, args.dc),
        )
    };
    assert!(matches(&saved, (11, 13)));
    saved.original_dc = 3;
    assert!(!matches(&saved, (11, 13)));
    saved.original_dc = 2;
    assert!(!matches(&saved, (11, 14)));
}

fn status(
    percent: i32,
    charging: bool,
    discharging: bool,
    neutral: Option<&str>,
) -> BatteryStatus {
    BatteryStatus {
        percent,
        charging,
        discharging,
        neutral_state: neutral.map(str::to_string),
    }
}

#[test]
fn charge_plan_table() {
    for (battery, expected) in [
        (status(80, false, true, None), ChargePlan::AlreadyMet),
        (status(90, false, true, None), ChargePlan::Wait(false)),
        (status(80, true, false, None), ChargePlan::AlreadyMet),
        (status(60, true, false, None), ChargePlan::Wait(true)),
        (status(80, false, false, None), ChargePlan::AlreadyMet),
    ] {
        assert_eq!(plan_charge(80, &battery).unwrap(), expected);
    }
}

#[test]
fn unreachable_charge_plan_table() {
    for battery in [
        status(70, false, true, None),
        status(70, false, false, Some("not charging or discharging")),
        status(70, false, false, None),
    ] {
        assert!(plan_charge(80, &battery).is_err());
    }
}

#[test]
fn absolute_poll_interval_never_sleeps_past_the_deadline() {
    let now = instant("2024-01-02T03:04:05+00:00");
    let soon = Timestamp {
        seconds: now.seconds,
        nanos: 100_000_000,
    };
    assert_eq!(
        poll_interval(Some(soon), now, Span::from_millis(1_000)),
        Some(Span::from_millis(100))
    );
    assert_eq!(poll_interval(Some(now), now, Span::from_millis(1_000)), None);
    assert_eq!(
        poll_interval(None, now, Span::from_millis(250)),
        Some(Span::from_millis(250))
    );
}

#[test]
fn hidden_value_parsers_are_strict() {
    assert_eq!(parse_charge_target("80").unwrap(), 80);
    for invalid in ["", "0", "101", " 80", "8.0"] {
        assert!(parse_charge_target(invalid).is_err());
    }
    assert!(parse_bool("true", "test").unwrap());
    assert!(!parse_bool("false", "test").unwrap());
}

#[test]
fn empty_words_stand_for_nothing() {
    assert_eq!(optional_positive::<u32>("", "n").unwrap(), None);
    assert_eq!(optional_positive::<u32>("5", "n").unwrap(), Some(5));
    assert_eq!(optional_target("").unwrap(), None);
    assert_eq!(optional_target("80").unwrap(), Some(80));
    assert_eq!(optional_utc("", "t").unwrap(), None);
    assert_eq!(
        optional_utc("2024-01-02T03:04:05+00:00", "t").unwrap(),
        Some(instant("2024-01-02T03:04:05+00:00"))
    );
    assert!(optional_utc("2024-01-02T03:04:05Z", "t").is_err());
}

#[test]
fn instants_are_read_and_written() {
    let t = instant("2024-01-02T03:04:05+00:00");
    assert_eq!(t.seconds, 1_704_164_645);
    assert_eq!(t.nanos, 0);
    assert_eq!(utc_text(&t), "2024-01-02T03:04:05+00:00");
    assert!(parse_utc("2024-01-02T05:04:05+02:00", "t").is_err());
    assert!(parse_utc("nonsense", "t").is_err());
}

#[test]
fn charges_are_prepared_and_told() {
    assert_eq!(
        prepare_charge(80, Ok(status(80, true, false, None))).unwrap(),
        ChargePreparation::AlreadyMet(80)
    );
    let wait = PreparedCharge {
        initial_percent: 60,
        charging_up: true,
    };
    assert_eq!(
        prepare_charge(80, Ok(battery_status(60, true, false))).unwrap(),
        ChargePreparation::Wait(wait)
    );
    assert_eq!(
        prepare_charge(80, Err(AppError::fail("no battery")))
            .unwrap_err()
            .message(),
        "no battery"
    );
    assert_eq!(charge_detail(80, &wait), "80% (was 60%, charging up)");
    for (platform, even_lid, told) in [
        (Platform::Windows, false, true),
        (Platform::Windows, true, true),
        (Platform::Macos, true, true),
        (Platform::Macos, false, false),
        (Platform::Linux, true, false),
    ] {
        let detail = session_detail(platform, even_lid, 80, &wait, "80%");
        let expected = if told { "80% (was 60%, charging up)" } else { "80%" };
        assert_eq!(detail, expected);
    }
}

#[test]
fn three_failed_looks_end_the_waiting() {
    let mut failures = 0;
    assert_eq!(
        poll_battery(80, true, &mut failures, None),
        BatteryPoll::Continue
    );
    assert_eq!(
        poll_battery(80, true, &mut failures, Some(79)),
        BatteryPoll::Continue
    );
    assert_eq!(failures, 0);
    assert_eq!(
        poll_battery(80, true, &mut failures, None),
        BatteryPoll::Continue
    );
    assert_eq!(
        poll_battery(80, true, &mut failures, None),
        BatteryPoll::Continue
    );
    assert_eq!(
        poll_battery(80, true, &mut failures, None),
        BatteryPoll::Failed
    );
    let mut failures = 0;
    assert_eq!(
        poll_battery(80, true, &mut failures, Some(80)),
        BatteryPoll::Reached
    );
    assert!(battery_failure_note(&AppError::fail("lost")).contains("lost"));
}

#[test]
fn deadlines_pend_until_they_come() {
    let t = instant("2024-01-02T03:04:05+00:00");
    assert!(deadline_still_pending(&t, &later(t, -1)));
    assert!(!deadline_still_pending(&t, &t));
    assert!(Span::from_millis(1_500).at_least(&Span::from_millis(1_499)));
}

#[test]
fn helpers_work_out_their_command_and_session() {
    let until = parse_until_args(
        Platform::Linux,
        &strings(&[
            "__supervise_until__",
            "2024-01-02T03:04:05+00:00",
            "true",
            "until 03:04",
            "false",
            "sleep",
        ]),
    )
    .unwrap();
    let command = until_command(Platform::Linux, &until, 42, Ok("systemd-inhibit".into()))
        .ok()
        .unwrap();
    assert_eq!(command.cmd[1], "--what=sleep");
    assert!(command.cmd.contains(&"--pid=42".to_string()));
    let now = instant("2024-01-02T03:00:00+00:00");
    let session = until_session(&until, 42, now);
    assert_eq!(session.trigger, "until-time");
    assert_eq!(session.ends_at, Some(until.deadline));

    let charge = parse_charge_args(
        Platform::Macos,
        &strings(&["__supervise_charge__", "80", "false", "false", ""]),
    )
    .unwrap();
    let command = charge_command(
        Platform::Macos,
        &charge,
        42,
        Err(AppError::fail("not needed")),
    )
    .ok()
    .unwrap();
    assert_eq!(command.cmd, ["/usr/bin/caffeinate", "-di", "-w", "42"]);
    let wait = PreparedCharge {
        initial_percent: 60,
        charging_up: true,
    };
    let session = charge_session(&charge, &wait, 42, now);
    assert_eq!(session.trigger, "until-charge");
    assert_eq!(session.detail, "80% (was 60%, charging up)");
}

#[test]
fn an_until_helper_leaves_nothing_behind_whatever_fails() {
    let deadline = instant("2024-01-02T03:04:05+00:00");
    for failing in 0..30 {
        let mut state = UntilState::Begin;
        let mut now = later(deadline, -3);
        let (mut running, mut published) = (false, false);
        for step in 0..60 {
            let action = until_asks(state);
            if matches!(action, HelperAction::Succeed | HelperAction::Fail) {
                break;
            }
            let fails = step == failing;
            let event = match action {
                HelperAction::ReadClock => HelperEvent::Clock(now, Span::from_millis(0)),
                HelperAction::Launch if !fails => {
                    running = true;
                    HelperEvent::Done
                }
                HelperAction::Publish(_) if !fails => {
                    published = true;
                    HelperEvent::Done
                }
                HelperAction::CheckStop => HelperEvent::Stop(fails),
                HelperAction::CheckChild => HelperEvent::Exited(fails),
                HelperAction::Sleep(_) => {
                    now = later(now, 1);
                    HelperEvent::Done
                }
                HelperAction::Kill => {
                    running = false;
                    HelperEvent::Done
                }
                HelperAction::DeleteState => {
                    published = false;
                    HelperEvent::Done
                }
                _ => HelperEvent::Failed,
            };
            state = run_until(deadline, state, event);
        }
        assert!(matches!(
            until_asks(state),
            HelperAction::Succeed | HelperAction::Fail
        ));
        assert!(!running && !published);
    }
}

#[test]
fn sleep_settings_are_put_back_only_where_they_were_changed() {
    assert!(sleep_restore_needed(0, 1));
    assert!(!sleep_restore_needed(1, 1));
    assert!(!sleep_restore_needed(0, 0));
    assert!(sleep_restored(0, 0));
    assert!(!sleep_restored(0, 1));
    let (prior, parsed) = parse_lid_args(&strings(&["__supervise_lid__", "x"]));
    assert!(prior.is_none());
    assert!(parsed.is_err());
}

#[test]
fn a_worker_reads_its_target() {
    let args = strings(&[
        "__worker_windows__",
        "system-only",
        "",
        "42",
        "77",
        "",
        "",
        "while-pid",
        "pid 42",
        "2024-01-02T03:04:05+00:00",
        "",
    ]);
    assert_eq!(worker_target(&args), Some((42, 77)));
    let spec = parse_worker_args(&args, Ok(true), 7, own_identity()).unwrap();
    assert_eq!(spec.target, Some((42, 77)));
    assert!(parse_worker_args(&args, Ok(false), 7, own_identity()).is_err());
}
