use wake::commands::clock::{LocalInstant, LocalResolution};
use wake::error::AppError;
use wake::run::{
    parse_clock, plan_charge, resolve_future_local, until_deadline, BatteryStatus, ChargeDirection,
    ChargePlan, Mode, ProcessRef, RunSpec, Trigger,
};
use wake::time::{parse_utc, Span, Timestamp};

fn process() -> ProcessRef {
    ProcessRef {
        pid: 42,
        start: 1_700_000_000,
        command: "/usr/bin/editor".into(),
    }
}

fn noon() -> Timestamp {
    parse_utc("2026-07-11T12:00:00+00:00", "noon").unwrap()
}

fn shifted(t: Timestamp, seconds: i64) -> Timestamp {
    Timestamp {
        seconds: t.seconds + seconds,
        nanos: t.nanos,
    }
}

#[test]
fn run_spec_validation_table() {
    let end = noon();
    let valid = [
        Trigger::Indefinite,
        Trigger::Timed {
            seconds: 300,
            input: "5m".into(),
        },
        Trigger::Until {
            ends_at: end,
            time: "12:00".into(),
        },
        Trigger::Pid { process: process() },
        Trigger::App {
            name: "Editor".into(),
            process: process(),
        },
        Trigger::Charge {
            target: 80,
            initial: 50,
            direction: ChargeDirection::Up,
        },
    ];
    for trigger in valid {
        assert!(RunSpec {
            mode: Mode::SystemOnly,
            trigger,
            even_lid: false,
        }
        .validate()
        .is_ok());
    }

    let invalid = [
        Trigger::Timed {
            seconds: 0,
            input: " ".into(),
        },
        Trigger::Timed {
            seconds: i64::MAX,
            input: "too long".into(),
        },
        Trigger::Pid {
            process: ProcessRef {
                pid: 0,
                ..process()
            },
        },
        Trigger::App {
            name: String::new(),
            process: process(),
        },
        Trigger::Charge {
            target: 101,
            initial: 50,
            direction: ChargeDirection::Up,
        },
        Trigger::Charge {
            target: 80,
            initial: 90,
            direction: ChargeDirection::Up,
        },
    ];
    for trigger in invalid {
        assert!(RunSpec {
            mode: Mode::DisplaySystem,
            trigger,
            even_lid: false,
        }
        .validate()
        .is_err());
    }
}

fn battery(
    percent: i32,
    charging: bool,
    discharging: bool,
    neutral: Option<&str>,
) -> BatteryStatus {
    BatteryStatus {
        percent,
        charging,
        discharging,
        neutral_state: neutral.map(str::to_string),
    }
}

#[test]
fn charge_plan_table_has_exact_results_and_errors() {
    let cases = [
        (80, battery(80, false, true, None), Ok(ChargePlan::Reached)),
        (
            80,
            battery(70, false, true, None),
            Err(
                "--until-charge 80 is unreachable while battery is discharging at 70%; connect power or choose a target at or below the current charge",
            ),
        ),
        (
            80,
            battery(90, false, true, None),
            Ok(ChargePlan::Wait(ChargeDirection::Down)),
        ),
        (80, battery(80, true, false, None), Ok(ChargePlan::Reached)),
        (
            80,
            battery(60, true, false, None),
            Ok(ChargePlan::Wait(ChargeDirection::Up)),
        ),
        (80, battery(80, false, false, None), Ok(ChargePlan::Reached)),
        (
            80,
            battery(70, false, false, Some("idle")),
            Err("--until-charge 80 is unreachable while battery is idle at 70%"),
        ),
        (
            80,
            battery(70, false, false, None),
            Err("cannot determine battery charging direction"),
        ),
    ];

    for (target, status, expected) in cases {
        let actual = plan_charge(target, &status).map_err(|error| error.message().to_string());
        assert_eq!(actual, expected.map_err(str::to_string));
    }
}

#[test]
fn completion_uses_monotonic_time_only_for_durations() {
    let wall = noon();
    let timed = Trigger::Timed {
        seconds: 60,
        input: "1m".into(),
    };
    assert!(!timed.is_complete(shifted(wall, 86_400), Span::from_millis(59_000)));
    assert!(timed.is_complete(shifted(wall, -86_400), Span::from_millis(60_000)));

    let until = Trigger::Until {
        ends_at: wall,
        time: "12:00".into(),
    };
    assert!(!until.is_complete(shifted(wall, -1), Span::from_millis(999_000)));
    assert!(until.is_complete(wall, Span::from_millis(0)));
}

fn at(seconds: i64) -> LocalInstant {
    LocalInstant {
        instant: Timestamp { seconds, nanos: 0 },
        offset: 0,
    }
}

#[test]
fn future_local_time_handles_fold_gap_and_rollover() {
    // The twenty-fifth of October 2026, half past one.
    let day = 739_914;
    let second = 5_400;
    let first_wall = (i64::from(day) - 719_163) * 86_400 + i64::from(second);
    let cases = [
        (
            "second fold occurrence",
            100,
            vec![LocalResolution::Ambiguous(at(90), at(110))],
            110,
        ),
        (
            "gap skips date",
            100,
            vec![LocalResolution::Missing, LocalResolution::Single(at(200))],
            200,
        ),
        (
            "past time rolls forward",
            100,
            vec![
                LocalResolution::Single(at(90)),
                LocalResolution::Single(at(200)),
            ],
            200,
        ),
        (
            "earliest future fold occurrence",
            80,
            vec![LocalResolution::Ambiguous(at(90), at(110))],
            90,
        ),
    ];

    for (name, now, resolutions, expected) in cases {
        let actual = resolve_future_local(at(now).instant, day, second, |wall| {
            let offset = ((wall - first_wall) / 86_400) as usize;
            resolutions
                .get(offset)
                .copied()
                .unwrap_or(LocalResolution::Missing)
        });
        assert_eq!(actual, Some(at(expected)), "{name}");
    }
}

#[test]
fn the_search_for_a_time_ends() {
    assert_eq!(
        resolve_future_local(at(100).instant, 739_914, 0, |_| LocalResolution::Missing),
        None
    );
    // The calendar ends first.
    assert_eq!(
        resolve_future_local(at(100).instant, 95_745_399, 0, |_| LocalResolution::Missing),
        None
    );
}

#[test]
fn deadlines_are_read() {
    let now = at(19_791 * 86_400 + 23 * 3_600);
    let single = |wall| LocalResolution::Single(at(wall));
    assert_eq!(
        until_deadline("23:30", &now, single).unwrap(),
        at(19_791 * 86_400 + 23 * 3_600 + 1_800).instant
    );
    assert_eq!(
        until_deadline("22:00", &now, single).unwrap(),
        at(19_792 * 86_400 + 22 * 3_600).instant
    );
    assert_eq!(
        until_deadline("12:00", &now, |_| LocalResolution::Missing)
            .unwrap_err()
            .message(),
        "could not resolve local time '12:00'"
    );
    assert_eq!(parse_clock(" 7 : 5 ").unwrap(), (7, 5));
    for (raw, message) in [
        ("7", "--until expects HH:MM, got '7'"),
        ("1:2:3", "--until expects HH:MM, got '1:2:3'"),
        ("24:00", "--until: invalid time '24:00'"),
        ("-0:00", "--until: invalid time '-0:00'"),
    ] {
        let error = parse_clock(raw).unwrap_err();
        assert!(matches!(error, AppError::Usage(_)));
        assert_eq!(error.message(), message);
    }
}

#[test]
fn triggers_tell_of_themselves() {
    let charge = Trigger::Charge {
        target: 80,
        initial: 50,
        direction: ChargeDirection::Up,
    };
    assert_eq!(charge.label(), "until-charge");
    assert_eq!(charge.detail(), "80% (was 50%, charging up)");
    let app = Trigger::App {
        name: "Editor".into(),
        process: process(),
    };
    assert_eq!(app.label(), "while-app");
    assert_eq!(app.detail(), "app 'Editor' (pid 42)");
    assert_eq!(app.process().unwrap().pid, 42);
    assert!(charge.process().is_none());
    let timed = Trigger::Timed {
        seconds: 60,
        input: "1m".into(),
    };
    assert_eq!(timed.session_ends_at(noon()), Some(shifted(noon(), 60)));
    assert_eq!(app.session_ends_at(noon()), None);
    assert!(app.same(&Trigger::App {
        name: "Editor".into(),
        process: process()
    }));
    assert!(!app.same(&timed));
    assert_eq!(Mode::SystemOnly.label(), "system-only");
    assert!(Mode::SystemOnly.no_display() && !Mode::DisplaySystem.no_display());
}
