use wake::error::AppError;
use wake::platform::macos::{
    authenticate_sudo, capture_failure, disable_sleep_command, keep_awake_command,
    parse_pmset_batt, parse_pmset_disable_sleep, read_battery, read_disable_sleep,
    refresh_sudo_non_interactive, set_disable_sleep_foreground, set_disable_sleep_non_interactive,
    supports_even_lid,
};

const CAFFEINATE: &str = "/usr/bin/caffeinate";

#[test]
fn caffeinate_assertions_match_display_mode() {
    assert_eq!(
        keep_awake_command(false, false, None, None).ok().unwrap().cmd,
        [CAFFEINATE, "-di"]
    );
    assert_eq!(
        keep_awake_command(true, false, None, None).ok().unwrap().cmd,
        [CAFFEINATE, "-i"]
    );
    assert_eq!(
        keep_awake_command(false, false, None, Some(42))
            .ok()
            .unwrap()
            .cmd,
        [CAFFEINATE, "-di", "-w", "42"]
    );
}

#[test]
fn parses_internal_battery_status_table() {
    for (state, charging, discharging, neutral) in [
        ("charging", true, false, None),
        ("finishing charge", true, false, None),
        ("discharging", false, true, None),
        ("charged", false, false, Some("charged")),
        ("not charging", false, false, Some("not charging")),
        ("calibrating", false, false, Some("calibrating")),
    ] {
        let fixture = format!(
            "Now drawing from 'AC Power'\n -InternalBattery-0 (id=123)\t72%; {state}; 1:23 remaining present: true\n"
        );
        let parsed = parse_pmset_batt(&fixture).unwrap();
        assert_eq!(parsed.percent, 72, "state={state}");
        assert_eq!(parsed.charging, charging, "state={state}");
        assert_eq!(parsed.discharging, discharging, "state={state}");
        assert_eq!(parsed.neutral_state.as_deref(), neutral, "state={state}");
    }
}

#[test]
fn rejects_unparseable_battery_fixtures() {
    for fixture in [
        "Now drawing from 'AC Power'\n",
        "-InternalBattery-0 (id=123) 72%\n",
        "-InternalBattery-0 (id=123) nope; charging; present: true\n",
        "-InternalBattery-0 (id=123) 101%; charged; present: true\n",
    ] {
        assert!(parse_pmset_batt(fixture).is_err(), "fixture={fixture:?}");
    }
}

#[test]
fn sleep_disabled_requires_one_exact_value() {
    for (fixture, expected) in [
        ("System-wide power settings:\n SleepDisabled 0\n", 0),
        ("SleepDisabled 1\n", 1),
    ] {
        assert_eq!(parse_pmset_disable_sleep(fixture).unwrap(), expected);
    }
    for fixture in [
        "System-wide power settings:\n",
        "SleepDisabled\n",
        "SleepDisabled nope\n",
        "SleepDisabled 2\n",
        "SleepDisabled 0 extra\n",
    ] {
        assert!(
            parse_pmset_disable_sleep(fixture).is_err(),
            "fixture={fixture:?}"
        );
    }
}

#[test]
fn what_could_not_be_captured_is_told() {
    assert!(supports_even_lid());
    let failed = || Err(AppError::fail("no pmset"));
    assert_eq!(read_battery(failed()).unwrap_err().message(), "no pmset");
    assert_eq!(
        read_disable_sleep(failed()).unwrap_err().message(),
        "no pmset"
    );
    assert!(capture_failure("pmset", 3).message().contains("pmset"));
    assert!(capture_failure("pmset", 3).message().contains('3'));
}

#[test]
fn exit_codes_of_sudo_are_read() {
    assert!(set_disable_sleep_foreground(Ok(0)).is_ok());
    assert!(set_disable_sleep_foreground(Ok(1)).is_err());
    assert!(set_disable_sleep_non_interactive(Ok(0)).unwrap());
    assert!(!set_disable_sleep_non_interactive(Ok(1)).unwrap());
    assert!(refresh_sudo_non_interactive(Ok(0)).unwrap());
    assert!(!refresh_sudo_non_interactive(Ok(1)).unwrap());
    assert!(authenticate_sudo(Ok(0)).unwrap());
    assert!(authenticate_sudo(Err(AppError::fail("gone"))).is_err());
}

#[test]
fn only_zero_and_one_are_set() {
    assert_eq!(
        disable_sleep_command(1, false).unwrap().last().unwrap(),
        "1"
    );
    assert!(disable_sleep_command(2, false).is_err());
}
