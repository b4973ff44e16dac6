use wake::error::AppError;
use wake::platform::linux::{
    aggregate, inhibitor_candidates, inhibitor_command, keep_awake_command_for_scope,
    prepare_keep_awake, read_battery_dir, read_battery_from, read_measurement, select_inhibitor,
    Aggregate, Battery, PreparedInhibitor, Share, SupplyFiles,
};

#[test]
fn inhibitor_wait_command_tracks_the_supervisor_pid() {
    let command = inhibitor_command("systemd-inhibit".into(), "sleep", None, Some(42));
    assert_eq!(&command[4..], ["tail", "--pid=42", "-f", "/dev/null"]);
}

#[test]
fn prepared_inhibitor_keeps_scope_and_note_together() {
    let prepared = PreparedInhibitor {
        systemd_inhibit: "systemd-inhibit".into(),
        what: "sleep",
        note: Some("degraded".into()),
    };
    let keep_awake = prepared.command(None, Some(42));
    assert_eq!(keep_awake.cmd[1], "--what=sleep");
    assert_eq!(keep_awake.note.as_deref(), Some("degraded"));
}

#[test]
fn preselected_explicit_scope_rejects_a_weaker_fallback() {
    let error = keep_awake_command_for_scope(
        false,
        true,
        "idle:sleep",
        None,
        Some(42),
        Ok("systemd-inhibit".into()),
    )
    .err()
    .unwrap();
    assert_eq!(
        error.message(),
        "supervisor received an invalid inhibitor scope"
    );
}

fn and(mut seen: Vec<String>, what: &str) -> Vec<String> {
    seen.push(what.to_string());
    seen
}

#[test]
fn non_explicit_inhibitor_probes_keep_order_and_explain_lid_degradation() {
    let (probed, selected) = select_inhibitor(Vec::new(), false, false, |seen, what: &str| {
        (and(seen, what), what == "idle:sleep")
    });
    let selected = selected.unwrap();
    assert_eq!(probed, ["idle:sleep:handle-lid-switch", "idle:sleep"]);
    assert_eq!(selected.0, "idle:sleep");
    assert_eq!(
        selected.1.as_deref(),
        Some("note: inhibitor degraded to idle:sleep; lid closure may suspend")
    );

    let (probed, selected) = select_inhibitor(Vec::new(), true, false, |seen, what: &str| {
        (and(seen, what), what == "sleep")
    });
    let selected = selected.unwrap();
    assert_eq!(probed, ["sleep:handle-lid-switch", "sleep"]);
    assert_eq!(selected.0, "sleep");
    assert_eq!(
        selected.1.as_deref(),
        Some("note: inhibitor degraded to sleep; lid closure may suspend")
    );
}

#[test]
fn display_fallback_to_sleep_names_every_lost_inhibition() {
    let (_, selected) =
        select_inhibitor((), false, false, |(): (), what: &str| ((), what == "sleep"));
    let selected = selected.unwrap();
    let note = selected.1.unwrap();
    assert!(note.contains("idle/display inhibition"));
    assert!(note.contains("lid"));
}

#[test]
fn explicit_display_inhibitor_probes_only_the_required_scope() {
    let (probed, selected) =
        select_inhibitor(Vec::new(), false, true, |seen, what: &str| (and(seen, what), true));
    assert_eq!(probed, ["idle:sleep:handle-lid-switch"]);
    assert_eq!(selected.unwrap(), ("idle:sleep:handle-lid-switch", None));
}

#[test]
fn explicit_system_inhibitor_probes_only_the_required_scope() {
    let (probed, selected) =
        select_inhibitor(Vec::new(), true, true, |seen, what: &str| (and(seen, what), true));
    assert_eq!(probed, ["sleep:handle-lid-switch"]);
    assert_eq!(selected.unwrap(), ("sleep:handle-lid-switch", None));
}

#[test]
fn explicit_inhibitor_refusal_never_falls_back_and_names_the_required_scope() {
    for (no_display, required) in [
        (false, "idle:sleep:handle-lid-switch"),
        (true, "sleep:handle-lid-switch"),
    ] {
        let (probed, selected) =
            select_inhibitor(Vec::new(), no_display, true, |seen, what: &str| {
                (and(seen, what), false)
            });
        let error = selected.unwrap_err();
        assert_eq!(probed, [required]);
        assert!(error.message().contains("--even-lid"));
        assert!(error.message().contains(required));
    }
}

fn supply(fixture: &str, name: &str) -> SupplyFiles {
    let field = |key: &str| {
        fixture
            .lines()
            .filter_map(|line| line.split_once('='))
            .find(|(path, _)| *path == format!("{name}/{key}"))
            .map(|(_, value)| value.to_string())
    };
    SupplyFiles {
        kind: field("type"),
        energy_now: field("energy_now"),
        energy_full: field("energy_full"),
        charge_now: field("charge_now"),
        charge_full: field("charge_full"),
        capacity: field("capacity"),
        status: field("status"),
    }
}

fn batteries(fixture: &str) -> Vec<Battery> {
    ["AC", "BAT0", "BAT1"]
        .iter()
        .filter_map(|name| read_battery_dir(&supply(fixture, name)))
        .collect()
}

fn percent_of(aggregate: &Aggregate) -> i32 {
    match aggregate {
        Aggregate::Total(now, full) => (*now as f64 / *full as f64 * 100.0).round() as i32,
        Aggregate::Average(shares) => {
            let sum: f64 = shares
                .iter()
                .map(|share| match share {
                    Share::Measured(now, full) => *now as f64 / *full as f64 * 100.0,
                    Share::Percent(percent) => f64::from(*percent),
                })
                .sum();
            (sum / shares.len() as f64).round() as i32
        }
    }
}

#[test]
fn aggregates_battery_fixtures() {
    for (name, fixture, percent, charging, discharging) in [
        (
            "compatible energy is full-weighted with charging precedence",
            "BAT0/type=Battery\nBAT0/status=Discharging\nBAT0/energy_now=90\nBAT0/energy_full=100\nBAT1/type=Battery\nBAT1/status=Charging\nBAT1/energy_now=100\nBAT1/energy_full=900\n",
            19,
            true,
            false,
        ),
        (
            "incompatible units average each battery",
            "BAT0/type=Battery\nBAT0/status=Discharging\nBAT0/energy_now=90\nBAT0/energy_full=100\nBAT1/type=Battery\nBAT1/status=Discharging\nBAT1/charge_now=10\nBAT1/charge_full=100\n",
            50,
            false,
            true,
        ),
        (
            "missing pair falls back to per-battery capacity",
            "BAT0/type=Battery\nBAT0/status=Unknown\nBAT0/energy_now=80\nBAT0/energy_full=100\nBAT1/type=Battery\nBAT1/status=Full\nBAT1/capacity=20\nAC/type=Mains\nAC/capacity=99\n",
            50,
            false,
            false,
        ),
    ] {
        let found = batteries(fixture);
        let status = read_battery_from(&found, percent_of(&aggregate(&found))).unwrap();
        assert_eq!(status.percent, percent, "{name}");
        assert_eq!(status.charging, charging, "{name}");
        assert_eq!(status.discharging, discharging, "{name}");
    }
}

#[test]
fn rejects_a_fixture_without_usable_batteries() {
    let found = batteries("AC/type=Mains\nBAT0/type=Battery\nBAT0/status=Unknown\n");
    assert!(read_battery_from(&found, 0).is_err());
}

#[test]
fn totals_and_averages_are_told_apart() {
    let energy = batteries(
        "BAT0/type=Battery\nBAT0/status=Full\nBAT0/energy_now=90\nBAT0/energy_full=100\nBAT1/type=Battery\nBAT1/status=Full\nBAT1/energy_now=100\nBAT1/energy_full=900\n",
    );
    assert!(matches!(aggregate(&energy), Aggregate::Total(190, 1000)));
    let mixed = batteries(
        "BAT0/type=Battery\nBAT0/status=Full\nBAT0/energy_now=90\nBAT0/energy_full=100\nBAT1/type=Battery\nBAT1/status=Full\nBAT1/capacity=20\n",
    );
    match aggregate(&mixed) {
        Aggregate::Average(shares) => {
            assert_eq!(shares, [Share::Measured(90, 100), Share::Percent(20)]);
        }
        Aggregate::Total(_, _) => panic!("no common unit"),
    }
}

#[test]
fn measurements_need_a_full_value() {
    assert_eq!(
        read_measurement(&Some("90".into()), &Some("100".into())),
        Some((90, 100))
    );
    assert_eq!(read_measurement(&Some("90".into()), &Some("0".into())), None);
    assert_eq!(read_measurement(&Some("90".into()), &None), None);
    assert_eq!(read_measurement(&None, &Some("100".into())), None);
}

#[test]
fn a_missing_inhibitor_program_is_told() {
    let probe = |seen: Vec<String>, what: &str| (and(seen, what), true);
    let (probed, prepared) = prepare_keep_awake(
        Vec::new(),
        Err(AppError::fail("no program")),
        false,
        false,
        probe,
    );
    assert!(probed.is_empty());
    assert_eq!(prepared.err().unwrap().message(), "no program");
    let (probed, prepared) = prepare_keep_awake(
        Vec::new(),
        Ok("/usr/bin/systemd-inhibit".into()),
        true,
        false,
        probe,
    );
    assert_eq!(probed, ["sleep:handle-lid-switch"]);
    let prepared = prepared.ok().unwrap();
    assert_eq!(prepared.scope(), "sleep:handle-lid-switch");
    assert_eq!(prepared.note(), None);
    assert_eq!(
        prepared.command(Some(60), None).cmd.last().unwrap(),
        "60"
    );
}

#[test]
fn scopes_are_tried_from_the_widest_down() {
    assert_eq!(
        inhibitor_candidates(false),
        ["idle:sleep:handle-lid-switch", "idle:sleep", "sleep"]
    );
    assert_eq!(
        inhibitor_candidates(true),
        ["sleep:handle-lid-switch", "sleep"]
    );
    let (probed, selected) =
        select_inhibitor(Vec::new(), false, false, |seen, what: &str| (and(seen, what), false));
    assert_eq!(
        probed,
        ["idle:sleep:handle-lid-switch", "idle:sleep", "sleep"]
    );
    assert_eq!(
        selected.unwrap_err().message(),
        "no supported systemd inhibitor scope"
    );
}
