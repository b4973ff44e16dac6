use wake::error::AppError;
use wake::platform::windows::RestoreField::{Conflict, Keep, Write};
use wake::platform::windows::{
    check_lid_access, enable_action, enable_failure, enable_lid, format_guid, guid_eq, lid_health,
    map_power_status, needs_restoration, parse_guid, power_error, restore_action, restore_field,
    restore_lid_snapshot, should_reactivate_lid, validate_lid_enable_preflight, EnableState,
    LidHealth, PowerAction, PowerEvent, PowerStatus, RestoreEnd, RestoreField, RestoreState,
};

fn power(ac: u8, flags: u8, percent: u8) -> PowerStatus {
    PowerStatus {
        ac_line: ac,
        battery_flag: flags,
        percent,
    }
}

#[test]
fn system_power_status_mapping() {
    assert!(map_power_status(power(1, 0x08, 72)).unwrap().charging);
    assert!(map_power_status(power(0, 0x01, 41)).unwrap().discharging);
    assert!(map_power_status(power(1, 0x80, 50)).is_err());
    assert!(map_power_status(power(1, 0, u8::MAX)).is_err());
}

#[test]
fn guid_round_trip_is_canonical() {
    let text = "381b4222-f694-41f0-9685-ff5bb260df2e";
    assert_eq!(format_guid(&parse_guid(text).unwrap()), text);
    assert!(parse_guid("381B4222-f694-41f0-9685-ff5bb260df2e").is_err());
}

#[test]
fn partial_and_mixed_conflict_states_decide_each_rail() {
    for (current, original, expected) in [
        ((1, 2), (1, 2), (Keep, Keep)),
        ((0, 2), (1, 2), (Write, Keep)),
        ((1, 0), (1, 2), (Keep, Write)),
        ((0, 0), (1, 2), (Write, Write)),
        ((3, 0), (1, 2), (Conflict, Write)),
        ((0, 3), (1, 2), (Write, Conflict)),
        ((3, 4), (1, 2), (Conflict, Conflict)),
    ] {
        assert_eq!(
            (
                restore_field(current.0, original.0),
                restore_field(current.1, original.1),
            ),
            expected
        );
    }
}

#[test]
fn restored_values_reactivate_only_the_still_active_scheme() {
    assert!(should_reactivate_lid(false, (1, 2), (1, 2), true));
    assert!(!should_reactivate_lid(false, (1, 2), (1, 2), false));
    assert!(!should_reactivate_lid(false, (3, 2), (1, 2), true));
    assert!(should_reactivate_lid(true, (3, 2), (1, 2), true));
    assert!(!should_reactivate_lid(true, (3, 2), (1, 2), false));
}

#[test]
fn startup_preflight_rejects_changes_before_authority_publication() {
    assert!(validate_lid_enable_preflight(true, (1, 2), (1, 2)).is_ok());
    assert!(validate_lid_enable_preflight(false, (1, 2), (1, 2)).is_err());
    assert!(validate_lid_enable_preflight(true, (0, 2), (1, 2)).is_err());
    assert!(validate_lid_enable_preflight(true, (1, 0), (1, 2)).is_err());
}

#[test]
fn scheme_switch_and_value_changes_degrade_health() {
    assert_eq!(lid_health(true, (0, 0)), LidHealth::Healthy);
    assert_eq!(lid_health(false, (0, 0)), LidHealth::DegradedScheme);
    assert_eq!(lid_health(true, (0, 1)), LidHealth::DegradedValues);
}

/// A machine that does what it is told.
struct Machine {
    values: (u32, u32),
    active: bool,
}

impl Machine {
    fn answer(&mut self, action: PowerAction) -> PowerEvent {
        match action {
            PowerAction::ReadValues => PowerEvent::Values(self.values.0, self.values.1),
            PowerAction::WriteAc(value) => {
                self.values.0 = value;
                PowerEvent::Done
            }
            PowerAction::WriteDc(value) => {
                self.values.1 = value;
                PowerEvent::Done
            }
            PowerAction::CheckActive => PowerEvent::Active(self.active),
            PowerAction::Activate => PowerEvent::Done,
            PowerAction::Finish => unreachable!(),
        }
    }

    fn enable(&mut self, original: (u32, u32)) -> EnableState {
        let mut state = EnableState::Check;
        while enable_action(state) != PowerAction::Finish {
            let event = self.answer(enable_action(state));
            state = enable_lid(original, state, event);
        }
        state
    }

    fn restore(&mut self, original: (u32, u32)) -> RestoreState {
        let mut state = RestoreState::ReadAc;
        while restore_action(original, state) != PowerAction::Finish {
            let event = self.answer(restore_action(original, state));
            state = restore_lid_snapshot(original, state, event);
        }
        state
    }
}

#[test]
fn restoring_undoes_enabling() {
    let mut machine = Machine {
        values: (1, 2),
        active: true,
    };
    assert_eq!(machine.enable((1, 2)), EnableState::Enabled);
    assert_eq!(machine.values, (0, 0));
    assert!(matches!(
        machine.restore((1, 2)),
        RestoreState::Ended(RestoreEnd::Restored)
    ));
    assert_eq!(machine.values, (1, 2));
}

#[test]
fn restoring_keeps_foreign_values() {
    let mut machine = Machine {
        values: (3, 0),
        active: true,
    };
    assert!(!matches!(
        machine.restore((1, 2)),
        RestoreState::Ended(RestoreEnd::Restored)
    ));
    assert_eq!(machine.values, (3, 2));
}

#[test]
fn a_foreign_value_stops_enabling() {
    let mut machine = Machine {
        values: (3, 2),
        active: true,
    };
    assert!(matches!(machine.enable((1, 2)), EnableState::RollBack(_)));
    assert_eq!(machine.values, (3, 2));
}

#[test]
fn power_errors_name_their_code() {
    assert!(power_error("write", 5).message().contains('5'));
    assert_eq!(
        enable_failure(AppError::fail("first"), Ok(())).message(),
        "first"
    );
    assert!(enable_failure(AppError::fail("first"), Err(AppError::fail("second")))
        .message()
        .contains("second"));
    let a = parse_guid("381b4222-f694-41f0-9685-ff5bb260df2e").unwrap();
    let b = parse_guid("381b4222-f694-41f0-9685-ff5bb260df2f").unwrap();
    assert!(guid_eq(&a, &a));
    assert!(!guid_eq(&a, &b));
}

#[test]
fn a_lid_that_may_not_be_written_is_told_apart() {
    let error = |ac, dc| check_lid_access(ac, dc).unwrap_err().message().to_string();
    assert!(check_lid_access(0, 0).is_ok());
    let policy = "the lid action is managed by group policy; wake cannot change it";
    assert_eq!(error(1260, 0), policy);
    assert_eq!(error(5, 1260), policy);
    let restricted =
        "power settings are restricted on this machine; run wake from an elevated terminal";
    assert_eq!(error(5, 0), restricted);
    assert_eq!(error(0, 5), restricted);
    assert_eq!(
        error(0, 87),
        "could not check write access to the lid action (error 87)"
    );
    assert_eq!(
        error(2, 87),
        "could not check write access to the lid action (error 2)"
    );
}

#[test]
fn only_a_taken_lid_action_has_to_be_written_back() {
    assert!(!needs_restoration((1, 2), (1, 2)));
    assert!(needs_restoration((0, 2), (1, 2)));
    assert!(needs_restoration((1, 0), (1, 2)));
    assert!(!needs_restoration((3, 2), (1, 2)));
    assert!(!needs_restoration((0, 0), (0, 0)));
}
