use wake::dispatch::{dispatch, is_help_or_version, reject_trailing, Command};
use wake::error::AppError;
use wake::platform::Platform;

const SYSTEMS: [Platform; 3] = [Platform::Linux, Platform::Macos, Platform::Windows];

fn args(values: &[&str]) -> Vec<String> {
    values.iter().map(|value| (*value).to_string()).collect()
}

#[test]
fn fixed_commands_reject_trailing_args() {
    for platform in SYSTEMS {
        for values in [
            &["help", "extra"][..],
            &["version", "extra"],
            &["status", "extra"],
            &["stop", "extra"],
        ] {
            assert!(matches!(
                dispatch(platform, &args(values)),
                Err(AppError::Usage(_))
            ));
        }
    }
}

#[test]
fn start_help_and_version_must_be_alone() {
    for platform in SYSTEMS {
        for values in [&["1h", "--help"][..], &["--no-display", "--version"]] {
            assert!(matches!(
                dispatch(platform, &args(values)),
                Err(AppError::Usage(_))
            ));
        }
    }
}

#[test]
fn words_lead_to_their_command() {
    let on = |platform, values: &[&str]| dispatch(platform, &args(values)).unwrap();
    for platform in SYSTEMS {
        assert_eq!(on(platform, &[]), Command::Start);
        assert_eq!(on(platform, &["1h"]), Command::Start);
        assert_eq!(on(platform, &["-h"]), Command::Help);
        assert_eq!(on(platform, &["-v"]), Command::Version);
        assert_eq!(on(platform, &["status"]), Command::Status);
        assert_eq!(on(platform, &["stop"]), Command::Stop);
    }
    assert_eq!(
        on(Platform::Linux, &["__supervise_charge__", "80"]),
        Command::SuperviseCharge
    );
    assert_eq!(
        on(Platform::Linux, &["__supervise_until__", "help"]),
        Command::SuperviseUntil
    );
    assert_eq!(on(Platform::Macos, &["__supervise_lid__"]), Command::SuperviseLid);
    assert_eq!(
        on(Platform::Windows, &["__worker_windows__"]),
        Command::WorkWindows
    );
    assert_eq!(
        on(Platform::Windows, &["__guard_windows__"]),
        Command::GuardWindows
    );
    assert_eq!(on(Platform::Windows, &["__supervise_lid__"]), Command::Start);
    assert!(is_help_or_version("help") && !is_help_or_version("halp"));
    assert_eq!(
        reject_trailing("stop", &args(&["x"])).unwrap_err().message(),
        "stop does not accept arguments"
    );
}
