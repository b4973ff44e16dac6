use wake::error::AppError;
use wake::platform::Platform;
use wake::session::{
    disable_sleep, expected_command, field, io_error, is_known_mode, lid_hints, lock_outcome,
    mode_for, parse_positive, parse_session, parse_u32, properties, read_if_alive, read_saved_at,
    serialize, serialize_pending, state_dir, temporary_name, LockAttempt, Read, SavedState, Session, StateDir,
};
use wake::sysutil::Identity;
use wake::time::Timestamp;

const SYSTEMS: [Platform; 3] = [Platform::Linux, Platform::Macos, Platform::Windows];

fn valid(platform: Platform, even_lid: bool) -> String {
    let command = match platform {
        Platform::Windows => "C:\\tools\\wake.exe",
        Platform::Macos => "/usr/bin/caffeinate",
        Platform::Linux => "/usr/bin/systemd-inhibit",
    };
    let mut text = format!(
        "version=2\npid=4321\nmode=display+system\ntrigger=timed\ndetail=1h\nstartedAt=2024-01-02T03:04:05+00:00\nendsAt=2024-01-02T04:04:05+00:00\nprocessStart=1700000000\nprocessCommand={command}\nevenLid={even_lid}\n"
    );
    if even_lid {
        match platform {
            Platform::Windows => text.push_str("guardianPid=99\nguardianStart=1800000000\noriginalScheme=381b4222-f694-41f0-9685-ff5bb260df2e\noriginalAc=4294967295\noriginalDc=2\n"),
            _ => text.push_str("priorDisableSleep=0\n"),
        }
    }
    text
}

#[test]
fn strict_state_accepts_only_complete_versioned_records() {
    for platform in SYSTEMS {
        let parse = |text: String| parse_session(platform, text.as_bytes());
        assert_eq!(parse(valid(platform, false)).unwrap().pid, 4321);
        assert!(parse(valid(platform, true)).unwrap().even_lid);
        for invalid in [
            valid(platform, false).replacen("version=2", "version=1", 1),
            format!("{}unknown=x\n", valid(platform, false)),
            valid(platform, false).replace("detail=1h\n", ""),
            format!("{}pid=4321\n", valid(platform, false)),
        ] {
            assert!(parse(invalid).is_err());
        }
        let session = parse(valid(platform, false)).unwrap();
        assert!(!session.matches_identity(
            platform,
            &Identity {
                start: session.process_start + 1,
                command: session.process_command.clone(),
            }
        ));
    }
    assert!(!lid_hints(b"broken=true\n"));
    assert!(lid_hints(b"originalScheme=broken\n"));
}

#[test]
fn written_sessions_are_read_back() {
    for platform in SYSTEMS {
        for even_lid in [false, true] {
            let text = valid(platform, even_lid);
            let session = parse_session(platform, text.as_bytes()).unwrap();
            let written = serialize(platform, &session).unwrap();
            assert_eq!(String::from_utf8(written.clone()).unwrap(), text);
            let again = parse_session(platform, &written).unwrap();
            assert_eq!(again.pid, session.pid);
            assert_eq!(again.started_at, session.started_at);
            assert_eq!(again.ends_at, session.ends_at);
            assert_eq!(again.original_scheme, session.original_scheme);
            assert_eq!(again.even_lid, even_lid);
        }
    }
}

#[test]
fn announcements_hint_at_the_lid_and_grant_nothing() {
    for platform in SYSTEMS {
        let text = valid(platform, true);
        let session = parse_session(platform, text.as_bytes()).unwrap();
        let bytes = serialize_pending(platform, &session).unwrap();
        assert_eq!(bytes, format!("{text}pending=true\n").into_bytes());
        assert!(parse_session(platform, &bytes).is_err());
        assert!(matches!(
            read_saved_at(platform, Read::Bytes(bytes)),
            Some(SavedState::Malformed(true))
        ));
        let nobody = Session {
            pid: 0,
            ..session.clone()
        };
        assert_eq!(
            serialize_pending(platform, &nobody).unwrap_err().message(),
            "session identity or start time is missing"
        );
    }
}

#[test]
fn text_that_is_not_utf8_is_refused() {
    let mut bytes = valid(Platform::Linux, false).into_bytes();
    bytes.push(0xff);
    assert!(parse_session(Platform::Linux, &bytes).is_err());
    assert!(parse_session(Platform::Linux, b"").is_err());
}

#[test]
fn saved_states_are_told_apart() {
    let bytes = valid(Platform::Linux, false).into_bytes();
    assert!(matches!(
        read_saved_at(Platform::Linux, Read::Bytes(bytes)),
        Some(SavedState::Valid(_))
    ));
    assert!(matches!(
        read_saved_at(Platform::Linux, Read::Bytes(b"evenLid=true\n".to_vec())),
        Some(SavedState::Malformed(true))
    ));
    assert!(matches!(
        read_saved_at(Platform::Linux, Read::Bytes(b"junk\n".to_vec())),
        Some(SavedState::Malformed(false))
    ));
    assert!(read_saved_at(Platform::Linux, Read::Missing).is_none());
    assert!(matches!(
        read_saved_at(Platform::Linux, Read::Unreadable),
        Some(SavedState::Malformed(true))
    ));
}

#[test]
fn only_the_process_of_a_session_keeps_it_alive() {
    let saved = || {
        read_saved_at(
            Platform::Linux,
            Read::Bytes(valid(Platform::Linux, false).into_bytes()),
        )
    };
    let own = Identity {
        start: 1_700_000_000,
        command: "/usr/bin/systemd-inhibit".into(),
    };
    let (alive, delete) = read_if_alive(Platform::Linux, true, saved(), Some(own));
    assert!(alive.is_some());
    assert!(!delete);
    let (alive, delete) = read_if_alive(Platform::Linux, true, saved(), None);
    assert!(alive.is_none());
    assert!(delete);
}

#[test]
fn fields_and_numbers_are_strict() {
    let read = properties("a=1\nb=x=y\n").unwrap();
    assert_eq!(field(&read, "b").unwrap(), "x=y");
    assert!(field(&read, "c").is_err());
    assert!(properties("a=1\na=2\n").is_err());
    assert!(properties("nothing\n").is_err());
    assert_eq!(parse_positive::<u32>("7", "n").unwrap(), 7);
    for raw in ["0", "07", "+7", "-7", "", "4294967296"] {
        assert!(parse_positive::<u32>(raw, "n").is_err());
    }
    assert_eq!(parse_u32("0", "n").unwrap(), 0);
    assert!(parse_u32("01", "n").is_err());
    assert_eq!(disable_sleep("1").unwrap(), 1);
    assert!(disable_sleep("2").is_err());
    assert!(is_known_mode(mode_for(true)) && is_known_mode(mode_for(false)));
    assert!(!is_known_mode("other"));
}

#[test]
fn expected_programs_differ_by_system() {
    assert!(expected_command(Platform::Linux, "/usr/bin/systemd-inhibit"));
    assert!(expected_command(Platform::Macos, "/usr/bin/caffeinate"));
    assert!(expected_command(Platform::Windows, "C:\\tools\\WAKE.EXE"));
    assert!(!expected_command(Platform::Linux, "/usr/bin/editor"));
}

#[test]
fn sessions_capture_who_runs_them() {
    let mut session = Session::default();
    assert!(session
        .capture_process_identity(Err(AppError::fail("gone")))
        .is_err());
    session
        .capture_process_identity(Ok(Identity {
            start: 5,
            command: "c".into(),
        }))
        .unwrap();
    assert_eq!((session.process_start, session.process_command.as_str()), (5, "c"));
    assert!(!session.clone().owned_non_lid_by(1, 5));
}

#[test]
fn locks_and_files_are_told_of() {
    assert!(lock_outcome(LockAttempt::Held).is_ok());
    assert_eq!(
        lock_outcome(LockAttempt::Busy).unwrap_err().message(),
        "another wake invocation is in progress; try again"
    );
    assert_eq!(
        lock_outcome(LockAttempt::Failed("disk".into()))
            .unwrap_err()
            .message(),
        "disk"
    );
    assert!(io_error("/p", "denied").message().contains("denied"));
    assert!(temporary_name(17).contains("17"));
    assert_eq!(
        state_dir(Platform::Linux, true, true, false),
        StateDir::Override
    );
    assert_eq!(
        state_dir(Platform::Linux, false, true, false),
        StateDir::XdgState
    );
    assert_eq!(
        state_dir(Platform::Linux, false, false, false),
        StateDir::HomeState
    );
    assert_eq!(
        state_dir(Platform::Windows, false, false, true),
        StateDir::LocalAppData
    );
    assert_eq!(
        state_dir(Platform::Windows, false, false, false),
        StateDir::ProfileAppData
    );
}

#[test]
fn instants_are_ordered() {
    let early = Timestamp {
        seconds: 1,
        nanos: 5,
    };
    let late = Timestamp {
        seconds: 1,
        nanos: 6,
    };
    assert!(early.is_before(&late) && !late.is_before(&early) && !early.is_before(&early));
    assert!(early.is_valid());
    assert!(!Timestamp {
        seconds: 1,
        nanos: 1_000_000_000
    }
    .is_valid());
}
