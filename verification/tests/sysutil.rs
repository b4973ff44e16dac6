use wake::error::AppError;
use wake::platform::Platform;
use wake::session::Session;
use wake::supervisor::windows::parse_guardian_args;
use wake::sysutil::windows::{
    creation_time, guardian_launch_error, guardian_parameters, millis, open_exact_process,
    open_process, open_process_for_wait, process_behind, quote_windows_arg, spawn_worker,
    stuck_worker, system_error, terminate_and_wait, wait_raw, worker_launch_error, EndEvent,
    EndState,
};
use wake::sysutil::{
    capture_identity, choose_app_pid, command_basename, find_app_pid, is_wake_name, live_identity,
    match_process, require_child_alive, self_exe, settling_time, signal_session, spawn_failure,
    terminate_session, termination_asks, wait_gone, AppMatch, Identity, ProcessEntry, Signal,
    TerminationAction, TerminationEvent, TerminationState,
};
use wake::time::{look_pause, Span};

fn strings(values: &[&str]) -> Vec<String> {
    values.iter().map(|value| (*value).into()).collect()
}

#[test]
fn empty_app_query_is_usage() {
    assert!(matches!(
        find_app_pid(Platform::Linux, "  \t", 1, &Vec::new()),
        Err(AppError::Usage(_))
    ));
}

#[test]
fn app_match_prefers_exact_then_literal_command_substring() {
    assert_eq!(
        match_process("SLACK.EXE", "slack", "slack.exe", &strings(&[])),
        Some(AppMatch::Exact)
    );
    assert_eq!(
        match_process(
            "Project[1]",
            "node",
            "node",
            &strings(&["node", "--workspace=C:\\PROJECT[1]\\app"])
        ),
        Some(AppMatch::Substring)
    );
    assert_eq!(
        match_process("app.", "appx", "other", &strings(&["--app=x"])),
        None
    );
}

#[test]
fn app_selection_prefers_exact_then_lowest_pid() {
    assert_eq!(
        choose_app_pid(&vec![
            (AppMatch::Substring, 1),
            (AppMatch::Exact, 9),
            (AppMatch::Exact, 3),
        ]),
        Some(3)
    );
}

#[test]
fn wake_exclusion_is_exact() {
    assert!(is_wake_name("WAKE.EXE"));
    assert!(!is_wake_name("wake-helper.exe"));
}

#[test]
fn immediate_child_failure_is_detected() {
    let error = require_child_alive(
        Platform::Linux,
        Some("exit status: 17".into()),
        &strings(&["/bin/sh"]),
    )
    .unwrap_err();
    assert!(error.message().contains("exited immediately"));
    assert!(error.message().contains("17"));
    assert!(require_child_alive(Platform::Linux, None, &strings(&["/bin/sh"])).is_ok());
}

#[test]
fn exact_target_identity_does_not_follow_pid_reuse() {
    let found = Some(Identity {
        start: 100,
        command: "wake.exe".into(),
    });
    assert!(open_exact_process(&found, 100));
    assert!(!open_exact_process(&found, 101));
    assert!(!open_exact_process(&None, 100));
}

#[test]
fn windows_argv_quoting_handles_spaces_quotes_and_trailing_slashes() {
    assert_eq!(quote_windows_arg("plain"), "plain");
    assert_eq!(quote_windows_arg(""), "\"\"");
    assert_eq!(quote_windows_arg("two words"), "\"two words\"");
    assert_eq!(quote_windows_arg("a\\\"b"), "\"a\\\\\\\"b\"");
    assert_eq!(
        quote_windows_arg("C:\\dir with space\\"),
        "\"C:\\dir with space\\\\\""
    );
}

fn entry(pid: u32, parent: Option<u32>, name: &str, exe: &str, command: &[&str]) -> ProcessEntry {
    ProcessEntry {
        pid,
        parent,
        name: name.into(),
        exe: Some(exe.into()),
        command: strings(command),
    }
}

#[test]
fn a_search_leaves_itself_and_its_parent_out() {
    let table = vec![
        entry(10, Some(9), "other", "/usr/bin/other", &["other", "slack"]),
        entry(9, None, "sh", "/bin/sh", &["sh", "-c", "wake --while-app slack"]),
        entry(8, None, "wake", "/usr/bin/wake", &["wake", "slack"]),
        entry(7, None, "node", "/usr/bin/node", &["node", "slack.js"]),
        entry(12, None, "Slack", "/opt/slack", &["slack"]),
    ];
    assert_eq!(
        find_app_pid(Platform::Linux, " slack ", 10, &table).unwrap(),
        Some(12)
    );
    assert_eq!(
        find_app_pid(Platform::Linux, "SLACK.", 10, &table).unwrap(),
        Some(7)
    );
    assert_eq!(
        find_app_pid(Platform::Linux, "absent", 10, &table).unwrap(),
        None
    );
}

#[test]
fn letters_beyond_ascii_match_in_either_case() {
    assert_eq!(
        match_process("\u{c9}DITEUR", "\u{e9}diteur", "", &strings(&[])),
        Some(AppMatch::Exact)
    );
}

#[test]
fn identities_come_from_the_program_or_the_name() {
    let found = live_identity(Some((5, None, "name".into()))).unwrap();
    assert_eq!((found.start, found.command.as_str()), (5, "name"));
    let found = live_identity(Some((5, Some("/bin/x".into()), "name".into()))).unwrap();
    assert_eq!(found.command, "/bin/x");
    assert!(live_identity(None).is_none());
    assert_eq!(
        capture_identity(42, None).unwrap_err().message(),
        "process 42 is not running"
    );
}

#[test]
fn only_the_process_of_a_session_is_signalled() {
    let session = Session {
        pid: 42,
        process_start: 5,
        process_command: "/usr/bin/systemd-inhibit".into(),
        ..Session::default()
    };
    let own = Some(Identity {
        start: 5,
        command: "/usr/bin/systemd-inhibit".into(),
    });
    let other = Some(Identity {
        start: 6,
        command: "/usr/bin/systemd-inhibit".into(),
    });
    let signal = |live, force| signal_session(Platform::Linux, &session, live, force);
    assert_eq!(signal(&None, false).unwrap(), Signal::Nothing);
    assert_eq!(signal(&own, false).unwrap(), Signal::Terminate);
    assert_eq!(signal(&own, true).unwrap(), Signal::Kill);
    assert_eq!(
        signal(&other, false).unwrap_err().message(),
        "session process 42 changed identity; refusing to terminate it"
    );
}

#[test]
fn a_process_is_asked_before_it_is_ordered() {
    let mut state = TerminationState::Asking;
    let mut asked = Vec::new();
    while termination_asks(state) != TerminationAction::Finish {
        let action = termination_asks(state);
        asked.push(action);
        let event = match action {
            TerminationAction::Signal { .. } => TerminationEvent::Signalled(true),
            _ => TerminationEvent::Gone(false),
        };
        state = terminate_session(state, event);
    }
    assert_eq!(
        asked,
        [
            TerminationAction::Signal { force: false },
            TerminationAction::WaitGone { seconds: 5 },
            TerminationAction::Signal { force: true },
            TerminationAction::WaitGone { seconds: 1 },
        ]
    );
    assert_eq!(state, TerminationState::Succeeded);
    assert_eq!(
        terminate_session(TerminationState::Asking, TerminationEvent::Failed),
        TerminationState::Failed
    );
    let (early, late) = (Span::from_millis(4_999), Span::from_millis(5_000));
    assert_eq!(wait_gone(false, late, 5), Some(true));
    assert_eq!(wait_gone(true, late, 5), Some(false));
    assert_eq!(wait_gone(true, early, 5), None);
    assert_eq!(settling_time(), Span::from_millis(300));
    assert_eq!(look_pause(), Span::from_millis(100));
}

#[test]
fn commands_are_named_by_their_program() {
    assert_eq!(
        command_basename(Platform::Linux, &strings(&["/usr/bin/x", "y"])),
        "x"
    );
    assert_eq!(command_basename(Platform::Linux, &strings(&[" "])), "unknown");
    assert_eq!(command_basename(Platform::Linux, &strings(&[])), "unknown");
    assert_eq!(command_basename(Platform::Linux, &strings(&["/"])), "/");
    assert_eq!(
        spawn_failure(Platform::Linux, &strings(&["/usr/bin/x"]), "denied").message(),
        "couldn't launch x: denied; check it is installed and on PATH"
    );
    assert_eq!(self_exe(Ok("/w".into())).unwrap(), "/w");
    assert_eq!(
        self_exe(Err("denied".into())).unwrap_err().message(),
        "can't determine executable path: denied"
    );
}

/// The arguments of a command line, as the documented rules read them.
fn arguments(line: &str) -> Vec<String> {
    let mut out = Vec::new();
    let mut current: Option<String> = None;
    let (mut slashes, mut quoted) = (0, false);
    for ch in line.chars() {
        if ch == '\\' {
            slashes += 1;
            continue;
        }
        let kept = if ch == '"' { slashes / 2 } else { slashes };
        let literal = ch == '"' && slashes % 2 == 1;
        if kept > 0 || literal {
            current.get_or_insert_with(String::new).push_str(&"\\".repeat(kept));
        }
        slashes = 0;
        if ch == '"' && !literal {
            quoted = !quoted;
            current.get_or_insert_with(String::new);
        } else if (ch == ' ' || ch == '\t') && !quoted {
            out.extend(current.take());
        } else {
            current.get_or_insert_with(String::new).push(ch);
        }
    }
    if slashes > 0 {
        current.get_or_insert_with(String::new).push_str(&"\\".repeat(slashes));
    }
    out.extend(current);
    out
}

#[test]
fn guardian_parameters_are_read_back() {
    let scheme = "381b4222-f694-41f0-9685-ff5bb260df2e";
    let path = "C:\\state dir\\session.properties";
    let (program, line) = guardian_parameters(
        Ok("C:\\wake.exe".into()),
        (7, 9),
        (scheme, 1, 2),
        false,
        None,
        path,
    )
    .unwrap();
    assert_eq!(program, "C:\\wake.exe");
    let words = arguments(&line);
    let read = parse_guardian_args(&words).unwrap();
    assert_eq!((read.worker_pid, read.worker_start), (7, 9));
    assert_eq!((read.scheme.as_str(), read.ac, read.dc), (scheme, 1, 2));
    assert_eq!(read.state_path, path);
    assert!(!read.restore_without_worker && read.deadline.is_none());
    assert_eq!(
        guardian_parameters(Ok("w".into()), (7, 9), (scheme, 1, 2), false, None, "relative")
            .unwrap_err()
            .message(),
        "guardian state path must be absolute"
    );
    assert!(guardian_parameters(Err("no".into()), (7, 9), (scheme, 1, 2), false, None, path).is_err());
}

#[test]
fn answers_of_the_system_are_read() {
    assert!(wait_raw(0, 0).unwrap());
    assert!(!wait_raw(258, 0).unwrap());
    assert_eq!(
        wait_raw(u32::MAX, 6).unwrap_err().message(),
        "process wait failed (error 6)"
    );
    assert_eq!(
        wait_raw(128, 0).unwrap_err().message(),
        "process wait returned unexpected status 128"
    );
    assert_eq!(millis(5_000), 5_000);
    assert_eq!(millis(u128::from(u64::MAX)), u32::MAX - 1);
    assert_eq!(creation_time(1, 2), 4_294_967_298);
    assert!(open_process(42, 87).is_ok());
    assert_eq!(
        open_process(42, 5).unwrap_err().message(),
        "could not open process 42 (error 5)"
    );
    assert!(open_process_for_wait(42, Some(true)).is_ok());
    assert!(open_process_for_wait(42, Some(false)).is_err());
    assert!(open_process_for_wait(42, None).is_err());
    assert_eq!(
        guardian_launch_error(1223).message(),
        "elevation was cancelled; --even-lid was not enabled"
    );
    assert_eq!(
        guardian_launch_error(5).message(),
        "could not launch the elevated guardian (error 5)"
    );
    assert_eq!(system_error("m", 1).message(), "m (error 1)");
    assert_eq!(
        stuck_worker(7).message(),
        "worker 7 did not exit after termination"
    );
    assert_eq!(
        worker_launch_error("denied").message(),
        "could not launch the Windows worker: denied"
    );
    assert!(spawn_worker(&strings(&["wake"]), "C:\\state").is_ok());
    assert!(spawn_worker(&strings(&["wake"]), "state").is_err());
    assert!(spawn_worker(&strings(&[]), "C:\\state").is_err());
}

#[test]
fn a_process_behind_a_handle_may_be_gone() {
    let identity = || {
        Ok(Identity {
            start: 1,
            command: "c".into(),
        })
    };
    let broken = || Err(AppError::fail("denied"));
    assert!(process_behind(true, 7, 0, identity(), Ok(false)).unwrap().is_none());
    assert_eq!(process_behind(false, 7, 0, identity(), Ok(false)).unwrap().unwrap().0, 7);
    assert!(process_behind(false, 0, 6, identity(), Ok(false)).is_err());
    assert!(process_behind(false, 7, 0, broken(), Ok(true)).unwrap().is_none());
    assert_eq!(
        process_behind(false, 7, 0, broken(), Ok(false)).unwrap_err().message(),
        "denied"
    );
    let mut state = EndState::Checking;
    for event in [EndEvent::Running(true), EndEvent::Terminated, EndEvent::Ended(false)] {
        state = terminate_and_wait(state, event);
    }
    assert_eq!(state, EndState::Stuck);
}
