use wake::interactive::{
    ask_and_start, ask_yes_no, build_menu, next, prev, read_stdin_line, run, start_args,
    start_indefinite, style_enabled, Action, Deed, Ink, Key, Pick, Picker, Terminal,
};
use wake::session::Session;
use wake::time::Timestamp;

#[test]
fn terminal_restore_is_idempotent() {
    let mut terminal = Terminal {
        active: true,
        raw: false,
    };

    let restored = terminal.leave();
    let again = terminal.leave();

    assert_eq!(restored, (true, false));
    assert_eq!(again, (false, false));
}

#[test]
fn menus_keep_every_user_action() {
    let labels = |active| {
        build_menu(active)
            .into_iter()
            .filter(|item| item.action.is_some())
            .map(|item| item.label)
            .collect::<Vec<_>>()
    };

    assert_eq!(labels(true), ["Show status", "Stop session", "Quit"]);
    assert_eq!(
        labels(false),
        [
            "Indefinite",
            "For a duration…",
            "Until clock time…",
            "Until battery %…",
            "While app running…",
            "While PID alive…",
            "Quit",
        ]
    );
}

#[test]
fn display_sleep_flag_precedes_action_arguments() {
    assert_eq!(
        start_args(true, &["--until", "12:30"]),
        ["--no-display", "--until", "12:30"]
    );
    assert_eq!(start_args(false, &["1h"]), ["1h"]);
}

#[test]
fn navigation_skips_separator_and_wraps() {
    let items = build_menu(true);

    assert_eq!(next(&items, 1), 3);
    assert_eq!(next(&items, 3), 0);
    assert_eq!(prev(&items, 0), 3);
    assert_eq!(prev(&items, 3), 1);
}

#[test]
fn one_direction_undoes_the_other() {
    for active in [true, false] {
        let items = build_menu(active);
        for at in (0..items.len()).filter(|at| items[*at].action.is_some()) {
            assert_eq!(prev(&items, next(&items, at)), at);
            assert_eq!(next(&items, prev(&items, at)), at);
        }
    }
}

#[test]
fn keys_pick() {
    let items = build_menu(false);
    let mut picker = Picker::new(&items);
    assert_eq!(picker.selected, 0);
    assert!(matches!(
        picker.pick(&items, false, Key::Char('j'), false),
        Pick::Again
    ));
    assert_eq!(picker.selected, 1);
    picker.pick(&items, false, Key::Char('d'), false);
    assert!(picker.no_display);
    assert!(matches!(
        picker.pick(&items, false, Key::Enter, false),
        Pick::Chosen(Action::Ask("Duration (e.g. 1h30m, 90s)", None), true)
    ));
    assert!(matches!(
        picker.pick(&items, false, Key::Char('c'), false),
        Pick::Again
    ));
    assert!(matches!(
        picker.pick(&items, false, Key::Char('c'), true),
        Pick::Nothing
    ));
    assert!(matches!(
        picker.pick(&items, false, Key::Esc, false),
        Pick::Nothing
    ));
    let items = build_menu(true);
    let mut picker = Picker::new(&items);
    picker.pick(&items, true, Key::Char('d'), false);
    assert!(!picker.no_display);
    picker.pick(&items, true, Key::Enter, false);
    assert!(picker.show_detail);
    picker.pick(&items, true, Key::Up, false);
    assert_eq!(picker.selected, 3);
    assert!(matches!(
        picker.pick(&items, true, Key::Enter, false),
        Pick::Nothing
    ));
    assert!(matches!(run(Some(Action::Stop)), Deed::Stop));
    assert!(matches!(run(None), Deed::Nothing));
}

#[test]
fn answers_become_arguments() {
    assert_eq!(
        ask_and_start(false, Some(" 12:30 "), Some("--until")).unwrap(),
        ["--until", "12:30"]
    );
    assert_eq!(ask_and_start(true, Some("1h"), None).unwrap(), ["--no-display", "1h"]);
    assert!(ask_and_start(false, Some("  "), None).is_none());
    assert!(ask_and_start(false, None, None).is_none());
    assert_eq!(start_indefinite(true, true), ["--no-display", "--even-lid"]);
    assert!(start_indefinite(false, false).is_empty());
    assert!(ask_yes_no(Some(" Yes")));
    assert!(!ask_yes_no(Some("no")));
    assert!(!ask_yes_no(None));
    assert_eq!(read_stdin_line(Some("a\r\n")).unwrap(), "a");
    assert!(read_stdin_line(Some("")).is_none());
    assert_eq!(read_stdin_line(Some("\n")).unwrap(), "");
    assert!(style_enabled(false, Some("xterm")));
    assert!(!style_enabled(true, Some("xterm")));
    assert!(!style_enabled(false, Some("DUMB")));
    assert!(!style_enabled(false, Some(" ")));
    assert!(!style_enabled(false, None));
}

#[test]
fn the_screen_shows_session_and_menu() {
    let instant = |seconds| Timestamp { seconds, nanos: 0 };
    let session = Session {
        mode: "display+system".into(),
        trigger: "timed".into(),
        detail: "1h".into(),
        started_at: Some(instant(1_000)),
        ends_at: Some(instant(4_600)),
        ..Session::default()
    };
    let items = build_menu(true);
    let mut picker = Picker::new(&items);
    picker.show_detail = true;
    let lines: Vec<String> = picker
        .render(&items, Some(&session), instant(1_060), "03:04:05")
        .iter()
        .map(|line| line.iter().map(|piece| piece.text.as_str()).collect())
        .collect();
    assert_eq!(
        lines,
        [
            "  ☕ wake  - keep your machine awake",
            "",
            "  ● active   timed 1h   (59m00s left)",
            "    mode      : display+system",
            "    trigger   : timed (1h)",
            "    started   : 03:04:05 (1m00s ago)",
            "    remaining : 59m00s",
            "",
            "  ▸ Show status   view session details",
            "    Stop session",
            "    ─────────────────────────",
            "    Quit",
            "",
            "  ↑↓/jk navigate · ↵ select · q quit",
        ]
    );
    let items = build_menu(false);
    let lines = Picker::new(&items).render(&items, None, instant(0), "");
    assert_eq!(lines[2][1].text, "○ no active session");
    assert_eq!(lines[2][1].ink, Ink::Color(245));
    assert_eq!(
        lines.last().unwrap()[1].text,
        "↑↓/jk navigate · ↵ select · d display-sleep [off] · q quit"
    );
}
