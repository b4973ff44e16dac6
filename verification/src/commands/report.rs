//! What the user is told of sessions.

use vstd::prelude::*;
use vstd::string::*;

use crate::error::{AppError, Fault};
use crate::platform::{self, Platform};
use crate::session::{Record, Session};
use crate::text;
use crate::time::{self, Timestamp};

verus! {

/// A number below a hundred in two digits.
pub open spec fn two_digits(n: nat) -> Seq<char> {
    if n < 10 {
        seq!['0'] + text::decimal(n)
    } else {
        text::decimal(n)
    }
}

fn two_digit_text(n: u64) -> (r: String)
    ensures
        r@ == two_digits(n as nat),
{
    if n < 10 {
        let mut r = String::new();
        r.push('0');
        r.append(text::decimal_text(n).as_str());
        assert(r@ =~= two_digits(n as nat));
        r
    } else {
        text::decimal_text(n)
    }
}

/// A number of seconds as the two largest units that it fills; nothing below zero.
pub open spec fn pretty(sec: int) -> Seq<char> {
    let s = if sec < 0 {
        0
    } else {
        sec
    };
    let hours = s / 3600;
    let minutes = s % 3600 / 60;
    let seconds = s % 60;
    if hours > 0 {
        text::decimal(hours as nat) + "h"@ + two_digits(minutes as nat) + "m"@
    } else if minutes > 0 {
        text::decimal(minutes as nat) + "m"@ + two_digits(seconds as nat) + "s"@
    } else {
        text::decimal(seconds as nat) + "s"@
    }
}

pub fn pretty_duration(sec: i64) -> (r: String)
    ensures
        r@ == pretty(sec as int),
{
    let s: u64 = if sec < 0 {
        0
    } else {
        sec as u64
    };
    let hours: u64 = s / 3600;
    let minutes: u64 = s % 3600 / 60;
    let seconds: u64 = s % 60;
    if hours > 0 {
        let mut r = text::decimal_text(hours);
        r.append("h");
        r.append(two_digit_text(minutes).as_str());
        r.append("m");
        r
    } else if minutes > 0 {
        let mut r = text::decimal_text(minutes);
        r.append("m");
        r.append(two_digit_text(seconds).as_str());
        r.append("s");
        r
    } else {
        let mut r = text::decimal_text(seconds);
        r.append("s");
        r
    }
}

/// The first line about a session that is active.
pub open spec fn active_line(s: Record) -> Seq<char> {
    "wake: session active (pid "@ + text::decimal(s.pid as nat) + ")"@
}

fn active_text(session: &Session) -> (r: String)
    ensures
        r@ == active_line(session@),
{
    let mut m = "wake: session active (pid ".to_owned();
    m.append(text::decimal_text(session.pid as u64).as_str());
    m.append(")");
    m
}

fn pair(before: &str, what: &str) -> (r: String)
    ensures
        r@ == before@ + what@,
{
    let mut m = before.to_owned();
    m.append(what);
    m
}

fn triple(before: &str, what: &str, after: &str) -> (r: String)
    ensures
        r@ == before@ + what@ + after@,
{
    let mut m = before.to_owned();
    m.append(what);
    m.append(after);
    m
}

fn bracketed(before: &str, what: &str, detail: &str) -> (r: String)
    ensures
        r@ == before@ + what@ + " ("@ + detail@ + ")"@,
{
    let mut m = before.to_owned();
    m.append(what);
    m.append(" (");
    m.append(detail);
    m.append(")");
    m
}

/// What is left of a session at `now`.
pub open spec fn remaining(s: Record, now: Timestamp) -> Seq<char> {
    match s.ends_at {
        None => "-"@,
        Some(end) => pretty(time::whole_seconds(time::nanos_between(end, now))),
    }
}

/// What is said of the lid in the status of a session.
pub open spec fn lid_status(platform: Platform, s: Record, state_path: Seq<char>) -> Seq<Seq<char>> {
    if !s.even_lid {
        Seq::empty()
    } else {
        match platform {
            Platform::Macos => seq![
                "  even lid  : active (restore SleepDisabled="@ + text::signed_decimal(
                    s.lid.prior_disable_sleep as int,
                ) + ", state "@ + state_path + ")"@,
            ],
            Platform::Linux => seq!["  even lid  : logind inhibitor active"@],
            Platform::Windows => Seq::empty(),
        }
    }
}

/// The status of a session at `now`. `started` is its start as the wall clock showed it; a session
/// without one counts as starting now.
pub open spec fn status_text(
    platform: Platform,
    s: Record,
    now: Timestamp,
    started: Seq<char>,
    state_path: Seq<char>,
) -> Seq<Seq<char>> {
    let start = match s.started_at {
        Some(t) => t,
        None => now,
    };
    let elapsed = pretty(time::whole_seconds(time::nanos_between(now, start)));
    seq![
        active_line(s),
        "  mode      : "@ + s.mode,
        "  trigger   : "@ + s.trigger + " ("@ + s.detail + ")"@,
        "  started   : "@ + started + " ("@ + (elapsed + " ago"@) + ")"@,
        "  remaining : "@ + remaining(s, now),
    ] + lid_status(platform, s, state_path)
}

pub fn status_lines(
    platform: Platform,
    saved: &Session,
    now: Timestamp,
    started: &str,
    state_path: &str,
) -> (r: Vec<String>)
    requires
        saved@.well_formed(),
        now.valid(),
    ensures
        text::texts(r@) == status_text(platform, saved@, now, started@, state_path@),
{
    let start = match saved.started_at {
        Some(t) => t,
        None => now,
    };
    let mut ago = pretty_duration(time::seconds_between(&now, &start));
    ago.append(" ago");
    let left = match &saved.ends_at {
        None => "-".to_owned(),
        Some(end) => pretty_duration(time::seconds_between(end, &now)),
    };
    let mut lines: Vec<String> = Vec::new();
    lines.push(active_text(saved));
    lines.push(pair("  mode      : ", saved.mode.as_str()));
    lines.push(bracketed("  trigger   : ", saved.trigger.as_str(), saved.detail.as_str()));
    lines.push(bracketed("  started   : ", started, ago.as_str()));
    lines.push(pair("  remaining : ", left.as_str()));
    if saved.even_lid {
        match platform {
            Platform::Macos => {
                let mut m = "  even lid  : active (restore SleepDisabled=".to_owned();
                m.append(text::signed_decimal_text(saved.prior_disable_sleep as i64).as_str());
                m.append(", state ");
                m.append(state_path);
                m.append(")");
                lines.push(m);
            },
            Platform::Linux => {
                lines.push("  even lid  : logind inhibitor active".to_owned());
            },
            Platform::Windows => {},
        }
    }
    assert(text::texts(lines@) =~= status_text(platform, saved@, now, started@, state_path@));
    lines
}

/// What is said of the lid when a session with it starts.
pub open spec fn lid_note(platform: Platform) -> Seq<char> {
    match platform {
        Platform::Windows => {
            "note: --even-lid override verified; use 'wake status' to detect later power changes"@
        },
        Platform::Macos => {
            "note: --even-lid is active; this Mac should stay awake with the lid closed until the session ends"@
        },
        Platform::Linux => {
            "note: --even-lid holds a logind inhibitor for lid-switch handling; privileged or non-logind suspend paths are not covered"@
        },
    }
}

/// What is said when a session starts. `started` and `ends` are as the wall clock shows them, where the
/// session has them.
pub open spec fn confirmation_text(
    platform: Platform,
    s: Record,
    started: Seq<char>,
    ends: Seq<char>,
    note: Option<Seq<char>>,
) -> Seq<Seq<char>> {
    seq![
        active_line(s),
        "  mode    : "@ + s.mode,
        "  trigger : "@ + s.trigger + " ("@ + s.detail + ")"@,
        "  started : "@ + if s.started_at is Some {
            started
        } else {
            "-"@
        },
        "  ends    : "@ + if s.ends_at is Some {
            ends
        } else {
            "-"@
        },
    ] + if s.even_lid {
        seq![
            lid_note(platform),
            "caution: closed lid + battery + no external display can run hot and drain quickly"@,
        ]
    } else {
        match (note, platform::start_note(platform)) {
            (Some(note), _) => seq![note],
            (None, Some(note)) => seq![note],
            (None, None) => Seq::empty(),
        }
    }
}

pub fn confirmation_lines(
    platform: Platform,
    session: &Session,
    started: &str,
    ends: &str,
    note: Option<&str>,
) -> (r: Vec<String>)
    ensures
        text::texts(r@) == confirmation_text(
            platform,
            session@,
            started@,
            ends@,
            match note {
                Some(note) => Some(note@),
                None => None,
            },
        ),
{
    let mut lines: Vec<String> = Vec::new();
    lines.push(active_text(session));
    lines.push(pair("  mode    : ", session.mode.as_str()));
    lines.push(bracketed("  trigger : ", session.trigger.as_str(), session.detail.as_str()));
    lines.push(
        pair(
            "  started : ",
            if session.started_at.is_some() {
                started
            } else {
                "-"
            },
        ),
    );
    lines.push(
        pair(
            "  ends    : ",
            if session.ends_at.is_some() {
                ends
            } else {
                "-"
            },
        ),
    );
    if session.even_lid {
        lines.push(
            match platform {
                Platform::Windows => {
                    "note: --even-lid override verified; use 'wake status' to detect later power changes"
                },
                Platform::Macos => {
                    "note: --even-lid is active; this Mac should stay awake with the lid closed until the session ends"
                },
                Platform::Linux => {
                    "note: --even-lid holds a logind inhibitor for lid-switch handling; privileged or non-logind suspend paths are not covered"
                },
            }.to_owned(),
        );
        lines.push(
            "caution: closed lid + battery + no external display can run hot and drain quickly".to_owned(),
        );
    } else {
        match note {
            Some(note) => {
                lines.push(note.to_owned());
            },
            None => {
                match platform::static_start_note(platform) {
                    Some(note) => {
                        lines.push(note);
                    },
                    None => {},
                }
            },
        }
    }
    assert(text::texts(lines@) =~= confirmation_text(
        platform,
        session@,
        started@,
        ends@,
        match note {
            Some(note) => Some(note@),
            None => None,
        },
    ));
    lines
}

/// What is said when a charge is met already.
pub fn charge_met_line(percent: i32, target: i32) -> (r: String)
    ensures
        r@ == "wake: battery already at "@ + text::signed_decimal(percent as int) + "%; target "@
            + text::signed_decimal(target as int) + "% reached"@,
{
    let mut m = "wake: battery already at ".to_owned();
    m.append(text::signed_decimal_text(percent as i64).as_str());
    m.append("%; target ");
    m.append(text::signed_decimal_text(target as i64).as_str());
    m.append("% reached");
    m
}

/// What is said when a session was stopped.
pub fn stopped_line(saved: &Session) -> (r: String)
    ensures
        r@ == "wake: stopped (pid "@ + text::decimal(saved@.pid as nat) + ", "@ + saved@.trigger
            + ")"@,
{
    let mut m = "wake: stopped (pid ".to_owned();
    m.append(text::decimal_text(saved.pid as u64).as_str());
    m.append(", ");
    m.append(saved.trigger.as_str());
    m.append(")");
    m
}

/// The error of a start while a session is active.
pub fn already_active(existing: &Session) -> (r: AppError)
    ensures
        r@ == Fault::Fail(
            "session already active (pid "@ + text::decimal(existing@.pid as nat) + ", "@
                + existing@.trigger + " "@ + existing@.detail + "); run 'wake stop' first"@,
        ),
{
    let mut m = "session already active (pid ".to_owned();
    m.append(text::decimal_text(existing.pid as u64).as_str());
    m.append(", ");
    m.append(existing.trigger.as_str());
    m.append(" ");
    m.append(existing.detail.as_str());
    m.append("); run 'wake stop' first");
    AppError::Fail(m)
}

/// The error of a lid session whose guardian is gone.
pub fn broken_guardian_error(saved: &Session) -> (r: AppError)
    ensures
        r@ == Fault::Fail(
            "even-lid worker "@ + text::decimal(saved@.pid as nat) + " is live but guardian "@
                + text::decimal(saved@.lid.guardian_pid as nat)
                + " is not; run 'wake stop' to stop the worker while retaining recovery state"@,
        ),
{
    let mut m = "even-lid worker ".to_owned();
    m.append(text::decimal_text(saved.pid as u64).as_str());
    m.append(" is live but guardian ");
    m.append(text::decimal_text(saved.guardian_pid as u64).as_str());
    m.append(" is not; run 'wake stop' to stop the worker while retaining recovery state");
    AppError::Fail(m)
}

/// The error of stopping a lid session whose guardian is gone.
pub fn broken_guardian_stopped(saved: &Session, state_path: &str) -> (r: AppError)
    ensures
        r@ == Fault::Fail(
            "guardian for worker "@ + text::decimal(saved@.pid as nat)
                + " is not running; the exact worker was stopped, but recovery state was retained at "@
                + state_path@ + "; run 'wake stop' again to start recovery"@,
        ),
{
    let mut m = "guardian for worker ".to_owned();
    m.append(text::decimal_text(saved.pid as u64).as_str());
    m.append(
        " is not running; the exact worker was stopped, but recovery state was retained at ",
    );
    m.append(state_path);
    m.append("; run 'wake stop' again to start recovery");
    AppError::Fail(m)
}

/// What is said where a condition was met before the lid was taken over, by what the session waited
/// for. Only a worker that succeeded has met it.
pub open spec fn condition_completed(
    worker_succeeded: bool,
    trigger: Seq<char>,
    charge: Option<(i32, bool)>,
) -> Option<Seq<char>> {
    if !worker_succeeded {
        None
    } else if trigger == "timed"@ || trigger == "until-time"@ {
        Some("wake: requested end time passed before --even-lid became ready"@)
    } else if trigger == "while-pid"@ || trigger == "while-app"@ {
        Some("wake: watched process exited before --even-lid became ready"@)
    } else if trigger == "until-charge"@ {
        match charge {
            Some((target, _)) => Some(
                "wake: battery target "@ + text::signed_decimal(target as int)
                    + "% reached before --even-lid became ready"@,
            ),
            None => None,
        }
    } else {
        None
    }
}

pub fn windows_condition_completed(
    worker_succeeded: bool,
    saved: &Session,
    charge: Option<(i32, bool)>,
) -> (r: Option<String>)
    ensures
        text::maybe(r) == condition_completed(worker_succeeded, saved@.trigger, charge),
{
    if !worker_succeeded {
        return None;
    }
    let trigger = saved.trigger.as_str();
    if text::same(trigger, "timed") || text::same(trigger, "until-time") {
        return Some(
            "wake: requested end time passed before --even-lid became ready".to_owned(),
        );
    }
    if text::same(trigger, "while-pid") || text::same(trigger, "while-app") {
        return Some("wake: watched process exited before --even-lid became ready".to_owned());
    }
    if text::same(trigger, "until-charge") {
        return match charge {
            Some((target, _)) => Some(
                triple(
                    "wake: battery target ",
                    text::signed_decimal_text(target as i64).as_str(),
                    "% reached before --even-lid became ready",
                ),
            ),
            None => None,
        };
    }
    None
}

/// What is said of the lid actions in the status of a session.
pub open spec fn lid_health_text(
    health: platform::windows::LidHealth,
    scheme: Seq<char>,
    values: (u32, u32),
) -> Seq<char> {
    let actual = " is AC="@ + text::decimal(values.0 as nat) + " DC="@ + text::decimal(
        values.1 as nat,
    ) + ")"@;
    match health {
        platform::windows::LidHealth::Healthy => "  even lid  : healthy (scheme "@ + scheme
            + ", AC=0 DC=0)"@,
        platform::windows::LidHealth::DegradedScheme => {
            "  even lid  : degraded (active scheme changed; recorded scheme "@ + scheme + actual
        },
        platform::windows::LidHealth::DegradedValues => {
            "  even lid  : degraded (recorded scheme "@ + scheme + actual
        },
    }
}

pub fn lid_health_line(
    health: platform::windows::LidHealth,
    scheme: &str,
    values: (u32, u32),
) -> (r: String)
    ensures
        r@ == lid_health_text(health, scheme@, values),
{
    let mut actual = " is AC=".to_owned();
    actual.append(text::decimal_text(values.0 as u64).as_str());
    actual.append(" DC=");
    actual.append(text::decimal_text(values.1 as u64).as_str());
    actual.append(")");
    match health {
        platform::windows::LidHealth::Healthy => triple(
            "  even lid  : healthy (scheme ",
            scheme,
            ", AC=0 DC=0)",
        ),
        platform::windows::LidHealth::DegradedScheme => triple(
            "  even lid  : degraded (active scheme changed; recorded scheme ",
            scheme,
            actual.as_str(),
        ),
        platform::windows::LidHealth::DegradedValues => triple(
            "  even lid  : degraded (recorded scheme ",
            scheme,
            actual.as_str(),
        ),
    }
}

/// How the sleep setting is put right by hand.
pub fn sleep_rescue_lines(value: i32, state_path: &str) -> (r: Vec<String>)
    ensures
        text::texts(r@) == seq![
            "wake: could not restore sleep; run: sudo pmset -a disablesleep "@
                + text::signed_decimal(value as int),
            "wake: recovery state: "@ + state_path@,
        ],
{
    let mut lines: Vec<String> = Vec::new();
    lines.push(
        pair(
            "wake: could not restore sleep; run: sudo pmset -a disablesleep ",
            text::signed_decimal_text(value as i64).as_str(),
        ),
    );
    lines.push(pair("wake: recovery state: ", state_path));
    assert(text::texts(lines@) =~= seq![
        "wake: could not restore sleep; run: sudo pmset -a disablesleep "@ + text::signed_decimal(
            value as int,
        ),
        "wake: recovery state: "@ + state_path@,
    ]);
    lines
}

/// The error of a saved state that cannot be read and may be about the lid. It is left as it is.
pub open spec fn retained_text(platform: Platform, hints: bool, state_path: Seq<char>) -> Seq<char> {
    match platform {
        Platform::Windows => "malformed wake state"@ + if hints {
            " with lid-recovery fields"@
        } else {
            ""@
        } + " retained byte-for-byte at "@ + state_path + "; no power write was attempted"@,
        Platform::Macos => "malformed wake state retained byte-for-byte at "@ + state_path
            + "; no OS changes made; inspect SleepDisabled with 'pmset -g', restore it manually with 'sudo pmset -a disablesleep <0-or-1>', then remove the state file"@,
        Platform::Linux => "malformed or unreadable wake state retained unchanged at "@ + state_path
            + "; no OS changes made; inspect it for persistent recovery fields before removing it"@,
    }
}

pub fn retained_error(platform: Platform, hints: bool, state_path: &str) -> (r: AppError)
    ensures
        r@ == Fault::Fail(retained_text(platform, hints, state_path@)),
{
    let m = match platform {
        Platform::Windows => {
            let mut m = "malformed wake state".to_owned();
            m.append(
                if hints {
                    " with lid-recovery fields"
                } else {
                    ""
                },
            );
            m.append(" retained byte-for-byte at ");
            m.append(state_path);
            m.append("; no power write was attempted");
            m
        },
        Platform::Macos => triple(
            "malformed wake state retained byte-for-byte at ",
            state_path,
            "; no OS changes made; inspect SleepDisabled with 'pmset -g', restore it manually with 'sudo pmset -a disablesleep <0-or-1>', then remove the state file",
        ),
        Platform::Linux => triple(
            "malformed or unreadable wake state retained unchanged at ",
            state_path,
            "; no OS changes made; inspect it for persistent recovery fields before removing it",
        ),
    };
    AppError::Fail(m)
}

/// A number of hours, minutes and seconds is told of in the two largest units that it fills, the second
/// of them in two digits; what is over is nothing.
pub proof fn law_durations_are_told(hours: nat, minutes: nat, seconds: nat)
    requires
        minutes < 60,
        seconds < 60,
    ensures
        ({
            let r = pretty((hours * 3600 + minutes * 60 + seconds) as int);
            &&& hours > 0 && minutes >= 10 ==> r == text::decimal(hours) + "h"@ + text::decimal(
                minutes,
            ) + "m"@
            &&& hours > 0 && minutes < 10 ==> r == text::decimal(hours) + "h"@ + (seq!['0']
                + text::decimal(minutes)) + "m"@
            &&& hours == 0 && minutes > 0 && seconds >= 10 ==> r == text::decimal(minutes) + "m"@
                + text::decimal(seconds) + "s"@
            &&& hours == 0 && minutes > 0 && seconds < 10 ==> r == text::decimal(minutes) + "m"@ + (
            seq!['0'] + text::decimal(seconds)) + "s"@
            &&& hours == 0 && minutes == 0 ==> r == text::decimal(seconds) + "s"@
        }),
        forall|sec: int| sec <= 0 ==> #[trigger] pretty(sec) == text::decimal(0) + "s"@,
{
    let s = hours * 3600 + minutes * 60 + seconds;
    assert(s / 3600 == hours && s % 3600 / 60 == minutes && s % 60 == seconds) by (nonlinear_arith)
        requires
            s == hours * 3600 + minutes * 60 + seconds,
            minutes < 60,
            seconds < 60,
    ;
}

/// The status of a session tells how long ago it started and how long it has still to go, in whole seconds;
/// a session without an end has a dash there.
pub proof fn law_status_tells_the_time(
    platform: Platform,
    s: Record,
    now: Timestamp,
    started: Seq<char>,
    state_path: Seq<char>,
    ago: nat,
    left: nat,
)
    requires
        now.nanos < 1_000_000_000,
        s.started_at matches Some(t) && t.seconds == now.seconds - ago && t.nanos == now.nanos,
    ensures
        ({
            let lines = status_text(platform, s, now, started, state_path);
            &&& lines.contains("wake: session active (pid "@ + text::decimal(s.pid as nat) + ")"@)
            &&& lines.contains("  mode      : "@ + s.mode)
            &&& lines.contains("  trigger   : "@ + s.trigger + " ("@ + s.detail + ")"@)
            &&& lines.contains(
                "  started   : "@ + started + " ("@ + (pretty(ago as int) + " ago"@) + ")"@,
            )
            &&& s.ends_at matches Some(end) ==> (end.seconds == now.seconds + left && end.nanos
                == now.nanos ==> lines.contains("  remaining : "@ + pretty(left as int)))
            &&& s.ends_at is None ==> lines.contains("  remaining : "@ + "-"@)
            &&& lines.len() == 5 + (if s.even_lid && platform != Platform::Windows {
                1int
            } else {
                0
            })
        }),
{
    let lines = status_text(platform, s, now, started, state_path);
    assert(lines[0] == active_line(s));
    assert(lines[1] == "  mode      : "@ + s.mode);
    assert(lines[2] == "  trigger   : "@ + s.trigger + " ("@ + s.detail + ")"@);
    assert(time::nanos_between(now, s.started_at->0) == ago * 1_000_000_000);
    assert(time::whole_seconds((ago * 1_000_000_000) as int) == ago);
    assert(lines[3] == "  started   : "@ + started + " ("@ + (pretty(ago as int) + " ago"@) + ")"@);
    assert(lines[4] == "  remaining : "@ + remaining(s, now));
    match s.ends_at {
        Some(end) => {
            if end.seconds == now.seconds + left && end.nanos == now.nanos {
                assert(time::nanos_between(end, now) == left * 1_000_000_000);
                assert(time::whole_seconds((left * 1_000_000_000) as int) == left);
            }
        },
        None => {},
    }
}

/// When a session starts the user is told its mode, its trigger and when it ends; with the lid also of what
/// that means, and without it of what is lost, where anything is.
pub proof fn law_starts_are_told(
    platform: Platform,
    s: Record,
    started: Seq<char>,
    ends: Seq<char>,
    note: Option<Seq<char>>,
)
    ensures
        ({
            let lines = confirmation_text(platform, s, started, ends, note);
            &&& lines.contains("wake: session active (pid "@ + text::decimal(s.pid as nat) + ")"@)
            &&& lines.contains("  mode    : "@ + s.mode)
            &&& lines.contains("  trigger : "@ + s.trigger + " ("@ + s.detail + ")"@)
            &&& s.started_at is Some ==> lines.contains("  started : "@ + started)
            &&& lines.contains(
                "  ends    : "@ + (if s.ends_at is Some {
                    ends
                } else {
                    "-"@
                }),
            )
            &&& s.even_lid ==> lines.contains(
                "caution: closed lid + battery + no external display can run hot and drain quickly"@,
            ) && lines.len() == 7
            &&& !s.even_lid ==> (note matches Some(n) ==> lines.contains(n) && lines.len() == 6)
            &&& !s.even_lid && note is None ==> (platform::start_note(platform) matches Some(n)
                ==> lines.contains(n) && lines.len() == 6)
            &&& !s.even_lid && note is None && platform::start_note(platform) is None
                ==> lines.len() == 5
        }),
{
    let lines = confirmation_text(platform, s, started, ends, note);
    assert(lines[0] == active_line(s));
    assert(lines[1] == "  mode    : "@ + s.mode);
    assert(lines[2] == "  trigger : "@ + s.trigger + " ("@ + s.detail + ")"@);
    assert(lines[3] == "  started : "@ + if s.started_at is Some {
        started
    } else {
        "-"@
    });
    assert(lines[4] == "  ends    : "@ + if s.ends_at is Some {
        ends
    } else {
        "-"@
    });
    if s.even_lid {
        assert(lines[6]
            == "caution: closed lid + battery + no external display can run hot and drain quickly"@);
    } else {
        match note {
            Some(n) => {
                assert(lines[5] == n);
            },
            None => {
                match platform::start_note(platform) {
                    Some(n) => {
                        assert(lines[5] == n);
                    },
                    None => {},
                }
            },
        }
    }
}

/// A worker that ended before the lid was taken over has met its condition exactly where it succeeded and had
/// one that can be met.
pub proof fn law_met_conditions_are_told(
    worker_succeeded: bool,
    trigger: Seq<char>,
    charge: Option<(i32, bool)>,
)
    ensures
        condition_completed(worker_succeeded, trigger, charge) is Some <==> worker_succeeded && (
        trigger == "timed"@ || trigger == "until-time"@ || trigger == "while-pid"@ || trigger
            == "while-app"@ || (trigger == "until-charge"@ && charge is Some)),
{
    reveal_strlit("timed");
    reveal_strlit("until-time");
    reveal_strlit("while-pid");
    reveal_strlit("while-app");
    reveal_strlit("until-charge");
    assert("timed"@.len() == 5 && "until-time"@.len() == 10 && "while-pid"@.len() == 9
        && "while-app"@.len() == 9 && "until-charge"@.len() == 12);
}

/// The status tells of a lid that is not healthy what its two actions are, and of a healthy one that both are none.
pub proof fn law_lid_actions_are_told(
    health: platform::windows::LidHealth,
    scheme: Seq<char>,
    values: (u32, u32),
)
    ensures
        ({
            let told = lid_health_text(health, scheme, values);
            let actual = scheme + " is AC="@ + text::decimal(values.0 as nat) + " DC="@
                + text::decimal(values.1 as nat) + ")"@;
            &&& health == platform::windows::LidHealth::Healthy ==> told
                == "  even lid  : healthy (scheme "@ + scheme + ", AC=0 DC=0)"@
            &&& health != platform::windows::LidHealth::Healthy ==> told.len() > actual.len()
                && told.skip(told.len() - actual.len()) == actual && told.take(22)
                == "  even lid  : degraded"@
        }),
{
    reveal_strlit("  even lid  : degraded");
    reveal_strlit("  even lid  : degraded (active scheme changed; recorded scheme ");
    reveal_strlit("  even lid  : degraded (recorded scheme ");
    let told = lid_health_text(health, scheme, values);
    let actual = scheme + " is AC="@ + text::decimal(values.0 as nat) + " DC="@ + text::decimal(
        values.1 as nat,
    ) + ")"@;
    if health != platform::windows::LidHealth::Healthy {
        assert(told.skip(told.len() - actual.len()) =~= actual);
        assert(told.take(22) =~= "  even lid  : degraded"@);
    }
}

} // verus!
