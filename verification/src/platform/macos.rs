//! macOS: caffeinate and pmset.

use vstd::prelude::*;
use vstd::string::*;

use super::{KeepAwake, Platform, start_note, static_start_note};
use crate::error::{AppError, Fault, outcome, viewed};
use crate::supervisor::{Battery, BatteryStatus};
use crate::text;

verus! {

/// The command that keeps a Mac awake, for `timeout_sec` seconds at most and while the process
/// `wait_pid` lives.
pub open spec fn caffeinate_words(
    no_display: bool,
    timeout_sec: Option<i64>,
    wait_pid: Option<u32>,
) -> Seq<Seq<char>> {
    seq![
        "/usr/bin/caffeinate"@,
        if no_display {
            "-i"@
        } else {
            "-di"@
        },
    ] + match timeout_sec {
        Some(timeout) => seq!["-t"@, text::signed_decimal(timeout as int)],
        None => Seq::empty(),
    } + match wait_pid {
        Some(pid) => seq!["-w"@, text::decimal(pid as nat)],
        None => Seq::empty(),
    }
}

pub fn keep_awake_command(
    no_display: bool,
    _even_lid: bool,
    timeout_sec: Option<i64>,
    wait_pid: Option<u32>,
) -> (r: Result<KeepAwake, AppError>)
    ensures
        viewed(r) == Ok::<(Seq<Seq<char>>, Option<Seq<char>>), Fault>(
            (caffeinate_words(no_display, timeout_sec, wait_pid), start_note(Platform::Macos)),
        ),
{
    let mut cmd: Vec<String> = Vec::new();
    cmd.push("/usr/bin/caffeinate".to_owned());
    cmd.push(
        if no_display {
            "-i".to_owned()
        } else {
            "-di".to_owned()
        },
    );
    match timeout_sec {
        Some(timeout) => {
            cmd.push("-t".to_owned());
            cmd.push(text::signed_decimal_text(timeout));
        },
        None => {},
    }
    match wait_pid {
        Some(pid) => {
            cmd.push("-w".to_owned());
            cmd.push(text::decimal_text(pid as u64));
        },
        None => {},
    }
    assert(text::texts(cmd@) =~= caffeinate_words(no_display, timeout_sec, wait_pid));
    Ok(KeepAwake { cmd, note: static_start_note(Platform::Macos) })
}

/// The lid can be overridden here.
pub fn supports_even_lid() -> (r: bool)
    ensures
        r,
{
    true
}

/// The first line that has `needle` in it.
pub open spec fn line_with(lines: Seq<Seq<char>>, needle: Seq<char>) -> Option<Seq<char>>
    decreases lines.len(),
{
    if lines.len() == 0 {
        None
    } else if text::occurs(needle, lines[0]) {
        Some(lines[0])
    } else {
        line_with(lines.skip(1), needle)
    }
}

/// The first word that ends with a percent sign, without the sign.
pub open spec fn percent_word(words: Seq<Seq<char>>) -> Option<Seq<char>>
    decreases words.len(),
{
    if words.len() == 0 {
        None
    } else if words[0].len() > 0 && words[0].last() == '%' {
        Some(words[0].drop_last())
    } else {
        percent_word(words.skip(1))
    }
}

/// The percentage in the description of a battery.
pub open spec fn percent_in(description: Seq<char>) -> Option<int> {
    match percent_word(text::words(description)) {
        None => None,
        Some(w) => match text::integer_between(w, i32::MIN as int, i32::MAX as int) {
            Some(p) => if 0 <= p <= 100 {
                Some(p)
            } else {
                None
            },
            None => None,
        },
    }
}

/// What pmset says of the battery: in the first line that names it, a percentage before the first
/// semicolon and a state behind it.
pub open spec fn pmset_battery(out: Seq<char>) -> Result<Battery, Fault> {
    match line_with(text::lines(out), "InternalBattery"@) {
        None => Err(Fault::Fail("cannot find InternalBattery in pmset output"@)),
        Some(record) => {
            let fields = text::pieces(record, ';');
            match percent_in(fields[0]) {
                None => Err(Fault::Fail("cannot parse InternalBattery percentage from pmset"@)),
                Some(percent) => if fields.len() < 2 || text::trimmed(fields[1]).len() == 0 {
                    Err(Fault::Fail("cannot parse InternalBattery status from pmset"@))
                } else {
                    let state = text::ascii_lower(text::trimmed(fields[1]));
                    let charging = state == "charging"@ || state == "finishing charge"@;
                    let discharging = !charging && state == "discharging"@;
                    Ok(
                        Battery {
                            percent: percent as i32,
                            charging,
                            discharging,
                            neutral_state: if charging || discharging {
                                None
                            } else {
                                Some(state)
                            },
                        },
                    )
                },
            }
        },
    }
}

fn find_line<'a>(lines: &Vec<&'a str>, needle: &str) -> (r: Option<&'a str>)
    ensures
        line_with(text::strs(lines@), needle@) == (match r {
            Some(line) => Some(line@),
            None => None,
        }),
{
    let ghost all = text::strs(lines@);
    let mut i: usize = 0;
    assert(all.skip(0) =~= all);
    while i < lines.len()
        invariant
            i <= lines@.len(),
            all == text::strs(lines@),
            line_with(all, needle@) == line_with(all.skip(i as int), needle@),
        decreases lines@.len() - i,
    {
        assert(all.skip(i as int)[0] == lines@[i as int]@);
        if text::contains(lines[i], needle) {
            return Some(lines[i]);
        }
        assert(all.skip(i as int).skip(1) =~= all.skip(i + 1));
        i = i + 1;
    }
    assert(all.skip(i as int) =~= Seq::<Seq<char>>::empty());
    None
}

fn find_percent(description: &str) -> (r: Option<i32>)
    ensures
        percent_in(description@) == (match r {
            Some(p) => Some(p as int),
            None => None,
        }),
{
    let words = text::split_words(description);
    let ghost all = text::words(description@);
    let mut i: usize = 0;
    assert(all.skip(0) =~= all);
    while i < words.len()
        invariant
            i <= words@.len(),
            all == text::words(description@),
            words@.len() == all.len(),
            forall|k: int| 0 <= k < words@.len() ==> (#[trigger] words@[k])@ == all[k],
            percent_word(all) == percent_word(all.skip(i as int)),
        decreases words@.len() - i,
    {
        let word = words[i];
        assert(all.skip(i as int)[0] == word@);
        let chars = text::chars_of(word);
        if chars.len() > 0 && chars[chars.len() - 1] == '%' {
            let number = word.substring_char(0, chars.len() - 1);
            assert(number@ =~= word@.drop_last());
            return match text::parse_between(number, i32::MIN as i64, i32::MAX as u64) {
                Some(p) => if 0 <= p && p <= 100 {
                    Some(p as i32)
                } else {
                    None
                },
                None => None,
            };
        }
        assert(all.skip(i as int).skip(1) =~= all.skip(i + 1));
        i = i + 1;
    }
    assert(all.skip(i as int) =~= Seq::<Seq<char>>::empty());
    None
}

/// What pmset says of the battery.
pub fn parse_pmset_batt(out: &str) -> (r: Result<BatteryStatus, AppError>)
    ensures
        viewed(r) == pmset_battery(out@),
{
    let lines = text::split_lines(out);
    assert(text::strs(lines@) =~= text::lines(out@));
    let record = match find_line(&lines, "InternalBattery") {
        None => return Err(AppError::fail("cannot find InternalBattery in pmset output")),
        Some(record) => record,
    };
    let fields = text::split(record, ';');
    proof {
        text::lemma_pieces(record@, ';');
    }
    let percent = match find_percent(fields[0]) {
        None => return Err(AppError::fail("cannot parse InternalBattery percentage from pmset")),
        Some(percent) => percent,
    };
    if fields.len() < 2 || text::trim(fields[1]).is_empty() {
        return Err(AppError::fail("cannot parse InternalBattery status from pmset"));
    }
    let state = text::to_ascii_lower(text::trim(fields[1]));
    let charging = text::same(state.as_str(), "charging") || text::same(
        state.as_str(),
        "finishing charge",
    );
    let discharging = !charging && text::same(state.as_str(), "discharging");
    Ok(
        BatteryStatus {
            percent,
            charging,
            discharging,
            neutral_state: if charging || discharging {
                None
            } else {
                Some(state)
            },
        },
    )
}

/// What pmset says of the battery, where it ran.
pub fn read_battery(captured: Result<String, AppError>) -> (r: Result<BatteryStatus, AppError>)
    ensures
        viewed(r) == (match viewed(captured) {
            Ok(out) => pmset_battery(out),
            Err(e) => Err(e),
        }),
{
    match captured {
        Ok(out) => parse_pmset_batt(out.as_str()),
        Err(e) => Err(e),
    }
}

/// The sleep setting that a word writes.
pub open spec fn sleep_value(raw: Seq<char>) -> Result<i32, Fault> {
    match text::integer_between(raw, i32::MIN as int, i32::MAX as int) {
        Some(v) => if v == 0 || v == 1 {
            Ok(v as i32)
        } else {
            Err(Fault::Fail("cannot parse SleepDisabled value from pmset"@))
        },
        None => Err(Fault::Fail("cannot parse SleepDisabled value from pmset"@)),
    }
}

pub fn parse_disable_sleep_value(raw: &str) -> (r: Result<i32, AppError>)
    ensures
        outcome(r) == sleep_value(raw@),
{
    match text::parse_between(raw, i32::MIN as i64, i32::MAX as u64) {
        Some(v) => if v == 0 || v == 1 {
            Ok(v as i32)
        } else {
            Err(AppError::fail("cannot parse SleepDisabled value from pmset"))
        },
        None => Err(AppError::fail("cannot parse SleepDisabled value from pmset")),
    }
}

/// Whether a line is about the sleep setting: by its first word, in whatever case.
pub open spec fn about_sleep(line: Seq<char>) -> bool {
    let words = text::words(line);
    words.len() > 0 && text::ascii_lower(words[0]) == text::ascii_lower("SleepDisabled"@)
}

/// The sleep setting that pmset's lines tell: on the first line about it, which holds one value.
pub open spec fn pmset_sleep(lines: Seq<Seq<char>>) -> Result<i32, Fault>
    decreases lines.len(),
{
    if lines.len() == 0 {
        Err(Fault::Fail("SleepDisabled is missing from pmset output"@))
    } else if !about_sleep(lines[0]) {
        pmset_sleep(lines.skip(1))
    } else if text::words(lines[0]).len() == 2 {
        sleep_value(text::words(lines[0])[1])
    } else {
        Err(Fault::Fail("cannot parse SleepDisabled value from pmset"@))
    }
}

pub fn parse_pmset_disable_sleep(out: &str) -> (r: Result<i32, AppError>)
    ensures
        outcome(r) == pmset_sleep(text::lines(out@)),
{
    let lines = text::split_lines(out);
    let ghost all = text::lines(out@);
    let mut i: usize = 0;
    assert(all.skip(0) =~= all);
    while i < lines.len()
        invariant
            i <= lines@.len(),
            all == text::lines(out@),
            lines@.len() == all.len(),
            forall|k: int| 0 <= k < lines@.len() ==> (#[trigger] lines@[k])@ == all[k],
            pmset_sleep(all) == pmset_sleep(all.skip(i as int)),
        decreases lines@.len() - i,
    {
        assert(all.skip(i as int)[0] == lines@[i as int]@);
        let words = text::split_words(lines[i]);
        if words.len() > 0 && text::same_ignoring_ascii_case(words[0], "SleepDisabled") {
            return if words.len() == 2 {
                parse_disable_sleep_value(words[1])
            } else {
                Err(AppError::fail("cannot parse SleepDisabled value from pmset"))
            };
        }
        assert(all.skip(i as int).skip(1) =~= all.skip(i + 1));
        i = i + 1;
    }
    assert(all.skip(i as int) =~= Seq::<Seq<char>>::empty());
    Err(AppError::fail("SleepDisabled is missing from pmset output"))
}

/// The sleep setting that pmset tells, where it ran.
pub fn read_disable_sleep(captured: Result<String, AppError>) -> (r: Result<i32, AppError>)
    ensures
        outcome(r) == (match viewed(captured) {
            Ok(out) => pmset_sleep(text::lines(out)),
            Err(e) => Err(e),
        }),
{
    match captured {
        Ok(out) => parse_pmset_disable_sleep(out.as_str()),
        Err(e) => Err(e),
    }
}

/// A sleep setting as a word.
pub open spec fn sleep_word(value: i32) -> Result<Seq<char>, Fault> {
    if value == 0 || value == 1 {
        Ok(text::signed_decimal(value as int))
    } else {
        Err(Fault::Fail("disablesleep value must be 0 or 1"@))
    }
}

pub fn disable_sleep_value(value: i32) -> (r: Result<String, AppError>)
    ensures
        viewed(r) == sleep_word(value),
{
    if value == 0 || value == 1 {
        Ok(text::signed_decimal_text(value as i64))
    } else {
        Err(AppError::fail("disablesleep value must be 0 or 1"))
    }
}

/// The command that sets the sleep setting, without asking for a password where `quiet`.
pub open spec fn sleep_words(value: Seq<char>, quiet: bool) -> Seq<Seq<char>> {
    seq!["/usr/bin/sudo"@] + if quiet {
        seq!["-n"@]
    } else {
        Seq::empty()
    } + seq!["/usr/bin/pmset"@, "-a"@, "disablesleep"@, value]
}

pub fn disable_sleep_command(value: i32, quiet: bool) -> (r: Result<Vec<String>, AppError>)
    ensures
        match sleep_word(value) {
            Ok(word) => r matches Ok(cmd) && text::texts(cmd@) == sleep_words(word, quiet),
            Err(e) => r matches Err(error) && error@ == e,
        },
{
    let word = match disable_sleep_value(value) {
        Err(e) => return Err(e),
        Ok(word) => word,
    };
    let ghost w = word@;
    let mut cmd: Vec<String> = Vec::new();
    cmd.push("/usr/bin/sudo".to_owned());
    if quiet {
        cmd.push("-n".to_owned());
    }
    cmd.push("/usr/bin/pmset".to_owned());
    cmd.push("-a".to_owned());
    cmd.push("disablesleep".to_owned());
    cmd.push(word);
    assert(text::texts(cmd@) =~= sleep_words(w, quiet));
    Ok(cmd)
}

/// What becomes of setting the sleep setting with the user present, by the code that the command ended
/// with.
pub fn set_disable_sleep_foreground(code: Result<i32, AppError>) -> (r: Result<(), AppError>)
    ensures
        outcome(r) == (match outcome(code) {
            Err(e) => Err::<(), Fault>(e),
            Ok(code) => if code == 0 {
                Ok(())
            } else {
                Err(Fault::Fail("sudo pmset -a disablesleep failed"@))
            },
        }),
{
    match code {
        Err(e) => Err(e),
        Ok(code) => if code == 0 {
            Ok(())
        } else {
            Err(AppError::fail("sudo pmset -a disablesleep failed"))
        },
    }
}

/// Whether a command succeeded, by the code that it ended with.
pub open spec fn succeeded(code: Result<i32, Fault>) -> Result<bool, Fault> {
    match code {
        Err(e) => Err(e),
        Ok(code) => Ok(code == 0),
    }
}

pub fn set_disable_sleep_non_interactive(code: Result<i32, AppError>) -> (r: Result<bool, AppError>)
    ensures
        outcome(r) == succeeded(outcome(code)),
{
    match code {
        Err(e) => Err(e),
        Ok(code) => Ok(code == 0),
    }
}

pub fn refresh_sudo_non_interactive(code: Result<i32, AppError>) -> (r: Result<bool, AppError>)
    ensures
        outcome(r) == succeeded(outcome(code)),
{
    match code {
        Err(e) => Err(e),
        Ok(code) => Ok(code == 0),
    }
}

pub fn authenticate_sudo(code: Result<i32, AppError>) -> (r: Result<bool, AppError>)
    ensures
        outcome(r) == succeeded(outcome(code)),
{
    match code {
        Err(e) => Err(e),
        Ok(code) => Ok(code == 0),
    }
}

/// The error of a program that ended with `code`.
pub fn capture_failure(program: &str, code: i32) -> (r: AppError)
    ensures
        r@ == Fault::Fail(program@ + " exited with status "@ + text::signed_decimal(code as int)),
{
    let mut m = program.to_owned();
    m.append(" exited with status ");
    m.append(text::signed_decimal_text(code as i64).as_str());
    AppError::Fail(m)
}

/// Whether `second` stands directly behind `first` somewhere among the words.
pub open spec fn follows(words: Seq<Seq<char>>, first: Seq<char>, second: Seq<char>) -> bool {
    exists|i: int| 0 <= i < words.len() - 1 && #[trigger] words[i] == first && words[i + 1] == second
}

proof fn lemma_caffeinate_flags()
    ensures
        "-t"@ != "-w"@ && "-t"@ != "-i"@ && "-t"@ != "-di"@ && "-t"@ != "/usr/bin/caffeinate"@,
        "-w"@ != "-i"@ && "-w"@ != "-di"@ && "-w"@ != "/usr/bin/caffeinate"@,
        "-t"@.len() == 2 && "-t"@[0] == '-' && "-t"@[1] == 't',
        "-w"@.len() == 2 && "-w"@[0] == '-' && "-w"@[1] == 'w',
{
    reveal_strlit("-t");
    reveal_strlit("-w");
    reveal_strlit("-i");
    reveal_strlit("-di");
    reveal_strlit("/usr/bin/caffeinate");
    assert("-t"@[1] == 't' && "-w"@[1] == 'w' && "-i"@[1] == 'i');
    assert("-di"@.len() == 3 && "/usr/bin/caffeinate"@.len() == 19);
}

proof fn lemma_number_is_no_flag(i: int)
    ensures
        text::signed_decimal(i) != "-t"@,
        text::signed_decimal(i) != "-w"@,
{
    lemma_caffeinate_flags();
    let n = if i < 0 {
        (-i) as nat
    } else {
        i as nat
    };
    text::lemma_decimal(n);
    let s = text::signed_decimal(i);
    if i < 0 {
        assert(s[1] == text::decimal(n)[0]);
        assert(text::digit(s[1]));
    } else {
        assert(text::digit(s[0]));
    }
}

/// A Mac is kept awake for as long as was asked: with a timeout the command holds `-t` directly in front of
/// the seconds, with a process to wait for `-w` directly in front of its number, and without them
/// neither flag. The display is kept on as well unless it may sleep.
pub proof fn law_caffeinate_lasts_as_long_as_asked(
    no_display: bool,
    timeout_sec: Option<i64>,
    wait_pid: Option<u32>,
)
    ensures
        ({
            let words = caffeinate_words(no_display, timeout_sec, wait_pid);
            &&& words[0] == "/usr/bin/caffeinate"@
            &&& words[1] == (if no_display {
                "-i"@
            } else {
                "-di"@
            })
            &&& timeout_sec matches Some(t) ==> follows(
                words,
                "-t"@,
                text::signed_decimal(t as int),
            )
            &&& timeout_sec is None ==> !words.contains("-t"@)
            &&& wait_pid matches Some(pid) ==> follows(words, "-w"@, text::decimal(pid as nat))
            &&& wait_pid is None ==> !words.contains("-w"@)
            &&& words.len() == 2 + (if timeout_sec is Some {
                2int
            } else {
                0
            }) + (if wait_pid is Some {
                2int
            } else {
                0
            })
        }),
{
    lemma_caffeinate_flags();
    let words = caffeinate_words(no_display, timeout_sec, wait_pid);
    let at = if timeout_sec is Some {
        4int
    } else {
        2
    };
    match timeout_sec {
        Some(t) => {
            lemma_number_is_no_flag(t as int);
            assert(words[2] == "-t"@ && words[3] == text::signed_decimal(t as int));
            assert(follows(words, "-t"@, text::signed_decimal(t as int)));
        },
        None => {},
    }
    match wait_pid {
        Some(pid) => {
            lemma_number_is_no_flag(pid as int);
            assert(words[at] == "-w"@ && words[at + 1] == text::decimal(pid as nat));
            assert(follows(words, "-w"@, text::decimal(pid as nat)));
        },
        None => {},
    }
}

/// The sleep setting is set to the value that was asked for, and a password is asked for exactly where the
/// command is not to be quiet.
pub proof fn law_sleep_is_set_as_asked(value: i32, quiet: bool)
    requires
        value == 0 || value == 1,
    ensures
        sleep_word(value) matches Ok(word) && {
            let words = sleep_words(word, quiet);
            &&& words[0] == "/usr/bin/sudo"@
            &&& words.last() == text::signed_decimal(value as int)
            &&& follows(words, "disablesleep"@, text::signed_decimal(value as int))
            &&& words.contains("-n"@) <==> quiet
        },
{
    let word = sleep_word(value)->Ok_0;
    let words = sleep_words(word, quiet);
    reveal_strlit("-n");
    reveal_strlit("/usr/bin/sudo");
    reveal_strlit("/usr/bin/pmset");
    reveal_strlit("-a");
    reveal_strlit("disablesleep");
    assert("-n"@.len() == 2 && "-n"@[0] == '-' && "-n"@[1] == 'n');
    assert("-a"@[1] == 'a' && "disablesleep"@.len() == 12);
    assert("/usr/bin/sudo"@.len() == 13 && "/usr/bin/pmset"@.len() == 14);
    text::lemma_decimal(value as nat);
    assert(text::digit(word[0]));
    if quiet {
        assert(words[1] == "-n"@);
        assert(words[4] == "disablesleep"@ && words[5] == word);
    } else {
        assert(words[3] == "disablesleep"@ && words[4] == word);
    }
}

/// A setting that is neither on nor off is refused, both when it is set and when it is read.
pub proof fn law_sleep_is_on_or_off(value: int)
    requires
        i32::MIN <= value <= i32::MAX,
    ensures
        sleep_word(value as i32) is Ok <==> value == 0 || value == 1,
        sleep_value(text::signed_decimal(value)) == (if value == 0 || value == 1 {
            Ok::<i32, Fault>(value as i32)
        } else {
            Err(Fault::Fail("cannot parse SleepDisabled value from pmset"@))
        }),
{
    text::law_integers_are_read_back(value, i32::MIN as int, i32::MAX as int);
}

/// The sleep setting is what stands behind its name on the first line about it, whatever lines stand around;
/// without such a line it is missing.
pub proof fn law_sleep_is_read_from_its_line(
    before: Seq<Seq<char>>,
    line: Seq<char>,
    after: Seq<Seq<char>>,
    value: int,
)
    requires
        forall|i: int| 0 <= i < before.len() ==> !about_sleep(#[trigger] before[i]),
    ensures
        pmset_sleep(before) is Err,
        text::words(line) == seq!["SleepDisabled"@, text::signed_decimal(value)] && (value == 0
            || value == 1) ==> pmset_sleep(before + seq![line] + after) == Ok::<i32, Fault>(
            value as i32,
        ),
        text::words(line) == seq!["SleepDisabled"@] ==> pmset_sleep(before + seq![line] + after) is Err,
    decreases before.len(),
{
    let all = before + seq![line] + after;
    if before.len() == 0 {
        assert(all[0] == line);
        if value == 0 || value == 1 {
            law_sleep_is_on_or_off(value);
        }
    } else {
        let rest = before.skip(1);
        assert forall|i: int| 0 <= i < rest.len() implies !about_sleep(#[trigger] rest[i]) by {
            assert(rest[i] == before[i + 1]);
        }
        law_sleep_is_read_from_its_line(rest, line, after, value);
        assert(all[0] == before[0]);
        assert(all.skip(1) =~= rest + seq![line] + after);
    }
}

proof fn lemma_line_with(lines: Seq<Seq<char>>, needle: Seq<char>)
    ensures
        line_with(lines, needle) matches Some(line) ==> lines.contains(line) && text::occurs(
            needle,
            line,
        ),
    decreases lines.len(),
{
    if lines.len() > 0 {
        if text::occurs(needle, lines[0]) {
            assert(lines.contains(lines[0]));
        } else {
            let rest = lines.skip(1);
            lemma_line_with(rest, needle);
            match line_with(rest, needle) {
                Some(line) => {
                    let i = choose|i: int| 0 <= i < rest.len() && rest[i] == line;
                    assert(lines[i + 1] == line);
                },
                None => {},
            }
        }
    }
}

proof fn lemma_percent_word(words: Seq<Seq<char>>)
    ensures
        percent_word(words) matches Some(w) ==> words.contains(w.push('%')),
    decreases words.len(),
{
    if words.len() > 0 {
        if words[0].len() > 0 && words[0].last() == '%' {
            assert(words[0].drop_last().push('%') =~= words[0]);
        } else {
            let rest = words.skip(1);
            lemma_percent_word(rest);
            match percent_word(rest) {
                Some(w) => {
                    let i = choose|i: int| 0 <= i < rest.len() && rest[i] == w.push('%');
                    assert(words[i + 1] == w.push('%'));
                },
                None => {},
            }
        }
    }
}

/// The charge that is read is a percentage that stands in front of the first semicolon of a line about the
/// battery; and the battery charges or discharges just where the word behind that semicolon says so.
pub proof fn law_charges_are_read_from_their_line(out: Seq<char>)
    requires
        pmset_battery(out) is Ok,
    ensures
        ({
            let b = pmset_battery(out)->Ok_0;
            &&& 0 <= b.percent <= 100
            &&& exists|line: Seq<char>, word: Seq<char>|
                {
                    let state = text::ascii_lower(text::trimmed(text::pieces(line, ';')[1]));
                    &&& text::lines(out).contains(line)
                    &&& text::occurs("InternalBattery"@, line)
                    &&& #[trigger] text::words(text::pieces(line, ';')[0]).contains(
                        word.push('%'),
                    )
                    &&& text::integer_between(word, i32::MIN as int, i32::MAX as int) == Some(
                        b.percent as int,
                    )
                    &&& b.charging <==> state == "charging"@ || state == "finishing charge"@
                    &&& b.discharging <==> state == "discharging"@
                    &&& b.charging || b.discharging <==> b.neutral_state is None
                    &&& b.neutral_state matches Some(s) ==> s == state
                }
        }),
{
    let line = line_with(text::lines(out), "InternalBattery"@)->0;
    lemma_line_with(text::lines(out), "InternalBattery"@);
    let fields = text::pieces(line, ';');
    let word = percent_word(text::words(fields[0]))->0;
    lemma_percent_word(text::words(fields[0]));
    let state = text::ascii_lower(text::trimmed(fields[1]));
    reveal_strlit("charging");
    reveal_strlit("finishing charge");
    reveal_strlit("discharging");
    assert("charging"@.len() == 8 && "finishing charge"@.len() == 16 && "discharging"@.len() == 11);
    assert(text::words(text::pieces(line, ';')[0]).contains(word.push('%')));
}

/// A command of the system has worked exactly where it ended with the code nought.
pub proof fn law_commands_work_or_not(
    code: i32,
    set: Result<(), AppError>,
    quietly: Result<bool, AppError>,
    refreshed: Result<bool, AppError>,
    authenticated: Result<bool, AppError>,
)
    requires
        call_ensures(set_disable_sleep_foreground, (Ok::<i32, AppError>(code),), set),
        call_ensures(set_disable_sleep_non_interactive, (Ok::<i32, AppError>(code),), quietly),
        call_ensures(refresh_sudo_non_interactive, (Ok::<i32, AppError>(code),), refreshed),
        call_ensures(authenticate_sudo, (Ok::<i32, AppError>(code),), authenticated),
    ensures
        set is Ok <==> code == 0,
        quietly == Ok::<bool, AppError>(code == 0),
        refreshed == Ok::<bool, AppError>(code == 0),
        authenticated == Ok::<bool, AppError>(code == 0),
{
}

} // verus!
