//! How a state directory is handed to a helper, and how helpers are started.

use vstd::prelude::*;
use vstd::string::*;

use crate::error::{AppError, Fault, outcome, viewed};
use crate::platform::{self, Platform};
use crate::text;

verus! {

/// Each 16-bit unit of a path as four hexadecimal digits.
pub open spec fn encoded(units: Seq<u16>) -> Seq<char>
    decreases units.len(),
{
    if units.len() == 0 {
        Seq::empty()
    } else {
        encoded(units.drop_last()) + text::hex(units.last() as nat, 4)
    }
}

/// Each 16-bit unit of a path as four hexadecimal digits.
pub fn encode_helper_state_dir(units: &[u16]) -> (r: String)
    ensures
        r@ == encoded(units@),
{
    let mut out = String::new();
    let mut i: usize = 0;
    while i < units.len()
        invariant
            i <= units@.len(),
            out@ == encoded(units@.take(i as int)),
        decreases units@.len() - i,
    {
        out.append(text::hex_text(units[i] as u32, 4).as_str());
        assert(units@.take(i + 1).drop_last() =~= units@.take(i as int));
        i = i + 1;
    }
    assert(units@.take(i as int) =~= units@);
    out
}

/// A path's units as characters, as far as it matters for what a path is: all beyond ASCII stand for one
/// that is neither a letter of a drive nor a separator.
pub open spec fn characters(units: Seq<u16>) -> Seq<char> {
    units.map_values(
        |u: u16|
            if u < 128 {
                u as char
            } else {
                '\u{fffd}'
            },
    )
}

/// The number that the group `i` of four characters writes, if it is one from 1 on.
pub open spec fn unit_at(s: Seq<char>, i: int) -> Option<u16> {
    match text::hex_number(s.subrange(4 * i, 4 * i + 4)) {
        Some(n) => if 0 < n <= u16::MAX {
            Some(n as u16)
        } else {
            None
        },
        None => None,
    }
}

/// The units that `s` writes.
pub open spec fn decoded(s: Seq<char>) -> Result<Seq<u16>, Fault> {
    let n = (s.len() / 4) as nat;
    if s.len() == 0 || s.len() % 4 != 0 || exists|i: int| 0 <= i < n && #[trigger] unit_at(s, i) is None {
        Err(Fault::Fail("invalid helper state directory"@))
    } else {
        let units = Seq::new(n, |i: int| unit_at(s, i)->0);
        if platform::absolute(Platform::Windows, characters(units)) {
            Ok(units)
        } else {
            Err(Fault::Fail("helper state directory must be absolute"@))
        }
    }
}

fn characters_of(units: &Vec<u16>) -> (r: String)
    ensures
        r@ == characters(units@),
{
    let mut out = String::new();
    let mut i: usize = 0;
    while i < units.len()
        invariant
            i <= units@.len(),
            out@ == characters(units@.take(i as int)),
        decreases units@.len() - i,
    {
        let u = units[i];
        let c: char = if u < 128 {
            u as u8 as char
        } else {
            '\u{fffd}'
        };
        out.push(c);
        assert(characters(units@.take(i + 1)) =~= characters(units@.take(i as int)).push(c));
        i = i + 1;
    }
    assert(units@.take(i as int) =~= units@);
    out
}

/// The 16-bit units of the path that `raw` writes, which must be absolute.
pub fn decode_helper_state_dir(raw: &str) -> (r: Result<Vec<u16>, AppError>)
    ensures
        viewed(r) == decoded(raw@),
{
    let chars = text::chars_of(raw);
    if chars.len() == 0 || chars.len() % 4 != 0 {
        return Err(AppError::fail("invalid helper state directory"));
    }
    let ghost s = raw@;
    let ghost n = (s.len() / 4) as nat;
    let mut units: Vec<u16> = Vec::new();
    let mut at: usize = 0;
    while at < chars.len()
        invariant
            chars@ == s,
            s.len() > 0,
            s.len() % 4 == 0,
            n == s.len() / 4,
            at <= chars@.len(),
            at == 4 * units@.len(),
            decoded(s) == decoded(raw@),
            s == raw@,
            forall|i: int|
                0 <= i < units@.len() ==> unit_at(s, i) == Some(#[trigger] units@[i]),
        decreases chars@.len() - at,
    {
        let ghost k = units@.len() as int;
        proof {
            reveal_with_fuel(text::hex_range, 5);
        }
        match text::read_hex(&chars, at, at + 4) {
            Some(u) => {
                if u == 0 {
                    assert(unit_at(s, k) is None);
                    return Err(AppError::fail("invalid helper state directory"));
                }
                units.push(u as u16);
            },
            None => {
                assert(unit_at(s, k) is None);
                return Err(AppError::fail("invalid helper state directory"));
            },
        }
        at = at + 4;
    }
    assert(units@ =~= Seq::new(n, |i: int| unit_at(s, i)->0));
    assert forall|i: int| 0 <= i < n implies #[trigger] unit_at(s, i) is Some by {
        assert(unit_at(s, i) == Some(units@[i]));
    }
    if !platform::is_absolute(Platform::Windows, characters_of(&units).as_str()) {
        return Err(AppError::fail("helper state directory must be absolute"));
    }
    Ok(units)
}

proof fn lemma_encoded(units: Seq<u16>)
    ensures
        encoded(units).len() == 4 * units.len(),
        forall|i: int|
            0 <= i < units.len() ==> encoded(units).subrange(4 * i, 4 * i + 4) == text::hex(
                #[trigger] units[i] as nat,
                4,
            ),
        forall|i: int|
            0 <= i < encoded(units).len() ==> text::hex_digit(#[trigger] encoded(units)[i]) is Some,
    decreases units.len(),
{
    reveal_with_fuel(text::hex_range, 5);
    if units.len() > 0 {
        let before = units.drop_last();
        let e = encoded(before);
        let h = text::hex(units.last() as nat, 4);
        lemma_encoded(before);
        text::lemma_hex(units.last() as nat, 4);
        assert(encoded(units) == e + h);
        assert forall|i: int| 0 <= i < units.len() implies encoded(units).subrange(4 * i, 4 * i + 4)
            == text::hex(#[trigger] units[i] as nat, 4) by {
            if i < before.len() {
                assert(before[i] == units[i]);
                assert(encoded(units).subrange(4 * i, 4 * i + 4) =~= e.subrange(4 * i, 4 * i + 4));
            } else {
                assert(encoded(units).subrange(4 * i, 4 * i + 4) =~= h);
            }
        }
        assert forall|i: int| 0 <= i < encoded(units).len() implies text::hex_digit(
            #[trigger] encoded(units)[i],
        ) is Some by {
            if i < e.len() {
                assert(encoded(units)[i] == e[i]);
            } else {
                assert(encoded(units)[i] == h[i - e.len()]);
            }
        }
    }
}

/// An absolute path is read back from its digits, which are all that stands there.
pub proof fn law_state_directories_are_read_back(units: Seq<u16>)
    requires
        platform::absolute(Platform::Windows, characters(units)),
        forall|i: int| 0 <= i < units.len() ==> #[trigger] units[i] != 0,
    ensures
        decoded(encoded(units)) == Ok::<Seq<u16>, Fault>(units),
        forall|i: int|
            0 <= i < encoded(units).len() ==> text::hex_digit(#[trigger] encoded(units)[i]) is Some,
{
    lemma_encoded(units);
    reveal_with_fuel(text::hex_range, 5);
    let s = encoded(units);
    assert(characters(units).len() > 0);
    assert forall|i: int| 0 <= i < units.len() implies #[trigger] unit_at(s, i) == Some(units[i]) by {
        text::lemma_hex_number(units[i] as nat, 4);
    }
    assert(Seq::new((s.len() / 4) as nat, |i: int| unit_at(s, i)->0) =~= units);
}

/// The words of the command that starts a helper with more rights on macOS.
pub open spec fn helper_words(state_dir: Seq<char>, exe: Seq<char>, args: Seq<Seq<char>>) -> Seq<
    Seq<char>,
> {
    seq![
        "/usr/bin/sudo"@,
        "-n"@,
        "/usr/bin/env"@,
        "WAKE_STATE_DIR="@ + state_dir,
        exe,
    ] + args
}

/// The command that starts a helper with more rights on macOS.
pub fn mac_helper_command(
    state_dir: Result<String, AppError>,
    exe: Result<String, AppError>,
    args: &Vec<String>,
) -> (r: Result<Vec<String>, AppError>)
    ensures
        match (viewed(state_dir), viewed(exe)) {
            (Err(e), _) => outcome(r) == Err::<Vec<String>, Fault>(e),
            (Ok(_), Err(e)) => outcome(r) == Err::<Vec<String>, Fault>(e),
            (Ok(dir), Ok(path)) => r matches Ok(command) && text::texts(command@) == helper_words(
                dir,
                path,
                text::texts(args@),
            ),
        },
{
    let dir = match state_dir {
        Err(e) => return Err(e),
        Ok(dir) => dir,
    };
    let path = match exe {
        Err(e) => return Err(e),
        Ok(path) => path,
    };
    let mut setting = "WAKE_STATE_DIR=".to_owned();
    setting.append(dir.as_str());
    let mut command: Vec<String> = Vec::new();
    command.push("/usr/bin/sudo".to_owned());
    command.push("-n".to_owned());
    command.push("/usr/bin/env".to_owned());
    command.push(setting);
    command.push(path);
    let ghost words = helper_words(dir@, path@, Seq::empty());
    assert(text::texts(command@) =~= words);
    let mut i: usize = 0;
    while i < args.len()
        invariant
            i <= args@.len(),
            text::texts(command@) == words + text::texts(args@).take(i as int),
        decreases args@.len() - i,
    {
        let ghost before = command@;
        command.push(args[i].clone());
        assert(text::texts(command@) =~= text::texts(before).push(args@[i as int]@));
        assert(text::texts(args@).take(i + 1) =~= text::texts(args@).take(i as int).push(
            args@[i as int]@,
        ));
        assert(text::texts(command@) =~= words + text::texts(args@).take(i + 1));
        i = i + 1;
    }
    assert(text::texts(args@).take(i as int) =~= text::texts(args@));
    assert(words + text::texts(args@) =~= helper_words(dir@, path@, text::texts(args@)));
    Ok(command)
}

/// What a helper that puts the lid's actions back came to, by the code that it ended with.
pub fn restore_elevated(code: u32) -> (r: Result<(), AppError>)
    ensures
        outcome(r) == (if code == 0 {
            Ok::<(), Fault>(())
        } else {
            Err(
                Fault::Fail(
                    "elevated lid restoration exited with code "@ + text::decimal(code as nat),
                ),
            )
        }),
{
    if code == 0 {
        return Ok(());
    }
    let mut m = "elevated lid restoration exited with code ".to_owned();
    m.append(text::decimal_text(code as u64).as_str());
    Err(AppError::Fail(m))
}

/// A helper with more rights runs this program with just the words that it is given, behind the directory that the
/// state is in, and never asks for a password.
pub proof fn law_helpers_are_told_where_the_state_is(
    state_dir: Seq<char>,
    exe: Seq<char>,
    args: Seq<Seq<char>>,
)
    ensures
        ({
            let words = helper_words(state_dir, exe, args);
            &&& words.take(4) == seq![
                "/usr/bin/sudo"@,
                "-n"@,
                "/usr/bin/env"@,
                "WAKE_STATE_DIR="@ + state_dir,
            ]
            &&& words[4] == exe
            &&& words.skip(5) == args
        }),
{
    let words = helper_words(state_dir, exe, args);
    assert(words.take(4) =~= seq![
        "/usr/bin/sudo"@,
        "-n"@,
        "/usr/bin/env"@,
        "WAKE_STATE_DIR="@ + state_dir,
    ]);
    assert(words.skip(5) =~= args);
}

/// The lid was put back exactly where the helper ended with the code nought.
pub proof fn law_helpers_say_whether_they_worked(code: u32, r: Result<(), AppError>)
    requires
        call_ensures(restore_elevated, (code,), r),
    ensures
        r is Ok <==> code == 0,
{
}

} // verus!
