//! Durations: plain seconds, or days, hours, minutes and seconds in that order.

use vstd::prelude::*;
use vstd::string::*;

use crate::error::{AppError, Fault, outcome};
use crate::text;

verus! {

/// Thirty days.
pub const MAX_SECONDS: i64 = 2_592_000;

/// Why a text is no duration.
pub enum Flaw {
    /// It is not made of numbers and units in order.
    Invalid,
    /// It comes to nothing.
    Zero,
    /// It exceeds thirty days.
    TooLarge,
}

/// The amounts that a duration gives for each unit.
pub struct Amounts {
    pub days: nat,
    pub hours: nat,
    pub minutes: nat,
    pub seconds: nat,
}

impl Amounts {
    pub open spec fn none() -> Amounts {
        Amounts { days: 0, hours: 0, minutes: 0, seconds: 0 }
    }

    pub open spec fn total(self) -> nat {
        self.days * 86_400 + self.hours * 3_600 + self.minutes * 60 + self.seconds
    }

    /// These amounts with that of the unit `order` replaced.
    pub open spec fn with(self, order: int, n: nat) -> Amounts {
        if order == 0 {
            Amounts { days: n, ..self }
        } else if order == 1 {
            Amounts { hours: n, ..self }
        } else if order == 2 {
            Amounts { minutes: n, ..self }
        } else {
            Amounts { seconds: n, ..self }
        }
    }
}

/// The place of a unit in the order `d`, `h`, `m`, `s`; below zero for another character.
pub open spec fn unit_order(c: char) -> int {
    if c == 'd' {
        0
    } else if c == 'h' {
        1
    } else if c == 'm' {
        2
    } else if c == 's' {
        3
    } else {
        -1
    }
}

/// How many digits `s` begins with.
pub open spec fn digit_run(s: Seq<char>) -> int
    decreases s.len(),
{
    if s.len() > 0 && text::digit(s[0]) {
        1 + digit_run(s.skip(1))
    } else {
        0
    }
}

pub proof fn lemma_digit_run(s: Seq<char>)
    ensures
        0 <= digit_run(s) <= s.len(),
        text::all_digits(s.take(digit_run(s))),
        digit_run(s) < s.len() ==> !text::digit(s[digit_run(s)]),
    decreases s.len(),
{
    if s.len() > 0 && text::digit(s[0]) {
        let rest = s.skip(1);
        lemma_digit_run(rest);
        let n = digit_run(s);
        assert forall|i: int| 0 <= i < n implies text::digit(#[trigger] s.take(n)[i]) by {
            if i > 0 {
                assert(s.take(n)[i] == rest.take(n - 1)[i - 1]);
            }
        }
    }
}

pub proof fn lemma_digit_run_is(s: Seq<char>, n: int)
    requires
        0 <= n <= s.len(),
        forall|i: int| 0 <= i < n ==> text::digit(#[trigger] s[i]),
        n < s.len() ==> !text::digit(s[n]),
    ensures
        digit_run(s) == n,
    decreases s.len(),
{
    if n > 0 {
        let rest = s.skip(1);
        assert forall|i: int| 0 <= i < n - 1 implies text::digit(#[trigger] rest[i]) by {
            assert(rest[i] == s[i + 1]);
        }
        lemma_digit_run_is(rest, n - 1);
    }
}

/// Numbers and units read off `s` from the left, on top of `so_far`. Each unit comes after
/// `last` in the order of units, and each number fits in 63 bits.
pub open spec fn amounts(s: Seq<char>, last: int, so_far: Amounts) -> Result<Amounts, Flaw>
    decreases s.len(),
    via amounts_decreases
{
    let n = digit_run(s);
    if s.len() == 0 {
        Ok(so_far)
    } else if n == 0 || n == s.len() || unit_order(s[n]) <= last || unit_order(s[n]) < 0 {
        Err(Flaw::Invalid)
    } else if text::digits_value(s.take(n)) > i64::MAX {
        Err(Flaw::TooLarge)
    } else {
        amounts(
            s.skip(n + 1),
            unit_order(s[n]),
            so_far.with(unit_order(s[n]), text::digits_value(s.take(n))),
        )
    }
}

#[via_fn]
proof fn amounts_decreases(s: Seq<char>, last: int, so_far: Amounts) {
    lemma_digit_run(s);
}

/// The seconds that the text `s`, in lower case and without white space around it, stands for.
pub open spec fn seconds_of(s: Seq<char>) -> Result<i64, Flaw> {
    if text::all_digits(s) {
        if s.len() == 0 || text::digits_value(s) > MAX_SECONDS {
            Err(Flaw::TooLarge)
        } else if text::digits_value(s) == 0 {
            Err(Flaw::Zero)
        } else {
            Ok(text::digits_value(s) as i64)
        }
    } else {
        match amounts(s, -1, Amounts::none()) {
            Err(flaw) => Err(flaw),
            Ok(a) => if a.total() == 0 {
                Err(Flaw::Zero)
            } else if a.total() > MAX_SECONDS {
                Err(Flaw::TooLarge)
            } else {
                Ok(a.total() as i64)
            },
        }
    }
}

/// What a duration error says about the text that was given.
pub open spec fn flaw_message(flaw: Flaw, plain: bool, raw: Seq<char>) -> Seq<char> {
    match flaw {
        Flaw::Invalid => "invalid duration: '"@ + raw + "' (try 1h30m, 90s, etc.)"@,
        Flaw::Zero => if plain {
            "duration must be positive"@
        } else {
            "invalid duration: '"@ + raw + "'"@
        },
        Flaw::TooLarge => "duration exceeds maximum of 30d: '"@ + raw + "'"@,
    }
}

/// What `raw` comes to when `lowered` is its trimmed text in lower case.
pub open spec fn duration(raw: Seq<char>, lowered: Seq<char>) -> Result<i64, Fault> {
    if text::trimmed(raw).len() == 0 {
        Err(Fault::Usage("empty duration"@))
    } else {
        match seconds_of(lowered) {
            Ok(n) => Ok(n),
            Err(flaw) => Err(Fault::Usage(flaw_message(flaw, text::all_digits(lowered), raw))),
        }
    }
}

fn too_large(raw: &str) -> (r: AppError)
    ensures
        r@ == Fault::Usage(flaw_message(Flaw::TooLarge, true, raw@)),
{
    let mut m = "duration exceeds maximum of 30d: '".to_owned();
    m.append(raw);
    m.append("'");
    AppError::Usage(m)
}

fn cap(seconds: i64, raw: &str) -> (r: Result<i64, AppError>)
    ensures
        outcome(r) == if seconds > MAX_SECONDS {
            Err::<i64, Fault>(Fault::Usage(flaw_message(Flaw::TooLarge, true, raw@)))
        } else {
            Ok::<i64, Fault>(seconds)
        },
{
    if seconds > MAX_SECONDS {
        return Err(too_large(raw));
    }
    Ok(seconds)
}

fn invalid(raw: &str) -> (r: AppError)
    ensures
        r@ == Fault::Usage(flaw_message(Flaw::Invalid, false, raw@)),
{
    let mut m = "invalid duration: '".to_owned();
    m.append(raw);
    m.append("' (try 1h30m, 90s, etc.)");
    AppError::Usage(m)
}

/// `amounts` with room for a 64-bit total: what `x * unit + y` comes to, if it fits.
fn add_unit(y: Option<i64>, x: i64, unit: i64) -> (r: Option<i64>)
    requires
        x >= 0,
        0 < unit <= 86_400,
        y is Some ==> y->0 >= 0,
    ensures
        r == (match y {
            Some(y) => if x * unit + y <= i64::MAX {
                Some((x * unit + y) as i64)
            } else {
                None
            },
            None => None,
        }),
{
    assert(x * unit >= 0) by (nonlinear_arith)
        requires
            x >= 0,
            unit > 0,
    ;
    match (y, x.checked_mul(unit)) {
        (Some(y), Some(v)) => v.checked_add(y),
        _ => None,
    }
}

/// The seconds that `raw` stands for, when `lowered` is its trimmed text in lower case.
pub fn parse_lowered(raw: &str, lowered: &str) -> (r: Result<i64, AppError>)
    ensures
        outcome(r) == duration(raw@, lowered@),
{
    if text::trim(raw).is_empty() {
        return Err(AppError::usage("empty duration"));
    }
    let chars = text::chars_of(lowered);
    let mut plain: usize = 0;
    while plain < chars.len() && text::is_digit(chars[plain])
        invariant
            plain <= chars@.len(),
            chars@ == lowered@,
            forall|k: int| 0 <= k < plain ==> text::digit(#[trigger] lowered@[k]),
        decreases chars@.len() - plain,
    {
        plain = plain + 1;
    }
    if plain == chars.len() {
        assert(lowered@.subrange(0, lowered@.len() as int) =~= lowered@);
        let v: i64 = match text::read_number(&chars, 0, chars.len()) {
            Some(v) => v,
            None => return Err(too_large(raw)),
        };
        if v <= 0 {
            return Err(AppError::usage("duration must be positive"));
        }
        return cap(v, raw);
    }
    assert(!text::digit(lowered@[plain as int]));
    let mut days: i64 = 0;
    let mut hours: i64 = 0;
    let mut minutes: i64 = 0;
    let mut seconds: i64 = 0;
    let mut last: i32 = -1;
    let mut idx: usize = 0;
    assert(lowered@.skip(0) =~= lowered@);
    while idx < chars.len()
        invariant
            idx <= chars@.len(),
            chars@ == lowered@,
            -1 <= last <= 3,
            days >= 0,
            hours >= 0,
            minutes >= 0,
            seconds >= 0,
            text::trimmed(raw@).len() > 0,
            !text::all_digits(lowered@),
            amounts(lowered@, -1, Amounts::none()) == amounts(
                lowered@.skip(idx as int),
                last as int,
                Amounts {
                    days: days as nat,
                    hours: hours as nat,
                    minutes: minutes as nat,
                    seconds: seconds as nat,
                },
            ),
        decreases chars@.len() - idx,
    {
        let start = idx;
        let ghost rest = lowered@.skip(start as int);
        while idx < chars.len() && text::is_digit(chars[idx])
            invariant
                start <= idx <= chars@.len(),
                chars@ == lowered@,
                rest == lowered@.skip(start as int),
                forall|k: int| 0 <= k < idx - start ==> text::digit(#[trigger] rest[k]),
            decreases chars@.len() - idx,
        {
            assert(rest[idx - start] == lowered@[idx as int]);
            idx = idx + 1;
        }
        proof {
            if idx < chars.len() {
                assert(rest[idx - start] == lowered@[idx as int]);
            }
            lemma_digit_run_is(rest, idx - start);
        }
        if idx == start || idx == chars.len() {
            return Err(invalid(raw));
        }
        let order: i32 = match chars[idx] {
            'd' => 0,
            'h' => 1,
            'm' => 2,
            's' => 3,
            _ => return Err(invalid(raw)),
        };
        if order <= last {
            return Err(invalid(raw));
        }
        last = order;
        let v: i64 = match text::read_number(&chars, start, idx) {
            Some(v) => v,
            None => {
                assert(rest.take(idx - start) =~= lowered@.subrange(start as int, idx as int));
                return Err(too_large(raw));
            },
        };
        assert(rest.take(idx - start) =~= lowered@.subrange(start as int, idx as int));
        assert(rest.skip(idx - start + 1) =~= lowered@.skip(idx + 1));
        if order == 0 {
            days = v;
        } else if order == 1 {
            hours = v;
        } else if order == 2 {
            minutes = v;
        } else {
            seconds = v;
        }
        idx = idx + 1;
    }
    assert(lowered@.skip(idx as int).len() == 0);
    let total: i64 = match add_unit(
        add_unit(add_unit(Some(seconds), minutes, 60), hours, 3_600),
        days,
        86_400,
    ) {
        Some(total) => total,
        None => return Err(too_large(raw)),
    };
    if total <= 0 {
        let mut m = "invalid duration: '".to_owned();
        m.append(raw);
        m.append("'");
        return Err(AppError::Usage(m));
    }
    cap(total, raw)
}

/// The seconds that `raw` stands for.
pub fn parse(raw: &str) -> (r: Result<i64, AppError>)
    ensures
        outcome(r) == duration(raw@, text::lowered(text::trimmed(raw@))),
{
    let trimmed = text::trim(raw);
    let lowered = text::lowered_text(trimmed);
    parse_lowered(raw, lowered.as_str())
}

/// The digits given for each unit, where the unit is given at all.
pub struct UnitTexts {
    pub days: Option<Seq<char>>,
    pub hours: Option<Seq<char>>,
    pub minutes: Option<Seq<char>>,
    pub seconds: Option<Seq<char>>,
}

/// Digits and their unit; nothing where the unit is not given.
pub open spec fn unit_text(digits: Option<Seq<char>>, unit: char) -> Seq<char> {
    match digits {
        Some(d) => d.push(unit),
        None => Seq::empty(),
    }
}

/// The number that the digits write; zero where the unit is not given.
pub open spec fn unit_amount(digits: Option<Seq<char>>) -> nat {
    match digits {
        Some(d) => text::digits_value(d),
        None => 0,
    }
}

/// Digits of a number that fits in 63 bits, where the unit is given.
pub open spec fn unit_valid(digits: Option<Seq<char>>) -> bool {
    digits matches Some(d) ==> d.len() > 0 && text::all_digits(d) && text::digits_value(d)
        <= i64::MAX
}

impl UnitTexts {
    pub open spec fn valid(self) -> bool {
        unit_valid(self.days) && unit_valid(self.hours) && unit_valid(self.minutes) && unit_valid(
            self.seconds,
        )
    }

    /// The text with the units in order.
    pub open spec fn written(self) -> Seq<char> {
        unit_text(self.days, 'd') + unit_text(self.hours, 'h') + unit_text(self.minutes, 'm')
            + unit_text(self.seconds, 's')
    }

    pub open spec fn amounts(self) -> Amounts {
        Amounts {
            days: unit_amount(self.days),
            hours: unit_amount(self.hours),
            minutes: unit_amount(self.minutes),
            seconds: unit_amount(self.seconds),
        }
    }
}

proof fn lemma_amounts_step(
    digits: Option<Seq<char>>,
    unit: char,
    rest: Seq<char>,
    last: int,
    so_far: Amounts,
)
    requires
        unit_valid(digits),
        unit_order(unit) >= 0,
        unit_order(unit) > last,
        digits is Some,
    ensures
        amounts(unit_text(digits, unit) + rest, last, so_far) == amounts(
            rest,
            unit_order(unit),
            so_far.with(unit_order(unit), unit_amount(digits)),
        ),
{
    let d = digits->0;
    let s = unit_text(digits, unit) + rest;
    let n = d.len() as int;
    assert(s.take(n) =~= d);
    assert(s.skip(n + 1) =~= rest);
    assert(s[n] == unit);
    assert forall|i: int| 0 <= i < n implies text::digit(#[trigger] s[i]) by {
        assert(s[i] == d[i]);
    }
    lemma_digit_run_is(s, n);
}

/// Units in the order `d`, `h`, `m`, `s`, each at most once, are read as the amounts they give.
pub proof fn law_ordered_units_are_read(u: UnitTexts)
    requires
        u.valid(),
    ensures
        amounts(u.written(), -1, Amounts::none()) == Ok::<Amounts, Flaw>(u.amounts()),
{
    let t3 = unit_text(u.seconds, 's');
    let t2 = unit_text(u.minutes, 'm') + t3;
    let t1 = unit_text(u.hours, 'h') + t2;
    let t0 = unit_text(u.days, 'd') + t1;
    assert(t0 =~= u.written());
    let a0 = Amounts::none();
    let a1 = a0.with(0, unit_amount(u.days));
    let a2 = a1.with(1, unit_amount(u.hours));
    let a3 = a2.with(2, unit_amount(u.minutes));
    let a4 = a3.with(3, unit_amount(u.seconds));
    let l1: int = if u.days is Some { 0 } else { -1 };
    let l2: int = if u.hours is Some { 1 } else { l1 };
    let l3: int = if u.minutes is Some { 2 } else { l2 };
    let l4: int = if u.seconds is Some { 3 } else { l3 };
    if u.days is Some {
        lemma_amounts_step(u.days, 'd', t1, -1, a0);
    } else {
        assert(t0 =~= t1);
    }
    assert(amounts(t0, -1, a0) == amounts(t1, l1, a1));
    if u.hours is Some {
        lemma_amounts_step(u.hours, 'h', t2, l1, a1);
    } else {
        assert(t1 =~= t2);
    }
    assert(amounts(t1, l1, a1) == amounts(t2, l2, a2));
    if u.minutes is Some {
        lemma_amounts_step(u.minutes, 'm', t3, l2, a2);
    } else {
        assert(t2 =~= t3);
    }
    assert(amounts(t2, l2, a2) == amounts(t3, l3, a3));
    let empty = Seq::<char>::empty();
    assert(t3 + empty =~= t3);
    if u.seconds is Some {
        lemma_amounts_step(u.seconds, 's', empty, l3, a3);
    } else {
        assert(t3 =~= empty);
    }
    assert(amounts(t3, l3, a3) == amounts(empty, l4, a4));
}

proof fn lemma_units_of(s: Seq<char>, last: int, so_far: Amounts) -> (u: UnitTexts)
    requires
        amounts(s, last, so_far) is Ok,
        last >= -1,
    ensures
        u.valid(),
        u.written() == s,
        last >= 0 ==> u.days is None,
        last >= 1 ==> u.hours is None,
        last >= 2 ==> u.minutes is None,
        last >= 3 ==> u.seconds is None,
    decreases s.len(),
{
    let nothing = UnitTexts { days: None, hours: None, minutes: None, seconds: None };
    if s.len() == 0 {
        assert(nothing.written() =~= s);
        nothing
    } else {
        lemma_digit_run(s);
        let n = digit_run(s);
        let order = unit_order(s[n]);
        let digits = s.take(n);
        let rest = s.skip(n + 1);
        let u = lemma_units_of(rest, order, so_far.with(order, text::digits_value(digits)));
        let whole = if order == 0 {
            UnitTexts { days: Some(digits), ..u }
        } else if order == 1 {
            UnitTexts { hours: Some(digits), ..u }
        } else if order == 2 {
            UnitTexts { minutes: Some(digits), ..u }
        } else {
            UnitTexts { seconds: Some(digits), ..u }
        };
        assert(s =~= digits.push(s[n]) + rest);
        assert(whole.written() =~= s);
        whole
    }
}

/// Nothing but units in the order `d`, `h`, `m`, `s`, each at most once, is read.
pub proof fn law_only_ordered_units_are_read(s: Seq<char>)
    requires
        amounts(s, -1, Amounts::none()) is Ok,
    ensures
        exists|u: UnitTexts| u.valid() && #[trigger] u.written() == s,
{
    let u = lemma_units_of(s, -1, Amounts::none());
}

/// A duration that is accepted is at least a second and at most thirty days.
pub proof fn law_durations_are_bounded(s: Seq<char>)
    ensures
        seconds_of(s) matches Ok(n) ==> 1 <= n <= MAX_SECONDS,
{
}

/// Plain seconds up to thirty days stand for themselves.
pub proof fn law_plain_seconds(n: nat)
    requires
        1 <= n <= MAX_SECONDS,
    ensures
        seconds_of(text::decimal(n)) == Ok::<i64, Flaw>(n as i64),
{
    text::lemma_decimal(n);
}

/// A duration in units comes to 86400 seconds for each day, 3600 for each hour, 60 for each minute and one
/// for each second, whatever the amounts; it is refused where that is nothing, or more than thirty days.
pub proof fn law_units_come_to_seconds(u: UnitTexts)
    requires
        u.valid(),
        u.days is Some || u.hours is Some || u.minutes is Some || u.seconds is Some,
    ensures
        ({
            let n = unit_amount(u.days) * 86_400 + unit_amount(u.hours) * 3_600 + unit_amount(
                u.minutes,
            ) * 60 + unit_amount(u.seconds);
            seconds_of(u.written()) == (if n == 0 {
                Err::<i64, Flaw>(Flaw::Zero)
            } else if n > 2_592_000 {
                Err(Flaw::TooLarge)
            } else {
                Ok(n as i64)
            })
        }),
{
    law_ordered_units_are_read(u);
    let s = u.written();
    let days = unit_text(u.days, 'd');
    let hours = unit_text(u.hours, 'h');
    let minutes = unit_text(u.minutes, 'm');
    let seconds = unit_text(u.seconds, 's');
    assert(!text::digit('d') && !text::digit('h') && !text::digit('m') && !text::digit('s'));
    if u.days is Some {
        assert(s[days.len() - 1] == 'd');
    } else if u.hours is Some {
        assert(s[days.len() + hours.len() - 1] == 'h');
    } else if u.minutes is Some {
        assert(s[days.len() + hours.len() + minutes.len() - 1] == 'm');
    } else {
        assert(s[s.len() - 1] == 's');
    }
    assert(!text::all_digits(s));
}

/// An amount and its unit.
pub open spec fn amount_text(n: nat, unit: char) -> Seq<char> {
    text::decimal(n).push(unit)
}

proof fn lemma_single_unit(n: nat, order: int)
    requires
        n <= i64::MAX,
        0 <= order <= 3,
    ensures
        ({
            let (unit, total): (char, nat) = if order == 0 {
                ('d', n * 86_400)
            } else if order == 1 {
                ('h', n * 3_600)
            } else if order == 2 {
                ('m', n * 60)
            } else {
                ('s', n)
            };
            seconds_of(amount_text(n, unit)) == (if total == 0 {
                Err::<i64, Flaw>(Flaw::Zero)
            } else if total > 2_592_000 {
                Err(Flaw::TooLarge)
            } else {
                Ok(total as i64)
            })
        }),
{
    text::lemma_decimal(n);
    let d = Some(text::decimal(n));
    let u = UnitTexts {
        days: if order == 0 {
            d
        } else {
            None
        },
        hours: if order == 1 {
            d
        } else {
            None
        },
        minutes: if order == 2 {
            d
        } else {
            None
        },
        seconds: if order == 3 {
            d
        } else {
            None
        },
    };
    law_units_come_to_seconds(u);
    let unit = if order == 0 {
        'd'
    } else if order == 1 {
        'h'
    } else if order == 2 {
        'm'
    } else {
        's'
    };
    assert(u.written() =~= amount_text(n, unit));
}

/// Minutes come to the same as sixty times as many plain seconds, hours to the same as sixty times as many
/// minutes, days to the same as twenty-four times as many hours, and seconds with their unit to the same
/// as without.
pub proof fn law_units_agree(n: nat)
    requires
        1 <= n <= 2_592_000,
    ensures
        seconds_of(amount_text(n, 's')) == seconds_of(text::decimal(n)),
        60 * n <= 2_592_000 ==> seconds_of(amount_text(n, 'm')) == seconds_of(
            text::decimal(60 * n),
        ) && seconds_of(amount_text(n, 'm')) == Ok::<i64, Flaw>((60 * n) as i64),
        seconds_of(amount_text(n, 'h')) == seconds_of(amount_text(60 * n, 'm')),
        seconds_of(amount_text(n, 'd')) == seconds_of(amount_text(24 * n, 'h')),
{
    lemma_single_unit(n, 0);
    lemma_single_unit(n, 1);
    lemma_single_unit(n, 2);
    lemma_single_unit(n, 3);
    lemma_single_unit(60 * n, 2);
    lemma_single_unit(24 * n, 1);
    law_plain_seconds(n);
    if 60 * n <= 2_592_000 {
        law_plain_seconds(60 * n);
    }
}

/// A number of plain seconds is refused where it is nothing or more than thirty days.
pub proof fn law_plain_seconds_have_bounds(n: nat)
    ensures
        n == 0 ==> seconds_of(text::decimal(n)) == Err::<i64, Flaw>(Flaw::Zero),
        n > 30 * 24 * 3_600 ==> seconds_of(text::decimal(n)) == Err::<i64, Flaw>(Flaw::TooLarge),
        1 <= n <= 30 * 24 * 3_600 ==> seconds_of(text::decimal(n)) == Ok::<i64, Flaw>(n as i64),
{
    text::lemma_decimal(n);
}

/// Nothing is accepted but digits alone, which stand for their number, or units in order, each at most
/// once, which stand for the sum of what each is worth.
pub proof fn law_accepted_durations(s: Seq<char>)
    requires
        seconds_of(s) is Ok,
    ensures
        ({
            let n = seconds_of(s)->Ok_0 as int;
            ||| s.len() > 0 && (forall|i: int| 0 <= i < s.len() ==> '0' <= #[trigger] s[i] <= '9')
                && n == text::digits_value(s)
            ||| exists|u: UnitTexts|
                u.valid() && #[trigger] u.written() == s && n == unit_amount(u.days) * 86_400
                    + unit_amount(u.hours) * 3_600 + unit_amount(u.minutes) * 60 + unit_amount(
                    u.seconds,
                )
        }),
{
    if !text::all_digits(s) {
        let u = lemma_units_of(s, -1, Amounts::none());
        if u.days is None && u.hours is None && u.minutes is None && u.seconds is None {
            assert(s =~= Seq::<char>::empty());
        }
        law_units_come_to_seconds(u);
    }
}

/// Neither white space around a duration nor the case of its letters changes what is accepted: the text that
/// is read is the trimmed one in lower case.
pub proof fn law_space_and_case_do_not_count(a: Seq<char>, b: Seq<char>)
    requires
        text::lowered(text::trimmed(a)) == text::lowered(text::trimmed(b)),
        text::trimmed(a).len() > 0,
        text::trimmed(b).len() > 0,
    ensures
        ({
            let (x, y) = (
                duration(a, text::lowered(text::trimmed(a))),
                duration(b, text::lowered(text::trimmed(b))),
            );
            &&& x is Ok <==> y is Ok
            &&& x is Ok ==> x == y
        }),
{
}

} // verus!
