//! Instants and calendar days as plain numbers, with `chrono` doing the calendar work.

use vstd::prelude::*;
use vstd::string::*;

use chrono::{DateTime, Days, NaiveDate, TimeDelta, Utc};

use crate::error::{AppError, Fault, outcome};

verus! {

/// The first second that `chrono` can represent, counted from 1970.
pub const FIRST_SECOND: i64 = -8_334_601_228_800;

/// The last second that `chrono` can represent, counted from 1970.
pub const LAST_SECOND: i64 = 8_210_266_876_799;

/// The first day that `chrono` can represent, counted from the first day of year one.
pub const FIRST_DAY: i32 = -95_746_129;

/// The last day that `chrono` can represent, counted from the first day of year one.
pub const LAST_DAY: i32 = 95_745_399;

/// The first day of 1970, counted from the first day of year one.
pub const EPOCH_DAY: i32 = 719_163;

/// An instant: whole seconds since 1970 in UTC, and nanoseconds on top. A leap second is
/// written as more than a second's worth of nanoseconds on top of a minute's last second.
#[derive(Clone, Copy, Debug, PartialEq, Eq, Structural)]
pub struct Timestamp {
    pub seconds: i64,
    pub nanos: u32,
}

impl Timestamp {
    /// Whether `chrono` has such an instant.
    pub open spec fn valid(self) -> bool {
        &&& FIRST_SECOND <= self.seconds <= LAST_SECOND
        &&& self.nanos < 1_000_000_000 || (self.nanos < 2_000_000_000 && self.seconds % 60 == 59)
    }

    /// Whether the instant falls in the years from 0 to 9999, which RFC 3339 can write.
    pub open spec fn common_year(self) -> bool {
        -62_167_219_200 <= self.seconds <= 253_402_300_799
    }

    /// Whether this instant comes before `other`.
    pub open spec fn precedes(self, other: Timestamp) -> bool {
        self.seconds < other.seconds || (self.seconds == other.seconds && self.nanos < other.nanos)
    }

    /// Whether `chrono` has such an instant.
    pub fn is_valid(&self) -> (r: bool)
        ensures
            r == self.valid(),
    {
        let last: bool = self.seconds >= 0 && self.seconds % 60 == 59;
        let last_negative: bool = self.seconds < 0 && self.seconds > FIRST_SECOND - 1 && (
        self.seconds - FIRST_SECOND) % 60 == 59;
        FIRST_SECOND <= self.seconds && self.seconds <= LAST_SECOND && (self.nanos < 1_000_000_000
            || (self.nanos < 2_000_000_000 && (last || last_negative)))
    }

    /// Whether this instant comes before `other`.
    pub fn is_before(&self, other: &Timestamp) -> (r: bool)
        ensures
            r == self.precedes(*other),
    {
        self.seconds < other.seconds || (self.seconds == other.seconds && self.nanos < other.nanos)
    }
}

/// The order of instants is strict and total.
pub proof fn law_instants_are_ordered(a: Timestamp, b: Timestamp, c: Timestamp)
    ensures
        !a.precedes(a),
        a.precedes(b) && b.precedes(c) ==> a.precedes(c),
        a == b || a.precedes(b) || b.precedes(a),
{
}

/// The error of `chrono`'s parsers.
#[verifier::external_type_specification]
#[verifier::external_body]
pub struct ExParseError(chrono::ParseError);

/// The instant that `chrono` reads from an RFC 3339 text: seconds since 1970 and nanoseconds.
pub uninterp spec fn rfc3339_instant(s: Seq<char>) -> Option<(i64, u32)>;

/// The RFC 3339 text that `chrono` writes for an instant in UTC.
pub uninterp spec fn rfc3339_text(seconds: i64, nanos: u32) -> Seq<char>;

/// `DateTime::parse_from_rfc3339`, brought to UTC. The instant it reads is named; whatever
/// it reads is one that `chrono` can represent.
#[verifier::external_body]
fn read_rfc3339(raw: &str) -> (r: Result<Timestamp, chrono::ParseError>)
    ensures
        rfc3339_instant(raw@) == (match r {
            Ok(t) => Some((t.seconds, t.nanos)),
            Err(_) => None,
        }),
        r matches Ok(t) ==> t.valid(),
{
    let time = DateTime::parse_from_rfc3339(raw)?.with_timezone(&Utc);
    Ok(Timestamp { seconds: time.timestamp(), nanos: time.timestamp_subsec_nanos() })
}

/// `DateTime::to_rfc3339` of an instant in UTC. The text is named. It holds characters, no line
/// break among them, and in the years from 0 to 9999, which are written with four
/// digits, it is read back as the instant; other years get a sign that is not read back.
#[verifier::external_body]
fn write_rfc3339(t: &Timestamp) -> (r: String)
    requires
        t.valid(),
    ensures
        r@ == rfc3339_text(t.seconds, t.nanos),
        r@.len() > 0,
        !r@.contains('\n'),
        !r@.contains('\r'),
        t.common_year() ==> rfc3339_instant(r@) == Some((t.seconds, t.nanos)),
{
    DateTime::<Utc>::from_timestamp(t.seconds, t.nanos).expect("valid instant").to_rfc3339()
}

/// What `raw` says as an instant called `name`: it must be read, and be written as `chrono` writes
/// that instant in UTC.
pub open spec fn utc_of(raw: Seq<char>, name: Seq<char>) -> Result<Timestamp, Fault> {
    match rfc3339_instant(raw) {
        None => Err(Fault::Fail("invalid "@ + name)),
        Some((seconds, nanos)) => if rfc3339_text(seconds, nanos) == raw {
            Ok(Timestamp { seconds, nanos })
        } else {
            Err(Fault::Fail(name + " is not canonical UTC"@))
        },
    }
}

/// The RFC 3339 text of an instant.
pub fn utc_text(t: &Timestamp) -> (r: String)
    requires
        t.valid(),
    ensures
        r@ == rfc3339_text(t.seconds, t.nanos),
        r@.len() > 0,
        !r@.contains('\n'),
        !r@.contains('\r'),
        t.common_year() ==> rfc3339_instant(r@) == Some((t.seconds, t.nanos)),
{
    write_rfc3339(t)
}

/// What `raw` says as an instant called `name`.
pub fn parse_utc(raw: &str, name: &str) -> (r: Result<Timestamp, AppError>)
    ensures
        outcome(r) == utc_of(raw@, name@),
        r matches Ok(t) ==> t.valid(),
{
    match read_rfc3339(raw) {
        Err(_) => {
            let mut m = "invalid ".to_owned();
            m.append(name);
            Err(AppError::Fail(m))
        },
        Ok(value) => {
            let written = write_rfc3339(&value);
            if crate::text::same(written.as_str(), raw) {
                Ok(value)
            } else {
                let mut m = name.to_owned();
                m.append(" is not canonical UTC");
                Err(AppError::Fail(m))
            }
        },
    }
}

/// The instant `n` seconds after `t`. A leap second counts as the second after it when
/// it is left backwards, and as the second that it prolongs otherwise.
pub open spec fn seconds_later(t: Timestamp, n: int) -> (int, int) {
    if t.nanos >= 1_000_000_000 && n != 0 {
        (t.seconds + n + if n < 0 {
            1int
        } else {
            0
        }, t.nanos - 1_000_000_000)
    } else {
        (t.seconds + n, t.nanos as int)
    }
}

/// `DateTime + TimeDelta::seconds(n)`, which panics where the sum cannot be represented.
#[verifier::external_body]
pub(crate) fn add_seconds(t: &Timestamp, n: i64) -> (r: Timestamp)
    requires
        t.valid(),
        FIRST_SECOND <= seconds_later(*t, n as int).0 <= LAST_SECOND,
    ensures
        (r.seconds as int, r.nanos as int) == seconds_later(*t, n as int),
{
    let time = DateTime::<Utc>::from_timestamp(t.seconds, t.nanos).expect("valid instant")
        + TimeDelta::seconds(n);
    Timestamp { seconds: time.timestamp(), nanos: time.timestamp_subsec_nanos() }
}

/// Whether the calendar still has the instant `n` seconds after `t`.
pub fn can_add_seconds(t: &Timestamp, n: i64) -> (r: bool)
    requires
        t.valid(),
    ensures
        r == (FIRST_SECOND <= seconds_later(*t, n as int).0 <= LAST_SECOND),
{
    let shift: i128 = if t.nanos >= 1_000_000_000 && n < 0 {
        1
    } else {
        0
    };
    let sum: i128 = t.seconds as i128 + n as i128 + shift;
    FIRST_SECOND as i128 <= sum && sum <= LAST_SECOND as i128
}

/// Nanoseconds from `b` to `a`. Where one of them is a leap second and the other stands at a
/// different time of day, the leap second counts as one second more that has passed.
pub open spec fn nanos_between(a: Timestamp, b: Timestamp) -> int {
    let x = a.seconds % 86_400;
    let y = b.seconds % 86_400;
    let leap: int = if x > y && b.nanos >= 1_000_000_000 {
        1
    } else if x < y && a.nanos >= 1_000_000_000 {
        -1
    } else {
        0
    };
    (a.seconds - b.seconds + leap) * 1_000_000_000 + a.nanos - b.nanos
}

/// `(a - b).to_std()` of two `DateTime`s: the time from `b` to `a` as whole
/// seconds and nanoseconds on top, where it is not negative.
#[verifier::external_body]
pub(crate) fn time_until(a: &Timestamp, b: &Timestamp) -> (r: Option<(u64, u32)>)
    requires
        a.valid(),
        b.valid(),
    ensures
        r is Some <==> nanos_between(*a, *b) >= 0,
        r matches Some((s, n)) ==> n < 1_000_000_000 && s * 1_000_000_000 + n == nanos_between(
            *a,
            *b,
        ),
{
    let later = DateTime::<Utc>::from_timestamp(a.seconds, a.nanos).expect("valid instant");
    let earlier = DateTime::<Utc>::from_timestamp(b.seconds, b.nanos).expect("valid instant");
    (later - earlier).to_std().ok().map(|d| (d.as_secs(), d.subsec_nanos()))
}

/// A number of nanoseconds as whole seconds, rounded towards zero.
pub open spec fn whole_seconds(nanos: int) -> int {
    if nanos < 0 {
        -((-nanos) / 1_000_000_000)
    } else {
        nanos / 1_000_000_000
    }
}

/// `(a - b).num_seconds()` of two `DateTime`s: the whole seconds from `b` to `a`, rounded
/// towards zero.
#[verifier::external_body]
pub(crate) fn seconds_between(a: &Timestamp, b: &Timestamp) -> (r: i64)
    requires
        a.valid(),
        b.valid(),
    ensures
        r == whole_seconds(nanos_between(*a, *b)),
{
    let later = DateTime::<Utc>::from_timestamp(a.seconds, a.nanos).expect("valid instant");
    let earlier = DateTime::<Utc>::from_timestamp(b.seconds, b.nanos).expect("valid instant");
    (later - earlier).num_seconds()
}

/// A length of time: whole seconds, and nanoseconds on top.
#[derive(Clone, Copy, Debug, PartialEq, Eq, Structural)]
pub struct Span {
    pub seconds: u64,
    pub nanos: u32,
}

impl Span {
    /// Whether the nanoseconds stay below a second.
    pub open spec fn valid(self) -> bool {
        self.nanos < 1_000_000_000
    }

    /// The length in nanoseconds.
    pub open spec fn total(self) -> int {
        self.seconds * 1_000_000_000 + self.nanos
    }

    /// The length of so many milliseconds.
    pub fn from_millis(millis: u64) -> (r: Span)
        ensures
            r.valid(),
            r.total() == millis * 1_000_000,
    {
        let rest: u64 = (millis % 1000) * 1_000_000;
        Span { seconds: millis / 1000, nanos: rest as u32 }
    }

    /// Whether this is at least as long as `other`.
    pub fn at_least(&self, other: &Span) -> (r: bool)
        requires
            self.valid(),
            other.valid(),
        ensures
            r == (self.total() >= other.total()),
    {
        self.seconds > other.seconds || (self.seconds == other.seconds && self.nanos
            >= other.nanos)
    }
}

/// How long to wait between two looks at something that is to come.
pub fn look_pause() -> (r: Span)
    ensures
        r == (Span { seconds: 0, nanos: 100_000_000 }),
{
    Span { seconds: 0, nanos: 100_000_000 }
}

/// The length of so many nanoseconds.
pub open spec fn span_of(nanos: int) -> Span {
    Span { seconds: (nanos / 1_000_000_000) as u64, nanos: (nanos % 1_000_000_000) as u32 }
}

/// A length is known by its nanoseconds.
pub proof fn lemma_span(span: Span)
    requires
        span.valid(),
    ensures
        span_of(span.total()) == span,
{
}

/// The time from `b` to `a`, where it is longer than nothing.
pub open spec fn span_until(a: Timestamp, b: Timestamp) -> Option<int> {
    if nanos_between(a, b) > 0 {
        Some(nanos_between(a, b))
    } else {
        None
    }
}

/// The day after `day`, or `n` days after it, where the calendar has it.
pub open spec fn days_later(day: i32, n: int) -> Option<i32> {
    if day + n <= LAST_DAY {
        Some((day + n) as i32)
    } else {
        None
    }
}

/// `NaiveDate::succ_opt`: the next day, unless `day` is the calendar's last.
#[verifier::external_body]
pub(crate) fn next_day(day: i32) -> (r: Option<i32>)
    requires
        FIRST_DAY <= day <= LAST_DAY,
    ensures
        r == days_later(day, 1),
{
    let date = NaiveDate::from_num_days_from_ce_opt(day).expect("valid day");
    date.succ_opt().map(|next| chrono::Datelike::num_days_from_ce(&next))
}

/// `NaiveDate::checked_add_days`: the day `n` days later, if the calendar has it.
#[verifier::external_body]
pub(crate) fn day_after(day: i32, n: u64) -> (r: Option<i32>)
    requires
        FIRST_DAY <= day <= LAST_DAY,
    ensures
        r == days_later(day, n as int),
{
    let date = NaiveDate::from_num_days_from_ce_opt(day).expect("valid day");
    date.checked_add_days(Days::new(n)).map(|later| chrono::Datelike::num_days_from_ce(&later))
}

/// Where no leap second is involved, adding seconds moves an instant by just so many, and the time between the
/// two is just that; it is nothing between an instant and itself, and the other way round between the
/// two the other way round.
pub proof fn law_seconds_add_up(t: Timestamp, u: Timestamp, n: int)
    requires
        t.nanos < 1_000_000_000,
        u.nanos < 1_000_000_000,
    ensures
        seconds_later(t, n) == (t.seconds + n, t.nanos as int),
        u.seconds == t.seconds + n && u.nanos == t.nanos ==> nanos_between(u, t) == n
            * 1_000_000_000 && whole_seconds(nanos_between(u, t)) == n,
        nanos_between(u, t) == -nanos_between(t, u),
        nanos_between(t, t) == 0,
        t.precedes(u) <==> nanos_between(u, t) > 0,
{
    assert((n * 1_000_000_000) / 1_000_000_000 == n) by (nonlinear_arith);
    assert((-n * 1_000_000_000) / 1_000_000_000 == -n) by (nonlinear_arith);
}

/// A part of a second does not count as one, whichever way the time goes.
pub proof fn law_parts_of_a_second_do_not_count(n: nat, part: nat)
    requires
        part < 1_000_000_000,
    ensures
        whole_seconds((n * 1_000_000_000 + part) as int) == n,
        whole_seconds(-(n * 1_000_000_000 + part)) == -n,
{
}

} // verus!
