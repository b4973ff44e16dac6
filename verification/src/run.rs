//! What a session is asked to do, and when it is done.

use vstd::prelude::*;
use vstd::string::*;

use crate::commands::clock::{self, LocalInstant, LocalResolution};
use crate::durations;
use crate::error::{AppError, Fault, outcome};
use crate::text;
use crate::time::{self, Span, Timestamp, EPOCH_DAY, FIRST_DAY, LAST_DAY};

pub use crate::supervisor::BatteryStatus;

verus! {

/// What a session keeps awake.
#[derive(Clone, Copy, Debug, PartialEq, Eq, Structural)]
pub enum Mode {
    DisplaySystem,
    SystemOnly,
}

impl Mode {
    pub fn no_display(self) -> (r: bool)
        ensures
            r == (self == Mode::SystemOnly),
    {
        self == Mode::SystemOnly
    }

    pub fn label(self) -> (r: &'static str)
        ensures
            r@ == (match self {
                Mode::DisplaySystem => "display+system"@,
                Mode::SystemOnly => "system-only"@,
            }),
    {
        match self {
            Mode::DisplaySystem => "display+system",
            Mode::SystemOnly => "system-only",
        }
    }
}

/// A process that a session waits for.
#[derive(Debug)]
pub struct ProcessRef {
    pub pid: u32,
    pub start: u64,
    pub command: String,
}

/// What a `ProcessRef` says.
pub struct Watched {
    pub pid: u32,
    pub start: u64,
    pub command: Seq<char>,
}

impl View for ProcessRef {
    type V = Watched;

    open spec fn view(&self) -> Watched {
        Watched { pid: self.pid, start: self.start, command: self.command@ }
    }
}

/// Whether nothing but white space is written.
pub open spec fn is_blank(s: Seq<char>) -> bool {
    text::trimmed(s).len() == 0
}

impl Watched {
    /// Whether this can be a process.
    pub open spec fn valid(self) -> bool {
        self.pid > 0 && self.start > 0 && !is_blank(self.command)
    }
}

impl ProcessRef {
    pub fn is_valid(&self) -> (r: bool)
        ensures
            r == self@.valid(),
    {
        self.pid > 0 && self.start > 0 && !text::trim(self.command.as_str()).is_empty()
    }
}

#[derive(Clone, Copy, Debug, PartialEq, Eq, Structural)]
pub enum ChargeDirection {
    Up,
    Down,
}

/// What ends a session.
#[derive(Debug)]
pub enum Trigger {
    Indefinite,
    Timed { seconds: i64, input: String },
    Until { ends_at: Timestamp, time: String },
    Pid { process: ProcessRef },
    App { name: String, process: ProcessRef },
    Charge { target: i32, initial: i32, direction: ChargeDirection },
}

/// What a `Trigger` says.
pub enum Condition {
    Indefinite,
    Timed { seconds: i64, input: Seq<char> },
    Until { ends_at: Timestamp, time: Seq<char> },
    Pid { process: Watched },
    App { name: Seq<char>, process: Watched },
    Charge { target: i32, initial: i32, direction: ChargeDirection },
}

impl View for Trigger {
    type V = Condition;

    open spec fn view(&self) -> Condition {
        match *self {
            Trigger::Indefinite => Condition::Indefinite,
            Trigger::Timed { seconds, input } => Condition::Timed { seconds, input: input@ },
            Trigger::Until { ends_at, time } => Condition::Until { ends_at, time: time@ },
            Trigger::Pid { process } => Condition::Pid { process: process@ },
            Trigger::App { name, process } => Condition::App { name: name@, process: process@ },
            Trigger::Charge { target, initial, direction } => Condition::Charge {
                target,
                initial,
                direction,
            },
        }
    }
}

/// What a trigger is called.
pub open spec fn condition_label(c: Condition) -> Seq<char> {
    match c {
        Condition::Indefinite => "indefinite"@,
        Condition::Timed { .. } => "timed"@,
        Condition::Until { .. } => "until-time"@,
        Condition::Pid { .. } => "while-pid"@,
        Condition::App { .. } => "while-app"@,
        Condition::Charge { .. } => "until-charge"@,
    }
}

/// What is told of a trigger.
pub open spec fn condition_detail(c: Condition) -> Seq<char> {
    match c {
        Condition::Indefinite => "indefinite"@,
        Condition::Timed { input, .. } => input,
        Condition::Until { time, .. } => "until "@ + time,
        Condition::Pid { process } => "pid "@ + text::decimal(process.pid as nat),
        Condition::App { name, process } => "app '"@ + name + "' (pid "@ + text::decimal(
            process.pid as nat,
        ) + ")"@,
        Condition::Charge { target, initial, direction } => text::signed_decimal(target as int)
            + "% (was "@ + text::signed_decimal(initial as int) + "%, "@ + (match direction {
            ChargeDirection::Up => "charging up"@,
            ChargeDirection::Down => "discharging down"@,
        }) + ")"@,
    }
}

/// Whether a session that ends so is over. One that lasts so many seconds goes by the time that has passed
/// alone, one that lasts until an instant by the wall clock alone.
pub open spec fn completed(c: Condition, wall_now: Timestamp, elapsed: Span) -> bool {
    match c {
        Condition::Timed { seconds, .. } => elapsed.seconds >= (if seconds >= 0 {
            seconds as int
        } else {
            seconds + 0x1_0000_0000_0000_0000
        }),
        Condition::Until { ends_at, .. } => !wall_now.precedes(ends_at),
        _ => false,
    }
}

impl Trigger {
    pub fn label(&self) -> (r: &'static str)
        ensures
            r@ == condition_label(self@),
    {
        match self {
            Trigger::Indefinite => "indefinite",
            Trigger::Timed { .. } => "timed",
            Trigger::Until { .. } => "until-time",
            Trigger::Pid { .. } => "while-pid",
            Trigger::App { .. } => "while-app",
            Trigger::Charge { .. } => "until-charge",
        }
    }

    pub fn detail(&self) -> (r: String)
        ensures
            r@ == condition_detail(self@),
    {
        match self {
            Trigger::Indefinite => "indefinite".to_owned(),
            Trigger::Timed { input, .. } => input.clone(),
            Trigger::Until { time, .. } => {
                let mut m = "until ".to_owned();
                m.append(time.as_str());
                m
            },
            Trigger::Pid { process } => {
                let mut m = "pid ".to_owned();
                m.append(text::decimal_text(process.pid as u64).as_str());
                m
            },
            Trigger::App { name, process } => {
                let mut m = "app '".to_owned();
                m.append(name.as_str());
                m.append("' (pid ");
                m.append(text::decimal_text(process.pid as u64).as_str());
                m.append(")");
                m
            },
            Trigger::Charge { target, initial, direction } => {
                let mut m = text::signed_decimal_text(*target as i64);
                m.append("% (was ");
                m.append(text::signed_decimal_text(*initial as i64).as_str());
                m.append("%, ");
                m.append(
                    match *direction {
                        ChargeDirection::Up => "charging up",
                        ChargeDirection::Down => "discharging down",
                    },
                );
                m.append(")");
                m
            },
        }
    }

    /// When a session that starts at `started_at` ends, if that is known. The calendar must have the
    /// end of one that lasts so many seconds.
    pub fn session_ends_at(&self, started_at: Timestamp) -> (r: Option<Timestamp>)
        requires
            started_at.valid(),
            self@ matches Condition::Timed { seconds, .. } ==> time::FIRST_SECOND
                <= time::seconds_later(started_at, seconds as int).0 <= time::LAST_SECOND,
        ensures
            match self@ {
                Condition::Timed { seconds, .. } => r matches Some(t) && (
                    t.seconds as int,
                    t.nanos as int,
                ) == time::seconds_later(started_at, seconds as int),
                Condition::Until { ends_at, .. } => r == Some(ends_at),
                _ => r is None,
            },
    {
        match self {
            Trigger::Timed { seconds, .. } => Some(time::add_seconds(&started_at, *seconds)),
            Trigger::Until { ends_at, .. } => Some(*ends_at),
            _ => None,
        }
    }

    pub fn is_complete(&self, wall_now: Timestamp, elapsed: Span) -> (r: bool)
        ensures
            r == completed(self@, wall_now, elapsed),
    {
        match self {
            Trigger::Timed { seconds, .. } => {
                let needed: i128 = if *seconds >= 0 {
                    *seconds as i128
                } else {
                    *seconds as i128 + 0x1_0000_0000_0000_0000
                };
                elapsed.seconds as i128 >= needed
            },
            Trigger::Until { ends_at, .. } => !wall_now.is_before(ends_at),
            _ => false,
        }
    }

    pub fn process(&self) -> (r: Option<&ProcessRef>)
        ensures
            (match r {
                Some(p) => Some(p@),
                None => None,
            }) == (match self@ {
                Condition::Pid { process } => Some(process),
                Condition::App { process, .. } => Some(process),
                _ => None,
            }),
    {
        match self {
            Trigger::Pid { process } => Some(process),
            Trigger::App { process, .. } => Some(process),
            _ => None,
        }
    }
}

/// A session that lasts so many seconds is not ended by the wall clock, and one that lasts until an instant
/// not by the time that has passed; once either is over it stays over.
pub proof fn law_each_end_has_one_clock(
    c: Condition,
    wall: Timestamp,
    other_wall: Timestamp,
    elapsed: Span,
    other_elapsed: Span,
)
    ensures
        c is Timed ==> completed(c, wall, elapsed) == completed(c, other_wall, elapsed),
        c is Until ==> completed(c, wall, elapsed) == completed(c, wall, other_elapsed),
        completed(c, wall, elapsed) && !other_wall.precedes(wall) && other_elapsed.seconds
            >= elapsed.seconds ==> completed(c, other_wall, other_elapsed),
{
}

/// What a session is asked to do.
#[derive(Debug)]
pub struct RunSpec {
    pub mode: Mode,
    pub trigger: Trigger,
    pub even_lid: bool,
}

/// What a `RunSpec` says.
pub struct Asked {
    pub mode: Mode,
    pub condition: Condition,
    pub even_lid: bool,
}

impl View for RunSpec {
    type V = Asked;

    open spec fn view(&self) -> Asked {
        Asked { mode: self.mode, condition: self.trigger@, even_lid: self.even_lid }
    }
}

/// Whether a session can be asked to end so.
pub open spec fn valid_condition(c: Condition) -> bool {
    match c {
        Condition::Indefinite => true,
        Condition::Timed { seconds, input } => 1 <= seconds <= durations::MAX_SECONDS && !is_blank(
            input,
        ),
        Condition::Until { time, .. } => !is_blank(time),
        Condition::Pid { process } => process.valid(),
        Condition::App { name, process } => !is_blank(name) && process.valid(),
        Condition::Charge { target, initial, direction } => 1 <= target <= 100 && 0 <= initial
            <= 100 && (match direction {
            ChargeDirection::Up => initial < target,
            ChargeDirection::Down => initial > target,
        }),
    }
}

impl ProcessRef {
    /// Whether both say the same.
    pub fn same(&self, other: &ProcessRef) -> (r: bool)
        ensures
            r == (self@ == other@),
    {
        self.pid == other.pid && self.start == other.start && text::same(
            self.command.as_str(),
            other.command.as_str(),
        )
    }
}

impl Trigger {
    /// Whether both say the same.
    pub fn same(&self, other: &Trigger) -> (r: bool)
        ensures
            r == (self@ == other@),
    {
        match (self, other) {
            (Trigger::Indefinite, Trigger::Indefinite) => true,
            (Trigger::Timed { seconds, input }, Trigger::Timed { seconds: s, input: i }) => *seconds
                == *s && text::same(input.as_str(), i.as_str()),
            (Trigger::Until { ends_at, time }, Trigger::Until { ends_at: e, time: t }) => *ends_at
                == *e && text::same(time.as_str(), t.as_str()),
            (Trigger::Pid { process }, Trigger::Pid { process: p }) => process.same(p),
            (Trigger::App { name, process }, Trigger::App { name: n, process: p }) => text::same(
                name.as_str(),
                n.as_str(),
            ) && process.same(p),
            (
                Trigger::Charge { target, initial, direction },
                Trigger::Charge { target: t, initial: i, direction: d },
            ) => *target == *t && *initial == *i && *direction == *d,
            _ => false,
        }
    }
}

impl RunSpec {
    /// Whether both ask for the same.
    pub fn same(&self, other: &RunSpec) -> (r: bool)
        ensures
            r == (self@ == other@),
    {
        self.mode == other.mode && self.trigger.same(&other.trigger) && self.even_lid
            == other.even_lid
    }

    pub fn validate(&self) -> (r: Result<(), AppError>)
        ensures
            outcome(r) == (if valid_condition(self.trigger@) {
                Ok::<(), Fault>(())
            } else {
                Err(Fault::Fail("invalid supervisor run specification"@))
            }),
    {
        let valid = match &self.trigger {
            Trigger::Indefinite => true,
            Trigger::Timed { seconds, input } => 1 <= *seconds && *seconds
                <= durations::MAX_SECONDS && !text::trim(input.as_str()).is_empty(),
            Trigger::Until { time, .. } => !text::trim(time.as_str()).is_empty(),
            Trigger::Pid { process } => process.is_valid(),
            Trigger::App { name, process } => !text::trim(name.as_str()).is_empty()
                && process.is_valid(),
            Trigger::Charge { target, initial, direction } => 1 <= *target && *target <= 100 && 0
                <= *initial && *initial <= 100 && match *direction {
                ChargeDirection::Up => *initial < *target,
                ChargeDirection::Down => *initial > *target,
            },
        };
        if valid {
            Ok(())
        } else {
            Err(AppError::fail("invalid supervisor run specification"))
        }
    }
}

/// Whether a target charge is there, or in which direction it is to be waited for.
#[derive(Clone, Copy, Debug, PartialEq, Eq, Structural)]
pub enum ChargePlan {
    Reached,
    Wait(ChargeDirection),
}

/// How the target charge is to be waited for, if it can be reached.
pub open spec fn planned(target: int, status: crate::supervisor::Battery) -> Result<ChargePlan, Fault> {
    if status.discharging {
        if status.percent == target {
            Ok(ChargePlan::Reached)
        } else if status.percent > target {
            Ok(ChargePlan::Wait(ChargeDirection::Down))
        } else {
            Err(
                Fault::Usage(
                    "--until-charge "@ + text::signed_decimal(target)
                        + " is unreachable while battery is discharging at "@
                        + text::signed_decimal(status.percent as int)
                        + "%; connect power or choose a target at or below the current charge"@,
                ),
            )
        }
    } else if status.charging {
        if status.percent >= target {
            Ok(ChargePlan::Reached)
        } else {
            Ok(ChargePlan::Wait(ChargeDirection::Up))
        }
    } else if status.percent == target {
        Ok(ChargePlan::Reached)
    } else {
        match status.neutral_state {
            Some(state) => Err(
                Fault::Usage(
                    "--until-charge "@ + text::signed_decimal(target)
                        + " is unreachable while battery is "@ + state + " at "@
                        + text::signed_decimal(status.percent as int) + "%"@,
                ),
            ),
            None => Err(Fault::Usage("cannot determine battery charging direction"@)),
        }
    }
}

/// How the target charge is to be waited for, if it can be reached.
pub fn plan_charge(target: i32, status: &BatteryStatus) -> (r: Result<ChargePlan, AppError>)
    ensures
        outcome(r) == planned(target as int, status@),
{
    if status.discharging {
        if status.percent == target {
            return Ok(ChargePlan::Reached);
        }
        if status.percent > target {
            return Ok(ChargePlan::Wait(ChargeDirection::Down));
        }
        let mut m = "--until-charge ".to_owned();
        m.append(text::signed_decimal_text(target as i64).as_str());
        m.append(" is unreachable while battery is discharging at ");
        m.append(text::signed_decimal_text(status.percent as i64).as_str());
        m.append("%; connect power or choose a target at or below the current charge");
        return Err(AppError::Usage(m));
    }
    if status.charging {
        return if status.percent >= target {
            Ok(ChargePlan::Reached)
        } else {
            Ok(ChargePlan::Wait(ChargeDirection::Up))
        };
    }
    if status.percent == target {
        return Ok(ChargePlan::Reached);
    }
    match &status.neutral_state {
        Some(state) => {
            let mut m = "--until-charge ".to_owned();
            m.append(text::signed_decimal_text(target as i64).as_str());
            m.append(" is unreachable while battery is ");
            m.append(state.as_str());
            m.append(" at ");
            m.append(text::signed_decimal_text(status.percent as i64).as_str());
            m.append("%");
            Err(AppError::Usage(m))
        },
        None => Err(AppError::usage("cannot determine battery charging direction")),
    }
}

/// A charge that is planned to be waited for makes a session that can be asked for, if target and charge
/// are percentages.
pub proof fn law_planned_charges_can_be_asked_for(
    target: i32,
    status: crate::supervisor::Battery,
    direction: ChargeDirection,
)
    requires
        1 <= target <= 100,
        0 <= status.percent <= 100,
        planned(target as int, status) == Ok::<ChargePlan, Fault>(ChargePlan::Wait(direction)),
    ensures
        valid_condition(Condition::Charge { target, initial: status.percent, direction }),
{
}

/// The hour and the minute that a time of day writes.
pub open spec fn clock_of(raw: Seq<char>) -> Result<(u32, u32), Fault> {
    match text::halves(raw, ':') {
        None => Err(Fault::Usage("--until expects HH:MM, got '"@ + raw + "'"@)),
        Some((hour, minute)) => if minute.contains(':') {
            Err(Fault::Usage("--until expects HH:MM, got '"@ + raw + "'"@))
        } else {
            match (
                text::integer_between(text::trimmed(hour), 0, u32::MAX as int),
                text::integer_between(text::trimmed(minute), 0, u32::MAX as int),
            ) {
                (Some(h), Some(m)) => if h <= 23 && m <= 59 {
                    Ok((h as u32, m as u32))
                } else {
                    Err(Fault::Usage("--until: invalid time '"@ + raw + "'"@))
                },
                _ => Err(Fault::Usage("--until: invalid time '"@ + raw + "'"@)),
            }
        },
    }
}

fn clock_error(before: &str, input: &str) -> (r: AppError)
    ensures
        r@ == Fault::Usage(before@ + input@ + "'"@),
{
    let mut m = before.to_owned();
    m.append(input);
    m.append("'");
    AppError::Usage(m)
}

/// The hour and the minute that a time of day writes.
pub fn parse_clock(input: &str) -> (r: Result<(u32, u32), AppError>)
    ensures
        outcome(r) == clock_of(input@),
        r matches Ok((h, m)) ==> h < 24 && m < 60,
{
    let (hour, minute) = match text::split_once(input, ':') {
        None => return Err(clock_error("--until expects HH:MM, got '", input)),
        Some(halves) => halves,
    };
    if text::contains_char(minute, ':') {
        return Err(clock_error("--until expects HH:MM, got '", input));
    }
    let h = text::parse_between(text::trim(hour), 0, u32::MAX as u64);
    let m = text::parse_between(text::trim(minute), 0, u32::MAX as u64);
    match (h, m) {
        (Some(h), Some(m)) => {
            if h <= 23 && m <= 59 {
                Ok((h as u32, m as u32))
            } else {
                Err(clock_error("--until: invalid time '", input))
            }
        },
        _ => Err(clock_error("--until: invalid time '", input)),
    }
}

/// How many days are tried at most: today and a little more than a year.
pub const TRIED_DAYS: u64 = 371;

/// The earliest instant of a resolution that is still to come.
pub open spec fn earliest(now: Timestamp, found: LocalResolution) -> Option<LocalInstant> {
    match found {
        LocalResolution::Missing => None,
        LocalResolution::Single(t) => if now.precedes(t.instant) {
            Some(t)
        } else {
            None
        },
        LocalResolution::Ambiguous(a, b) => if now.precedes(a.instant) && !(now.precedes(b.instant)
            && b.instant.precedes(a.instant)) {
            Some(a)
        } else if now.precedes(b.instant) {
            Some(b)
        } else {
            None
        },
    }
}

fn earliest_of(now: &Timestamp, found: LocalResolution) -> (r: Option<LocalInstant>)
    ensures
        r == earliest(*now, found),
{
    match found {
        LocalResolution::Missing => None,
        LocalResolution::Single(t) => if now.is_before(&t.instant) {
            Some(t)
        } else {
            None
        },
        LocalResolution::Ambiguous(a, b) => if now.is_before(&a.instant) && !(now.is_before(
            &b.instant,
        ) && b.instant.is_before(&a.instant)) {
            Some(a)
        } else if now.is_before(&b.instant) {
            Some(b)
        } else {
            None
        },
    }
}

/// Whether `tried` may be what the days from `day` on were found to have at the second, one by one.
pub open spec fn tries<F: Fn(i64) -> LocalResolution>(
    resolve: F,
    day: int,
    second: int,
    tried: Seq<LocalResolution>,
) -> bool {
    &&& tried.len() <= TRIED_DAYS
    &&& forall|i: int|
        0 <= i < tried.len() ==> day + i <= LAST_DAY && call_ensures(
            resolve,
            (clock::wall_time(day + i, second) as i64,),
            #[trigger] tried[i],
        )
}

/// Whether trying the days came to `r`: the earliest instant to come of the last one tried, where those
/// before have none; and nothing only where all days were tried or the calendar ended.
pub open spec fn tried_until(
    now: Timestamp,
    day: int,
    tried: Seq<LocalResolution>,
    r: Option<LocalInstant>,
) -> bool {
    match r {
        Some(t) => tried.len() > 0 && earliest(now, tried.last()) == Some(t) && forall|i: int|
            0 <= i < tried.len() - 1 ==> earliest(now, #[trigger] tried[i]) is None,
        None => (tried.len() == TRIED_DAYS || day + tried.len() > LAST_DAY) && forall|i: int|
            0 <= i < tried.len() ==> earliest(now, #[trigger] tried[i]) is None,
    }
}

/// Whether looking for the first instant to come at which the wall clock shows the second of a day, from `day`
/// on, may come to `r`.
pub open spec fn future_local<F: Fn(i64) -> LocalResolution>(
    now: Timestamp,
    day: int,
    second: int,
    resolve: F,
    r: Option<LocalInstant>,
) -> bool {
    exists|tried: Seq<LocalResolution>| #[trigger]
        tries(resolve, day, second, tried) && tried_until(now, day, tried, r)
}

/// The first instant to come at which the wall clock shows the second of a day, from `day` on. Days on which
/// the clock skips the time are passed over.
pub fn resolve_future_local<F: Fn(i64) -> LocalResolution>(
    now: Timestamp,
    day: i32,
    second: u32,
    resolve: F,
) -> (r: Option<LocalInstant>)
    requires
        FIRST_DAY <= day <= LAST_DAY,
        second < 86_400,
        forall|wall: i64| call_requires(resolve, (wall,)),
    ensures
        future_local(now, day as int, second as int, resolve, r),
{
    let ghost mut tried: Seq<LocalResolution> = Seq::empty();
    let mut offset: u64 = 0;
    while offset < TRIED_DAYS
        invariant
            offset <= TRIED_DAYS,
            FIRST_DAY <= day <= LAST_DAY,
            second < 86_400,
            forall|wall: i64| call_requires(resolve, (wall,)),
            tried.len() == offset,
            tries(resolve, day as int, second as int, tried),
            forall|i: int| 0 <= i < tried.len() ==> earliest(now, #[trigger] tried[i]) is None,
        decreases TRIED_DAYS - offset,
    {
        let date = match time::day_after(day, offset) {
            None => {
                assert(tried_until(now, day as int, tried, None));
                return None;
            },
            Some(date) => date,
        };
        let wall: i64 = (date as i64 - EPOCH_DAY as i64) * 86_400 + second as i64;
        let found = resolve(wall);
        let ghost more = tried.push(found);
        assert(tries(resolve, day as int, second as int, more)) by {
            assert forall|i: int| 0 <= i < more.len() implies day + i <= LAST_DAY && call_ensures(
                resolve,
                (clock::wall_time(day + i, second as int) as i64,),
                #[trigger] more[i],
            ) by {
                if i < tried.len() {
                    assert(more[i] == tried[i]);
                }
            }
        }
        assert forall|i: int| 0 <= i < more.len() - 1 implies earliest(now, #[trigger] more[i]) is None by {
            assert(more[i] == tried[i]);
        }
        match earliest_of(&now, found) {
            Some(t) => {
                assert(tried_until(now, day as int, more, Some(t)));
                return Some(t);
            },
            None => {},
        }
        proof {
            tried = more;
        }
        offset = offset + 1;
    }
    assert(tried_until(now, day as int, tried, None));
    None
}

/// An instant that is found is still to come, and no other instant to come of its day is earlier.
pub proof fn law_found_instants_are_the_earliest_to_come(
    now: Timestamp,
    found: LocalResolution,
    t: LocalInstant,
)
    requires
        earliest(now, found) == Some(t),
    ensures
        now.precedes(t.instant),
        forall|i: int|
            0 <= i < found.instants().len() && now.precedes(
                (#[trigger] found.instants()[i]).instant,
            ) ==> !found.instants()[i].instant.precedes(t.instant),
{
}

/// The instant that was found, or the error where there is none.
pub open spec fn found_deadline(input: Seq<char>, found: Option<LocalInstant>) -> Result<
    Timestamp,
    Fault,
> {
    match found {
        Some(t) => Ok(t.instant),
        None => Err(Fault::Fail("could not resolve local time '"@ + input + "'"@)),
    }
}

/// Whether the wall clock's next showing of the time that `input` writes may be `r`.
pub open spec fn deadline_of<F: Fn(i64) -> LocalResolution>(
    input: Seq<char>,
    now: LocalInstant,
    resolve: F,
    r: Result<Timestamp, Fault>,
) -> bool {
    match clock_of(input) {
        Err(e) => r == Err::<Timestamp, Fault>(e),
        Ok(clock) => next_deadline(input, now, clock::second_of(clock), resolve, r),
    }
}

/// Whether the wall clock's next showing of the second of a day may be `r`.
pub open spec fn next_deadline<F: Fn(i64) -> LocalResolution>(
    input: Seq<char>,
    now: LocalInstant,
    second: int,
    resolve: F,
    r: Result<Timestamp, Fault>,
) -> bool {
    exists|found: Option<LocalInstant>| #[trigger]
        future_local(now.instant, now.day(), second, resolve, found) && r == found_deadline(
            input,
            found,
        )
}

/// The instant at which the wall clock next shows the time that `input` writes.
pub fn until_deadline<F: Fn(i64) -> LocalResolution>(input: &str, now: &LocalInstant, resolve: F) -> (r:
    Result<Timestamp, AppError>)
    requires
        now.valid(),
        forall|wall: i64| call_requires(resolve, (wall,)),
    ensures
        deadline_of(input@, *now, resolve, outcome(r)),
{
    let (hour, minute) = match parse_clock(input) {
        Err(e) => return Err(e),
        Ok(clock) => clock,
    };
    let second: u32 = hour * 3600 + minute * 60;
    let found = resolve_future_local(now.instant, now.local_day(), second, resolve);
    let r = match found {
        Some(t) => Ok(t.instant),
        None => {
            let mut m = "could not resolve local time '".to_owned();
            m.append(input);
            m.append("'");
            Err(AppError::Fail(m))
        },
    };
    assert(future_local(now.instant, now.day(), second as int, resolve, found));
    assert(outcome(r) == found_deadline(input@, found));
    assert(next_deadline(input@, *now, clock::second_of((hour, minute)), resolve, outcome(r)));
    r
}

/// An hour and a minute in digits, with leading zeros or without, are read as just these numbers where there
/// is such a time of day, and refused otherwise.
pub proof fn law_times_of_day_are_read(hour: Seq<char>, minute: Seq<char>)
    requires
        hour.len() > 0 && text::all_digits(hour),
        minute.len() > 0 && text::all_digits(minute),
    ensures
        ({
            let h = text::digits_value(hour);
            let m = text::digits_value(minute);
            let r = clock_of(hour + seq![':'] + minute);
            &&& h < 24 && m < 60 ==> r == Ok::<(u32, u32), Fault>((h as u32, m as u32))
            &&& h >= 24 || m >= 60 ==> r is Err
        }),
{
    text::lemma_digits_are_trimmed(hour);
    text::lemma_digits_are_trimmed(minute);
    assert(!text::digit(':'));
    text::lemma_two_parts(hour, minute, ':');
    assert(text::digit(hour[0]) && text::digit(minute[0]));
}

/// The deadline is the hour and the minute that were asked for: the wall clock shows them then, on the day
/// that it shows now or on a later one.
pub proof fn law_deadlines_are_the_times_asked_for<F: Fn(i64) -> LocalResolution>(
    input: Seq<char>,
    now: LocalInstant,
    hour: u32,
    minute: u32,
    resolve: F,
    deadline: Timestamp,
)
    requires
        now.valid(),
        hour < 24,
        minute < 60,
        clock::shows_what_is_asked(resolve),
        next_deadline(input, now, clock::second_of((hour, minute)), resolve, Ok(deadline)),
    ensures
        now.instant.precedes(deadline),
        exists|day: int, offset: i32|
            {
                &&& day >= (now.instant.seconds + now.offset) / 86_400
                &&& #[trigger] clock::shown(day, hour, minute, 0) == deadline.seconds + #[trigger] as_seconds(
                    offset,
                )
            },
{
    let second = clock::second_of((hour, minute));
    let found = choose|found: Option<LocalInstant>| #[trigger]
        future_local(now.instant, now.day(), second, resolve, found) && Ok::<Timestamp, Fault>(
            deadline,
        ) == found_deadline(input, found);
    let t = found->0;
    let tried = choose|tried: Seq<LocalResolution>| #[trigger]
        tries(resolve, now.day(), second, tried) && tried_until(
            now.instant,
            now.day(),
            tried,
            found,
        );
    let i = tried.len() - 1;
    let last = tried[i];
    assert(tried.last() == last);
    let wall = clock::wall_time(now.day() + i, second);
    assert(call_ensures(resolve, (wall as i64,), last));
    if last.instants().len() > 0 {
        assert(last.instants()[0] == t || last.instants()[1] == t);
    }
    assert(last.instants().contains(t));
    let day = now.day() + i - EPOCH_DAY;
    assert(clock::shown(day, hour, minute, 0) == wall);
    assert(clock::shown(day, hour, minute, 0) == deadline.seconds + as_seconds(t.offset));
}

/// An offset from UTC, in seconds.
pub open spec fn as_seconds(offset: i32) -> int {
    offset as int
}

/// Where the wall clock never changes, every hour and minute is found within a day, but at the end of the
/// calendar.
pub proof fn law_a_steady_clock_has_every_deadline<F: Fn(i64) -> LocalResolution>(
    input: Seq<char>,
    now: LocalInstant,
    hour: u32,
    minute: u32,
    resolve: F,
    r: Result<Timestamp, Fault>,
)
    requires
        now.valid(),
        now.day() < LAST_DAY,
        hour < 24,
        minute < 60,
        clock::never_changes(resolve, now.offset),
        next_deadline(input, now, clock::second_of((hour, minute)), resolve, r),
    ensures
        r matches Ok(t) && {
            let n = t.seconds - now.instant.seconds;
            let second = (now.instant.seconds + now.offset + n) % 86_400;
            &&& 1 <= n <= 86_400
            &&& t.nanos == 0
            &&& second / 3_600 == hour
            &&& second % 3_600 / 60 == minute
            &&& second % 60 == 0
        },
{
    let second = clock::second_of((hour, minute));
    let found = choose|found: Option<LocalInstant>| #[trigger]
        future_local(now.instant, now.day(), second, resolve, found) && r == found_deadline(
            input,
            found,
        );
    let tried = choose|tried: Seq<LocalResolution>| #[trigger]
        tries(resolve, now.day(), second, tried) && tried_until(
            now.instant,
            now.day(),
            tried,
            found,
        );
    let wall = now.instant.seconds + now.offset;
    assert(wall == (wall / 86_400) * 86_400 + wall % 86_400);
    assert forall|i: int| 0 <= i < tried.len() implies (#[trigger] tried[i] matches LocalResolution::Single(
        t,
    ) && t.instant.nanos == 0 && t.instant.seconds + now.offset == (wall / 86_400 + i) * 86_400
        + second) by {
        assert(call_ensures(
            resolve,
            (clock::wall_time(now.day() + i, second) as i64,),
            tried[i],
        ));
    }
    if tried.len() > 1 {
        assert(earliest(now.instant, tried[1]) is Some);
        assert(earliest(now.instant, tried[0]) is None || found is Some);
    }
    match found {
        Some(t) => {
            if tried.len() > 2 {
                assert(earliest(now.instant, tried[1]) is None);
            }
            assert(tried.last() == tried[tried.len() - 1]);
            assert((wall + (t.instant.seconds - now.instant.seconds)) % 86_400 == second);
        },
        None => {
            assert(tried.len() >= 2);
        },
    }
}

/// A session that lasts so many seconds is over once so many have passed, one that lasts until an instant once the
/// wall clock is there, and no other is over by any clock. When it ends is told where it is known.
pub proof fn law_sessions_are_over_in_time(
    t: Trigger,
    started_at: Timestamp,
    wall_now: Timestamp,
    elapsed: Span,
    ends: Option<Timestamp>,
)
    requires
        valid_condition(t@),
        started_at.valid() && started_at.nanos < 1_000_000_000,
        t@ matches Condition::Timed { seconds, .. } ==> time::FIRST_SECOND <= time::seconds_later(
            started_at,
            seconds as int,
        ).0 <= time::LAST_SECOND,
        call_ensures(Trigger::session_ends_at, (&t, started_at), ends),
    ensures
        t@ matches Condition::Timed { seconds, .. } ==> (completed(t@, wall_now, elapsed)
            <==> elapsed.seconds >= seconds) && (ends matches Some(end) && time::nanos_between(
            end,
            started_at,
        ) == seconds * 1_000_000_000),
        t@ matches Condition::Until { ends_at, .. } ==> (completed(t@, wall_now, elapsed) <==> (
        ends_at.seconds < wall_now.seconds || (ends_at.seconds == wall_now.seconds && ends_at.nanos
            <= wall_now.nanos))) && ends == Some(ends_at),
        !(t@ is Timed) && !(t@ is Until) ==> !completed(t@, wall_now, elapsed) && ends is None,
{
}

/// A session can be asked for exactly where what it waits for can come: a duration of at least a second and within
/// the longest, a process that is known, a charge in percent on the far side of the one that it starts at.
pub proof fn law_conditions_can_come(c: Condition)
    ensures
        c is Indefinite ==> valid_condition(c),
        c matches Condition::Timed { seconds, input } ==> (valid_condition(c) <==> 1 <= seconds
            <= durations::MAX_SECONDS && text::trimmed(input).len() > 0),
        c matches Condition::Until { time, .. } ==> (valid_condition(c) <==> text::trimmed(
            time,
        ).len() > 0),
        c matches Condition::Pid { process } ==> (valid_condition(c) <==> process.pid > 0
            && process.start > 0 && text::trimmed(process.command).len() > 0),
        c matches Condition::App { name, process } ==> (valid_condition(c) <==> text::trimmed(
            name,
        ).len() > 0 && process.pid > 0 && process.start > 0 && text::trimmed(process.command).len()
            > 0),
        c matches Condition::Charge { target, initial, direction } ==> (valid_condition(c) <==> 1
            <= target <= 100 && 0 <= initial <= 100 && initial != target && (direction
            == ChargeDirection::Up <==> initial < target)),
{
}

/// A target charge is there, is waited for in the direction that the charge moves in, or is refused, where the
/// charge moves away from it or does not move.
pub proof fn law_charges_are_planned_as_they_move(
    target: i32,
    status: crate::supervisor::Battery,
)
    requires
        !(status.charging && status.discharging),
    ensures
        ({
            let r = planned(target as int, status);
            &&& r == Ok::<ChargePlan, Fault>(ChargePlan::Wait(ChargeDirection::Up))
                <==> status.charging && status.percent < target
            &&& r == Ok::<ChargePlan, Fault>(ChargePlan::Wait(ChargeDirection::Down))
                <==> status.discharging && status.percent > target
            &&& r == Ok::<ChargePlan, Fault>(ChargePlan::Reached) <==> status.percent == target || (
            status.charging && status.percent > target)
            &&& r is Err <==> (status.discharging && status.percent < target) || (!status.charging
                && !status.discharging && status.percent != target)
        }),
{
}

/// Each trigger has a name of its own, and what it waits for is told in its detail.
pub proof fn law_triggers_are_told(c: Condition, d: Condition)
    ensures
        condition_label(c) == condition_label(d) ==> {
            ||| c is Indefinite && d is Indefinite
            ||| c is Timed && d is Timed
            ||| c is Until && d is Until
            ||| c is Pid && d is Pid
            ||| c is App && d is App
            ||| c is Charge && d is Charge
        },
        c matches Condition::Timed { input, .. } ==> condition_detail(c) == input,
        c matches Condition::Until { time, .. } ==> condition_detail(c).skip(6) == time,
        c matches Condition::Pid { process } ==> condition_detail(c).skip(4) == text::decimal(
            process.pid as nat,
        ),
{
    reveal_strlit("indefinite");
    reveal_strlit("timed");
    reveal_strlit("until-time");
    reveal_strlit("while-pid");
    reveal_strlit("while-app");
    reveal_strlit("until-charge");
    reveal_strlit("until ");
    reveal_strlit("pid ");
    assert("indefinite"@.len() == 10 && "timed"@.len() == 5 && "until-time"@.len() == 10
        && "while-pid"@.len() == 9 && "while-app"@.len() == 9 && "until-charge"@.len() == 12);
    assert("indefinite"@[0] == 'i' && "until-time"@[0] == 'u');
    assert("while-pid"@[6] == 'p' && "while-app"@[6] == 'a');
    match c {
        Condition::Until { time, .. } => {
            assert(("until "@ + time).skip(6) =~= time);
        },
        Condition::Pid { process } => {
            let number = text::decimal(process.pid as nat);
            assert(("pid "@ + number).skip(4) =~= number);
        },
        _ => {},
    }
}

/// A time of day is given up only after a year and a little more, or at the end of the calendar.
pub proof fn law_a_year_of_days_is_tried(
    now: Timestamp,
    day: int,
    tried: Seq<LocalResolution>,
)
    requires
        tried_until(now, day, tried, None),
        day + tried.len() <= LAST_DAY,
    ensures
        tried.len() == 371,
{
}

} // verus!
