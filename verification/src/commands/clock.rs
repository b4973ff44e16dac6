//! When the wall clock next shows a time, across days, gaps and repeated hours.

use vstd::prelude::*;
use vstd::string::*;

use super::{clock_of, parse_clock};
use crate::error::{AppError, Fault, outcome};
use crate::time::{self, EPOCH_DAY, FIRST_DAY, LAST_DAY, Timestamp};

verus! {

/// An instant, and how far the wall clock was ahead of UTC then, in seconds.
#[derive(Clone, Copy, Debug, PartialEq, Eq, Structural)]
pub struct LocalInstant {
    pub instant: Timestamp,
    pub offset: i32,
}

impl LocalInstant {
    /// What the wall clock shows: seconds since the first of January 1970 on it.
    pub open spec fn wall(self) -> int {
        self.instant.seconds + self.offset
    }

    /// The day that the wall clock shows.
    pub open spec fn day(self) -> int {
        self.wall() / 86_400 + EPOCH_DAY
    }

    /// Whether the calendar has the instant and the day.
    pub open spec fn valid(self) -> bool {
        &&& self.instant.valid()
        &&& -86_400 < self.offset < 86_400
        &&& FIRST_DAY <= self.day() <= LAST_DAY
    }

    /// The day that the wall clock shows.
    pub fn local_day(&self) -> (r: i32)
        requires
            self.valid(),
        ensures
            r == self.day(),
    {
        let base: i64 = time::FIRST_SECOND - 86_400;
        let wall: i64 = self.instant.seconds + self.offset as i64;
        let days: i64 = (wall - base) / 86_400;
        assert((wall - base) / 86_400 == wall / 86_400 + 96_465_293);
        (days - 96_465_293 + EPOCH_DAY as i64) as i32
    }
}

/// The instants at which the wall clock shows a time: none in a gap, two where it repeats itself.
#[derive(Clone, Copy, Debug, PartialEq, Eq, Structural)]
pub enum LocalResolution {
    Missing,
    Single(LocalInstant),
    Ambiguous(LocalInstant, LocalInstant),
}

impl LocalResolution {
    /// The instants, one by one.
    pub open spec fn instants(self) -> Seq<LocalInstant> {
        match self {
            LocalResolution::Missing => Seq::empty(),
            LocalResolution::Single(t) => seq![t],
            LocalResolution::Ambiguous(a, b) => seq![a, b],
        }
    }
}

impl LocalResolution {
    /// Whether the calendar has the instants.
    pub open spec fn valid(self) -> bool {
        match self {
            LocalResolution::Missing => true,
            LocalResolution::Single(t) => t.instant.valid(),
            LocalResolution::Ambiguous(a, b) => a.instant.valid() && b.instant.valid(),
        }
    }
}

/// How long a gap may be: three hours, in seconds.
pub const LONGEST_GAP: i64 = 10_800;

/// What the wall clock shows on a day at a second of it.
pub open spec fn wall_time(day: int, second: int) -> int {
    (day - EPOCH_DAY) * 86_400 + second
}

/// Whether `found` may be what looking for the first time from `requested` on that exists leads to:
/// nothing where three hours hold none.
pub open spec fn resolved<F: Fn(i64) -> LocalResolution>(
    localize: F,
    requested: int,
    found: Option<LocalResolution>,
) -> bool {
    match found {
        Some(r) => r !is Missing && exists|k: int|
            {
                &&& 0 <= k <= LONGEST_GAP
                &&& #[trigger] call_ensures(localize, ((requested + k) as i64,), r)
                &&& forall|j: int|
                    0 <= j < k ==> #[trigger] call_ensures(
                        localize,
                        ((requested + j) as i64,),
                        LocalResolution::Missing,
                    )
            },
        None => forall|j: int|
            0 <= j <= LONGEST_GAP ==> #[trigger] call_ensures(
                localize,
                ((requested + j) as i64,),
                LocalResolution::Missing,
            ),
    }
}

/// The instants of a resolution, or the error of one that was not found.
pub open spec fn found_instants(found: Option<LocalResolution>) -> Result<Seq<LocalInstant>, Fault> {
    match found {
        Some(r) => Ok(r.instants()),
        None => Err(Fault::Fail("cannot resolve --until local time within three hours"@)),
    }
}

/// The instants at which the wall clock shows `requested`, or the first time behind it that exists.
pub fn wall_candidates<F: Fn(i64) -> LocalResolution>(requested: i64, localize: &F) -> (r: Result<
    Vec<LocalInstant>,
    AppError,
>)
    requires
        requested <= i64::MAX - LONGEST_GAP,
        forall|wall: i64| call_requires(*localize, (wall,)),
    ensures
        exists|found: Option<LocalResolution>|
            {
                &&& #[trigger] resolved(*localize, requested as int, found)
                &&& found_instants(found) == (match r {
                    Ok(v) => Ok::<Seq<LocalInstant>, Fault>(v@),
                    Err(e) => Err(e@),
                })
            },
{
    let mut k: i64 = 0;
    while k <= LONGEST_GAP
        invariant
            0 <= k <= LONGEST_GAP + 1,
            requested <= i64::MAX - LONGEST_GAP,
            forall|wall: i64| call_requires(*localize, (wall,)),
            forall|j: int|
                0 <= j < k ==> #[trigger] call_ensures(
                    *localize,
                    ((requested + j) as i64,),
                    LocalResolution::Missing,
                ),
        decreases LONGEST_GAP + 1 - k,
    {
        let r = localize(requested + k);
        assert(call_ensures(*localize, ((requested + k as int) as i64,), r));
        match r {
            LocalResolution::Single(t) => {
                let mut v: Vec<LocalInstant> = Vec::new();
                v.push(t);
                assert(v@ =~= r.instants());
                assert(resolved(*localize, requested as int, Some(r)));
                return Ok(v);
            },
            LocalResolution::Ambiguous(a, b) => {
                let mut v: Vec<LocalInstant> = Vec::new();
                v.push(a);
                v.push(b);
                assert(v@ =~= r.instants());
                assert(resolved(*localize, requested as int, Some(r)));
                return Ok(v);
            },
            LocalResolution::Missing => {},
        }
        k = k + 1;
    }
    assert(resolved(*localize, requested as int, None));
    Err(AppError::fail("cannot resolve --until local time within three hours"))
}

/// The earliest of `instants` that is still to come; of two at once the first.
pub open spec fn earliest_after(now: Timestamp, instants: Seq<LocalInstant>) -> Option<LocalInstant>
    decreases instants.len(),
{
    if instants.len() == 0 {
        None
    } else {
        let best = earliest_after(now, instants.drop_last());
        let last = instants.last();
        if now.precedes(last.instant) && (best matches Some(b) ==> last.instant.precedes(
            b.instant,
        )) {
            Some(last)
        } else {
            best
        }
    }
}

/// The earliest of `instants` that is still to come.
pub fn first_future(now: &Timestamp, instants: &Vec<LocalInstant>) -> (r: Option<LocalInstant>)
    ensures
        r == earliest_after(*now, instants@),
{
    let mut best: Option<LocalInstant> = None;
    let mut i: usize = 0;
    assert(instants@.take(0) =~= Seq::<LocalInstant>::empty());
    while i < instants.len()
        invariant
            i <= instants@.len(),
            best == earliest_after(*now, instants@.take(i as int)),
        decreases instants@.len() - i,
    {
        let t = instants[i];
        assert(instants@.take(i + 1).drop_last() =~= instants@.take(i as int));
        let earlier = match &best {
            Some(b) => t.instant.is_before(&b.instant),
            None => true,
        };
        if now.is_before(&t.instant) && earlier {
            best = Some(t);
        }
        i = i + 1;
    }
    assert(instants@.take(i as int) =~= instants@);
    best
}

/// The next time, by what was found today and, where today holds none that is still to come, tomorrow.
pub open spec fn next_time(
    now: Timestamp,
    today: Option<LocalResolution>,
    tomorrow: Option<LocalResolution>,
) -> Result<LocalInstant, Fault> {
    match found_instants(today) {
        Err(e) => Err(e),
        Ok(instants) => match earliest_after(now, instants) {
            Some(t) => Ok(t),
            None => match found_instants(tomorrow) {
                Err(e) => Err(e),
                Ok(instants) => match earliest_after(now, instants) {
                    Some(t) => Ok(t),
                    None => Err(Fault::Fail("cannot resolve the next --until time"@)),
                },
            },
        },
    }
}

/// Whether tomorrow has to be looked at.
pub open spec fn needs_tomorrow(now: Timestamp, today: Option<LocalResolution>) -> bool {
    today matches Some(r) && earliest_after(now, r.instants()) is None
}

/// Whether `r` may be the next time at which the wall clock shows the second of the day.
pub open spec fn next_wall<F: Fn(i64) -> LocalResolution>(
    now: LocalInstant,
    second: int,
    localize: F,
    r: Result<LocalInstant, Fault>,
) -> bool {
    if now.day() == LAST_DAY {
        r == Err::<LocalInstant, Fault>(Fault::Fail("cannot resolve tomorrow's calendar date"@))
    } else {
        exists|today: Option<LocalResolution>, tomorrow: Option<LocalResolution>|
            {
                &&& resolved(localize, wall_time(now.day(), second), today)
                &&& needs_tomorrow(now.instant, today) ==> resolved(
                    localize,
                    wall_time(now.day() + 1, second),
                    tomorrow,
                )
                &&& r == #[trigger] next_time(now.instant, today, tomorrow)
            }
    }
}

/// The next instant at which the wall clock shows the second of the day.
pub fn next_wall_time<F: Fn(i64) -> LocalResolution>(
    now: &LocalInstant,
    second: u32,
    localize: F,
) -> (r: Result<LocalInstant, AppError>)
    requires
        now.valid(),
        second < 86_400,
        forall|wall: i64| call_requires(localize, (wall,)),
    ensures
        next_wall(*now, second as int, localize, outcome(r)),
{
    let today = now.local_day();
    let tomorrow = match time::next_day(today) {
        None => return Err(AppError::fail("cannot resolve tomorrow's calendar date")),
        Some(day) => day,
    };
    let wall: i64 = (today as i64 - EPOCH_DAY as i64) * 86_400 + second as i64;
    let first = wall_candidates(wall, &localize);
    let ghost found = choose|found: Option<LocalResolution>|
        {
            &&& #[trigger] resolved(localize, wall as int, found)
            &&& found_instants(found) == (match first {
                Ok(v) => Ok::<Seq<LocalInstant>, Fault>(v@),
                Err(e) => Err(e@),
            })
        };
    match first {
        Err(e) => {
            assert(Err::<LocalInstant, Fault>(e@) == next_time(now.instant, found, None));
            return Err(e);
        },
        Ok(v) => {
            match first_future(&now.instant, &v) {
                Some(t) => {
                    assert(Ok::<LocalInstant, Fault>(t) == next_time(now.instant, found, None));
                    return Ok(t);
                },
                None => {},
            }
        },
    }
    let wall: i64 = (tomorrow as i64 - EPOCH_DAY as i64) * 86_400 + second as i64;
    let second_day = wall_candidates(wall, &localize);
    let ghost later = choose|later: Option<LocalResolution>|
        {
            &&& #[trigger] resolved(localize, wall as int, later)
            &&& found_instants(later) == (match second_day {
                Ok(v) => Ok::<Seq<LocalInstant>, Fault>(v@),
                Err(e) => Err(e@),
            })
        };
    match second_day {
        Err(e) => {
            assert(Err::<LocalInstant, Fault>(e@) == next_time(now.instant, found, later));
            Err(e)
        },
        Ok(v) => match first_future(&now.instant, &v) {
            Some(t) => {
                assert(Ok::<LocalInstant, Fault>(t) == next_time(now.instant, found, later));
                Ok(t)
            },
            None => {
                let e = AppError::fail("cannot resolve the next --until time");
                assert(Err::<LocalInstant, Fault>(e@) == next_time(now.instant, found, later));
                Err(e)
            },
        },
    }
}

proof fn lemma_earliest_after(now: Timestamp, instants: Seq<LocalInstant>)
    ensures
        match earliest_after(now, instants) {
            Some(t) => {
                &&& instants.contains(t)
                &&& now.precedes(t.instant)
                &&& forall|i: int|
                    0 <= i < instants.len() && now.precedes((#[trigger] instants[i]).instant)
                        ==> !instants[i].instant.precedes(t.instant)
            },
            None => forall|i: int|
                0 <= i < instants.len() ==> !now.precedes((#[trigger] instants[i]).instant),
        },
    decreases instants.len(),
{
    if instants.len() > 0 {
        let front = instants.drop_last();
        lemma_earliest_after(now, front);
        assert(forall|i: int| 0 <= i < front.len() ==> front[i] == instants[i]);
        assert(instants[instants.len() - 1] == instants.last());
        match earliest_after(now, front) {
            Some(t) => {
                let i = choose|i: int| 0 <= i < front.len() && front[i] == t;
                assert(instants[i] == t);
            },
            None => {},
        }
        assert forall|i: int|
            0 <= i < instants.len() && now.precedes((#[trigger] instants[i]).instant)
                && earliest_after(now, instants) is Some implies !instants[i].instant.precedes(
            earliest_after(now, instants)->0.instant,
        ) by {
            if i < front.len() {
                assert(front[i] == instants[i]);
            }
        }
    }
}

/// The next time is one that the wall clock was found to show today or tomorrow; it is still to come,
/// no other of its day that is still to come is earlier, and tomorrow counts only where nothing of
/// today is still to come.
pub proof fn law_the_next_time_is_the_earliest_to_come(
    now: Timestamp,
    today: LocalResolution,
    tomorrow: LocalResolution,
)
    ensures
        next_time(now, Some(today), Some(tomorrow)) matches Ok(t) ==> {
            &&& now.precedes(t.instant)
            &&& today.instants().contains(t) || tomorrow.instants().contains(t)
            &&& forall|i: int|
                0 <= i < today.instants().len() && now.precedes(
                    (#[trigger] today.instants()[i]).instant,
                ) ==> today.instants().contains(t) && !today.instants()[i].instant.precedes(
                    t.instant,
                )
            &&& !today.instants().contains(t) ==> forall|i: int|
                0 <= i < tomorrow.instants().len() && now.precedes(
                    (#[trigger] tomorrow.instants()[i]).instant,
                ) ==> !tomorrow.instants()[i].instant.precedes(t.instant)
        },
{
    lemma_earliest_after(now, today.instants());
    lemma_earliest_after(now, tomorrow.instants());
}

/// The second of the day that an hour and a minute begin with.
pub open spec fn second_of(clock: (u32, u32)) -> int {
    clock.0 * 3600 + clock.1 * 60
}

/// The seconds from `now` to an instant that was found.
pub open spec fn seconds_to(now: LocalInstant, target: Result<LocalInstant, Fault>) -> Result<
    i64,
    Fault,
> {
    match target {
        Ok(t) => Ok((t.instant.seconds - now.instant.seconds) as i64),
        Err(e) => Err(e),
    }
}

/// Whether `r` may be the seconds until the wall clock next shows the second of the day.
pub open spec fn until_next<F: Fn(i64) -> LocalResolution>(
    now: LocalInstant,
    second: int,
    localize: F,
    r: Result<i64, Fault>,
) -> bool {
    exists|target: Result<LocalInstant, Fault>| #[trigger]
        next_wall(now, second, localize, target) && r == seconds_to(now, target)
}

/// The seconds until the wall clock next shows the time that `hhmm` writes.
pub fn seconds_until<F: Fn(i64) -> LocalResolution>(hhmm: &str, now: &LocalInstant, localize: F) -> (r:
    Result<i64, AppError>)
    requires
        now.valid(),
        forall|wall: i64| call_requires(localize, (wall,)),
        forall|wall: i64, found: LocalResolution|
            #[trigger] call_ensures(localize, (wall,), found) ==> found.valid(),
    ensures
        match clock_of(hhmm@) {
            Err(e) => outcome(r) == Err::<i64, Fault>(e),
            Ok(clock) => until_next(*now, second_of(clock), localize, outcome(r)),
        },
{
    let (hour, minute) = match parse_clock(hhmm) {
        Err(e) => return Err(e),
        Ok(clock) => clock,
    };
    let second: u32 = hour * 3600 + minute * 60;
    let target = next_wall_time(now, second, localize);
    let ghost model = outcome(target);
    assert(next_wall(*now, second_of((hour, minute)), localize, model));
    let r = match target {
        Err(e) => Err(e),
        Ok(t) => {
            proof {
                lemma_next_was_found(*now, second as int, localize, t);
                let (wall, found) = choose|wall: i64, found: LocalResolution| #[trigger]
                    call_ensures(localize, (wall,), found) && found.instants().contains(t);
                let i = choose|i: int|
                    0 <= i < found.instants().len() && found.instants()[i] == t;
                assert(found.instants()[i].instant.valid());
            }
            Ok(t.instant.seconds - now.instant.seconds)
        },
    };
    assert(outcome(r) == seconds_to(*now, model));
    assert(until_next(*now, second_of((hour, minute)), localize, outcome(r)));
    r
}

proof fn lemma_next_was_found<F: Fn(i64) -> LocalResolution>(
    now: LocalInstant,
    second: int,
    localize: F,
    t: LocalInstant,
)
    requires
        next_wall(now, second, localize, Ok(t)),
    ensures
        now.instant.precedes(t.instant),
        exists|wall: i64, found: LocalResolution| #[trigger]
            call_ensures(localize, (wall,), found) && found.instants().contains(t),
{
    let (today, tomorrow) = choose|
        today: Option<LocalResolution>,
        tomorrow: Option<LocalResolution>,
    |
        {
            &&& resolved(localize, wall_time(now.day(), second), today)
            &&& needs_tomorrow(now.instant, today) ==> resolved(
                localize,
                wall_time(now.day() + 1, second),
                tomorrow,
            )
            &&& Ok::<LocalInstant, Fault>(t) == #[trigger] next_time(now.instant, today, tomorrow)
        };
    lemma_earliest_after(now.instant, today->0.instants());
    lemma_earliest_after(now.instant, tomorrow->0.instants());
}

/// Whether every instant that is found begins a second, as every time on a wall clock does.
pub open spec fn whole_seconds<F: Fn(i64) -> LocalResolution>(localize: F) -> bool {
    forall|wall: i64, found: LocalResolution, t: LocalInstant| #[trigger]
        call_ensures(localize, (wall,), found) && #[trigger] found.instants().contains(t)
            ==> t.instant.nanos == 0
}

/// The time that is waited for is at least a second away, for what is found begins a second and is
/// still to come.
pub proof fn law_the_next_time_is_at_least_a_second_away<F: Fn(i64) -> LocalResolution>(
    now: LocalInstant,
    second: int,
    localize: F,
    n: i64,
)
    requires
        now.valid(),
        forall|wall: i64, found: LocalResolution| #[trigger]
            call_ensures(localize, (wall,), found) ==> found.valid(),
        whole_seconds(localize),
        until_next(now, second, localize, Ok(n)),
    ensures
        n >= 1,
{
    let target = choose|target: Result<LocalInstant, Fault>| #[trigger]
        next_wall(now, second, localize, target) && Ok::<i64, Fault>(n) == seconds_to(now, target);
    let t = target->Ok_0;
    lemma_next_was_found(now, second, localize, t);
    let (wall, found) = choose|wall: i64, found: LocalResolution| #[trigger]
        call_ensures(localize, (wall,), found) && found.instants().contains(t);
    let i = choose|i: int| 0 <= i < found.instants().len() && found.instants()[i] == t;
    assert(found.instants()[i].instant.valid());
}

/// Whether what is found is true of the wall clock: at every instant that is found for a time it shows that
/// time.
pub open spec fn shows_what_is_asked<F: Fn(i64) -> LocalResolution>(localize: F) -> bool {
    forall|wall: i64, found: LocalResolution, t: LocalInstant| #[trigger]
        call_ensures(localize, (wall,), found) && #[trigger] found.instants().contains(t)
            ==> t.instant.seconds + t.offset == wall
}

/// The time that is waited for is the hour and the minute that were asked for: at the instant that is
/// found the wall clock shows them, today or tomorrow, where it shows that time at all; where it does
/// not, it shows the first time behind it that exists, within three hours.
pub proof fn law_the_next_time_is_the_one_asked_for<F: Fn(i64) -> LocalResolution>(
    now: LocalInstant,
    hour: u32,
    minute: u32,
    localize: F,
    t: LocalInstant,
)
    requires
        now.valid(),
        hour < 24,
        minute < 60,
        shows_what_is_asked(localize),
        next_wall(now, second_of((hour, minute)), localize, Ok(t)),
    ensures
        exists|day: int, late: int|
            {
                let today = (now.instant.seconds + now.offset) / 86_400;
                &&& day == today || day == today + 1
                &&& 0 <= late <= 10_800
                &&& #[trigger] shown(day, hour, minute, late) == t.instant.seconds + t.offset
                &&& late > 0 ==> call_ensures(
                    localize,
                    (shown(day, hour, minute, 0) as i64,),
                    LocalResolution::Missing,
                )
            },
{
    let second = second_of((hour, minute));
    let (today, tomorrow) = choose|
        today: Option<LocalResolution>,
        tomorrow: Option<LocalResolution>,
    |
        {
            &&& resolved(localize, wall_time(now.day(), second), today)
            &&& needs_tomorrow(now.instant, today) ==> resolved(
                localize,
                wall_time(now.day() + 1, second),
                tomorrow,
            )
            &&& Ok::<LocalInstant, Fault>(t) == #[trigger] next_time(now.instant, today, tomorrow)
        };
    lemma_earliest_after(now.instant, today->0.instants());
    lemma_earliest_after(now.instant, tomorrow->0.instants());
    let (found, day) = if needs_tomorrow(now.instant, today) {
        (tomorrow->0, now.day() + 1 - EPOCH_DAY)
    } else {
        (today->0, now.day() - EPOCH_DAY)
    };
    let requested = wall_time(day + EPOCH_DAY, second);
    assert(resolved(localize, requested, Some(found)));
    let k = choose|k: int|
        {
            &&& 0 <= k <= LONGEST_GAP
            &&& #[trigger] call_ensures(localize, ((requested + k) as i64,), found)
            &&& forall|j: int|
                0 <= j < k ==> #[trigger] call_ensures(
                    localize,
                    ((requested + j) as i64,),
                    LocalResolution::Missing,
                )
        };
    assert(found.instants().contains(t));
    assert(shown(day, hour, minute, k) == requested + k);
    assert(shown(day, hour, minute, 0) == requested);
    if k > 0 {
        assert(call_ensures(localize, ((requested + 0) as i64,), LocalResolution::Missing));
    }
}

/// What the wall clock shows `late` seconds behind an hour and a minute of a day.
pub open spec fn shown(day: int, hour: u32, minute: u32, late: int) -> int {
    day * 86_400 + hour * 3_600 + minute * 60 + late
}

/// Whether the wall clock is always `offset` seconds ahead of UTC.
pub open spec fn never_changes<F: Fn(i64) -> LocalResolution>(localize: F, offset: i32) -> bool {
    forall|wall: i64, found: LocalResolution| #[trigger]
        call_ensures(localize, (wall,), found) ==> (found matches LocalResolution::Single(t)
            && t.offset == offset && t.instant.nanos == 0 && t.instant.seconds + offset == wall)
}

/// Where the wall clock never changes, the wait until an hour and a minute is at least a second and at most a
/// day, and at its end the clock shows just that hour and minute.
pub proof fn law_the_wait_ends_at_the_time_asked_for<F: Fn(i64) -> LocalResolution>(
    now: LocalInstant,
    hour: u32,
    minute: u32,
    localize: F,
    n: i64,
)
    requires
        now.valid(),
        hour < 24,
        minute < 60,
        never_changes(localize, now.offset),
        forall|wall: i64, found: LocalResolution| #[trigger]
            call_ensures(localize, (wall,), found) ==> found.valid(),
        until_next(now, second_of((hour, minute)), localize, Ok(n)),
    ensures
        1 <= n <= 86_400,
        ({
            let second = (now.instant.seconds + now.offset + n) % 86_400;
            &&& second / 3_600 == hour
            &&& second % 3_600 / 60 == minute
            &&& second % 60 == 0
        }),
{
    let second = second_of((hour, minute));
    let target = choose|target: Result<LocalInstant, Fault>| #[trigger]
        next_wall(now, second, localize, target) && Ok::<i64, Fault>(n) == seconds_to(now, target);
    let t = target->Ok_0;
    let (today, tomorrow) = choose|
        today: Option<LocalResolution>,
        tomorrow: Option<LocalResolution>,
    |
        {
            &&& resolved(localize, wall_time(now.day(), second), today)
            &&& needs_tomorrow(now.instant, today) ==> resolved(
                localize,
                wall_time(now.day() + 1, second),
                tomorrow,
            )
            &&& Ok::<LocalInstant, Fault>(t) == #[trigger] next_time(now.instant, today, tomorrow)
        };
    lemma_earliest_after(now.instant, today->0.instants());
    lemma_earliest_after(now.instant, tomorrow->0.instants());
    lemma_resolved_where_nothing_changes(localize, now.offset, wall_time(now.day(), second), today);
    let first = today->0->Single_0;
    assert(today->0.instants()[0] == first);
    if needs_tomorrow(now.instant, today) {
        lemma_resolved_where_nothing_changes(
            localize,
            now.offset,
            wall_time(now.day() + 1, second),
            tomorrow,
        );
        assert(t == tomorrow->0->Single_0);
        assert(!now.instant.precedes(first.instant));
    } else {
        assert(t == first);
    }
    assert(t.instant.valid());
    let wall = now.instant.seconds + now.offset;
    assert(wall == (wall / 86_400) * 86_400 + wall % 86_400);
    assert((wall + n) % 86_400 == hour * 3_600 + minute * 60) by {
        assert(wall + n == t.instant.seconds + t.offset);
    }
}

proof fn lemma_resolved_where_nothing_changes<F: Fn(i64) -> LocalResolution>(
    localize: F,
    offset: i32,
    requested: int,
    found: Option<LocalResolution>,
)
    requires
        never_changes(localize, offset),
        i64::MIN <= requested <= i64::MAX - 10_800,
        resolved(localize, requested, found),
    ensures
        found matches Some(LocalResolution::Single(t)) && t.offset == offset && t.instant.nanos == 0
            && t.instant.seconds + offset == requested,
{
    assert(!call_ensures(localize, (requested as i64,), LocalResolution::Missing));
    match found {
        Some(r) => {
            let k = choose|k: int|
                {
                    &&& 0 <= k <= LONGEST_GAP
                    &&& #[trigger] call_ensures(localize, ((requested + k) as i64,), r)
                    &&& forall|j: int|
                        0 <= j < k ==> #[trigger] call_ensures(
                            localize,
                            ((requested + j) as i64,),
                            LocalResolution::Missing,
                        )
                };
            if k > 0 {
                assert(call_ensures(localize, ((requested + 0) as i64,), LocalResolution::Missing));
            }
        },
        None => {
            assert(call_ensures(localize, ((requested + 0) as i64,), LocalResolution::Missing));
        },
    }
}

/// Where the wall clock never changes, every hour and minute is found, but on the last day of the calendar.
pub proof fn law_a_steady_clock_comes_to_every_time<F: Fn(i64) -> LocalResolution>(
    now: LocalInstant,
    hour: u32,
    minute: u32,
    localize: F,
    r: Result<i64, Fault>,
)
    requires
        now.valid(),
        now.day() < LAST_DAY,
        hour < 24,
        minute < 60,
        never_changes(localize, now.offset),
        until_next(now, second_of((hour, minute)), localize, r),
    ensures
        r is Ok,
{
    let second = second_of((hour, minute));
    let target = choose|target: Result<LocalInstant, Fault>| #[trigger]
        next_wall(now, second, localize, target) && r == seconds_to(now, target);
    let (today, tomorrow) = choose|
        today: Option<LocalResolution>,
        tomorrow: Option<LocalResolution>,
    |
        {
            &&& resolved(localize, wall_time(now.day(), second), today)
            &&& needs_tomorrow(now.instant, today) ==> resolved(
                localize,
                wall_time(now.day() + 1, second),
                tomorrow,
            )
            &&& target == #[trigger] next_time(now.instant, today, tomorrow)
        };
    lemma_earliest_after(now.instant, today->0.instants());
    lemma_earliest_after(now.instant, tomorrow->0.instants());
    lemma_resolved_where_nothing_changes(localize, now.offset, wall_time(now.day(), second), today);
    if needs_tomorrow(now.instant, today) {
        lemma_resolved_where_nothing_changes(
            localize,
            now.offset,
            wall_time(now.day() + 1, second),
            tomorrow,
        );
        let t = tomorrow->0->Single_0;
        assert(tomorrow->0.instants()[0] == t);
        let wall = now.instant.seconds + now.offset;
        assert(wall == (wall / 86_400) * 86_400 + wall % 86_400);
        assert(now.instant.precedes(t.instant));
    }
}

/// A time that the wall clock leaves out is found behind the gap, where that is three hours long at most: it is not
/// found only where nothing is for so long.
pub proof fn law_gaps_are_left_behind<F: Fn(i64) -> LocalResolution>(
    localize: F,
    requested: int,
    k: int,
    found: Option<LocalResolution>,
)
    requires
        0 <= k <= 10_800,
        !call_ensures(localize, ((requested + k) as i64,), LocalResolution::Missing),
        resolved(localize, requested, found),
    ensures
        found matches Some(r) && exists|j: int|
            0 <= j <= k && #[trigger] call_ensures(localize, ((requested + j) as i64,), r),
{
    match found {
        Some(r) => {
            let at = choose|at: int|
                {
                    &&& 0 <= at <= LONGEST_GAP
                    &&& #[trigger] call_ensures(localize, ((requested + at) as i64,), r)
                    &&& forall|j: int|
                        0 <= j < at ==> #[trigger] call_ensures(
                            localize,
                            ((requested + j) as i64,),
                            LocalResolution::Missing,
                        )
                };
            assert(at <= k);
        },
        None => {},
    }
}

} // verus!
