//! Waiting for a battery level, a deadline or a process, and the protocols of the helpers that do.

use vstd::prelude::*;
use vstd::string::*;

use crate::error::{AppError, Fault, outcome, viewed};
use crate::platform::Platform;
use crate::session::{self, Decimal};
use crate::text;
use crate::time::{self, Span, Timestamp};

pub mod lid;
pub mod unix;
pub mod windows;

verus! {

/// What the system says of its battery.
#[derive(Debug)]
pub struct BatteryStatus {
    pub percent: i32,
    pub charging: bool,
    pub discharging: bool,
    pub neutral_state: Option<String>,
}

/// What a `BatteryStatus` says.
pub struct Battery {
    pub percent: i32,
    pub charging: bool,
    pub discharging: bool,
    pub neutral_state: Option<Seq<char>>,
}

impl View for BatteryStatus {
    type V = Battery;

    open spec fn view(&self) -> Battery {
        Battery {
            percent: self.percent,
            charging: self.charging,
            discharging: self.discharging,
            neutral_state: text::maybe(self.neutral_state),
        }
    }
}

/// The state of a battery whose direction alone is known.
pub open spec fn plain_battery(percent: i32, charging: bool, discharging: bool) -> Battery {
    Battery {
        percent,
        charging,
        discharging,
        neutral_state: if !charging && !discharging {
            Some("not charging or discharging"@)
        } else {
            None
        },
    }
}

/// The state of a battery whose direction alone is known.
pub fn battery_status(percent: i32, charging: bool, discharging: bool) -> (r: BatteryStatus)
    ensures
        r@ == plain_battery(percent, charging, discharging),
{
    BatteryStatus {
        percent,
        charging,
        discharging,
        neutral_state: if !charging && !discharging {
            Some("not charging or discharging".to_owned())
        } else {
            None
        },
    }
}

/// How a target charge is met: at once, or by waiting while the charge goes up or down.
#[derive(Clone, Copy, Debug, PartialEq, Eq, Structural)]
pub enum ChargePlan {
    AlreadyMet,
    Wait(bool),
}

/// How `target` is met from the given state, or why it cannot be.
pub open spec fn charge_plan(target: i32, b: Battery) -> Result<ChargePlan, Fault> {
    let goal = "--until-charge "@ + text::signed_decimal(target as int)
        + " is unreachable while battery is "@;
    let level = " at "@ + text::signed_decimal(b.percent as int) + "%"@;
    if b.discharging {
        if b.percent == target {
            Ok(ChargePlan::AlreadyMet)
        } else if b.percent > target {
            Ok(ChargePlan::Wait(false))
        } else {
            Err(
                Fault::Usage(
                    goal + "discharging"@ + level
                        + "; connect power or choose a target at or below the current charge"@,
                ),
            )
        }
    } else if b.charging {
        Ok(
            if b.percent >= target {
                ChargePlan::AlreadyMet
            } else {
                ChargePlan::Wait(true)
            },
        )
    } else if b.percent == target {
        Ok(ChargePlan::AlreadyMet)
    } else {
        match b.neutral_state {
            Some(state) => Err(Fault::Usage(goal + state + level)),
            None => Err(Fault::Usage("cannot determine battery charging direction"@)),
        }
    }
}

fn unreachable(target: i32, state: &str, percent: i32, advice: &str) -> (r: AppError)
    ensures
        r@ == Fault::Usage(
            "--until-charge "@ + text::signed_decimal(target as int)
                + " is unreachable while battery is "@ + state@ + (" at "@ + text::signed_decimal(
                percent as int,
            ) + "%"@) + advice@,
        ),
{
    let mut m = "--until-charge ".to_owned();
    m.append(text::signed_decimal_text(target as i64).as_str());
    m.append(" is unreachable while battery is ");
    m.append(state);
    let ghost before = m@;
    m.append(" at ");
    m.append(text::signed_decimal_text(percent as i64).as_str());
    m.append("%");
    assert(m@ =~= before + (" at "@ + text::signed_decimal(percent as int) + "%"@));
    m.append(advice);
    AppError::Usage(m)
}

/// How `target` is met from the given state, or why it cannot be.
pub fn plan_charge(target: i32, status: &BatteryStatus) -> (r: Result<ChargePlan, AppError>)
    ensures
        outcome(r) == charge_plan(target, status@),
{
    if status.discharging {
        if status.percent == target {
            return Ok(ChargePlan::AlreadyMet);
        }
        if status.percent < target {
            return Err(
                unreachable(
                    target,
                    "discharging",
                    status.percent,
                    "; connect power or choose a target at or below the current charge",
                ),
            );
        }
        return Ok(ChargePlan::Wait(false));
    }
    if status.charging {
        return Ok(
            if status.percent >= target {
                ChargePlan::AlreadyMet
            } else {
                ChargePlan::Wait(true)
            },
        );
    }
    if status.percent == target {
        return Ok(ChargePlan::AlreadyMet);
    }
    match &status.neutral_state {
        Some(state) => {
            let e = unreachable(target, state.as_str(), status.percent, "");
            proof {
                reveal_strlit("");
                assert(e@.message() =~= charge_plan(target, status@)->Err_0.message());
            }
            Err(e)
        },
        None => Err(AppError::usage("cannot determine battery charging direction")),
    }
}

/// A plan is never made for a target on the wrong side: waiting goes up only from below the target and
/// down only from above it, and a target is met at once only where it would be met by then.
pub proof fn law_charge_plans_are_reachable(target: i32, b: Battery)
    ensures
        charge_plan(target, b) == Ok::<ChargePlan, Fault>(ChargePlan::Wait(true)) ==> b.percent
            < target && b.charging && !b.discharging,
        charge_plan(target, b) == Ok::<ChargePlan, Fault>(ChargePlan::Wait(false)) ==> b.percent
            > target && b.discharging,
        charge_plan(target, b) == Ok::<ChargePlan, Fault>(ChargePlan::AlreadyMet) ==> b.percent
            == target || (b.charging && !b.discharging && b.percent > target),
        b.percent == target ==> charge_plan(target, b) == Ok::<ChargePlan, Fault>(
            ChargePlan::AlreadyMet,
        ),
{
}

/// A charge that is waited for: where it started and which way it goes.
#[derive(Clone, Copy, Debug, PartialEq, Eq, Structural)]
pub struct PreparedCharge {
    pub initial_percent: i32,
    pub charging_up: bool,
}

/// What is to be done for a target charge.
#[derive(Clone, Copy, Debug, PartialEq, Eq, Structural)]
pub enum ChargePreparation {
    AlreadyMet(i32),
    Wait(PreparedCharge),
}

/// What is to be done for a target charge, by what was read of the battery.
pub open spec fn charge_preparation(target: i32, read: Result<Battery, Fault>) -> Result<
    ChargePreparation,
    Fault,
> {
    match read {
        Err(e) => Err(e),
        Ok(b) => match charge_plan(target, b) {
            Err(e) => Err(e),
            Ok(ChargePlan::AlreadyMet) => Ok(ChargePreparation::AlreadyMet(b.percent)),
            Ok(ChargePlan::Wait(up)) => Ok(
                ChargePreparation::Wait(
                    PreparedCharge { initial_percent: b.percent, charging_up: up },
                ),
            ),
        },
    }
}

/// What is to be done for a target charge, by what was read of the battery.
pub fn prepare_charge(target: i32, read: Result<BatteryStatus, AppError>) -> (r: Result<
    ChargePreparation,
    AppError,
>)
    ensures
        outcome(r) == charge_preparation(target, viewed(read)),
{
    match read {
        Err(e) => Err(e),
        Ok(status) => match plan_charge(target, &status) {
            Err(e) => Err(e),
            Ok(ChargePlan::AlreadyMet) => Ok(ChargePreparation::AlreadyMet(status.percent)),
            Ok(ChargePlan::Wait(up)) => Ok(
                ChargePreparation::Wait(
                    PreparedCharge { initial_percent: status.percent, charging_up: up },
                ),
            ),
        },
    }
}

/// How a charge that is waited for is described.
pub open spec fn charge_text(target: i32, charge: PreparedCharge) -> Seq<char> {
    text::signed_decimal(target as int) + "% (was "@ + text::signed_decimal(
        charge.initial_percent as int,
    ) + "%, "@ + if charge.charging_up {
        "charging up"@
    } else {
        "discharging down"@
    } + ")"@
}

pub fn charge_detail(target: i32, charge: &PreparedCharge) -> (r: String)
    ensures
        r@ == charge_text(target, *charge),
{
    let mut m = text::signed_decimal_text(target as i64);
    m.append("% (was ");
    m.append(text::signed_decimal_text(charge.initial_percent as i64).as_str());
    m.append("%, ");
    m.append(
        if charge.charging_up {
            "charging up"
        } else {
            "discharging down"
        },
    );
    m.append(")");
    m
}

/// The detail of a session that waits for a charge, where it is told before the session is published: on
/// Windows, and for the lid on a Mac, that of the charge; elsewhere the helper finds it out itself, and
/// what was asked for stays.
pub fn session_detail(
    platform: Platform,
    even_lid: bool,
    target: i32,
    charge: &PreparedCharge,
    requested: &str,
) -> (r: String)
    ensures
        r@ == (if platform == Platform::Windows || (platform == Platform::Macos && even_lid) {
            charge_text(target, *charge)
        } else {
            requested@
        }),
{
    let told = match platform {
        Platform::Windows => true,
        Platform::Macos => even_lid,
        Platform::Linux => false,
    };
    if told {
        charge_detail(target, charge)
    } else {
        requested.to_owned()
    }
}

/// How long to sleep before looking again.
pub open spec fn sleep_time(deadline: Option<Timestamp>, now: Timestamp, maximum: int) -> Option<int> {
    match deadline {
        None => Some(maximum),
        Some(deadline) => match time::span_until(deadline, now) {
            None => None,
            Some(left) => Some(
                if left < maximum {
                    left
                } else {
                    maximum
                },
            ),
        },
    }
}

/// How long to sleep before looking again.
pub open spec fn sleep_span(deadline: Option<Timestamp>, now: Timestamp, maximum: Span) -> Option<
    Span,
> {
    match sleep_time(deadline, now, maximum.total()) {
        Some(nanos) => Some(time::span_of(nanos)),
        None => None,
    }
}

/// How long to sleep before looking again: no longer than `maximum`, and not past a deadline; nothing where
/// the deadline has come.
pub fn poll_interval(deadline: Option<Timestamp>, now: Timestamp, maximum: Span) -> (r: Option<Span>)
    requires
        deadline matches Some(t) ==> t.valid(),
        now.valid(),
        maximum.valid(),
    ensures
        r == sleep_span(deadline, now, maximum),
        r matches Some(span) ==> span.valid(),
{
    proof {
        time::lemma_span(maximum);
    }
    match deadline {
        None => Some(maximum),
        Some(deadline) => match time::time_until(&deadline, &now) {
            None => None,
            Some((seconds, nanos)) => {
                let left = Span { seconds, nanos };
                proof {
                    time::lemma_span(left);
                }
                if seconds == 0 && nanos == 0 {
                    None
                } else if left.at_least(&maximum) {
                    Some(maximum)
                } else {
                    Some(left)
                }
            },
        },
    }
}

/// No sleep goes past its deadline or its maximum.
pub proof fn law_sleep_ends_by_the_deadline(deadline: Timestamp, now: Timestamp, maximum: int)
    ensures
        sleep_time(Some(deadline), now, maximum) matches Some(t) ==> t <= time::nanos_between(
            deadline,
            now,
        ) && t <= maximum,
        sleep_time(Some(deadline), now, maximum) is None <==> time::nanos_between(deadline, now) <= 0,
{
}

/// Whether the deadline is still to come.
pub fn deadline_still_pending(deadline: &Timestamp, now: &Timestamp) -> (r: bool)
    ensures
        r == now.precedes(*deadline),
{
    now.is_before(deadline)
}

/// How often a battery is looked at.
pub const POLL_SECONDS: u64 = 30;

/// How many failed looks in a row end the waiting.
pub const MAX_BATTERY_FAILURES: u8 = 3;

/// What a look at the battery means for the waiting.
#[derive(Clone, Copy, Debug, PartialEq, Eq, Structural)]
pub enum BatteryPoll {
    Continue,
    Reached,
    Failed,
}

/// Whether the charge has come to the target from the side that it started on.
pub open spec fn target_met(target: i32, up: bool, percent: i32) -> bool {
    if up {
        percent >= target
    } else {
        percent <= target
    }
}

/// What a look at the battery means, and how many looks in a row have failed with it. `percent` is
/// missing where the look failed.
pub open spec fn battery_poll(target: i32, up: bool, failures: u8, percent: Option<i32>) -> (
    BatteryPoll,
    int,
) {
    match percent {
        Some(percent) => (
            if target_met(target, up, percent) {
                BatteryPoll::Reached
            } else {
                BatteryPoll::Continue
            },
            0,
        ),
        None => (
            if failures + 1 < MAX_BATTERY_FAILURES {
                BatteryPoll::Continue
            } else {
                BatteryPoll::Failed
            },
            failures + 1,
        ),
    }
}

/// Counts a failed look, and tells whether it was one too many.
pub fn battery_failures_exhausted(failures: &mut u8) -> (r: bool)
    requires
        *old(failures) < u8::MAX,
    ensures
        *final(failures) == *old(failures) + 1,
        r == (*final(failures) >= MAX_BATTERY_FAILURES),
{
    *failures = *failures + 1;
    *failures >= MAX_BATTERY_FAILURES
}

/// What a look at the battery means.
pub fn poll_battery(target: i32, up: bool, failures: &mut u8, percent: Option<i32>) -> (r:
    BatteryPoll)
    requires
        *old(failures) < u8::MAX,
    ensures
        (r, *final(failures) as int) == battery_poll(target, up, *old(failures), percent),
{
    match percent {
        Some(percent) => {
            *failures = 0;
            if (up && percent >= target) || (!up && percent <= target) {
                BatteryPoll::Reached
            } else {
                BatteryPoll::Continue
            }
        },
        None => {
            if battery_failures_exhausted(failures) {
                BatteryPoll::Failed
            } else {
                BatteryPoll::Continue
            }
        },
    }
}

/// What is said when the battery cannot be read any more.
pub fn battery_failure_note(error: &AppError) -> (r: String)
    ensures
        r@ == "wake worker: battery read failed 3 consecutive times: "@ + error@.message()
            + "; stopping"@,
{
    let mut m = "wake worker: battery read failed 3 consecutive times: ".to_owned();
    m.append(error.message());
    m.append("; stopping");
    m
}

/// Three failed looks in a row end the waiting, and a look that succeeds starts the count anew.
pub proof fn law_three_failures_end_the_waiting(target: i32, up: bool)
    ensures
        battery_poll(target, up, 0, None) == (BatteryPoll::Continue, 1int),
        battery_poll(target, up, 1, None) == (BatteryPoll::Continue, 2int),
        battery_poll(target, up, 2, None) == (BatteryPoll::Failed, 3int),
        forall|n: u8, p: i32| (#[trigger] battery_poll(target, up, n, Some(p))).1 == 0,
{
}

/// The charge that `raw` writes, from one to a hundred.
pub open spec fn charge_target_of(raw: Seq<char>) -> Result<i32, Fault> {
    match session::positive_of(raw, "charge target"@, i32::MIN as int, i32::MAX as int) {
        Err(e) => Err(e),
        Ok(target) => if 1 <= target <= 100 {
            Ok(target as i32)
        } else {
            Err(Fault::Fail("charge target must be an integer from 1 to 100"@))
        },
    }
}

pub fn parse_charge_target(raw: &str) -> (r: Result<i32, AppError>)
    ensures
        outcome(r) == charge_target_of(raw@),
{
    match session::parse_positive::<i32>(raw, "charge target") {
        Err(e) => Err(e),
        Ok(target) => if 1 <= target && target <= 100 {
            Ok(target)
        } else {
            Err(AppError::fail("charge target must be an integer from 1 to 100"))
        },
    }
}

/// The integer other than zero that `raw` writes; nothing where it is empty.
pub open spec fn optional_positive_of(
    raw: Seq<char>,
    name: Seq<char>,
    least: int,
    greatest: int,
) -> Result<Option<int>, Fault> {
    if raw.len() == 0 {
        Ok(None)
    } else {
        match session::positive_of(raw, name, least, greatest) {
            Err(e) => Err(e),
            Ok(i) => Ok(Some(i)),
        }
    }
}

/// A result with its optional value seen as a number.
pub open spec fn optionally_numbered<T: Decimal>(r: Result<Option<T>, AppError>) -> Result<
    Option<int>,
    Fault,
> {
    match r {
        Ok(Some(v)) => Ok(Some(v.number())),
        Ok(None) => Ok(None),
        Err(e) => Err(e@),
    }
}

pub fn optional_positive<T: Decimal>(raw: &str, name: &str) -> (r: Result<Option<T>, AppError>)
    ensures
        optionally_numbered(r) == optional_positive_of(raw@, name@, T::least(), T::greatest()),
{
    if raw.is_empty() {
        return Ok(None);
    }
    match session::parse_positive::<T>(raw, name) {
        Err(e) => Err(e),
        Ok(v) => Ok(Some(v)),
    }
}

/// The instant that `raw` writes; nothing where it is empty.
pub open spec fn optional_utc_of(raw: Seq<char>, name: Seq<char>) -> Result<Option<Timestamp>, Fault> {
    if raw.len() == 0 {
        Ok(None)
    } else {
        match time::utc_of(raw, name) {
            Err(e) => Err(e),
            Ok(t) => Ok(Some(t)),
        }
    }
}

pub fn optional_utc(raw: &str, name: &str) -> (r: Result<Option<Timestamp>, AppError>)
    ensures
        outcome(r) == optional_utc_of(raw@, name@),
        r matches Ok(Some(t)) ==> t.valid(),
{
    if raw.is_empty() {
        return Ok(None);
    }
    match session::parse_utc(raw, name) {
        Err(e) => Err(e),
        Ok(t) => Ok(Some(t)),
    }
}

/// The target charge that `raw` writes; nothing where it is empty.
pub open spec fn optional_target_of(raw: Seq<char>) -> Result<Option<i32>, Fault> {
    if raw.len() == 0 {
        Ok(None)
    } else {
        match charge_target_of(raw) {
            Err(e) => Err(e),
            Ok(t) => Ok(Some(t)),
        }
    }
}

pub fn optional_target(raw: &str) -> (r: Result<Option<i32>, AppError>)
    ensures
        outcome(r) == optional_target_of(raw@),
{
    if raw.is_empty() {
        return Ok(None);
    }
    match parse_charge_target(raw) {
        Err(e) => Err(e),
        Ok(t) => Ok(Some(t)),
    }
}

/// A positive number is read back from its digits.
pub proof fn lemma_positive(n: nat, name: Seq<char>, least: int, greatest: int)
    requires
        least <= 0 < n <= greatest,
    ensures
        optional_positive_of(text::decimal(n), name, least, greatest) == Ok::<Option<int>, Fault>(
            Some(n as int),
        ),
{
    text::lemma_decimal(n);
    assert(text::digit(text::decimal(n)[0]));
}

/// A target charge is read back from its digits.
pub proof fn lemma_target(target: int)
    requires
        1 <= target <= 100,
    ensures
        optional_target_of(text::signed_decimal(target)) == Ok::<Option<i32>, Fault>(
            Some(target as i32),
        ),
{
    text::lemma_decimal(target as nat);
    assert(text::digit(text::decimal(target as nat)[0]));
}

/// A target charge is refused exactly where the charge moves away from it, or does not move and is not there;
/// it is waited for exactly where the charge moves towards it, and then in just that direction.
pub proof fn law_charges_are_waited_for_where_they_come(target: i32, b: Battery)
    requires
        !(b.charging && b.discharging),
    ensures
        charge_plan(target, b) == Ok::<ChargePlan, Fault>(ChargePlan::Wait(true)) <==> b.charging
            && b.percent < target,
        charge_plan(target, b) == Ok::<ChargePlan, Fault>(ChargePlan::Wait(false)) <==> b.discharging
            && b.percent > target,
        charge_plan(target, b) is Err <==> (b.discharging && b.percent < target) || (!b.charging
            && !b.discharging && b.percent != target),
{
}

/// Whatever is waited for is not met yet, and once the charge stands at the target it is.
pub proof fn law_waiting_comes_to_an_end(target: i32, b: Battery, up: bool, percent: i32)
    requires
        charge_preparation(target, Ok(b)) matches Ok(ChargePreparation::Wait(c)) && c.charging_up
            == up,
    ensures
        charge_preparation(target, Ok(b)) == Ok::<ChargePreparation, Fault>(
            ChargePreparation::Wait(
                PreparedCharge { initial_percent: b.percent, charging_up: up },
            ),
        ),
        battery_poll(target, up, 0, Some(b.percent)).0 == BatteryPoll::Continue,
        battery_poll(target, up, 0, Some(target)).0 == BatteryPoll::Reached,
        up && percent > target ==> battery_poll(target, up, 0, Some(percent)).0
            == BatteryPoll::Reached,
        !up && percent < target ==> battery_poll(target, up, 0, Some(percent)).0
            == BatteryPoll::Reached,
{
}

/// The longest sleep is taken where no deadline is nearer, and just the time that is left otherwise.
pub proof fn law_sleep_is_as_long_as_it_may_be(
    deadline: Option<Timestamp>,
    now: Timestamp,
    maximum: Span,
)
    requires
        maximum.valid(),
    ensures
        deadline is None ==> sleep_span(deadline, now, maximum) == Some(maximum),
        deadline matches Some(t) ==> (time::nanos_between(t, now) >= maximum.total()
            && maximum.total() > 0 ==> sleep_span(deadline, now, maximum) == Some(maximum)),
        deadline matches Some(t) ==> (0 < time::nanos_between(t, now) < maximum.total() ==> (
        sleep_span(deadline, now, maximum) matches Some(span) && span.total()
            == time::nanos_between(t, now))),
{
    time::lemma_span(maximum);
}

/// A charge is a target exactly where it is a number from one to a hundred.
pub proof fn law_targets_are_percentages(n: int)
    requires
        1 <= n <= i32::MAX,
    ensures
        charge_target_of(text::signed_decimal(n)) == (if n <= 100 {
            Ok::<i32, Fault>(n as i32)
        } else {
            Err(Fault::Fail("charge target must be an integer from 1 to 100"@))
        }),
{
    lemma_positive(n as nat, "charge target"@, i32::MIN as int, i32::MAX as int);
}

/// A session that waits for a charge says from where it goes and which way, where that is told before it is
/// published; elsewhere it says what was asked for.
pub proof fn law_charge_sessions_say_what_they_wait_for(
    platform: Platform,
    even_lid: bool,
    target: i32,
    charge: PreparedCharge,
    requested: &str,
    r: String,
)
    requires
        call_ensures(session_detail, (platform, even_lid, target, &charge, requested), r),
    ensures
        platform == Platform::Linux ==> r@ == requested@,
        platform == Platform::Macos && !even_lid ==> r@ == requested@,
        platform == Platform::Windows || (platform == Platform::Macos && even_lid) ==> r@
            == text::signed_decimal(target as int) + "% (was "@ + text::signed_decimal(
            charge.initial_percent as int,
        ) + "%, "@ + (if charge.charging_up {
            "charging up"@
        } else {
            "discharging down"@
        }) + ")"@,
{
}

} // verus!
