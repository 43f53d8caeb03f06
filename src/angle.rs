//! Orbital angle derived from the number of whole days since 2000-01-01.
//!
//! An angle is held exactly as a count of 1/1461 degree steps, because
//! `360 / 365.25 == 1440 / 1461`: one day advances the angle by 1440 steps.
use vstd::arithmetic::div_mod::{
    lemma_fundamental_div_mod, lemma_fundamental_div_mod_converse, lemma_mod_multiples_vanish,
};
use vstd::prelude::*;

verus! {

/// Steps of angle in one degree.
pub const STEPS_PER_DEGREE: u32 = 1461;

/// Steps of angle gained per day.
pub const STEPS_PER_DAY: u32 = 1440;

/// Steps of angle in a full turn (360 degrees).
pub const STEPS_PER_TURN: u32 = 525960;

/// Seconds in one day.
pub const SECONDS_PER_DAY: u32 = 86400;

/// Days of `year` before the first of `month`.
pub open spec fn days_before_month(year: int, month: int) -> int
    decreases month,
{
    if month <= 1 {
        0
    } else {
        days_before_month(year, month - 1) + days_in_month(year, month - 1)
    }
}

/// The day number of a date in the proleptic Gregorian calendar, with
/// 1 January of year 1 as day 1.
pub open spec fn day_number(year: int, month: int, day: int) -> int {
    let y = year - 1;
    365 * y + y / 4 - y / 100 + y / 400 + days_before_month(year, month) + day
}

/// Leap years of the proleptic Gregorian calendar.
pub open spec fn is_leap_year(year: int) -> bool {
    year % 4 == 0 && (year % 100 != 0 || year % 400 == 0)
}

/// Days in a month of the given year.
pub open spec fn days_in_month(year: int, month: int) -> int {
    if month == 2 {
        if is_leap_year(year) {
            29
        } else {
            28
        }
    } else if month == 4 || month == 6 || month == 9 || month == 11 {
        30
    } else {
        31
    }
}

/// First year that chrono's dates cover.
pub const MIN_DATE_YEAR: i32 = -262143;

/// Last year that chrono's dates cover.
pub const MAX_DATE_YEAR: i32 = 262142;

/// A day that the calendar has, in the range of years that chrono covers.
pub open spec fn is_calendar_date(year: int, month: int, day: int) -> bool {
    &&& MIN_DATE_YEAR <= year <= MAX_DATE_YEAR
    &&& 1 <= month <= 12
    &&& 1 <= day <= days_in_month(year, month)
}

/// Relies on chrono's `NaiveDate::from_ymd_opt`, which yields a date exactly
/// for a day of the proleptic Gregorian calendar within its range of years,
/// and on `Datelike::num_days_from_ce`, which numbers that date from
/// 1 January of year 1 as day 1.
#[verifier::external_body]
fn days_from_ce(year: i32, month: u32, day: u32) -> (r: Option<i32>)
    ensures
        r is Some <==> is_calendar_date(year as int, month as int, day as int),
        r matches Some(n) ==> n == day_number(year as int, month as int, day as int),
{
    match chrono::NaiveDate::from_ymd_opt(year, month, day) {
        Some(date) => Some(chrono::Datelike::num_days_from_ce(&date)),
        None => None,
    }
}

/// A local date and time of day: the instant that an angle is computed for.
#[derive(Clone, Copy, Debug, PartialEq, Eq)]
pub struct LocalTime {
    pub year: i32,
    pub month: u32,
    pub day: u32,
    /// Seconds elapsed since local midnight.
    pub second_of_day: u32,
    /// Seconds by which local time is ahead of UTC at this instant.
    pub utc_offset: i32,
}

/// Integer division of `a` by a positive `b`, rounded toward zero.
pub open spec fn div_toward_zero(a: int, b: int) -> int {
    if a >= 0 {
        a / b
    } else {
        -((-a) / b)
    }
}

/// Whole days of real time from midnight of day number `epoch_day` to second
/// `second_of_day` of day number `day`, truncated toward zero; each side is a
/// local time, ahead of UTC by its own offset in seconds.
pub open spec fn whole_days_between(
    epoch_day: int,
    day: int,
    second_of_day: int,
    utc_offset: int,
    epoch_utc_offset: int,
) -> int {
    div_toward_zero(
        (day - epoch_day) * SECONDS_PER_DAY + second_of_day - utc_offset + epoch_utc_offset,
        SECONDS_PER_DAY as int,
    )
}

/// The whole days from 2000-01-01 00:00:00 local time, when local time was
/// ahead of UTC by `epoch_utc_offset` seconds, to `t`.
pub open spec fn days_since_epoch_spec(t: LocalTime, epoch_utc_offset: int) -> int {
    whole_days_between(
        day_number(2000, 1, 1),
        day_number(t.year as int, t.month as int, t.day as int),
        t.second_of_day as int,
        t.utc_offset as int,
        epoch_utc_offset,
    )
}

/// The angle, in steps, reached after `days` days.
pub open spec fn angle_steps(days: int) -> int {
    (days * STEPS_PER_DAY) % (STEPS_PER_TURN as int)
}

/// An orbital angle in [0, 360) degrees, kept as `steps / 1461` degrees.
#[derive(Clone, Copy, Debug, PartialEq, Eq)]
pub struct OrbitalAngle {
    pub steps: u32,
}

impl OrbitalAngle {
    pub open spec fn wf(self) -> bool {
        self.steps < STEPS_PER_TURN
    }

    /// The angle in steps of 1/1461 degree.
    pub open spec fn view_steps(self) -> int {
        self.steps as int
    }

    /// The angle `steps / 1461` degrees.
    pub fn from_steps(steps: u32) -> (r: OrbitalAngle)
        requires
            steps < STEPS_PER_TURN,
        ensures
            r.wf(),
            r.view_steps() == steps,
    {
        OrbitalAngle { steps }
    }

    /// The angle in steps of 1/1461 degree.
    pub fn steps(&self) -> (r: u32)
        ensures
            r == self.view_steps(),
    {
        self.steps
    }

    /// The angle rounded down to a whole number of degrees.
    pub fn whole_degrees(&self) -> (r: i32)
        requires
            self.wf(),
        ensures
            r == self.view_steps() / (STEPS_PER_DEGREE as int),
            0 <= r < 360,
    {
        (self.steps / STEPS_PER_DEGREE) as i32
    }
}

proof fn lemma_angle_reduces(days: int)
    ensures
        angle_steps(days) == ((days % 1461) * 1440) % 525960,
{
    lemma_fundamental_div_mod(days, 1461);
    let q = days / 1461;
    let r = days % 1461;
    assert(days * 1440 == (4 * q) * 525960 + r * 1440) by (nonlinear_arith)
        requires
            days == 1461 * q + r,
    ;
    lemma_mod_multiples_vanish(4 * q, r * 1440, 525960);
}

/// The angle reached `days` whole days after 2000-01-01: `days * 360 / 365.25`
/// degrees, reduced into [0, 360).
pub fn compute_angle(days: i64) -> (r: OrbitalAngle)
    ensures
        r.wf(),
        r.view_steps() == angle_steps(days as int),
{
    let rem: u64 = if days >= 0 {
        (days as u64) % 1461
    } else {
        let neg: u64 = (-(days as i128)) as u64;
        let m: u64 = neg % 1461;
        proof {
            lemma_fundamental_div_mod(neg as int, 1461);
            let k = (neg as int) / 1461;
            if m == 0 {
                lemma_fundamental_div_mod_converse(days as int, 1461, -k, 0);
            } else {
                lemma_fundamental_div_mod_converse(days as int, 1461, -k - 1, 1461 - m);
            }
        }
        if m == 0 {
            0
        } else {
            1461 - m
        }
    };
    proof {
        lemma_angle_reduces(days as int);
    }
    let steps: u32 = ((rem as u32) * STEPS_PER_DAY) % STEPS_PER_TURN;
    OrbitalAngle { steps }
}

/// Each elapsed day moves the angle on by exactly 1440 steps (360 / 365.25
/// degrees), wrapping at a full turn.
pub proof fn lemma_angle_advances_per_day(days: int)
    ensures
        0 <= angle_steps(days) < STEPS_PER_TURN,
        angle_steps(days + 1) == (angle_steps(days) + STEPS_PER_DAY) % (STEPS_PER_TURN as int),
{
    let t = STEPS_PER_TURN as int;
    let a = days * 1440;
    lemma_fundamental_div_mod(a, t);
    assert((days + 1) * 1440 == a + 1440) by (nonlinear_arith)
        requires
            a == days * 1440,
    ;
    lemma_mod_multiples_vanish(a / t, a % t + 1440, t);
    assert(a + 1440 == (a / t) * t + (a % t + 1440)) by (nonlinear_arith)
        requires
            a == t * (a / t) + a % t,
    ;
}

impl LocalTime {
    /// Whole days from 2000-01-01 00:00:00 local time to this instant,
    /// truncated toward zero; `epoch_utc_offset` is the seconds by which local
    /// time was ahead of UTC at that midnight. `None` where the date is not
    /// one the calendar has.
    pub fn days_since_epoch(&self, epoch_utc_offset: i32) -> (r: Option<i64>)
        ensures
            r is Some <==> is_calendar_date(self.year as int, self.month as int, self.day as int),
            r matches Some(d) ==> d == days_since_epoch_spec(*self, epoch_utc_offset as int),
    {
        let epoch = days_from_ce(2000, 1, 1);
        assert(is_calendar_date(2000, 1, 1));
        let today = days_from_ce(self.year, self.month, self.day);
        match (epoch, today) {
            (Some(e), Some(t)) => Some(
                whole_days(e, t, self.second_of_day, self.utc_offset, epoch_utc_offset),
            ),
            _ => None,
        }
    }
}

/// Whole days of real time from midnight of day number `epoch_day` to second
/// `second_of_day` of day number `day`, truncated toward zero, where local
/// time was ahead of UTC by `epoch_utc_offset` seconds at the first instant
/// and by `utc_offset` seconds at the second.
pub fn whole_days(
    epoch_day: i32,
    day: i32,
    second_of_day: u32,
    utc_offset: i32,
    epoch_utc_offset: i32,
) -> (r: i64)
    ensures
        r == whole_days_between(
            epoch_day as int,
            day as int,
            second_of_day as int,
            utc_offset as int,
            epoch_utc_offset as int,
        ),
{
    let diff: i64 = day as i64 - epoch_day as i64;
    assert(-8640000000 * 86400 < diff * 86400 < 8640000000 * 86400) by (nonlinear_arith)
        requires
            -8640000000 < diff < 8640000000,
    ;
    let total: i64 = diff * 86400 + second_of_day as i64 - utc_offset as i64
        + epoch_utc_offset as i64;
    if total >= 0 {
        ((total as u64) / 86400) as i64
    } else {
        let q: u64 = ((-total) as u64) / 86400;
        -(q as i64)
    }
}

} // verus!
