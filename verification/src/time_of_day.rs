//! Clock times of day at minute resolution, and the rounding policy that
//! turns an instant within the local day into such a time.
//!
//! Instants are counted in microminutes (millionths of a minute) after local
//! midnight, so that four minutes per degree of longitude and per degree of
//! hour angle stay exact integer multiples.

use vstd::prelude::*;
use vstd::arithmetic::div_mod::{
    lemma_div_denominator, lemma_div_is_ordered, lemma_div_pos_is_pos,
    lemma_fundamental_div_mod, lemma_fundamental_div_mod_converse_div,
    lemma_hoist_over_denominator, lemma_mod_division_less_than_divisor,
    lemma_mod_multiples_vanish,
};

verus! {

/// Microminutes in one day: 1440 minutes.
pub const DAY_MICROMINUTES: i64 = 1_440_000_000;

/// Instants handed to `TimeOfDay::from_microminutes` must lie within this many
/// microminutes of the local midnight they are counted from (one hundred
/// days), so that folding them into a single day cannot overflow.
pub const MAX_INSTANT_MICROMINUTES: i64 = 144_000_000_000;

/// A clock time of day at minute resolution. Seconds are deliberately absent:
/// sunrise and sunset are reported to the minute, and downstream comparisons
/// rely on that consistent granularity.
#[derive(Clone, Copy, Debug, PartialEq, Eq, Structural)]
pub struct TimeOfDay {
    pub hour: u8,
    pub minute: u8,
}

/// The instant `t` microminutes after midnight, folded into a single day:
/// the remainder is always in `[0, DAY_MICROMINUTES)`.
pub open spec fn instant_in_day(t: int) -> int {
    t % (DAY_MICROMINUTES as int)
}

/// Whole seconds after midnight of an instant `t` microminutes after
/// midnight, rounded to the nearest second, half seconds upward.
/// One microminute is 3/50000 of a second.
pub open spec fn rounded_second(t: int) -> int {
    (3 * t + 25_000) / 50_000
}

/// Whole minutes after midnight of an instant `t` microminutes after
/// midnight, under the documented policy: round to the nearest second first,
/// then to the nearest minute, half minutes upward.
pub open spec fn minute_total(t: int) -> int {
    (rounded_second(t) + 30) / 60
}

/// The minute of the day read off the clock at the instant `t` microminutes
/// after midnight: the instant is folded into the day, rounded to a whole
/// minute, and a rounding up to 24:00 wraps to midnight.
pub open spec fn minute_of_day(t: int) -> int {
    minute_total(instant_in_day(t)) % 1440
}

/// The clock reading at the instant `t` microminutes after midnight.
pub open spec fn time_of_day_at(t: int) -> TimeOfDay {
    TimeOfDay {
        hour: (minute_of_day(t) / 60) as u8,
        minute: (minute_of_day(t) % 60) as u8,
    }
}

impl TimeOfDay {
    /// A valid clock reading: hours below 24, minutes below 60.
    pub open spec fn well_formed(self) -> bool {
        self.hour < 24 && self.minute < 60
    }

    /// The reading as a count of minutes since midnight.
    pub open spec fn minutes_of_day(self) -> int {
        60 * (self.hour as int) + self.minute as int
    }

    pub fn new(hour: u8, minute: u8) -> (r: TimeOfDay)
        requires
            hour < 24,
            minute < 60,
        ensures
            r.hour == hour,
            r.minute == minute,
            r.well_formed(),
    {
        TimeOfDay { hour, minute }
    }

    /// `self` reads no later in the day than `other`.
    pub fn le(self, other: TimeOfDay) -> (r: bool)
        ensures
            r == (self.minutes_of_day() <= other.minutes_of_day()),
    {
        let a: u32 = 60 * (self.hour as u32) + self.minute as u32;
        let b: u32 = 60 * (other.hour as u32) + other.minute as u32;
        a <= b
    }

    /// The clock reading at the instant `t` microminutes after local
    /// midnight. Rounding policy: the instant is rounded to the nearest
    /// second, the seconds to the nearest minute (halves upward), the
    /// seconds component of the reading is always zero, and an instant
    /// outside the day is folded into it, a rounding up to 24:00 wrapping
    /// to midnight.
    pub fn from_microminutes(t: i64) -> (r: TimeOfDay)
        requires
            -MAX_INSTANT_MICROMINUTES < t < MAX_INSTANT_MICROMINUTES,
        ensures
            r == time_of_day_at(t as int),
            r.well_formed(),
            r.minutes_of_day() == minute_of_day(t as int),
    {
        let shifted: u64 = (t + 100 * DAY_MICROMINUTES) as u64;
        let folded: u64 = shifted % (DAY_MICROMINUTES as u64);
        proof {
            lemma_mod_multiples_vanish(100, t as int, DAY_MICROMINUTES as int);
            lemma_mod_division_less_than_divisor(t as int, DAY_MICROMINUTES as int);
            assert(shifted as int == DAY_MICROMINUTES as int * 100 + t as int);
            assert(folded as int == instant_in_day(t as int));
        }
        let second: u64 = (3 * folded + 25_000) / 50_000;
        let total: u64 = ((second + 30) / 60) % 1440;
        proof {
            assert(total as int == minute_of_day(t as int));
            lemma_div_is_ordered(total as int, 1439, 60);
            lemma_fundamental_div_mod(total as int, 60);
        }
        let hour: u8 = (total / 60) as u8;
        let minute: u8 = (total % 60) as u8;
        TimeOfDay { hour, minute }
    }
}

/// The reading at any instant is a valid clock time, and reads back the
/// minute of the day at that instant.
pub proof fn lemma_time_of_day_at_well_formed(t: int)
    ensures
        time_of_day_at(t).well_formed(),
        time_of_day_at(t).minutes_of_day() == minute_of_day(t),
{
    let m = minute_of_day(t);
    lemma_mod_division_less_than_divisor(minute_total(instant_in_day(t)), 1440);
    assert(0 <= m < 1440);
    lemma_div_pos_is_pos(m, 60);
    lemma_div_is_ordered(m, 1439, 60);
    lemma_mod_division_less_than_divisor(m, 60);
    lemma_fundamental_div_mod(m, 60);
}

/// The two-stage rounding of `minute_total` collapses into one floor
/// division of microminutes.
pub proof fn lemma_minute_total_collapsed(t: int)
    requires
        0 <= t,
    ensures
        minute_total(t) == (3 * t + 1_525_000) / 3_000_000,
{
    lemma_hoist_over_denominator(3 * t + 25_000, 30, 50_000nat);
    assert(rounded_second(t) + 30 == (3 * t + 1_525_000) / 50_000);
    lemma_div_denominator(3 * t + 1_525_000, 50_000, 60);
    assert(((3 * t + 1_525_000) / 50_000) / 60 == (3 * t + 1_525_000) / 3_000_000);
}

/// Rounding to the minute is monotone: an earlier instant never reads later.
pub proof fn lemma_minute_total_monotone(t1: int, t2: int)
    requires
        t1 <= t2,
    ensures
        minute_total(t1) <= minute_total(t2),
{
    lemma_div_is_ordered(3 * t1 + 25_000, 3 * t2 + 25_000, 50_000);
    lemma_div_is_ordered(rounded_second(t1) + 30, rounded_second(t2) + 30, 60);
}

/// Within the day, the rounded minute lies between 0 and 1440.
pub proof fn lemma_minute_total_bounds(t: int)
    requires
        0 <= t < DAY_MICROMINUTES,
    ensures
        0 <= minute_total(t) <= 1440,
{
    lemma_div_pos_is_pos(3 * t + 25_000, 50_000);
    lemma_div_pos_is_pos(rounded_second(t) + 30, 60);
    lemma_minute_total_monotone(t, DAY_MICROMINUTES - 1);
    lemma_fundamental_div_mod_converse_div(4_320_024_997, 50_000, 86_400, 24_997);
    assert(rounded_second(DAY_MICROMINUTES - 1) == 86_400);
    lemma_fundamental_div_mod_converse_div(86_430, 60, 1440, 30);
    assert(minute_total(DAY_MICROMINUTES - 1) == 1440);
}

} // verus!
