//! Local sunrise and sunset from the solar quantities of the moment.
//!
//! The trigonometric stage of the NOAA-style approximation (equation of time,
//! solar declination, hour angle) runs outside this library on floating-point
//! values; its results are handed in here as scaled integers. This module
//! holds everything after that stage: solar noon, the polar-condition
//! decision, and the assembly and rounding of the two times of day.

use vstd::prelude::*;
use vstd::arithmetic::div_mod::{
    lemma_fundamental_div_mod, lemma_fundamental_div_mod_converse_div,
    lemma_mod_division_less_than_divisor, lemma_small_mod,
};
use crate::time_of_day::{
    TimeOfDay, DAY_MICROMINUTES, minute_total, time_of_day_at,
    lemma_minute_total_bounds, lemma_minute_total_collapsed,
    lemma_minute_total_monotone, lemma_time_of_day_at_well_formed,
};

verus! {

/// Scale of the dimensionless hour-angle cosine argument: the value 1.0 is
/// carried as this many integer units.
pub const COS_UNIT: i64 = 1_000_000_000;

/// Largest magnitude accepted for the equation of time, in microminutes
/// (a full day; the physical value stays below twenty minutes).
pub const MAX_EQTIME_MICROMINUTES: i64 = 1_440_000_000;

/// Largest hour angle, in microdegrees: 180 degrees, the top of the range of
/// an arc cosine.
pub const MAX_HOUR_ANGLE_MICRODEGREES: i64 = 180_000_000;

/// Largest magnitude accepted for a coordinate, in microdegrees. Physical
/// latitudes and longitudes are far smaller, but out-of-range coordinates are
/// accepted and merely give non-physical answers, so the bound is only what
/// keeps the arithmetic within `i64`.
pub const MAX_COORDINATE_MICRODEGREES: i64 = 1_000_000_000;

/// Largest magnitude accepted for a UTC offset, in whole hours.
pub const MAX_UTC_OFFSET_HOURS: i32 = 1_000;

/// Sunrise and sunset on the current day, or the polar condition under which
/// the hour-angle equation has no solution: the sun stays up all day near a
/// pole in its summer, or down all day in its winter.
#[derive(Clone, Copy, Debug, PartialEq, Eq, Structural)]
pub enum SolarTimes {
    RiseSet { sunrise: TimeOfDay, sunset: TimeOfDay },
    ContinuousDay,
    ContinuousNight,
}

/// An observer: geographic position in microdegrees, east longitude positive,
/// and the local UTC offset in whole hours.
#[derive(Clone, Copy, Debug, PartialEq, Eq, Structural)]
pub struct Astronomy {
    pub latitude_udeg: i64,
    pub longitude_udeg: i64,
    pub tz_hours: i32,
}

/// Solar noon in local standard time, in microminutes after local midnight:
/// 720 minutes, less four minutes per degree of longitude, less the equation
/// of time, plus sixty minutes per hour of UTC offset.
pub open spec fn spec_noon_microminutes(longitude_udeg: int, tz_hours: int, eqtime_umin: int) -> int {
    720_000_000 - 4 * longitude_udeg - eqtime_umin + 60_000_000 * tz_hours
}

/// Sunrise and sunset assembled from solar noon and the hour angle: each is
/// four minutes of time per degree of hour angle away from noon.
pub open spec fn spec_rise_set(noon_umin: int, ha_udeg: int) -> SolarTimes {
    SolarTimes::RiseSet {
        sunrise: time_of_day_at(noon_umin - 4 * ha_udeg),
        sunset: time_of_day_at(noon_umin + 4 * ha_udeg),
    }
}

/// The full result for one observer and one instant's solar quantities.
/// A cosine argument beyond 1.0 means the sun never reaches the sunrise
/// zenith: continuous night; one below -1.0 means it never sinks to it:
/// continuous day. Otherwise both times of day exist.
pub open spec fn spec_solar_times(
    longitude_udeg: int,
    tz_hours: int,
    eqtime_umin: int,
    cos_ha: int,
    ha_udeg: int,
) -> SolarTimes {
    if cos_ha > COS_UNIT {
        SolarTimes::ContinuousNight
    } else if cos_ha < -COS_UNIT {
        SolarTimes::ContinuousDay
    } else {
        spec_rise_set(spec_noon_microminutes(longitude_udeg, tz_hours, eqtime_umin), ha_udeg)
    }
}

impl Astronomy {
    /// The coordinate and offset bounds under which the fixed-point
    /// arithmetic cannot overflow.
    pub open spec fn valid(self) -> bool {
        &&& -MAX_COORDINATE_MICRODEGREES <= self.latitude_udeg <= MAX_COORDINATE_MICRODEGREES
        &&& -MAX_COORDINATE_MICRODEGREES <= self.longitude_udeg <= MAX_COORDINATE_MICRODEGREES
        &&& -MAX_UTC_OFFSET_HOURS <= self.tz_hours <= MAX_UTC_OFFSET_HOURS
    }

    pub fn new(latitude_udeg: i64, longitude_udeg: i64, tz_hours: i32) -> (r: Astronomy)
        requires
            -MAX_COORDINATE_MICRODEGREES <= latitude_udeg <= MAX_COORDINATE_MICRODEGREES,
            -MAX_COORDINATE_MICRODEGREES <= longitude_udeg <= MAX_COORDINATE_MICRODEGREES,
            -MAX_UTC_OFFSET_HOURS <= tz_hours <= MAX_UTC_OFFSET_HOURS,
        ensures
            r.latitude_udeg == latitude_udeg,
            r.longitude_udeg == longitude_udeg,
            r.tz_hours == tz_hours,
            r.valid(),
    {
        Astronomy { latitude_udeg, longitude_udeg, tz_hours }
    }

    /// Solar noon for this observer, in microminutes after local midnight.
    pub fn noon_microminutes(&self, eqtime_umin: i64) -> (r: i64)
        requires
            self.valid(),
            -MAX_EQTIME_MICROMINUTES <= eqtime_umin <= MAX_EQTIME_MICROMINUTES,
        ensures
            r == spec_noon_microminutes(
                self.longitude_udeg as int,
                self.tz_hours as int,
                eqtime_umin as int,
            ),
    {
        720_000_000 - 4 * self.longitude_udeg - eqtime_umin
            + 60_000_000 * (self.tz_hours as i64)
    }

    /// Solar noon for this observer as a clock reading.
    pub fn solar_noon(&self, eqtime_umin: i64) -> (r: TimeOfDay)
        requires
            self.valid(),
            -MAX_EQTIME_MICROMINUTES <= eqtime_umin <= MAX_EQTIME_MICROMINUTES,
        ensures
            r == time_of_day_at(spec_noon_microminutes(
                self.longitude_udeg as int,
                self.tz_hours as int,
                eqtime_umin as int,
            )),
            r.well_formed(),
    {
        let noon = self.noon_microminutes(eqtime_umin);
        TimeOfDay::from_microminutes(noon)
    }

    /// Sunrise and sunset for this observer, from the solar quantities of the
    /// calling instant: the equation of time in microminutes, the hour-angle
    /// cosine argument in units of `COS_UNIT`, and the hour angle in
    /// microdegrees (the arc cosine of that argument, meaningful only when
    /// the argument is within the unit range).
    pub fn process(&self, eqtime_umin: i64, cos_ha: i64, ha_udeg: i64) -> (r: SolarTimes)
        requires
            self.valid(),
            -MAX_EQTIME_MICROMINUTES <= eqtime_umin <= MAX_EQTIME_MICROMINUTES,
            0 <= ha_udeg <= MAX_HOUR_ANGLE_MICRODEGREES,
        ensures
            r == spec_solar_times(
                self.longitude_udeg as int,
                self.tz_hours as int,
                eqtime_umin as int,
                cos_ha as int,
                ha_udeg as int,
            ),
            r matches SolarTimes::RiseSet { sunrise, sunset } ==> sunrise.well_formed()
                && sunset.well_formed(),
    {
        if cos_ha > COS_UNIT {
            SolarTimes::ContinuousNight
        } else if cos_ha < -COS_UNIT {
            SolarTimes::ContinuousDay
        } else {
            let noon = self.noon_microminutes(eqtime_umin);
            let sunrise = TimeOfDay::from_microminutes(noon - 4 * ha_udeg);
            let sunset = TimeOfDay::from_microminutes(noon + 4 * ha_udeg);
            SolarTimes::RiseSet { sunrise, sunset }
        }
    }
}

/// Law: the computation is a pure function of its inputs. `process` pins its
/// result to `spec_solar_times` of the arguments alone, so two results
/// obtained for one observer and one instant's solar quantities are equal.
pub proof fn lemma_solar_times_deterministic(
    longitude_udeg: int,
    tz_hours: int,
    eqtime_umin: int,
    cos_ha: int,
    ha_udeg: int,
    r1: SolarTimes,
    r2: SolarTimes,
)
    requires
        r1 == spec_solar_times(longitude_udeg, tz_hours, eqtime_umin, cos_ha, ha_udeg),
        r2 == spec_solar_times(longitude_udeg, tz_hours, eqtime_umin, cos_ha, ha_udeg),
    ensures
        r1 == r2,
{
}

/// Law: sunrise reads no later than solar noon, and solar noon no later than
/// sunset, whenever the hour angle exists and both events fall within the
/// local day (no wrap across midnight).
pub proof fn lemma_sunrise_noon_sunset_ordered(noon_umin: int, ha_udeg: int)
    requires
        0 <= ha_udeg,
        0 <= noon_umin - 4 * ha_udeg,
        noon_umin + 4 * ha_udeg < DAY_MICROMINUTES,
        minute_total(noon_umin + 4 * ha_udeg) < 1440,
    ensures
        time_of_day_at(noon_umin - 4 * ha_udeg).minutes_of_day()
            <= time_of_day_at(noon_umin).minutes_of_day(),
        time_of_day_at(noon_umin).minutes_of_day()
            <= time_of_day_at(noon_umin + 4 * ha_udeg).minutes_of_day(),
{
    let rise = noon_umin - 4 * ha_udeg;
    let set = noon_umin + 4 * ha_udeg;
    lemma_time_of_day_at_well_formed(rise);
    lemma_time_of_day_at_well_formed(noon_umin);
    lemma_time_of_day_at_well_formed(set);
    lemma_small_mod(rise as nat, DAY_MICROMINUTES as nat);
    lemma_small_mod(noon_umin as nat, DAY_MICROMINUTES as nat);
    lemma_small_mod(set as nat, DAY_MICROMINUTES as nat);
    lemma_minute_total_monotone(rise, noon_umin);
    lemma_minute_total_monotone(noon_umin, set);
    lemma_minute_total_bounds(rise);
    lemma_minute_total_bounds(noon_umin);
    lemma_minute_total_bounds(set);
    lemma_small_mod(minute_total(rise) as nat, 1440);
    lemma_small_mod(minute_total(noon_umin) as nat, 1440);
    lemma_small_mod(minute_total(set) as nat, 1440);
}

/// Law: sunrise and sunset are equidistant from solar noon. Both are assembled
/// as noon plus or minus the same four minutes per degree of hour angle, so at
/// minute resolution the two distances differ by at most the one minute that
/// rounding can move them, whenever the hour angle exists and both events fall
/// within the local day.
pub proof fn lemma_sunrise_sunset_symmetric(noon_umin: int, ha_udeg: int)
    requires
        0 <= ha_udeg,
        0 <= noon_umin - 4 * ha_udeg,
        noon_umin + 4 * ha_udeg < DAY_MICROMINUTES,
        minute_total(noon_umin + 4 * ha_udeg) < 1440,
    ensures
        ({
            let rise = time_of_day_at(noon_umin - 4 * ha_udeg).minutes_of_day();
            let noon = time_of_day_at(noon_umin).minutes_of_day();
            let set = time_of_day_at(noon_umin + 4 * ha_udeg).minutes_of_day();
            -1 <= (noon - rise) - (set - noon) <= 1
        }),
{
    let rise_t = noon_umin - 4 * ha_udeg;
    let set_t = noon_umin + 4 * ha_udeg;
    lemma_time_of_day_at_well_formed(rise_t);
    lemma_time_of_day_at_well_formed(noon_umin);
    lemma_time_of_day_at_well_formed(set_t);
    lemma_small_mod(rise_t as nat, DAY_MICROMINUTES as nat);
    lemma_small_mod(noon_umin as nat, DAY_MICROMINUTES as nat);
    lemma_small_mod(set_t as nat, DAY_MICROMINUTES as nat);
    lemma_minute_total_monotone(rise_t, noon_umin);
    lemma_minute_total_monotone(noon_umin, set_t);
    lemma_minute_total_bounds(rise_t);
    lemma_minute_total_bounds(noon_umin);
    lemma_minute_total_bounds(set_t);
    lemma_small_mod(minute_total(rise_t) as nat, 1440);
    lemma_small_mod(minute_total(noon_umin) as nat, 1440);
    lemma_small_mod(minute_total(set_t) as nat, 1440);
    lemma_minute_total_collapsed(rise_t);
    lemma_minute_total_collapsed(noon_umin);
    lemma_minute_total_collapsed(set_t);
    let m = 3_000_000;
    let a = 3 * noon_umin + 1_525_000;
    let b = 12 * ha_udeg;
    assert(3 * rise_t + 1_525_000 == a - b);
    assert(3 * set_t + 1_525_000 == a + b);
    lemma_fundamental_div_mod(a, m);
    lemma_fundamental_div_mod(b, m);
    lemma_mod_division_less_than_divisor(a, m);
    lemma_mod_division_less_than_divisor(b, m);
    let q = a / m;
    let p = b / m;
    let rho = a % m;
    let sigma = b % m;
    if rho + sigma < m {
        lemma_fundamental_div_mod_converse_div(a + b, m, q + p, rho + sigma);
    } else {
        lemma_fundamental_div_mod_converse_div(a + b, m, q + p + 1, rho + sigma - m);
    }
    if rho - sigma >= 0 {
        lemma_fundamental_div_mod_converse_div(a - b, m, q - p, rho - sigma);
    } else {
        lemma_fundamental_div_mod_converse_div(a - b, m, q - p - 1, rho - sigma + m);
    }
}

} // verus!
