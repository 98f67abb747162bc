//! The day/night switching decision.
//!
//! A scheduling loop wakes periodically, asks which of the two theme
//! commands is due given the current clock time, the day's sunrise and
//! sunset, and which command ran last, and then performs what was decided.
//! The decision itself is pure and lives here.

use vstd::prelude::*;
use crate::time_of_day::TimeOfDay;

verus! {

/// Which switching command ran last. `Neither` is the state at start-up,
/// before any command has run.
#[derive(Clone, Copy, Debug, PartialEq, Eq, Structural)]
pub enum LastExecuted {
    Day,
    Night,
    Neither,
}

/// What one wake-up of the scheduling loop must do: run the day command,
/// then run the night command, as flagged and in that order, and carry
/// `last` into the next wake-up.
#[derive(Clone, Copy, Debug, PartialEq, Eq, Structural)]
pub struct SwitchDecision {
    pub run_day: bool,
    pub run_night: bool,
    pub last: LastExecuted,
}

/// The clock time lies in the daylight interval, sunrise and sunset included.
pub open spec fn spec_is_day(sunrise: TimeOfDay, sunset: TimeOfDay, now: TimeOfDay) -> bool {
    sunrise.minutes_of_day() <= now.minutes_of_day()
        && now.minutes_of_day() <= sunset.minutes_of_day()
}

/// The clock time lies at or after sunset, or at or before sunrise.
pub open spec fn spec_is_night(sunrise: TimeOfDay, sunset: TimeOfDay, now: TimeOfDay) -> bool {
    sunset.minutes_of_day() <= now.minutes_of_day()
        || now.minutes_of_day() <= sunrise.minutes_of_day()
}

/// The decision of one wake-up. The day command is due when it is day and the
/// day command is not the one that ran last; the night command is then due
/// when it is night and, after any day run just decided, the night command is
/// not the one that ran last. At sunrise or sunset exactly, both can be due
/// in one wake-up, day first.
pub open spec fn spec_next_switch(
    last: LastExecuted,
    sunrise: TimeOfDay,
    sunset: TimeOfDay,
    now: TimeOfDay,
) -> SwitchDecision {
    let run_day = spec_is_day(sunrise, sunset, now) && last != LastExecuted::Day;
    let mid = if run_day { LastExecuted::Day } else { last };
    let run_night = spec_is_night(sunrise, sunset, now) && mid != LastExecuted::Night;
    SwitchDecision {
        run_day,
        run_night,
        last: if run_night { LastExecuted::Night } else { mid },
    }
}

/// It is day: sunrise has passed (or is striking) and sunset has not passed.
pub fn is_day(sunrise: TimeOfDay, sunset: TimeOfDay, now: TimeOfDay) -> (r: bool)
    ensures
        r == spec_is_day(sunrise, sunset, now),
{
    sunrise.le(now) && now.le(sunset)
}

/// It is night: sunset has passed (or is striking), or sunrise has not passed.
pub fn is_night(sunrise: TimeOfDay, sunset: TimeOfDay, now: TimeOfDay) -> (r: bool)
    ensures
        r == spec_is_night(sunrise, sunset, now),
{
    sunset.le(now) || now.le(sunrise)
}

/// Decide one wake-up of the scheduling loop.
pub fn next_switch(
    last: LastExecuted,
    sunrise: TimeOfDay,
    sunset: TimeOfDay,
    now: TimeOfDay,
) -> (r: SwitchDecision)
    ensures
        r == spec_next_switch(last, sunrise, sunset, now),
        r.run_day ==> (spec_is_day(sunrise, sunset, now) && last != LastExecuted::Day),
        r.run_night ==> spec_is_night(sunrise, sunset, now),
{
    let run_day = is_day(sunrise, sunset, now) && last != LastExecuted::Day;
    let mid = if run_day { LastExecuted::Day } else { last };
    let run_night = is_night(sunrise, sunset, now) && mid != LastExecuted::Night;
    SwitchDecision {
        run_day,
        run_night,
        last: if run_night { LastExecuted::Night } else { mid },
    }
}

/// Law: every clock time is day or night — the two predicates overlap at the
/// sunrise and sunset minutes and at no time leave a gap, whatever the two
/// readings are, so the scheduling loop always has a defined state to move to.
pub proof fn lemma_day_night_cover(sunrise: TimeOfDay, sunset: TimeOfDay, now: TimeOfDay)
    ensures
        spec_is_day(sunrise, sunset, now) || spec_is_night(sunrise, sunset, now),
{
}

/// Law: the decision never runs both commands while calling the moment
/// neither day nor night, and the carried state records the command that ran
/// last: after a wake-up that runs something, `last` names the command that
/// ran latest in it; after one that runs nothing, `last` is unchanged.
pub proof fn lemma_next_switch_records_last(
    last: LastExecuted,
    sunrise: TimeOfDay,
    sunset: TimeOfDay,
    now: TimeOfDay,
)
    ensures
        ({
            let r = spec_next_switch(last, sunrise, sunset, now);
            &&& (r.run_night ==> r.last == LastExecuted::Night)
            &&& (r.run_day && !r.run_night ==> r.last == LastExecuted::Day)
            &&& (!r.run_day && !r.run_night ==> r.last == last)
            &&& (r.run_day ==> spec_is_day(sunrise, sunset, now))
            &&& (r.run_night ==> spec_is_night(sunrise, sunset, now))
        }),
{
}

} // verus!
