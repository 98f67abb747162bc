use thsw::switching::{is_day, is_night, next_switch, LastExecuted};
use thsw::time_of_day::TimeOfDay;

fn t(hour: u8, minute: u8) -> TimeOfDay {
    TimeOfDay::new(hour, minute)
}

#[test]
fn day_and_night_predicates() {
    let sunrise = t(6, 10);
    let sunset = t(18, 22);
    assert!(is_day(sunrise, sunset, t(12, 0)));
    assert!(!is_day(sunrise, sunset, t(5, 0)));
    assert!(!is_day(sunrise, sunset, t(22, 0)));
    assert!(is_night(sunrise, sunset, t(22, 0)));
    assert!(is_night(sunrise, sunset, t(5, 0)));
    assert!(!is_night(sunrise, sunset, t(12, 0)));
}

#[test]
fn startup_in_daylight_runs_day_command() {
    let d = next_switch(LastExecuted::Neither, t(6, 10), t(18, 22), t(12, 0));
    assert!(d.run_day);
    assert!(!d.run_night);
    assert_eq!(d.last, LastExecuted::Day);
}

#[test]
fn startup_at_night_runs_night_command() {
    let d = next_switch(LastExecuted::Neither, t(6, 10), t(18, 22), t(22, 0));
    assert!(!d.run_day);
    assert!(d.run_night);
    assert_eq!(d.last, LastExecuted::Night);
}

#[test]
fn no_repeat_while_state_unchanged() {
    let d = next_switch(LastExecuted::Day, t(6, 10), t(18, 22), t(12, 0));
    assert!(!d.run_day);
    assert!(!d.run_night);
    assert_eq!(d.last, LastExecuted::Day);
    let n = next_switch(LastExecuted::Night, t(6, 10), t(18, 22), t(22, 0));
    assert!(!n.run_day);
    assert!(!n.run_night);
    assert_eq!(n.last, LastExecuted::Night);
}

#[test]
fn sunset_passes_from_day_to_night() {
    let d = next_switch(LastExecuted::Day, t(6, 10), t(18, 22), t(18, 22));
    assert!(!d.run_day);
    assert!(d.run_night);
    assert_eq!(d.last, LastExecuted::Night);
}

#[test]
fn sunrise_passes_from_night_to_day() {
    // At the sunrise minute exactly, both predicates hold: the day command
    // runs first and the night command follows in the same wake-up.
    let d = next_switch(LastExecuted::Night, t(6, 10), t(18, 22), t(6, 10));
    assert!(d.run_day);
    assert!(d.run_night);
    assert_eq!(d.last, LastExecuted::Night);
    // A minute past sunrise only the day command is due.
    let e = next_switch(LastExecuted::Night, t(6, 10), t(18, 22), t(6, 11));
    assert!(e.run_day);
    assert!(!e.run_night);
    assert_eq!(e.last, LastExecuted::Day);
}
