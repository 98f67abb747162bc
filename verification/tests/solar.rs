use thsw::solar::{Astronomy, SolarTimes};
use thsw::time_of_day::TimeOfDay;

// Solar quantities below (equation of time in microminutes, hour-angle cosine
// argument in billionths, hour angle in microdegrees) were computed with the
// NOAA-style trigonometric stage for the stated instants.

fn rise_set(r: SolarTimes) -> (TimeOfDay, TimeOfDay) {
    match r {
        SolarTimes::RiseSet { sunrise, sunset } => (sunrise, sunset),
        _ => panic!("expected sunrise and sunset"),
    }
}

fn minutes(t: TimeOfDay) -> i32 {
    60 * t.hour as i32 + t.minute as i32
}

#[test]
fn determinism_same_inputs_same_result() {
    let a = Astronomy::new(51_174_000, -1_822_400, 0);
    let r1 = a.process(-8_436_211, -26_377_064, 91_511_470);
    let r2 = a.process(-8_436_211, -26_377_064, 91_511_470);
    assert_eq!(r1, r2);
    let b = Astronomy::new(51_174_000, -1_822_400, 0);
    let r3 = b.process(-8_436_211, -26_377_064, 91_511_470);
    assert_eq!(r1, r3);
}

#[test]
fn known_value_march_equinox_swindon() {
    // 2024-03-20 12:00 UTC at 51.1740 N, -1.8224 E, UTC+0.
    let a = Astronomy::new(51_174_000, -1_822_400, 0);
    let r = a.process(-8_436_211, -26_377_064, 91_511_470);
    let (sunrise, sunset) = rise_set(r);
    assert_eq!(sunrise, TimeOfDay { hour: 6, minute: 10 });
    assert_eq!(sunset, TimeOfDay { hour: 18, minute: 22 });
    // The loose bounds the scenario asks for: sunrise within 06:00..07:00,
    // sunset within 18:00..19:00 local time.
    assert!(6 * 60 <= minutes(sunrise) && minutes(sunrise) <= 7 * 60);
    assert!(18 * 60 <= minutes(sunset) && minutes(sunset) <= 19 * 60);
}

#[test]
fn solar_noon_march_equinox_swindon() {
    let a = Astronomy::new(51_174_000, -1_822_400, 0);
    assert_eq!(a.noon_microminutes(-8_436_211), 735_725_811);
    assert_eq!(a.solar_noon(-8_436_211), TimeOfDay { hour: 12, minute: 16 });
}

#[test]
fn noon_formula_exact() {
    // 720 minutes - 4 min/deg * longitude - eqtime + 60 min/h * offset.
    let a = Astronomy::new(0, 45_000_000, 3);
    assert_eq!(a.noon_microminutes(0), 720_000_000 - 180_000_000 + 180_000_000);
    let b = Astronomy::new(0, -105_000_000, -6);
    assert_eq!(b.noon_microminutes(13_196_749), 766_803_251);
}

#[test]
fn ordering_sunrise_noon_sunset() {
    // 2024-10-06 12:00 UTC at 40 N, -105 E, UTC-6.
    let a = Astronomy::new(40_000_000, -105_000_000, -6);
    let noon = a.solar_noon(13_196_749);
    let (sunrise, sunset) = rise_set(a.process(13_196_749, 60_495_838, 86_531_726));
    assert_eq!(sunrise, TimeOfDay { hour: 7, minute: 1 });
    assert_eq!(noon, TimeOfDay { hour: 12, minute: 47 });
    assert_eq!(sunset, TimeOfDay { hour: 18, minute: 33 });
    assert!(minutes(sunrise) <= minutes(noon));
    assert!(minutes(noon) <= minutes(sunset));
}

#[test]
fn symmetry_about_solar_noon() {
    let cases: [(i64, i64, i32, i64, i64, i64); 3] = [
        (51_174_000, -1_822_400, 0, -8_436_211, -26_377_064, 91_511_470),
        (40_000_000, -105_000_000, -6, 13_196_749, 60_495_838, 86_531_726),
        (0, 0, 0, -1_444_603, -15_845_492, 90_907_918),
    ];
    for (lat, lon, tz, eq, cos_ha, ha) in cases {
        let a = Astronomy::new(lat, lon, tz);
        let noon = minutes(a.solar_noon(eq));
        let (sunrise, sunset) = rise_set(a.process(eq, cos_ha, ha));
        let before = noon - minutes(sunrise);
        let after = minutes(sunset) - noon;
        assert!((before - after).abs() <= 1);
    }
}

#[test]
fn equator_day_length_near_twelve_hours() {
    // 2024-06-20, 2024-03-20 and 2024-01-03, all at latitude 0.
    let cases: [(i64, i32, i64, i64, i64); 3] = [
        (0, 0, -1_444_603, -15_845_492, 90_907_918),
        (0, 0, -8_436_211, -14_538_128, 90_833_003),
        (45_000_000, 3, -4_246_923, -15_775_257, 90_903_893),
    ];
    for (lon, tz, eq, cos_ha, ha) in cases {
        let a = Astronomy::new(0, lon, tz);
        let (sunrise, sunset) = rise_set(a.process(eq, cos_ha, ha));
        let day_length = minutes(sunset) - minutes(sunrise);
        assert!((day_length - 12 * 60).abs() <= 10, "day length {day_length}");
    }
}

#[test]
fn polar_summer_is_continuous_day() {
    // 2024-06-20 12:00 UTC at 78 N: the cosine argument falls below -1.
    let a = Astronomy::new(78_000_000, 0, 0);
    let r = a.process(-1_444_603, -2_000_000_000, 0);
    assert_eq!(r, SolarTimes::ContinuousDay);
}

#[test]
fn polar_winter_is_continuous_night() {
    // 2024-12-21 12:00 UTC at 78 N: the cosine argument exceeds 1.
    let a = Astronomy::new(78_000_000, 0, 0);
    let r = a.process(1_367_305, 2_000_000_000, 0);
    assert_eq!(r, SolarTimes::ContinuousNight);
}

#[test]
fn cosine_boundary_is_not_polar() {
    // An argument of exactly 1.0 still has an hour angle (zero): sun grazes
    // the sunrise zenith, and sunrise, noon and sunset coincide.
    let a = Astronomy::new(78_000_000, 0, 0);
    let r = a.process(0, 1_000_000_000, 0);
    let (sunrise, sunset) = rise_set(r);
    assert_eq!(sunrise, sunset);
    assert_eq!(sunrise, a.solar_noon(0));
    assert_eq!(a.process(0, 1_000_000_001, 0), SolarTimes::ContinuousNight);
    assert_eq!(a.process(0, -1_000_000_001, 0), SolarTimes::ContinuousDay);
}
