//! Sunrise and sunset times for an observer on Earth, at minute resolution.
//!
//! The library is the fixed-point core of a day/night theme switcher: it
//! assembles local sunrise and sunset times of day from the solar quantities
//! (equation of time, solar hour angle) and decides when the day and night
//! commands are due. Angles are carried as microdegrees and times of day as
//! microminutes, so every step is exact integer arithmetic with a stated
//! rounding policy.

pub mod command_line;
pub mod solar;
pub mod switching;
pub mod time_of_day;
