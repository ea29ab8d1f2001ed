//! Exact calendrical and time-scale arithmetic for positional astronomy.
//!
//! Instants and intervals are whole numbers of microseconds, and results
//! that are no whole numbers are exact fractions, so every result is stated,
//! and proved, without rounding.
//!
//! * `time`: civil dates, Julian days, weekdays, decimal days and years,
//!   Julian centuries.
//! * `calendar_laws`: dates and Julian days determine each other.
//! * `delta_t`: the difference between Terrestrial Time and Universal Time.
//! * `ratio`: the fractions in which ΔT is stated.

pub mod calendar_laws;
pub mod delta_t;
mod floor;
pub mod ratio;
pub mod time;
