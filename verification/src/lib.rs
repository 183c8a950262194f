//! Night light: colour temperature scheduling and output gamma control.
//!
//! - [`civil`]: the calendar, in days since 1970-01-01.
//! - [`clock`]: readings of the wall clock.
//! - [`night_light`]: the schedule, and the timer that follows it.
//! - [`ramps`]: gamma ramps for a colour temperature.
//! - [`location`]: the dialogue with the location service.
//! - [`gamma_table`]: the gamma tables that clients hand over.
//! - [`gamma_control`]: the state of the gamma control protocol.
//! - [`kms`]: the surfaces that drive outputs.

pub mod civil;
pub mod clock;
pub mod gamma_control;
pub mod gamma_table;
pub mod kms;
pub mod location;
pub mod night_light;
pub mod ramps;
