//! Times of the lunar phases that surround a given instant, computed in
//! exact integer fixed-point arithmetic.
//!
//! Instants and Julian dates are counted in microseconds, lunation indices
//! and phase selectors in ten-thousandths of a lunation, and angles in
//! picodegrees; times in centuries and the values of the sine are
//! fixed-point numbers in units of `fixed::UNIT`.
//! Every formula rounds towards minus infinity, so that each result is a
//! function of its arguments on every machine.

pub mod fixed;
pub mod trig;
pub mod julian;
pub mod mean;
pub mod phase;
pub mod hunt;

pub use hunt::phasehunt;
