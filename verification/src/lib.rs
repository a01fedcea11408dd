//! Vessel traffic on a bounded map plane: collision detection, path
//! following along closed curves, timed spawning and the round lifecycle.
//!
//! Distances are whole thousandths of a map unit, time is whole
//! microseconds, and progress along a curve is counted in
//! [`curve::PROGRESS_PER_SEGMENT`] steps per segment, so every result is
//! exact.

pub mod timer;
pub mod map;
pub mod collision;
pub mod curve;
mod random;
pub mod generator;
pub mod ship;
pub mod round;
