//! The repeating countdown that paces spawning, kept as plain numbers and
//! advanced by bevy's `Timer`.

use bevy::time::{Timer, TimerMode};
use std::time::Duration;
use vstd::prelude::*;

verus! {

/// Longest period, in microseconds, that the timer takes: its length in
/// nanoseconds still fits in 64 bits.
pub const MAX_PERIOD_MICROS: u64 = 18_446_744_073_709_551;

/// Whether a repeating timer of the given period, with `elapsed` already on
/// it, fires when `delta` more is put on it.
pub open spec fn fires(elapsed: int, period: int, delta: int) -> bool {
    elapsed + delta >= period
}

/// What is on a repeating timer after `delta` more was put on it: the sum
/// while it has not fired, and what is left over of the sum after whole
/// periods once it has.
pub open spec fn carried(elapsed: int, period: int, delta: int) -> int {
    if !fires(elapsed, period, delta) {
        elapsed + delta
    } else if period == 0 {
        0
    } else {
        (elapsed + delta) % period
    }
}

/// Advances a repeating timer by one tick and returns what is then on it
/// and whether it fired.
///
/// Calls `Timer::tick` of bevy on a repeating, unpaused timer that was set
/// to `elapsed`. The contract restates that method: the timer fires when
/// the elapsed time reaches the period, and then wraps around by whole
/// periods; it fires once per tick at most, however many periods went by.
/// None of this is proved here.
#[verifier::external_body]
pub(crate) fn tick_repeating(elapsed: u64, period: u64, delta: u64) -> (r: (u64, bool))
    requires
        period <= MAX_PERIOD_MICROS,
    ensures
        r.1 == fires(elapsed as int, period as int, delta as int),
        r.0 as int == carried(elapsed as int, period as int, delta as int),
{
    let mut timer = Timer::new(Duration::from_micros(period), TimerMode::Repeating);
    timer.set_elapsed(Duration::from_micros(elapsed));
    timer.tick(Duration::from_micros(delta));
    (timer.elapsed().as_micros() as u64, timer.finished())
}

} // verus!
