//! The source of chance.

use rand::Rng;
use vstd::prelude::*;

verus! {

/// Draws a whole number between 0 and `upper`, both included.
///
/// Calls `Rng::gen_range` of rand on the thread's generator with the
/// inclusive range `0..=upper`, which is never empty. All that is claimed of
/// the number is that it lies in that range; which one comes is left open,
/// and two calls may differ.
#[verifier::external_body]
pub(crate) fn draw_up_to(upper: u32) -> (drawn: u32)
    ensures
        drawn <= upper,
{
    rand::thread_rng().gen_range(0..=upper)
}

} // verus!
