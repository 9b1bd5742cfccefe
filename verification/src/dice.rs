//! Dice: the one source of chance in the rules.

use rand::Rng;
use vstd::prelude::*;

verus! {

/// Rolls a hundred-sided die.
///
/// Calls `rand::thread_rng()` and `Rng::gen_range(1..=100)` on it. The range is
/// not empty, so `gen_range` does not panic, and what it returns lies within
/// the range, both ends included. Nothing else is claimed of the value: two
/// rolls need not agree. The thread's generator is seeded from the operating
/// system when it is first used, and `thread_rng` panics if that fails.
#[verifier::external_body]
pub(crate) fn roll_d100() -> (roll: u8)
    ensures
        1 <= roll <= 100,
{
    rand::thread_rng().gen_range(1..=100)
}

} // verus!
