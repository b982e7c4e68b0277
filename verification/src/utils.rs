//! Small numeric helpers shared by the simulation state.

use vstd::prelude::*;

verus! {

/// The smallest value a rate or a brush size may take.
pub open spec fn at_least_one(val: int) -> int {
    if val < 1 {
        1
    } else {
        val
    }
}

/// Raises `val` to 1 when it is below 1 and leaves it alone otherwise.
pub fn min_one(val: i32) -> (r: i32)
    ensures
        r == at_least_one(val as int),
{
    if val < 1 {
        return 1;
    }
    val
}

} // verus!
