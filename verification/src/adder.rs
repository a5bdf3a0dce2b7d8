//! The adder: receives two numbers and sends back their sum.
use vstd::prelude::*;

verus! {

/// The sum the adder sends back for `x` and `y`.
pub fn adder_provider(x: i32, y: i32) -> (sum: i32)
    requires
        i32::MIN <= x + y <= i32::MAX,
    ensures
        sum == x + y,
{
    x + y
}

} // verus!
