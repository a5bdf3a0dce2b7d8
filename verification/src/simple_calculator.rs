//! The simple calculator: the client chooses addition or multiplication,
//! sends a pair of numbers and receives the result.
use vstd::prelude::*;

verus! {

/// The operations a client can choose.
#[derive(Clone, Copy, Debug, PartialEq, Eq, Structural)]
pub enum CalculatorOps {
    Add,
    Mult,
}

/// The result of `op` on `x` and `y`, as an unbounded integer.
pub open spec fn calculated(op: CalculatorOps, x: int, y: int) -> int {
    match op {
        CalculatorOps::Add => x + y,
        CalculatorOps::Mult => x * y,
    }
}

/// The result the calculator sends back for `op` on `operands`.
pub fn calculator_provider(op: CalculatorOps, operands: (i32, i32)) -> (r: i32)
    requires
        i32::MIN <= calculated(op, operands.0 as int, operands.1 as int) <= i32::MAX,
        op is Add ==> i32::MIN <= operands.0 + operands.1 <= i32::MAX,
        op is Mult ==> i32::MIN <= operands.0 * operands.1 <= i32::MAX,
    ensures
        r == calculated(op, operands.0 as int, operands.1 as int),
        op is Add ==> r == operands.0 + operands.1,
        op is Mult ==> r == operands.0 * operands.1,
{
    let (x, y) = operands;
    match op {
        CalculatorOps::Add => x + y,
        CalculatorOps::Mult => x * y,
    }
}

/// The calculator adds and multiplies: for every pair of integers, the
/// result of `Add` is their sum and the result of `Mult` their product.
pub proof fn lemma_calculator_adds_and_multiplies(x: int, y: int)
    ensures
        calculated(CalculatorOps::Add, x, y) == x + y,
        calculated(CalculatorOps::Mult, x, y) == x * y,
        calculated(CalculatorOps::Add, x, y) - y == x,
        calculated(CalculatorOps::Mult, x, y) == calculated(CalculatorOps::Mult, y, x),
        calculated(CalculatorOps::Mult, x, -y) == -calculated(CalculatorOps::Mult, x, y),
{
    assert(x * y == y * x) by (nonlinear_arith);
    assert(x * (-y) == -(x * y)) by (nonlinear_arith);
}

} // verus!
