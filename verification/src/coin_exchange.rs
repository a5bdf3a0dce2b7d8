//! The coin exchange: two nickels are exchanged for a dime, and a dime buys
//! a soda from the vending machine.  Each coin type has a single value; what
//! these functions guarantee lies in their signatures: coins are moved in,
//! never copied, so each coin is spent exactly once.
use vstd::prelude::*;

verus! {

/// A soda.
pub struct Soda {}

/// A nickel.
pub struct NickelVal {}

/// A dime.
pub struct DimeVal {}

/// Mints a nickel.
pub fn forge_nickel() -> (n: NickelVal)
    ensures
        n == (NickelVal {}),
{
    NickelVal {}
}

/// Mints a dime.
pub fn forge_dime() -> (d: DimeVal)
    ensures
        d == (DimeVal {}),
{
    DimeVal {}
}

/// Takes a dime, which is spent, and hands out a soda.
pub fn vending_machine(dime: DimeVal) -> (soda: Soda)
    ensures
        soda == (Soda {}),
{
    let _paid = dime;
    Soda {}
}

/// Takes two nickels, which are spent, and hands out one dime.
pub fn exchange(nickel1: NickelVal, nickel2: NickelVal) -> (dime: DimeVal)
    ensures
        dime == (DimeVal {}),
{
    let _spent = (nickel1, nickel2);
    forge_dime()
}

} // verus!
