//! A Fibonacci AIR used to test the public values feature of the prover.
use vstd::prelude::*;

verus! {

/// An AIR whose rows step through the Fibonacci sequence, from two public starting values to a
/// public final value. Its constraints are field arithmetic of the proving system and are not
/// part of this library; the type only names the AIR.
pub struct FibonacciAir {}

/// A row of the Fibonacci AIR: two consecutive Fibonacci numbers.
pub struct FibonacciRow<F> {
    pub left: F,
    pub right: F,
}

impl<F> FibonacciRow<F> {
    /// A row holding `left` and `right`.
    pub fn new(left: F, right: F) -> (r: FibonacciRow<F>)
        ensures
            r.left == left,
            r.right == right,
    {
        FibonacciRow { left, right }
    }
}

} // verus!
