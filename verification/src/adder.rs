//! A strategy handed over as a plain function value.

use vstd::prelude::*;

verus! {

/// Combines two numbers by whatever rule the caller hands it.
pub struct Adder;

impl Adder {
    /// Applies `f` to `x` and `y`, once, and returns what `f` returned.
    pub fn add<F>(x: u8, y: u8, f: F) -> (r: u8) where F: Fn(u8, u8) -> u8
        requires
            call_requires(f, (x, y)),
        ensures
            call_ensures(f, (x, y), r),
    {
        f(x, y)
    }
}

} // verus!
