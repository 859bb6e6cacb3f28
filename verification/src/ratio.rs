use vstd::prelude::*;

verus! {

/// An exact ratio `num / den`.
///
/// This is a plain pair: no reduction to lowest terms is performed, and no
/// invariant is imposed on the fields. Functions that produce a `Ratio`
/// state in their contracts exactly which numerator and denominator they
/// return; two ratios with nonzero denominators denote the same value
/// exactly when they cross-multiply equally.
#[derive(Clone, Copy, Debug, PartialEq, Eq, Structural)]
pub struct Ratio {
    pub num: i128,
    pub den: i128,
}

} // verus!
