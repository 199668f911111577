//! The arithmetic that the units ask of a sample.

use vstd::prelude::*;

verus! {

/// A signal value: one sample of audio, or a control value on the same scale.
///
/// The units never look inside a sample. Every result they hand out is
/// described through the `*_spec` functions below, so a contract of this
/// library holds for whatever arithmetic an implementation brings, rounding
/// and saturation included. No law of arithmetic is asked of it: not that
/// silence added changes nothing, not that the order is total.
///
/// Each function promises one thing only: that it returns what the `*_spec`
/// function of the same name says. [`crate::fixed::Fixed`] is proved to keep
/// that promise. An implementation written where nothing is verified (one
/// over hardware floating point, say) gives each `*_spec` function the body
/// of the function it describes; the promise then says that the arithmetic
/// gives the same result for the same operands, and nothing checks it.
pub trait Sample: Copy {
    /// The sample that stands for `num / den`.
    spec fn ratio_spec(num: u32, den: u32) -> Self;

    /// The sum of two samples.
    spec fn plus_spec(self, rhs: Self) -> Self;

    /// The difference of two samples.
    spec fn minus_spec(self, rhs: Self) -> Self;

    /// The product of two samples.
    spec fn times_spec(self, rhs: Self) -> Self;

    /// Half of a sample.
    spec fn halved_spec(self) -> Self;

    /// Whether `self` lies strictly below `rhs`.
    spec fn lt_spec(self, rhs: Self) -> bool;

    /// Whether `self` lies at or below `rhs`.
    spec fn le_spec(self, rhs: Self) -> bool;

    /// The whole number of a sample, cut towards zero and kept within `i32`.
    spec fn to_index_spec(self) -> i32;

    fn ratio(num: u32, den: u32) -> (r: Self)
        requires
            den > 0,
        ensures
            r == Self::ratio_spec(num, den),
    ;

    fn plus(self, rhs: Self) -> (r: Self)
        ensures
            r == self.plus_spec(rhs),
    ;

    fn minus(self, rhs: Self) -> (r: Self)
        ensures
            r == self.minus_spec(rhs),
    ;

    fn times(self, rhs: Self) -> (r: Self)
        ensures
            r == self.times_spec(rhs),
    ;

    fn halved(self) -> (r: Self)
        ensures
            r == self.halved_spec(),
    ;

    fn lt(self, rhs: Self) -> (r: bool)
        ensures
            r == self.lt_spec(rhs),
    ;

    fn le(self, rhs: Self) -> (r: bool)
        ensures
            r == self.le_spec(rhs),
    ;

    fn to_index(self) -> (r: i32)
        ensures
            r == self.to_index_spec(),
    ;
}

/// Silence: the sample `0 / 1`.
pub open spec fn silence<S: Sample>() -> S {
    S::ratio_spec(0, 1)
}

/// Unity: the sample `1 / 1`.
pub open spec fn unity<S: Sample>() -> S {
    S::ratio_spec(1, 1)
}

} // verus!
