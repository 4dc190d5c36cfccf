//! The numeric abstraction that every other component is generic over.
//!
//! A scalar is described by a handful of total operations. Each operation has
//! a specification-level twin that names its result, so that contracts built
//! on top of a scalar can say exactly which expression a computation
//! evaluates, rounding included. A short list of algebraic laws, which every
//! implementation has to prove, is what the properties of the integration
//! engine are derived from.

use vstd::prelude::*;

verus! {

/// A number type that states can be made of.
///
/// The operations are total but for the division, which leaves a divisor of
/// zero out. None of them fails: what a type does at the edge of its range
/// (saturate, round, overflow to a special value) is part of what its
/// specification-level operations say.
pub trait Scalar: Sized + Copy {
    /// The additive identity.
    spec fn zero_spec() -> Self;

    /// The scalar that stands for `num / den`, as the type rounds it, or
    /// `None` where the type has nothing to stand for it.
    spec fn ratio_spec(num: u32, den: u32) -> Option<Self>;

    spec fn add_spec(self, rhs: Self) -> Self;

    spec fn sub_spec(self, rhs: Self) -> Self;

    spec fn mul_spec(self, rhs: Self) -> Self;

    spec fn div_spec(self, rhs: Self) -> Self;

    spec fn neg_spec(self) -> Self;

    spec fn abs_spec(self) -> Self;

    /// The strict order of the scalars.
    spec fn lt_spec(self, rhs: Self) -> bool;

    /// The largest whole number that is not above `self`, or `None` where
    /// there is none that fits a `usize`.
    spec fn floor_spec(self) -> Option<usize>;

    /// The cosine of `self`, an angle in radians, or `None` where the type
    /// offers no trigonometry.
    spec fn cos_spec(self) -> Option<Self>;

    /// The sine of `self`, an angle in radians, or `None` where the type
    /// offers no trigonometry.
    spec fn sin_spec(self) -> Option<Self>;

    /// Adding zero on the right changes nothing.
    proof fn lemma_add_zero(x: Self)
        ensures
            x.add_spec(Self::zero_spec()) == x,
    ;

    /// Zero times anything is zero.
    proof fn lemma_zero_mul(x: Self)
        ensures
            Self::zero_spec().mul_spec(x) == Self::zero_spec(),
    ;

    /// A value minus itself is zero.
    proof fn lemma_sub_self(x: Self)
        ensures
            x.sub_spec(x) == Self::zero_spec(),
    ;

    /// The magnitude of zero is zero.
    proof fn lemma_abs_zero()
        ensures
            Self::zero_spec().abs_spec() == Self::zero_spec(),
    ;

    /// A magnitude is never below zero.
    proof fn lemma_abs_not_negative(x: Self)
        ensures
            !x.abs_spec().lt_spec(Self::zero_spec()),
    ;

    /// Nothing is below itself.
    proof fn lemma_lt_irreflexive(x: Self)
        ensures
            !x.lt_spec(x),
    ;

    proof fn lemma_lt_transitive(x: Self, y: Self, z: Self)
        requires
            x.lt_spec(y),
            y.lt_spec(z),
        ensures
            x.lt_spec(z),
    ;

    /// If `x` is below `z`, every `y` is above `x` or below `z`.
    proof fn lemma_lt_cotransitive(x: Self, y: Self, z: Self)
        requires
            x.lt_spec(z),
        ensures
            x.lt_spec(y) || y.lt_spec(z),
    ;

    fn zero() -> (r: Self)
        ensures
            r == Self::zero_spec(),
    ;

    fn from_ratio(num: u32, den: u32) -> (r: Option<Self>)
        ensures
            r == Self::ratio_spec(num, den),
    ;

    fn add(self, rhs: Self) -> (r: Self)
        ensures
            r == self.add_spec(rhs),
    ;

    fn sub(self, rhs: Self) -> (r: Self)
        ensures
            r == self.sub_spec(rhs),
    ;

    fn mul(self, rhs: Self) -> (r: Self)
        ensures
            r == self.mul_spec(rhs),
    ;

    fn div(self, rhs: Self) -> (r: Self)
        requires
            rhs != Self::zero_spec(),
        ensures
            r == self.div_spec(rhs),
    ;

    fn neg(self) -> (r: Self)
        ensures
            r == self.neg_spec(),
    ;

    fn abs(self) -> (r: Self)
        ensures
            r == self.abs_spec(),
    ;

    fn lt(self, rhs: Self) -> (r: bool)
        ensures
            r == self.lt_spec(rhs),
    ;

    fn floor_to_usize(self) -> (r: Option<usize>)
        ensures
            r == self.floor_spec(),
    ;

    fn cos(self) -> (r: Option<Self>)
        ensures
            r == self.cos_spec(),
    ;

    fn sin(self) -> (r: Option<Self>)
        ensures
            r == self.sin_spec(),
    ;
}

/// `a` is not above `b`.
pub open spec fn le_spec<S: Scalar>(a: S, b: S) -> bool {
    !b.lt_spec(a)
}

/// The larger of two scalars; the first where neither is below the other.
pub open spec fn max_spec<S: Scalar>(a: S, b: S) -> S {
    if a.lt_spec(b) {
        b
    } else {
        a
    }
}

/// `|a - b|`.
pub open spec fn abs_diff_spec<S: Scalar>(a: S, b: S) -> S {
    a.sub_spec(b).abs_spec()
}

/// `le_spec` is transitive.
pub proof fn lemma_le_transitive<S: Scalar>(a: S, b: S, c: S)
    requires
        le_spec(a, b),
        le_spec(b, c),
    ensures
        le_spec(a, c),
{
    if c.lt_spec(a) {
        S::lemma_lt_cotransitive(c, b, a);
    }
}

/// `max_spec` is an upper bound of both its arguments.
pub proof fn lemma_max_is_upper_bound<S: Scalar>(a: S, b: S)
    ensures
        le_spec(a, max_spec(a, b)),
        le_spec(b, max_spec(a, b)),
{
    S::lemma_lt_irreflexive(a);
    S::lemma_lt_irreflexive(b);
    if a.lt_spec(b) && b.lt_spec(a) {
        S::lemma_lt_transitive(a, b, a);
    }
}

pub fn max<S: Scalar>(a: S, b: S) -> (r: S)
    ensures
        r == max_spec(a, b),
{
    if a.lt(b) {
        b
    } else {
        a
    }
}

pub fn abs_diff<S: Scalar>(a: S, b: S) -> (r: S)
    ensures
        r == abs_diff_spec(a, b),
{
    a.sub(b).abs()
}

} // verus!
