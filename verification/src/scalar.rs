use vstd::prelude::*;

verus! {

/// A number type that genes, weights, activations and fitness values are made
/// of.
///
/// The library never looks inside a scalar. It combines scalars through the
/// operations below, and every contract in the library is stated over the
/// model functions (`*_spec`) of the scalar it is used with. An implementation
/// promises that each operation returns what its model function says.
pub trait Scalar: Copy {
    /// The additive identity.
    spec fn zero_spec() -> Self;

    /// The multiplicative identity.
    spec fn one_spec() -> Self;

    /// The sum of two scalars.
    spec fn add_spec(self, rhs: Self) -> Self;

    /// The product of two scalars.
    spec fn mul_spec(self, rhs: Self) -> Self;

    /// The additive inverse.
    spec fn neg_spec(self) -> Self;

    /// The quotient of two scalars.
    spec fn div_spec(self, rhs: Self) -> Self;

    /// The scalar divided by a count of items.
    spec fn div_count_spec(self, count: usize) -> Self;

    /// The distance of the scalar from zero.
    spec fn abs_spec(self) -> Self;

    /// The scalar that stands for a count of items.
    spec fn from_count_spec(count: usize) -> Self;

    /// The whole part of the scalar as an index: zero for a scalar below
    /// zero, the greatest index for one beyond it.
    spec fn to_index_spec(self) -> usize;

    /// The scalar brought into `[0, 1)` by whole steps: the one scalar of
    /// that interval that differs from it by a whole number.
    spec fn wrap_spec(self) -> Self;

    /// Strict order.
    spec fn lt_spec(self, rhs: Self) -> bool;

    /// Non-strict order.
    spec fn le_spec(self, rhs: Self) -> bool;

    /// The greatest scalar. A sum that reaches it may have lost its excess.
    spec fn top_spec() -> Self;

    /// Zero.
    fn zero() -> (r: Self)
        ensures
            r == Self::zero_spec(),
    ;

    /// One.
    fn one() -> (r: Self)
        ensures
            r == Self::one_spec(),
    ;

    /// The greatest scalar.
    fn top() -> (r: Self)
        ensures
            r == Self::top_spec(),
    ;

    /// Adds `rhs`.
    fn plus(self, rhs: Self) -> (r: Self)
        ensures
            r == self.add_spec(rhs),
    ;

    /// Multiplies by `rhs`.
    fn times(self, rhs: Self) -> (r: Self)
        ensures
            r == self.mul_spec(rhs),
    ;

    /// Changes the sign.
    fn negated(self) -> (r: Self)
        ensures
            r == self.neg_spec(),
    ;

    /// Divides by `rhs`, whatever `rhs` is.
    fn divided_by(self, rhs: Self) -> (r: Self)
        ensures
            r == self.div_spec(rhs),
    ;

    /// Drops the sign.
    fn magnitude(self) -> (r: Self)
        ensures
            r == self.abs_spec(),
    ;

    /// Turns a count of items into a scalar.
    fn from_count(count: usize) -> (r: Self)
        ensures
            r == Self::from_count_spec(count),
    ;

    /// Turns the whole part of the scalar into an index.
    fn to_index(self) -> (index: usize)
        ensures
            index == self.to_index_spec(),
    ;

    /// Divides by a count of items.
    fn over_count(self, count: usize) -> (r: Self)
        requires
            count > 0,
        ensures
            r == self.div_count_spec(count),
    ;

    /// Tells whether the scalar is below `rhs`.
    fn less_than(self, rhs: Self) -> (b: bool)
        ensures
            b == self.lt_spec(rhs),
    ;

    /// Tells whether the scalar is below or equal to `rhs`.
    fn at_most(self, rhs: Self) -> (b: bool)
        ensures
            b == self.le_spec(rhs),
    ;

    /// Brings the scalar into `[0, 1)` by whole steps.
    fn wrapped(self) -> (r: Self)
        ensures
            r == self.wrap_spec(),
            Self::zero_spec().le_spec(r),
            r.lt_spec(Self::one_spec()),
    ;

    /// Rectifies the scalar: a scalar above zero is kept, anything else
    /// becomes zero. The result is never below zero.
    fn rectified(self) -> (r: Self)
        ensures
            r == (if Self::zero_spec().lt_spec(self) {
                self
            } else {
                Self::zero_spec()
            }),
            Self::zero_spec().le_spec(r),
    ;
}

/// The rectified value of a scalar: the scalar itself where it is above zero,
/// zero otherwise.
pub open spec fn rectify<S: Scalar>(x: S) -> S {
    if S::zero_spec().lt_spec(x) {
        x
    } else {
        S::zero_spec()
    }
}

/// `x` lies in `[0, 1)`.
pub open spec fn in_unit_interval<S: Scalar>(x: S) -> bool {
    S::zero_spec().le_spec(x) && x.lt_spec(S::one_spec())
}

/// `x` lies in `[-1, 1]`.
pub open spec fn in_weight_interval<S: Scalar>(x: S) -> bool {
    S::one_spec().neg_spec().le_spec(x) && x.le_spec(S::one_spec())
}

/// `x` lies in `[0, 1]`, so it can be the probability of an event.
pub open spec fn is_chance<S: Scalar>(x: S) -> bool {
    S::zero_spec().le_spec(x) && x.le_spec(S::one_spec())
}

/// The difference of two scalars.
pub open spec fn sub_spec<S: Scalar>(a: S, b: S) -> S {
    a.add_spec(b.neg_spec())
}

/// `x` kept inside `[low, high]`: raised to `low` where it is below, lowered
/// to `high` where it is above.
pub open spec fn clamp_spec<S: Scalar>(x: S, low: S, high: S) -> S {
    if x.lt_spec(low) {
        low
    } else if high.lt_spec(x) {
        high
    } else {
        x
    }
}

/// The sum of a sequence of scalars, added up from the first to the last.
pub open spec fn total<S: Scalar>(values: Seq<S>) -> S
    decreases values.len(),
{
    if values.len() == 0 {
        S::zero_spec()
    } else {
        total(values.drop_last()).add_spec(values.last())
    }
}

/// Whether a sequence of weights can drive a weighted choice: no weight is
/// below zero, and their sum lies above zero and below the greatest scalar.
pub open spec fn weighable<S: Scalar>(weights: Seq<S>) -> bool {
    &&& forall|i: int| 0 <= i < weights.len() ==> S::zero_spec().le_spec(#[trigger] weights[i])
    &&& S::zero_spec().lt_spec(total(weights))
    &&& total(weights).lt_spec(S::top_spec())
}

/// Subtracts `b` from `a`.
pub fn minus<S: Scalar>(a: S, b: S) -> (r: S)
    ensures
        r == sub_spec(a, b),
{
    a.plus(b.negated())
}

/// Tells whether `weights` can drive a weighted choice.
pub fn is_weighable<S: Scalar>(weights: &Vec<S>) -> (b: bool)
    ensures
        b == weighable(weights@),
{
    let mut sum = S::zero();
    let mut i: usize = 0;
    while i < weights.len()
        invariant
            i <= weights.len(),
            sum == total(weights@.take(i as int)),
            forall|j: int| 0 <= j < i ==> S::zero_spec().le_spec(#[trigger] weights[j]),
        decreases weights.len() - i,
    {
        if !S::zero().at_most(weights[i]) {
            return false;
        }
        proof {
            assert(weights@.take(i + 1).drop_last() == weights@.take(i as int));
        }
        sum = sum.plus(weights[i]);
        i += 1;
    }
    proof {
        assert(weights@.take(weights.len() as int) == weights@);
    }
    S::zero().less_than(sum) && sum.less_than(S::top())
}

/// Keeps `x` inside `[low, high]`.
pub fn clamp<S: Scalar>(x: S, low: S, high: S) -> (r: S)
    ensures
        r == clamp_spec(x, low, high),
{
    if x.less_than(low) {
        low
    } else if high.less_than(x) {
        high
    } else {
        x
    }
}

} // verus!
