use crate::scalar::{in_unit_interval, in_weight_interval, is_chance, weighable, Scalar};
use vstd::prelude::*;

verus! {

/// A source of random draws of scalars. Whoever runs the library hands it
/// one; the library draws from it in a fixed order, so that a source that
/// repeats its draws repeats the run.
pub trait RandomSource<S: Scalar> {
    /// Tosses a fair coin.
    fn flip(&mut self) -> (heads: bool);

    /// Decides an event whose probability is `chance`. An event of
    /// probability zero never happens, one of probability one always does.
    fn strikes(&mut self, chance: S) -> (hit: bool)
        requires
            is_chance(chance),
        ensures
            chance == S::zero_spec() ==> !hit,
            chance == S::one_spec() ==> hit,
    ;

    /// Draws a scalar uniformly from `[0, 1)`.
    fn draw_unit(&mut self) -> (r: S)
        ensures
            in_unit_interval(r),
    ;

    /// Draws a scalar uniformly from `[-1, 1]`.
    fn draw_weight(&mut self) -> (r: S)
        ensures
            in_weight_interval(r),
    ;

    /// Draws a scalar uniformly from `[0, bound)`.
    fn draw_below(&mut self, bound: S) -> (r: S)
        requires
            S::zero_spec().lt_spec(bound),
        ensures
            S::zero_spec().le_spec(r),
            r.lt_spec(bound),
    ;

    /// Picks an index with a probability proportional to its weight. An index
    /// whose weight is not above zero is never picked.
    fn pick_weighted(&mut self, weights: &Vec<S>) -> (index: usize)
        requires
            weighable(weights@),
        ensures
            index < weights.len(),
            S::zero_spec().lt_spec(weights[index as int]),
    ;
}

} // verus!
