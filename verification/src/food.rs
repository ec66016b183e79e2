use crate::point::Point;
use crate::random::RandomSource;
use crate::scalar::{in_unit_interval, Scalar};
use vstd::prelude::*;

verus! {

/// Both coordinates of the point lie in `[0, 1)`.
pub open spec fn in_arena<S: Scalar>(point: Point<S>) -> bool {
    in_unit_interval(point.x) && in_unit_interval(point.y)
}

/// The place in the arena that stands for `point`: each coordinate brought
/// into `[0, 1)` by whole steps, so that the arena joins at its edges.
pub open spec fn into_arena_spec<S: Scalar>(point: Point<S>) -> Point<S> {
    Point { x: point.x.wrap_spec(), y: point.y.wrap_spec() }
}

/// Brings a point into the arena.
pub fn into_arena<S: Scalar>(point: Point<S>) -> (place: Point<S>)
    ensures
        place == into_arena_spec(point),
        in_arena(place),
{
    Point { x: point.x.wrapped(), y: point.y.wrapped() }
}

/// Draws a place in the arena: first the horizontal coordinate, then the
/// vertical one.
pub fn random_place<S: Scalar, R: RandomSource<S>>(rng: &mut R) -> (point: Point<S>)
    ensures
        in_arena(point),
{
    let x = rng.draw_unit();
    let y = rng.draw_unit();
    Point { x, y }
}

/// A piece of food.
#[derive(Clone, Copy, Debug, PartialEq)]
pub struct Food<S> {
    pub position: Point<S>,
}

impl<S: Scalar> Food<S> {
    /// A piece of food at a random place.
    pub fn random<R: RandomSource<S>>(rng: &mut R) -> (food: Self)
        ensures
            in_arena(food.position),
    {
        Self { position: random_place(rng) }
    }

    pub fn position(&self) -> (position: Point<S>)
        ensures
            position == self.position,
    {
        self.position
    }
}

} // verus!
