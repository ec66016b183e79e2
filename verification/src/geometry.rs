use crate::eye::Bearing;
use crate::point::Point;
use crate::scalar::Scalar;
use vstd::prelude::*;

verus! {

/// The geometry of the arena. The simulation asks it how far two places are
/// apart, where a place lies as seen from another, and where a move ends.
/// Nothing is promised of the answers: the simulation itself brings the end
/// of a move back into the arena, and an eye sees nothing at a distance
/// below zero.
pub trait Geometry<S: Scalar> {
    /// How far `a` and `b` are apart.
    fn distance(&self, a: Point<S>, b: Point<S>) -> S;

    /// Where `target` lies as seen from `position` when looking along
    /// `rotation`.
    fn bearing(&self, position: Point<S>, rotation: S, target: Point<S>) -> Bearing<S>;

    /// Where a move from `position` along `rotation` at `speed` ends, be it
    /// inside the arena or not.
    fn advance(&self, position: Point<S>, rotation: S, speed: S) -> Point<S>;
}

} // verus!
