use vstd::prelude::*;

verus! {

/// A place in the arena.
#[derive(Clone, Copy, Debug, PartialEq)]
pub struct Point<S> {
    pub x: S,
    pub y: S,
}

impl<S: Copy> Point<S> {
    pub fn new(x: S, y: S) -> (point: Self)
        ensures
            point.x == x,
            point.y == y,
    {
        Point { x, y }
    }
}

} // verus!
