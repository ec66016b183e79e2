use crate::eye::Eye;
use crate::scalar::{is_chance, Scalar};
use vstd::prelude::*;

verus! {

/// What is fixed for the lifetime of a simulation.
#[derive(Clone, Copy, Debug, PartialEq)]
pub struct Config<S> {
    /// How many animals live in the world.
    pub animals: usize,
    /// How many pieces of food lie in the world.
    pub foods: usize,
    /// After how many steps a generation is replaced.
    pub generation_length: usize,
    /// The eye that every animal has.
    pub eye: Eye<S>,
    /// The least speed of an animal.
    pub speed_min: S,
    /// The greatest speed of an animal.
    pub speed_max: S,
    /// The speed at which an animal starts.
    pub speed_initial: S,
    /// By how much the speed can change in one step, up or down.
    pub speed_accel: S,
    /// By how much an animal can turn in one step, either way.
    pub rotation_accel: S,
    /// One full turn, the bound below which a new heading is drawn.
    pub full_turn: S,
    /// How near an animal must come to a piece of food to eat it.
    pub food_radius: S,
    /// The probability with which a gene of a child is changed.
    pub mutation_chance: S,
    /// The greatest distance by which a gene of a child is moved.
    pub mutation_coefficient: S,
}

impl<S: Scalar> Config<S> {
    /// The configuration can be used: the brain of an animal can be sized,
    /// the age of a generation can be counted, a heading can be drawn, and
    /// the mutation chance is a probability.
    pub open spec fn valid(&self) -> bool {
        &&& 2 * self.eye.cells <= usize::MAX
        &&& self.generation_length < usize::MAX
        &&& S::zero_spec().lt_spec(self.full_turn)
        &&& is_chance(self.mutation_chance)
    }

    /// Tells whether the configuration can be used.
    pub fn is_valid(&self) -> (b: bool)
        ensures
            b == self.valid(),
    {
        self.eye.cells <= usize::MAX / 2 && self.generation_length < usize::MAX
            && S::zero().less_than(self.full_turn) && S::zero().at_most(self.mutation_chance)
            && self.mutation_chance.at_most(S::one())
    }
}

} // verus!
