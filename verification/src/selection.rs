use crate::individual::{fitness_values, Individual};
use crate::random::RandomSource;
use crate::scalar::{weighable, Scalar};
use vstd::prelude::*;

verus! {

/// A way to pick a parent from a population. Whatever the method, the member
/// it picks belongs to the population and has a fitness above zero.
pub trait SelectionMethod<S: Scalar> {
    fn select<'a, I: Individual<S>, R: RandomSource<S>>(
        &self,
        rng: &mut R,
        population: &'a [I],
    ) -> (chosen: &'a I)
        requires
            weighable(fitness_values(population@)),
        ensures
            exists|i: int| 0 <= i < population.len() && population[i] == *chosen,
            S::zero_spec().lt_spec(chosen.fitness_spec()),
    ;
}

/// Roulette-wheel selection: a member is picked with a probability
/// proportional to its fitness.
#[derive(Clone, Copy, Debug, Default)]
pub struct RouletteWheelSelection;

impl RouletteWheelSelection {
    pub fn new() -> Self {
        RouletteWheelSelection
    }

    /// Picks the index of a member with a probability proportional to its
    /// fitness. One draw is made, after the fitness of every member has been
    /// read in order.
    pub fn select_index<S: Scalar, I: Individual<S>, R: RandomSource<S>>(
        &self,
        rng: &mut R,
        population: &[I],
    ) -> (index: usize)
        requires
            weighable(fitness_values(population@)),
        ensures
            index < population.len(),
            S::zero_spec().lt_spec(population[index as int].fitness_spec()),
    {
        let mut weights: Vec<S> = Vec::new();
        let mut i: usize = 0;
        while i < population.len()
            invariant
                i <= population.len(),
                weights.len() == i,
                forall|j: int| 0 <= j < i ==> #[trigger] weights[j] == population[j].fitness_spec(),
            decreases population.len() - i,
        {
            let fitness = population[i].fitness();
            weights.push(fitness);
            i += 1;
        }
        assert(weights@ =~= fitness_values(population@));
        rng.pick_weighted(&weights)
    }
}

impl<S: Scalar> SelectionMethod<S> for RouletteWheelSelection {
    fn select<'a, I: Individual<S>, R: RandomSource<S>>(
        &self,
        rng: &mut R,
        population: &'a [I],
    ) -> (chosen: &'a I) {
        let index = self.select_index(rng, population);
        &population[index]
    }
}

} // verus!
