use crate::animal::Animal;
use crate::brain::{brain_genes, brain_topology};
use crate::chromosome::Chromosome;
use crate::config::Config;
use crate::individual::Individual;
use crate::random::RandomSource;
use crate::scalar::Scalar;
use vstd::prelude::*;

verus! {

/// An animal as the genetic algorithm sees it: how much it has eaten, and the
/// genes of its brain.
#[derive(Clone, Debug, PartialEq)]
pub struct AnimalIndividial<S> {
    pub fitness: S,
    pub chromosome: Chromosome<S>,
}

impl<S: Scalar> AnimalIndividial<S> {
    /// The individual stands for `animal`: its fitness is what the animal
    /// has eaten, its genes are those of the animal's brain.
    pub open spec fn stands_for(&self, animal: Animal<S>) -> bool {
        &&& self.fitness == S::from_count_spec(animal.satiation)
        &&& self.chromosome@ == animal.brain.nn.flat()
    }

    pub fn from_animal(animal: &Animal<S>) -> (individual: Self)
        ensures
            individual.stands_for(*animal),
    {
        Self { fitness: S::from_count(animal.satiation), chromosome: animal.as_chromosome() }
    }

    /// Turns the individual into an animal at a random place whose brain is
    /// decoded from the individual's genes.
    pub fn into_animal<R: RandomSource<S>>(self, rng: &mut R, config: &Config<S>) -> (animal:
        Animal<S>)
        requires
            config.valid(),
            brain_genes(config.eye.cells) <= self.chromosome@.len(),
        ensures
            animal.newly_placed(*config),
            animal.brain.nn.decodes(brain_topology(config.eye.cells), self.chromosome@),
    {
        Animal::from_chromosome(self.chromosome, rng, config)
    }
}

impl<S: Scalar> Individual<S> for AnimalIndividial<S> {
    open spec fn fitness_spec(&self) -> S {
        self.fitness
    }

    open spec fn chromosome_spec(&self) -> Chromosome<S> {
        self.chromosome
    }

    fn fitness(&self) -> S {
        self.fitness
    }

    fn chromosome(&self) -> &Chromosome<S> {
        &self.chromosome
    }

    /// A new individual that has not eaten yet.
    fn create(chromosome: Chromosome<S>) -> (individual: Self)
        ensures
            individual.fitness == S::zero_spec(),
    {
        Self { fitness: S::zero(), chromosome }
    }
}

} // verus!
