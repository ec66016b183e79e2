use crate::chromosome::Chromosome;
use crate::scalar::Scalar;
use vstd::prelude::*;

verus! {

/// What the genetic algorithm needs of a member of a population: how fit it
/// is, which chromosome it carries, and how to make a new member from a
/// chromosome.
pub trait Individual<S: Scalar>: Sized {
    /// The member's fitness.
    spec fn fitness_spec(&self) -> S;

    /// The chromosome that the member carries.
    spec fn chromosome_spec(&self) -> Chromosome<S>;

    fn fitness(&self) -> (fitness: S)
        ensures
            fitness == self.fitness_spec(),
    ;

    fn chromosome(&self) -> (chromosome: &Chromosome<S>)
        ensures
            *chromosome == self.chromosome_spec(),
    ;

    /// A new member that carries `chromosome`.
    fn create(chromosome: Chromosome<S>) -> (individual: Self)
        ensures
            individual.chromosome_spec() == chromosome,
    ;
}

/// The fitness of each member of a population, in order.
pub open spec fn fitness_values<S: Scalar, I: Individual<S>>(population: Seq<I>) -> Seq<S> {
    Seq::new(population.len(), |i: int| population[i].fitness_spec())
}

/// Every member of the population carries a chromosome of `length` genes.
pub open spec fn genes_have_length<S: Scalar, I: Individual<S>>(
    population: Seq<I>,
    length: nat,
) -> bool {
    forall|i: int|
        0 <= i < population.len() ==> (#[trigger] population[i]).chromosome_spec()@.len()
            == length
}

} // verus!
