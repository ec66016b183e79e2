use crate::chromosome::Chromosome;
use crate::crossover::{composed_of, CrossOverMethod};
use crate::individual::{fitness_values, genes_have_length, Individual};
use crate::mutation::MutationMethod;
use crate::random::RandomSource;
use crate::scalar::{weighable, Scalar};
use crate::selection::SelectionMethod;
use crate::statistics::Statistics;
use vstd::prelude::*;

verus! {

/// The three operators that make one generation from the one before it.
pub struct GeneticAlgorithm<Selection, Crossover, Mutation> {
    pub selection_method: Selection,
    pub crossover_method: Crossover,
    pub mutation_method: Mutation,
}

/// A population can be evolved: it is not empty, its fitness values can drive
/// a weighted choice, and all its chromosomes have the same length.
pub open spec fn evolvable<S: Scalar, I: Individual<S>>(population: Seq<I>) -> bool {
    &&& population.len() > 0
    &&& weighable(fitness_values(population))
    &&& genes_have_length(population, population[0].chromosome_spec()@.len())
}

impl<Selection, Crossover, Mutation> GeneticAlgorithm<Selection, Crossover, Mutation> {
    pub fn new(
        selection_method: Selection,
        crossover_method: Crossover,
        mutation_method: Mutation,
    ) -> (algorithm: Self)
        ensures
            algorithm.selection_method == selection_method,
            algorithm.crossover_method == crossover_method,
            algorithm.mutation_method == mutation_method,
    {
        Self { selection_method, crossover_method, mutation_method }
    }

    /// `child` was bred from the two parents: a chromosome composed of the
    /// parents' genes was made, and the mutation method turned that
    /// chromosome into the child's.
    pub open spec fn bred_of<S: Scalar, I: Individual<S>>(
        &self,
        parent_a: I,
        parent_b: I,
        child: I,
    ) -> bool
        where Mutation: MutationMethod<S>
    {
        exists|crossed: Chromosome<S>|
            {
                &&& #[trigger] composed_of(
                    crossed@,
                    parent_a.chromosome_spec()@,
                    parent_b.chromosome_spec()@,
                )
                &&& self.mutation_method.mutates(crossed, child.chromosome_spec())
            }
    }

    /// `child` was bred from `population`: two of its members of a fitness
    /// above zero, which may be one and the same, were its parents.
    pub open spec fn bred<S: Scalar, I: Individual<S>>(&self, population: Seq<I>, child: I) -> bool
        where Mutation: MutationMethod<S>
    {
        exists|a: int, b: int|
            {
                &&& 0 <= a < population.len()
                &&& 0 <= b < population.len()
                &&& S::zero_spec().lt_spec(population[a].fitness_spec())
                &&& S::zero_spec().lt_spec(population[b].fitness_spec())
                &&& #[trigger] self.bred_of(population[a], population[b], child)
            }
    }

    /// Breeds a child from the two parents that were selected for it: the
    /// parents are crossed over, the result is mutated, and the child is made
    /// from it.
    pub fn breed<S: Scalar, I: Individual<S>, R: RandomSource<S>>(
        &self,
        rng: &mut R,
        parent_a: &I,
        parent_b: &I,
    ) -> (child: I)
        where
            Crossover: CrossOverMethod<S>,
            Mutation: MutationMethod<S>,
        requires
            parent_a.chromosome_spec()@.len() == parent_b.chromosome_spec()@.len(),
        ensures
            self.bred_of(*parent_a, *parent_b, child),
    {
        let mut chromosome = self.crossover_method.crossover(
            rng,
            parent_a.chromosome(),
            parent_b.chromosome(),
        );
        let ghost crossed = chromosome;
        self.mutation_method.mutate(rng, &mut chromosome);
        let child = I::create(chromosome);
        proof {
            assert(composed_of(
                crossed@,
                parent_a.chromosome_spec()@,
                parent_b.chromosome_spec()@,
            ));
            assert(self.mutation_method.mutates(crossed, child.chromosome_spec()));
        }
        child
    }

    /// Replaces a generation: makes as many children as the population has
    /// members, and reports the statistics of the population they were bred
    /// from. For each child in turn the first parent is selected, then the
    /// second, and the child is bred from the two.
    pub fn evolve<S: Scalar, I: Individual<S>, R: RandomSource<S>>(
        &self,
        rng: &mut R,
        population: &[I],
    ) -> (next: (Vec<I>, Statistics<S>))
        where
            Selection: SelectionMethod<S>,
            Crossover: CrossOverMethod<S>,
            Mutation: MutationMethod<S>,
        requires
            evolvable(population@),
        ensures
            next.0.len() == population.len(),
            forall|k: int| 0 <= k < next.0.len() ==> self.bred(population@, #[trigger] next.0[k]),
            next.1.summarizes(fitness_values(population@)),
    {
        let mut children: Vec<I> = Vec::new();
        let mut k: usize = 0;
        while k < population.len()
            invariant
                k <= population.len(),
                evolvable(population@),
                children.len() == k,
                forall|j: int| 0 <= j < k ==> self.bred(population@, #[trigger] children[j]),
            decreases population.len() - k,
        {
            let parent_a = self.selection_method.select(rng, population);
            let parent_b = self.selection_method.select(rng, population);
            let ghost a = choose|i: int| 0 <= i < population.len() && population[i] == *parent_a;
            let ghost b = choose|i: int| 0 <= i < population.len() && population[i] == *parent_b;
            let child = self.breed(rng, parent_a, parent_b);
            proof {
                assert(self.bred_of(population[a], population[b], child));
                assert(self.bred(population@, child));
            }
            children.push(child);
            k += 1;
        }
        (children, Statistics::new(population))
    }
}

} // verus!
