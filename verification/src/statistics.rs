use crate::fixed::Fixed;
use crate::individual::{fitness_values, Individual};
use crate::scalar::{total, Scalar};
use vstd::prelude::*;

verus! {

/// The least of a sequence of scalars that is not empty: the first one from
/// the front that no later one is below.
pub open spec fn lowest<S: Scalar>(values: Seq<S>) -> S
    decreases values.len(),
{
    if values.len() <= 1 {
        values[0]
    } else {
        let before = lowest(values.drop_last());
        if values.last().lt_spec(before) {
            values.last()
        } else {
            before
        }
    }
}

/// The greatest of a sequence of scalars that is not empty: the first one
/// from the front that no later one is above.
pub open spec fn highest<S: Scalar>(values: Seq<S>) -> S
    decreases values.len(),
{
    if values.len() <= 1 {
        values[0]
    } else {
        let before = highest(values.drop_last());
        if before.lt_spec(values.last()) {
            values.last()
        } else {
            before
        }
    }
}

/// The mean of a sequence of scalars: their sum divided by their number.
pub open spec fn mean<S: Scalar>(values: Seq<S>) -> S {
    total(values).div_count_spec(values.len() as usize)
}

/// The least, the greatest and the mean fitness of one generation.
#[derive(Clone, Debug, PartialEq)]
pub struct Statistics<S> {
    pub min_fitness: S,
    pub max_fitness: S,
    pub avg_fitness: S,
}

impl<S: Scalar> Statistics<S> {
    /// These are the statistics of a population whose members have the given
    /// fitness values.
    pub open spec fn summarizes(&self, values: Seq<S>) -> bool {
        &&& self.min_fitness == lowest(values)
        &&& self.max_fitness == highest(values)
        &&& self.avg_fitness == mean(values)
    }

    /// The statistics of a population that is not empty.
    pub fn new<I: Individual<S>>(population: &[I]) -> (statistics: Self)
        requires
            population.len() > 0,
        ensures
            statistics.summarizes(fitness_values(population@)),
    {
        let ghost values = fitness_values(population@);
        let first = population[0].fitness();
        let mut min_fitness = first;
        let mut max_fitness = first;
        let mut sum = S::zero().plus(first);
        let mut i: usize = 1;
        proof {
            let front = values.take(1);
            assert(front.drop_last() =~= Seq::<S>::empty());
            assert(front.last() == first);
            assert(total(front.drop_last()) == S::zero_spec());
            assert(total(front) == S::zero_spec().add_spec(first));
        }
        while i < population.len()
            invariant
                1 <= i <= population.len(),
                values == fitness_values(population@),
                min_fitness == lowest(values.take(i as int)),
                max_fitness == highest(values.take(i as int)),
                sum == total(values.take(i as int)),
            decreases population.len() - i,
        {
            let fitness = population[i].fitness();
            proof {
                let grown = values.take(i + 1);
                assert(grown.drop_last() == values.take(i as int));
                assert(grown.last() == fitness);
            }
            if fitness.less_than(min_fitness) {
                min_fitness = fitness;
            }
            if max_fitness.less_than(fitness) {
                max_fitness = fitness;
            }
            sum = sum.plus(fitness);
            i += 1;
        }
        proof {
            assert(values.take(population.len() as int) == values);
        }
        Self { min_fitness, max_fitness, avg_fitness: sum.over_count(population.len()) }
    }

    pub fn min_fitness(&self) -> (fitness: S)
        ensures
            fitness == self.min_fitness,
    {
        self.min_fitness
    }

    pub fn max_fitness(&self) -> (fitness: S)
        ensures
            fitness == self.max_fitness,
    {
        self.max_fitness
    }

    pub fn avg_fitness(&self) -> (fitness: S)
        ensures
            fitness == self.avg_fitness,
    {
        self.avg_fitness
    }
}

/// On fixed-point scalars, the least of a sequence is one of its entries, and
/// no entry is below it.
pub proof fn lemma_lowest_is_least(values: Seq<Fixed>)
    requires
        values.len() > 0,
    ensures
        exists|i: int| 0 <= i < values.len() && values[i] == lowest(values),
        forall|i: int|
            0 <= i < values.len() ==> lowest(values).micros <= (#[trigger] values[i]).micros,
    decreases values.len(),
{
    if values.len() > 1 {
        let front = values.drop_last();
        lemma_lowest_is_least(front);
        let i = choose|i: int| 0 <= i < front.len() && front[i] == lowest(front);
        assert(values[i] == front[i]);
        assert(values[values.len() - 1] == values.last());
        assert forall|j: int| 0 <= j < values.len() implies lowest(values).micros <= (
        #[trigger] values[j]).micros by {
            if j < front.len() {
                assert(values[j] == front[j]);
            }
        }
    } else {
        assert(values[0] == lowest(values));
    }
}

/// On fixed-point scalars, the greatest of a sequence is one of its entries,
/// and no entry is above it.
pub proof fn lemma_highest_is_greatest(values: Seq<Fixed>)
    requires
        values.len() > 0,
    ensures
        exists|i: int| 0 <= i < values.len() && values[i] == highest(values),
        forall|i: int|
            0 <= i < values.len() ==> (#[trigger] values[i]).micros <= highest(values).micros,
    decreases values.len(),
{
    if values.len() > 1 {
        let front = values.drop_last();
        lemma_highest_is_greatest(front);
        let i = choose|i: int| 0 <= i < front.len() && front[i] == highest(front);
        assert(values[i] == front[i]);
        assert(values[values.len() - 1] == values.last());
        assert forall|j: int| 0 <= j < values.len() implies (#[trigger] values[j]).micros
            <= highest(values).micros by {
            if j < front.len() {
                assert(values[j] == front[j]);
            }
        }
    } else {
        assert(values[0] == highest(values));
    }
}

} // verus!
