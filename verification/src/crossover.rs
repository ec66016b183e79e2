use crate::chromosome::Chromosome;
use crate::random::RandomSource;
use crate::scalar::Scalar;
use vstd::prelude::*;

verus! {

/// `child` is made of the genes of `parent_a` and `parent_b`: it is as long as
/// they are, and each of its genes is the gene that one of the parents has at
/// the same index.
pub open spec fn composed_of<S>(child: Seq<S>, parent_a: Seq<S>, parent_b: Seq<S>) -> bool {
    &&& child.len() == parent_a.len()
    &&& child.len() == parent_b.len()
    &&& forall|i: int|
        0 <= i < child.len() ==> #[trigger] child[i] == parent_a[i] || child[i] == parent_b[i]
}

/// A way to combine two chromosomes of equal length into a child. Whatever
/// the method, the child is composed of the parents' genes: a gene is never
/// blended and never moved to another index.
pub trait CrossOverMethod<S: Scalar> {
    fn crossover<R: RandomSource<S>>(
        &self,
        rng: &mut R,
        parent_a: &Chromosome<S>,
        parent_b: &Chromosome<S>,
    ) -> (child: Chromosome<S>)
        requires
            parent_a@.len() == parent_b@.len(),
        ensures
            composed_of(child@, parent_a@, parent_b@),
    ;
}

/// Uniform crossover: each gene is taken from either parent with equal
/// probability, decided by one toss of a fair coin for each index in order.
#[derive(Clone, Copy, Debug, Default)]
pub struct UniformCrossover;

/// The child that the coins make of the parents: gene for gene, that of
/// `parent_a` where the coin shows heads, that of `parent_b` where it does
/// not.
pub open spec fn crossed<S>(parent_a: Seq<S>, parent_b: Seq<S>, coins: Seq<bool>) -> Seq<S> {
    Seq::new(
        parent_a.len(),
        |i: int|
            if coins[i] {
                parent_a[i]
            } else {
                parent_b[i]
            },
    )
}

/// `child` is what some coins, one for each gene, make of the parents.
pub open spec fn crossed_on_coins<S>(parent_a: Seq<S>, parent_b: Seq<S>, child: Seq<S>) -> bool {
    exists|coins: Seq<bool>|
        coins.len() == parent_a.len() && child == #[trigger] crossed(parent_a, parent_b, coins)
}

impl UniformCrossover {
    pub fn new() -> Self {
        UniformCrossover
    }

    /// Makes the child that the given coins decide: one coin for each gene.
    pub fn cross<S: Scalar>(
        &self,
        parent_a: &Chromosome<S>,
        parent_b: &Chromosome<S>,
        coins: &[bool],
    ) -> (child: Chromosome<S>)
        requires
            parent_a@.len() == parent_b@.len(),
            coins@.len() == parent_a@.len(),
        ensures
            child@ == crossed(parent_a@, parent_b@, coins@),
    {
        let mut genes: Vec<S> = Vec::new();
        let mut i: usize = 0;
        while i < parent_a.len()
            invariant
                i <= parent_a@.len(),
                parent_a@.len() == parent_b@.len(),
                coins@.len() == parent_a@.len(),
                genes.len() == i,
                forall|j: int|
                    0 <= j < i ==> #[trigger] genes[j] == crossed(parent_a@, parent_b@, coins@)[j],
            decreases parent_a@.len() - i,
        {
            let gene = if coins[i] {
                parent_a.gene(i)
            } else {
                parent_b.gene(i)
            };
            genes.push(gene);
            i += 1;
        }
        assert(genes@ =~= crossed(parent_a@, parent_b@, coins@));
        Chromosome::new(genes)
    }
}

impl<S: Scalar> CrossOverMethod<S> for UniformCrossover {
    /// One coin is tossed for each gene, the first gene first, and the child
    /// is what the coins decide. Where there is no gene, nothing is drawn.
    fn crossover<R: RandomSource<S>>(
        &self,
        rng: &mut R,
        parent_a: &Chromosome<S>,
        parent_b: &Chromosome<S>,
    ) -> (child: Chromosome<S>)
        ensures
            crossed_on_coins(parent_a@, parent_b@, child@),
            parent_a@.len() == 0 ==> *final(rng) == *old(rng),
    {
        let mut coins: Vec<bool> = Vec::new();
        let mut i: usize = 0;
        while i < parent_a.len()
            invariant
                i <= parent_a@.len(),
                coins.len() == i,
                i == 0 ==> *rng == *old(rng),
            decreases parent_a@.len() - i,
        {
            let coin = rng.flip();
            coins.push(coin);
            i += 1;
        }
        let child = self.cross(parent_a, parent_b, coins.as_slice());
        proof {
            assert(child@ == crossed(parent_a@, parent_b@, coins@));
        }
        child
    }
}

} // verus!
