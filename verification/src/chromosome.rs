use vstd::prelude::*;

verus! {

/// A genome: an ordered sequence of genes of a fixed length.
#[derive(Clone, Debug, PartialEq)]
pub struct Chromosome<S> {
    pub genes: Vec<S>,
}

impl<S> View for Chromosome<S> {
    type V = Seq<S>;

    open spec fn view(&self) -> Seq<S> {
        self.genes@
    }
}

impl<S: Copy> Chromosome<S> {
    /// The chromosome that holds `genes` in the given order.
    pub fn new(genes: Vec<S>) -> (chromosome: Self)
        ensures
            chromosome@ == genes@,
    {
        Self { genes }
    }

    /// The number of genes.
    pub fn len(&self) -> (n: usize)
        ensures
            n == self@.len(),
    {
        self.genes.len()
    }

    /// The gene at `index`.
    pub fn gene(&self, index: usize) -> (gene: S)
        requires
            index < self@.len(),
        ensures
            gene == self@[index as int],
    {
        self.genes[index]
    }

    /// Replaces the gene at `index` and leaves every other gene as it is.
    pub fn set_gene(&mut self, index: usize, gene: S)
        requires
            index < old(self)@.len(),
        ensures
            final(self)@ == old(self)@.update(index as int, gene),
    {
        self.genes[index] = gene;
    }

    /// The genes in order.
    pub fn as_slice(&self) -> (genes: &[S])
        ensures
            genes@ == self@,
    {
        self.genes.as_slice()
    }

    /// Gives up the chromosome for its genes.
    pub fn into_vec(self) -> (genes: Vec<S>)
        ensures
            genes@ == self@,
    {
        self.genes
    }
}

} // verus!
