use crate::chromosome::Chromosome;
use crate::eye::Eye;
use crate::layer_topology::{weights_needed, LayerTopology};
use crate::network::{lemma_outputs_len, lemma_shape_chains, Network};
use crate::random::RandomSource;
use crate::scalar::Scalar;
use vstd::prelude::*;

verus! {

/// What turns the report of an eye into a decision: a network whose sizes
/// follow from the eye it serves.
#[derive(Clone, Debug, PartialEq)]
pub struct Brain<S> {
    pub nn: Network<S>,
}

/// The topology of the brain that serves an eye of `cells` cells: one input
/// for each cell, a hidden layer twice as wide, and two outputs.
pub open spec fn brain_topology(cells: usize) -> Seq<LayerTopology> {
    seq![
        LayerTopology { neurons: cells },
        LayerTopology { neurons: (2 * cells) as usize },
        LayerTopology { neurons: 2 },
    ]
}

/// How many genes encode the brain that serves an eye of `cells` cells.
pub open spec fn brain_genes(cells: usize) -> int {
    weights_needed(brain_topology(cells))
}

impl<S: Scalar> Brain<S> {
    /// The brain has the sizes that an eye of `cells` cells calls for.
    pub open spec fn serves(&self, cells: usize) -> bool {
        &&& 2 * cells <= usize::MAX
        &&& self.nn.has_shape(brain_topology(cells))
    }

    /// The topology of the brain that serves `eye`.
    pub fn topology(eye: &Eye<S>) -> (layers: [LayerTopology; 3])
        requires
            2 * eye.cells <= usize::MAX,
        ensures
            layers@ == brain_topology(eye.cells),
    {
        let layers = [
            LayerTopology { neurons: eye.cells() },
            LayerTopology { neurons: 2 * eye.cells() },
            LayerTopology { neurons: 2 },
        ];
        assert(layers@ =~= brain_topology(eye.cells));
        layers
    }

    /// Decodes a brain for `eye` from a chromosome. Genes beyond those that
    /// the brain calls for are not read.
    pub fn from_chromosome(chromosome: Chromosome<S>, eye: &Eye<S>) -> (brain: Self)
        requires
            2 * eye.cells <= usize::MAX,
            brain_genes(eye.cells) <= chromosome@.len(),
        ensures
            brain.serves(eye.cells),
            brain.nn.decodes(brain_topology(eye.cells), chromosome@),
    {
        let layers = Self::topology(eye);
        Self { nn: Network::from_weights(layers.as_slice(), chromosome.as_slice()) }
    }

    /// Encodes the brain as a chromosome: all its biases and weights in
    /// encoding order.
    pub fn as_chromosome(&self) -> (chromosome: Chromosome<S>)
        ensures
            chromosome@ == self.nn.flat(),
    {
        Chromosome::new(self.nn.weights())
    }

    /// Turns the report of the eye into two numbers: by how much to change
    /// the speed, and by how much to turn.
    pub fn decide(&self, vision: Vec<S>) -> (response: Vec<S>)
        requires
            self.serves(vision.len()),
        ensures
            response@ == self.nn.outputs(vision@),
            response.len() == 2,
    {
        proof {
            lemma_shape_chains(self.nn.layers@, brain_topology(vision.len()));
            lemma_outputs_len(self.nn.layers@, brain_topology(vision.len()), vision@);
        }
        self.nn.propagate(vision)
    }

    /// A brain for `eye` whose parameters are drawn from `[-1, 1]`.
    pub fn random<R: RandomSource<S>>(rng: &mut R, eye: &Eye<S>) -> (brain: Self)
        requires
            2 * eye.cells <= usize::MAX,
        ensures
            brain.serves(eye.cells),
            brain.nn.within_unit_weights(),
    {
        let layers = Self::topology(eye);
        Self { nn: Network::random(rng, layers.as_slice()) }
    }
}

} // verus!
