use crate::random::RandomSource;
use crate::scalar::{in_weight_interval, rectify, Scalar};
use vstd::prelude::*;

verus! {

/// One unit of a network: a bias and one weight for each input.
#[derive(Clone, Debug, PartialEq)]
pub struct Neuron<S> {
    pub bias: S,
    pub weights: Vec<S>,
}

/// The weighted sum of as many inputs as there are weights: each input times
/// its weight, added up from the first pair to the last, starting from zero.
pub open spec fn weighted_sum<S: Scalar>(inputs: Seq<S>, weights: Seq<S>) -> S
    decreases inputs.len(),
{
    if inputs.len() == 0 || weights.len() == 0 {
        S::zero_spec()
    } else {
        weighted_sum(inputs.drop_last(), weights.drop_last()).add_spec(
            inputs.last().mul_spec(weights.last()),
        )
    }
}

impl<S: Scalar> Neuron<S> {
    /// The neuron's parameters in encoding order: the bias, then the weights.
    pub open spec fn flat(&self) -> Seq<S> {
        seq![self.bias] + self.weights@
    }

    /// What the neuron answers to `inputs`: the rectified sum of the bias and
    /// the weighted inputs.
    pub open spec fn output(&self, inputs: Seq<S>) -> S {
        rectify(self.bias.add_spec(weighted_sum(inputs, self.weights@)))
    }

    /// The neuron was read from `source` at `offset`: the bias first, then
    /// `input_size` weights.
    pub open spec fn read_from(&self, source: Seq<S>, offset: int, input_size: int) -> bool {
        &&& self.bias == source[offset]
        &&& self.weights@ == source.subrange(offset + 1, offset + 1 + input_size)
    }

    /// The bias and every weight lie in `[-1, 1]`.
    pub open spec fn within_unit_weights(&self) -> bool {
        &&& in_weight_interval(self.bias)
        &&& forall|i: int|
            0 <= i < self.weights.len() ==> in_weight_interval(#[trigger] self.weights[i])
    }

    pub fn new(bias: S, weights: Vec<S>) -> (neuron: Self)
        ensures
            neuron.bias == bias,
            neuron.weights == weights,
    {
        Self { bias, weights }
    }

    /// Answers `inputs`. The answer is never below zero.
    pub fn propagate(&self, inputs: &[S]) -> (out: S)
        requires
            inputs.len() == self.weights.len(),
        ensures
            out == self.output(inputs@),
            S::zero_spec().le_spec(out),
    {
        let mut sum = S::zero();
        let mut i: usize = 0;
        while i < inputs.len()
            invariant
                i <= inputs.len(),
                inputs.len() == self.weights.len(),
                sum == weighted_sum(inputs@.take(i as int), self.weights@.take(i as int)),
            decreases inputs.len() - i,
        {
            proof {
                assert(inputs@.take(i + 1).drop_last() == inputs@.take(i as int));
                assert(self.weights@.take(i + 1).drop_last() == self.weights@.take(i as int));
            }
            sum = sum.plus(inputs[i].times(self.weights[i]));
            i += 1;
        }
        proof {
            assert(inputs@.take(inputs.len() as int) == inputs@);
            assert(self.weights@.take(inputs.len() as int) == self.weights@);
        }
        self.bias.plus(sum).rectified()
    }

    /// Reads a neuron for `input_size` inputs from `source`, starting at
    /// `offset`: one bias, then `input_size` weights.
    pub fn from_weights(input_size: usize, source: &[S], offset: usize) -> (neuron: Self)
        requires
            offset + 1 + input_size <= source.len(),
        ensures
            neuron.read_from(source@, offset as int, input_size as int),
            neuron.weights.len() == input_size,
    {
        let bias = source[offset];
        let mut weights: Vec<S> = Vec::new();
        let mut i: usize = 0;
        while i < input_size
            invariant
                i <= input_size,
                offset + 1 + input_size <= source.len(),
                weights@ == source@.subrange(offset + 1, offset + 1 + i),
            decreases input_size - i,
        {
            let weight = source[offset + 1 + i];
            weights.push(weight);
            proof {
                assert(weights@ == source@.subrange(offset + 1, offset + 1 + i + 1));
            }
            i += 1;
        }
        Self { bias, weights }
    }

    /// A neuron for `input_size` inputs whose bias and weights are drawn
    /// from `[-1, 1]`: the bias first, then the weights in order.
    pub fn random<R: RandomSource<S>>(rng: &mut R, input_size: usize) -> (neuron: Self)
        ensures
            neuron.weights.len() == input_size,
            neuron.within_unit_weights(),
    {
        let bias = rng.draw_weight();
        let mut weights: Vec<S> = Vec::new();
        let mut i: usize = 0;
        while i < input_size
            invariant
                i <= input_size,
                weights.len() == i,
                forall|j: int| 0 <= j < i ==> in_weight_interval(#[trigger] weights[j]),
            decreases input_size - i,
        {
            let weight = rng.draw_weight();
            weights.push(weight);
            i += 1;
        }
        Self { bias, weights }
    }
}

} // verus!
