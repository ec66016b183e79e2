use crate::layer_topology::layer_weights;
use crate::neuron::Neuron;
use crate::random::RandomSource;
use crate::scalar::Scalar;
use vstd::prelude::*;

verus! {

/// An ordered list of neurons that all read the same inputs.
#[derive(Clone, Debug, PartialEq)]
pub struct Layer<S> {
    pub neurons: Vec<Neuron<S>>,
}

/// The parameters of a run of neurons in encoding order: neuron after neuron,
/// each as its bias followed by its weights.
pub open spec fn flat_neurons<S: Scalar>(neurons: Seq<Neuron<S>>) -> Seq<S>
    decreases neurons.len(),
{
    if neurons.len() == 0 {
        Seq::empty()
    } else {
        flat_neurons(neurons.drop_last()) + neurons.last().flat()
    }
}

/// Every neuron of the run takes `input_size` inputs.
pub open spec fn neurons_take<S: Scalar>(neurons: Seq<Neuron<S>>, input_size: int) -> bool {
    forall|i: int| 0 <= i < neurons.len() ==> (#[trigger] neurons[i]).weights.len() == input_size
}

/// A run of neurons that all take `input_size` inputs has `input_size + 1`
/// parameters for each neuron.
pub proof fn lemma_flat_neurons_len<S: Scalar>(neurons: Seq<Neuron<S>>, input_size: int)
    requires
        neurons_take(neurons, input_size),
    ensures
        flat_neurons(neurons).len() == layer_weights(input_size, neurons.len() as int),
    decreases neurons.len(),
{
    if neurons.len() == 0 {
        assert(layer_weights(input_size, 0) == 0) by (nonlinear_arith);
    } else {
        let front = neurons.drop_last();
        assert(neurons_take(front, input_size)) by {
            assert forall|i: int| 0 <= i < front.len() implies (#[trigger] front[i]).weights.len()
                == input_size by {
                assert(front[i] == neurons[i]);
            }
        }
        lemma_flat_neurons_len(front, input_size);
        assert(layer_weights(input_size, neurons.len() as int) == layer_weights(
            input_size,
            neurons.len() - 1,
        ) + input_size + 1) by (nonlinear_arith);
    }
}

/// Two runs of neurons of the same shape that encode to the same parameters
/// hold the same biases and weights.
pub proof fn lemma_flat_neurons_injective<S: Scalar>(
    a: Seq<Neuron<S>>,
    b: Seq<Neuron<S>>,
    input_size: int,
)
    requires
        a.len() == b.len(),
        neurons_take(a, input_size),
        neurons_take(b, input_size),
        flat_neurons(a) == flat_neurons(b),
    ensures
        forall|i: int|
            0 <= i < a.len() ==> (#[trigger] a[i]).bias == b[i].bias && a[i].weights@
                == b[i].weights@,
    decreases a.len(),
{
    if a.len() > 0 {
        let a0 = a.drop_last();
        let b0 = b.drop_last();
        assert(neurons_take(a0, input_size)) by {
            assert forall|i: int| 0 <= i < a0.len() implies (#[trigger] a0[i]).weights.len()
                == input_size by {
                assert(a0[i] == a[i]);
            }
        }
        assert(neurons_take(b0, input_size)) by {
            assert forall|i: int| 0 <= i < b0.len() implies (#[trigger] b0[i]).weights.len()
                == input_size by {
                assert(b0[i] == b[i]);
            }
        }
        lemma_flat_neurons_len(a0, input_size);
        lemma_flat_neurons_len(b0, input_size);
        let cut = flat_neurons(a0).len() as int;
        let whole = flat_neurons(a);
        assert(a.last().flat().len() == input_size + 1);
        assert(b.last().flat().len() == input_size + 1);
        assert(flat_neurons(a0) == whole.subrange(0, cut));
        assert(flat_neurons(b0) == whole.subrange(0, cut));
        assert(a.last().flat() == whole.subrange(cut, whole.len() as int));
        assert(b.last().flat() == whole.subrange(cut, whole.len() as int));
        lemma_flat_neurons_injective(a0, b0, input_size);
        assert(a.last().bias == a.last().flat()[0]);
        assert(b.last().bias == b.last().flat()[0]);
        assert(a.last().weights@ == a.last().flat().subrange(1, input_size + 1));
        assert(b.last().weights@ == b.last().flat().subrange(1, input_size + 1));
        assert forall|i: int| 0 <= i < a.len() implies (#[trigger] a[i]).bias == b[i].bias
            && a[i].weights@ == b[i].weights@ by {
            if i < a.len() - 1 {
                assert(a0[i] == a[i]);
                assert(b0[i] == b[i]);
            }
        }
    }
}

/// The first neurons of a run have no more parameters than the whole run.
pub proof fn lemma_flat_neurons_prefix<S: Scalar>(neurons: Seq<Neuron<S>>, count: int)
    requires
        0 <= count <= neurons.len(),
    ensures
        flat_neurons(neurons.take(count)).len() <= flat_neurons(neurons).len(),
    decreases neurons.len(),
{
    if count == neurons.len() {
        assert(neurons.take(count) == neurons);
    } else {
        lemma_flat_neurons_prefix(neurons.drop_last(), count);
        assert(neurons.drop_last().take(count) == neurons.take(count));
    }
}

impl<S: Scalar> Layer<S> {
    /// The layer's parameters in encoding order.
    pub open spec fn flat(&self) -> Seq<S> {
        flat_neurons(self.neurons@)
    }

    /// The layer holds `output_size` neurons of `input_size` inputs each.
    pub open spec fn has_shape(&self, input_size: int, output_size: int) -> bool {
        &&& self.neurons.len() == output_size
        &&& neurons_take(self.neurons@, input_size)
    }

    /// What the layer answers to `inputs`: one output for each neuron, in
    /// the order of the neurons.
    pub open spec fn outputs(&self, inputs: Seq<S>) -> Seq<S> {
        Seq::new(self.neurons.len() as nat, |i: int| self.neurons[i].output(inputs))
    }

    /// Every bias and every weight of the layer lies in `[-1, 1]`.
    pub open spec fn within_unit_weights(&self) -> bool {
        forall|i: int|
            0 <= i < self.neurons.len() ==> (#[trigger] self.neurons[i]).within_unit_weights()
    }

    pub fn new(neurons: Vec<Neuron<S>>) -> (layer: Self)
        ensures
            layer.neurons == neurons,
    {
        Self { neurons }
    }

    /// Answers `inputs` with every neuron in turn.
    pub fn propagate(&self, inputs: Vec<S>) -> (out: Vec<S>)
        requires
            neurons_take(self.neurons@, inputs.len() as int),
        ensures
            out@ == self.outputs(inputs@),
            forall|i: int| 0 <= i < out.len() ==> S::zero_spec().le_spec(#[trigger] out[i]),
    {
        let mut out: Vec<S> = Vec::new();
        let mut i: usize = 0;
        while i < self.neurons.len()
            invariant
                i <= self.neurons.len(),
                neurons_take(self.neurons@, inputs.len() as int),
                out.len() == i,
                forall|j: int| 0 <= j < i ==> #[trigger] out[j] == self.neurons[j].output(inputs@),
                forall|j: int| 0 <= j < i ==> S::zero_spec().le_spec(#[trigger] out[j]),
            decreases self.neurons.len() - i,
        {
            let answer = self.neurons[i].propagate(inputs.as_slice());
            out.push(answer);
            i += 1;
        }
        assert(out@ =~= self.outputs(inputs@));
        out
    }

    /// Reads a layer of `output_size` neurons for `input_size` inputs from
    /// `source`, starting at `offset`.
    pub fn from_weights(
        input_size: usize,
        output_size: usize,
        source: &[S],
        offset: usize,
    ) -> (layer: Self)
        requires
            offset + layer_weights(input_size as int, output_size as int) <= source.len(),
        ensures
            layer.has_shape(input_size as int, output_size as int),
            layer.flat() == source@.subrange(
                offset as int,
                offset + layer_weights(input_size as int, output_size as int),
            ),
    {
        let mut neurons: Vec<Neuron<S>> = Vec::new();
        let mut i: usize = 0;
        let mut at: usize = offset;
        proof {
            assert(layer_weights(input_size as int, 0) == 0) by (nonlinear_arith);
            assert(flat_neurons(neurons@) =~= source@.subrange(offset as int, offset as int));
        }
        while i < output_size
            invariant
                i <= output_size,
                neurons.len() == i,
                neurons_take(neurons@, input_size as int),
                at == offset + layer_weights(input_size as int, i as int),
                offset + layer_weights(input_size as int, output_size as int) <= source.len(),
                flat_neurons(neurons@) == source@.subrange(offset as int, at as int),
            decreases output_size - i,
        {
            proof {
                assert(layer_weights(input_size as int, i + 1) == layer_weights(
                    input_size as int,
                    i as int,
                ) + input_size + 1) by (nonlinear_arith);
                assert(layer_weights(input_size as int, i + 1) <= layer_weights(
                    input_size as int,
                    output_size as int,
                )) by (nonlinear_arith)
                    requires
                        i + 1 <= output_size,
                        0 <= input_size,
                ;
            }
            let neuron = Neuron::from_weights(input_size, source, at);
            proof {
                let grown = neurons@.push(neuron);
                assert(grown.drop_last() == neurons@);
                assert(neuron.flat() =~= source@.subrange(at as int, at + 1 + input_size));
                assert(flat_neurons(grown) =~= source@.subrange(
                    offset as int,
                    at + 1 + input_size,
                ));
            }
            neurons.push(neuron);
            at = at + 1 + input_size;
            i += 1;
        }
        Layer { neurons }
    }

    /// How many parameters the layer has.
    pub fn weight_count(&self) -> (count: usize)
        requires
            self.flat().len() <= usize::MAX,
        ensures
            count == self.flat().len(),
    {
        let mut count: usize = 0;
        let mut i: usize = 0;
        proof {
            assert(self.neurons@.take(0) =~= Seq::<Neuron<S>>::empty());
        }
        while i < self.neurons.len()
            invariant
                i <= self.neurons.len(),
                self.flat().len() <= usize::MAX,
                count == flat_neurons(self.neurons@.take(i as int)).len(),
            decreases self.neurons.len() - i,
        {
            proof {
                let grown = self.neurons@.take(i + 1);
                assert(grown.drop_last() == self.neurons@.take(i as int));
                assert(grown.last() == self.neurons[i as int]);
                lemma_flat_neurons_prefix(self.neurons@, i + 1);
            }
            count = count + 1 + self.neurons[i].weights.len();
            i += 1;
        }
        proof {
            assert(self.neurons@.take(self.neurons.len() as int) == self.neurons@);
        }
        count
    }

    /// Appends the layer's parameters to `out` in encoding order.
    pub fn append_weights(&self, out: &mut Vec<S>)
        ensures
            final(out)@ == old(out)@ + self.flat(),
    {
        let mut i: usize = 0;
        proof {
            assert(flat_neurons(self.neurons@.take(0)) =~= Seq::<S>::empty());
            assert(out@ =~= old(out)@ + flat_neurons(self.neurons@.take(0)));
        }
        while i < self.neurons.len()
            invariant
                i <= self.neurons.len(),
                out@ == old(out)@ + flat_neurons(self.neurons@.take(i as int)),
            decreases self.neurons.len() - i,
        {
            let neuron = &self.neurons[i];
            let ghost before = out@;
            out.push(neuron.bias);
            let mut j: usize = 0;
            while j < neuron.weights.len()
                invariant
                    j <= neuron.weights.len(),
                    out@ == before + seq![neuron.bias] + neuron.weights@.take(j as int),
                decreases neuron.weights.len() - j,
            {
                out.push(neuron.weights[j]);
                proof {
                    assert(neuron.weights@.take(j + 1) == neuron.weights@.take(j as int).push(
                        neuron.weights[j as int],
                    ));
                }
                j += 1;
            }
            proof {
                assert(neuron.weights@.take(neuron.weights.len() as int) == neuron.weights@);
                let grown = self.neurons@.take(i + 1);
                assert(grown.drop_last() == self.neurons@.take(i as int));
                assert(grown.last() == *neuron);
                assert(out@ =~= old(out)@ + flat_neurons(grown));
            }
            i += 1;
        }
        proof {
            assert(self.neurons@.take(self.neurons.len() as int) == self.neurons@);
        }
    }

    /// A layer of `output_size` neurons for `input_size` inputs, each drawn
    /// in turn as `Neuron::random` draws it.
    pub fn random<R: RandomSource<S>>(rng: &mut R, input_size: usize, output_size: usize) -> (layer:
        Self)
        ensures
            layer.has_shape(input_size as int, output_size as int),
            layer.within_unit_weights(),
    {
        let mut neurons: Vec<Neuron<S>> = Vec::new();
        let mut i: usize = 0;
        while i < output_size
            invariant
                i <= output_size,
                neurons.len() == i,
                neurons_take(neurons@, input_size as int),
                forall|j: int| 0 <= j < i ==> (#[trigger] neurons[j]).within_unit_weights(),
            decreases output_size - i,
        {
            let neuron = Neuron::random(rng, input_size);
            neurons.push(neuron);
            i += 1;
        }
        Layer { neurons }
    }
}

} // verus!
