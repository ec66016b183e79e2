use crate::layer::{lemma_flat_neurons_injective, lemma_flat_neurons_len, neurons_take, Layer};
use crate::layer_topology::{
    layer_weights,
    lemma_layer_weights_nonnegative,
    lemma_weights_needed_grows,
    weights_needed,
    LayerTopology,
};
use crate::random::RandomSource;
use crate::scalar::Scalar;
use vstd::prelude::*;

verus! {

/// A feed-forward network: layers in the order in which they are applied.
#[derive(Clone, Debug, PartialEq)]
pub struct Network<S> {
    pub layers: Vec<Layer<S>>,
}

/// The parameters of a run of layers in encoding order: layer after layer.
pub open spec fn flat_layers<S: Scalar>(layers: Seq<Layer<S>>) -> Seq<S>
    decreases layers.len(),
{
    if layers.len() == 0 {
        Seq::empty()
    } else {
        flat_layers(layers.drop_last()) + layers.last().flat()
    }
}

/// What a run of layers answers to `inputs`: the output of each layer is the
/// input of the next one.
pub open spec fn run_layers<S: Scalar>(layers: Seq<Layer<S>>, inputs: Seq<S>) -> Seq<S>
    decreases layers.len(),
{
    if layers.len() == 0 {
        inputs
    } else {
        layers.last().outputs(run_layers(layers.drop_last(), inputs))
    }
}

/// How many layers a network of the given topology has: one for each pair of
/// neighbouring entries.
pub open spec fn layer_count(topology: Seq<LayerTopology>) -> int {
    if topology.len() == 0 {
        0
    } else {
        topology.len() - 1
    }
}

/// The run of layers has the sizes that the topology gives.
pub open spec fn layers_have_shape<S: Scalar>(
    layers: Seq<Layer<S>>,
    topology: Seq<LayerTopology>,
) -> bool {
    &&& layers.len() == layer_count(topology)
    &&& forall|k: int|
        0 <= k < layers.len() ==> (#[trigger] layers[k]).has_shape(
            topology[k].neurons as int,
            topology[k + 1].neurons as int,
        )
}

/// How many inputs layer `k` of a run is fed: `input_size` for the first
/// layer, the number of neurons of the layer before it for any other.
pub open spec fn feed_size<S: Scalar>(layers: Seq<Layer<S>>, input_size: int, k: int) -> int {
    if k == 0 {
        input_size
    } else {
        layers[k - 1].neurons.len() as int
    }
}

/// Each layer of the run takes as many inputs as it is fed.
pub open spec fn layers_chain<S: Scalar>(layers: Seq<Layer<S>>, input_size: int) -> bool {
    forall|k: int|
        0 <= k < layers.len() ==> neurons_take(
            layers[k].neurons@,
            #[trigger] feed_size(layers, input_size, k),
        )
}

/// A run of layers of a given topology can answer inputs of the size that the
/// topology starts with.
pub proof fn lemma_shape_chains<S: Scalar>(layers: Seq<Layer<S>>, topology: Seq<LayerTopology>)
    requires
        layers_have_shape(layers, topology),
        topology.len() > 0,
    ensures
        layers_chain(layers, topology[0].neurons as int),
{
    assert forall|k: int| 0 <= k < layers.len() implies neurons_take(
        layers[k].neurons@,
        #[trigger] feed_size(layers, topology[0].neurons as int, k),
    ) by {
        assert(layers[k].has_shape(topology[k].neurons as int, topology[k + 1].neurons as int));
        if k > 0 {
            assert(layers[k - 1].has_shape(
                topology[k - 1].neurons as int,
                topology[k].neurons as int,
            ));
        }
    }
}

/// A run of layers of a given topology answers with as many outputs as the
/// topology ends with.
pub proof fn lemma_outputs_len<S: Scalar>(
    layers: Seq<Layer<S>>,
    topology: Seq<LayerTopology>,
    inputs: Seq<S>,
)
    requires
        layers_have_shape(layers, topology),
        topology.len() > 1,
    ensures
        run_layers(layers, inputs).len() == topology.last().neurons,
{
    assert(layers.last() == layers[layers.len() - 1]);
}

/// A run of layers of a given topology has as many parameters as the
/// topology calls for.
pub proof fn lemma_flat_layers_len<S: Scalar>(layers: Seq<Layer<S>>, topology: Seq<LayerTopology>)
    requires
        layers_have_shape(layers, topology),
    ensures
        flat_layers(layers).len() == weights_needed(topology),
    decreases layers.len(),
{
    if layers.len() > 0 {
        let front = layers.drop_last();
        let shorter = topology.drop_last();
        assert(layers_have_shape(front, shorter)) by {
            assert forall|k: int| 0 <= k < front.len() implies (#[trigger] front[k]).has_shape(
                shorter[k].neurons as int,
                shorter[k + 1].neurons as int,
            ) by {
                assert(front[k] == layers[k]);
            }
        }
        lemma_flat_layers_len(front, shorter);
        let last = layers.last();
        assert(last == layers[layers.len() - 1]);
        lemma_flat_neurons_len(last.neurons@, topology[topology.len() - 2].neurons as int);
    }
}

/// Two runs of layers of the same topology that encode to the same
/// parameters answer every input alike.
pub proof fn lemma_same_weights_same_outputs<S: Scalar>(
    a: Seq<Layer<S>>,
    b: Seq<Layer<S>>,
    topology: Seq<LayerTopology>,
    inputs: Seq<S>,
)
    requires
        layers_have_shape(a, topology),
        layers_have_shape(b, topology),
        flat_layers(a) == flat_layers(b),
    ensures
        run_layers(a, inputs) == run_layers(b, inputs),
    decreases a.len(),
{
    if a.len() > 0 {
        let a0 = a.drop_last();
        let b0 = b.drop_last();
        let shorter = topology.drop_last();
        assert(layers_have_shape(a0, shorter)) by {
            assert forall|k: int| 0 <= k < a0.len() implies (#[trigger] a0[k]).has_shape(
                shorter[k].neurons as int,
                shorter[k + 1].neurons as int,
            ) by {
                assert(a0[k] == a[k]);
            }
        }
        assert(layers_have_shape(b0, shorter)) by {
            assert forall|k: int| 0 <= k < b0.len() implies (#[trigger] b0[k]).has_shape(
                shorter[k].neurons as int,
                shorter[k + 1].neurons as int,
            ) by {
                assert(b0[k] == b[k]);
            }
        }
        lemma_flat_layers_len(a0, shorter);
        lemma_flat_layers_len(b0, shorter);
        let la = a.last();
        let lb = b.last();
        assert(la == a[a.len() - 1]);
        assert(lb == b[b.len() - 1]);
        let input_size = topology[topology.len() - 2].neurons as int;
        let whole = flat_layers(a);
        let cut = flat_layers(a0).len() as int;
        assert(flat_layers(a0) == whole.subrange(0, cut));
        assert(flat_layers(b0) == whole.subrange(0, cut));
        assert(la.flat() == whole.subrange(cut, whole.len() as int));
        assert(lb.flat() == whole.subrange(cut, whole.len() as int));
        lemma_same_weights_same_outputs(a0, b0, shorter, inputs);
        lemma_flat_neurons_injective(la.neurons@, lb.neurons@, input_size);
        let fed = run_layers(a0, inputs);
        assert(la.outputs(fed) =~= lb.outputs(fed));
    }
}

impl<S: Scalar> Network<S> {
    /// The network's parameters in encoding order: layer after layer, neuron
    /// after neuron, each neuron as its bias followed by its weights.
    pub open spec fn flat(&self) -> Seq<S> {
        flat_layers(self.layers@)
    }

    /// The network has the sizes that the topology gives.
    pub open spec fn has_shape(&self, topology: Seq<LayerTopology>) -> bool {
        layers_have_shape(self.layers@, topology)
    }

    /// The network can answer inputs of length `input_size`.
    pub open spec fn accepts(&self, input_size: int) -> bool {
        layers_chain(self.layers@, input_size)
    }

    /// What the network answers to `inputs`.
    pub open spec fn outputs(&self, inputs: Seq<S>) -> Seq<S> {
        run_layers(self.layers@, inputs)
    }

    /// The network is what `weights` decode to under `topology`: it has the
    /// topology's sizes, and its parameters are the first
    /// `weights_needed(topology)` entries of `weights`, in order.
    pub open spec fn decodes(&self, topology: Seq<LayerTopology>, weights: Seq<S>) -> bool {
        &&& self.has_shape(topology)
        &&& self.flat() == weights.take(weights_needed(topology))
    }

    /// Every bias and every weight of the network lies in `[-1, 1]`.
    pub open spec fn within_unit_weights(&self) -> bool {
        forall|k: int|
            0 <= k < self.layers.len() ==> (#[trigger] self.layers[k]).within_unit_weights()
    }

    pub fn new(layers: Vec<Layer<S>>) -> (network: Self)
        ensures
            network.layers == layers,
    {
        Self { layers }
    }

    /// Feeds `inputs` through the layers in order.
    pub fn propagate(&self, inputs: Vec<S>) -> (out: Vec<S>)
        requires
            self.accepts(inputs.len() as int),
        ensures
            out@ == self.outputs(inputs@),
            self.layers.len() > 0 ==> forall|i: int|
                0 <= i < out.len() ==> S::zero_spec().le_spec(#[trigger] out[i]),
    {
        let ghost given = inputs@;
        let mut current = inputs;
        let mut k: usize = 0;
        proof {
            assert(self.layers@.take(0) =~= Seq::<Layer<S>>::empty());
            if self.layers.len() > 0 {
                assert(feed_size(self.layers@, given.len() as int, 0) == given.len());
            }
        }
        while k < self.layers.len()
            invariant
                k <= self.layers.len(),
                self.accepts(given.len() as int),
                current@ == run_layers(self.layers@.take(k as int), given),
                k < self.layers.len() ==> neurons_take(
                    self.layers@[k as int].neurons@,
                    current.len() as int,
                ),
                k > 0 ==> forall|i: int|
                    0 <= i < current.len() ==> S::zero_spec().le_spec(#[trigger] current[i]),
            decreases self.layers.len() - k,
        {
            proof {
                lemma_run_layers_step(self.layers@, k as int, given);
            }
            current = self.layers[k].propagate(current);
            k += 1;
            proof {
                if k < self.layers.len() {
                    assert(feed_size(self.layers@, given.len() as int, k as int)
                        == self.layers@[k - 1].neurons.len());
                }
            }
        }
        proof {
            assert(self.layers@.take(self.layers.len() as int) == self.layers@);
        }
        current
    }

    /// The network's parameters as one flat sequence, in encoding order.
    pub fn weights(&self) -> (out: Vec<S>)
        ensures
            out@ == self.flat(),
    {
        let mut out: Vec<S> = Vec::new();
        let mut k: usize = 0;
        proof {
            assert(self.layers@.take(0) =~= Seq::<Layer<S>>::empty());
            assert(out@ =~= flat_layers(self.layers@.take(0)));
        }
        while k < self.layers.len()
            invariant
                k <= self.layers.len(),
                out@ == flat_layers(self.layers@.take(k as int)),
            decreases self.layers.len() - k,
        {
            proof {
                let grown = self.layers@.take(k + 1);
                assert(grown.drop_last() == self.layers@.take(k as int));
                assert(grown.last() == self.layers[k as int]);
            }
            self.layers[k].append_weights(&mut out);
            k += 1;
        }
        proof {
            assert(self.layers@.take(self.layers.len() as int) == self.layers@);
        }
        out
    }

    /// Rebuilds a network of the given topology from a flat sequence of
    /// parameters in encoding order. Parameters beyond those that the
    /// topology calls for are not read.
    pub fn from_weights(layers: &[LayerTopology], weights: &[S]) -> (network: Self)
        requires
            weights_needed(layers@) <= weights.len(),
        ensures
            network.decodes(layers@, weights@),
    {
        let mut built: Vec<Layer<S>> = Vec::new();
        if layers.len() < 2 {
            proof {
                assert(flat_layers(built@) =~= weights@.take(0));
            }
            return Self { layers: built };
        }
        let mut k: usize = 0;
        let mut at: usize = 0;
        proof {
            assert(weights_needed(layers@.take(1)) == 0);
            assert(flat_layers(built@) =~= weights@.take(0));
        }
        while k + 1 < layers.len()
            invariant
                k + 1 <= layers.len(),
                built.len() == k,
                weights_needed(layers@) <= weights.len(),
                at == weights_needed(layers@.take(k + 1)),
                flat_layers(built@) == weights@.take(at as int),
                forall|j: int|
                    0 <= j < k ==> (#[trigger] built[j]).has_shape(
                        layers[j].neurons as int,
                        layers[j + 1].neurons as int,
                    ),
            decreases layers.len() - k,
        {
            let input_size = layers[k].neurons;
            let output_size = layers[k + 1].neurons;
            proof {
                let next = layers@.take(k + 2);
                assert(next.drop_last() == layers@.take(k + 1));
                assert(next[next.len() - 2] == layers[k as int]);
                assert(next.last() == layers[k + 1]);
                lemma_weights_needed_grows(layers@, k + 2);
                lemma_layer_weights_nonnegative(input_size as int, output_size as int);
            }
            let layer = Layer::from_weights(input_size, output_size, weights, at);
            proof {
                let grown = built@.push(layer);
                assert(grown.drop_last() == built@);
                assert(flat_layers(grown) =~= weights@.take(
                    at + layer_weights(input_size as int, output_size as int),
                ));
                lemma_flat_neurons_len(layer.neurons@, input_size as int);
            }
            at = at + layer.weight_count();
            built.push(layer);
            k += 1;
        }
        proof {
            assert(layers@.take(layers.len() as int) == layers@);
        }
        Self { layers: built }
    }

    /// A network of the given topology whose parameters are drawn from
    /// `[-1, 1]` in encoding order.
    pub fn random<R: RandomSource<S>>(rng: &mut R, layers: &[LayerTopology]) -> (network: Self)
        requires
            layers.len() > 1,
        ensures
            network.has_shape(layers@),
            network.within_unit_weights(),
    {
        let mut built: Vec<Layer<S>> = Vec::new();
        let mut k: usize = 0;
        while k + 1 < layers.len()
            invariant
                k + 1 <= layers.len(),
                built.len() == k,
                forall|j: int| 0 <= j < k ==> (#[trigger] built[j]).within_unit_weights(),
                forall|j: int|
                    0 <= j < k ==> (#[trigger] built[j]).has_shape(
                        layers[j].neurons as int,
                        layers[j + 1].neurons as int,
                    ),
            decreases layers.len() - k,
        {
            let layer = Layer::random(rng, layers[k].neurons, layers[k + 1].neurons);
            built.push(layer);
            k += 1;
        }
        Self { layers: built }
    }
}

/// Applying one more layer of a run feeds it what the layers before it
/// answer.
pub proof fn lemma_run_layers_step<S: Scalar>(layers: Seq<Layer<S>>, k: int, inputs: Seq<S>)
    requires
        0 <= k < layers.len(),
    ensures
        run_layers(layers.take(k + 1), inputs) == layers[k].outputs(
            run_layers(layers.take(k), inputs),
        ),
{
    let grown = layers.take(k + 1);
    assert(grown.drop_last() == layers.take(k));
    assert(grown.last() == layers[k]);
}

/// Decoding a flat sequence, encoding the result and decoding again gives a
/// network that answers every input as the first one does.
pub proof fn lemma_round_trip<S: Scalar>(
    topology: Seq<LayerTopology>,
    weights: Seq<S>,
    first: Network<S>,
    second: Network<S>,
    inputs: Seq<S>,
)
    requires
        weights_needed(topology) <= weights.len(),
        first.decodes(topology, weights),
        second.decodes(topology, first.flat()),
    ensures
        second.flat() == first.flat(),
        second.outputs(inputs) == first.outputs(inputs),
{
    lemma_flat_layers_len(first.layers@, topology);
    assert(first.flat().take(weights_needed(topology)) == first.flat());
    lemma_same_weights_same_outputs(second.layers@, first.layers@, topology, inputs);
}

/// Encoding a network and decoding the result under the network's own
/// topology gives a network with the same biases and weights, which answers
/// every input alike.
pub proof fn lemma_decode_encoded<S: Scalar>(
    topology: Seq<LayerTopology>,
    network: Network<S>,
    decoded: Network<S>,
    inputs: Seq<S>,
)
    requires
        network.has_shape(topology),
        decoded.decodes(topology, network.flat()),
    ensures
        decoded.flat() == network.flat(),
        decoded.outputs(inputs) == network.outputs(inputs),
{
    lemma_flat_layers_len(network.layers@, topology);
    assert(network.flat().take(weights_needed(topology)) == network.flat());
    lemma_same_weights_same_outputs(decoded.layers@, network.layers@, topology, inputs);
}

} // verus!
