use vstd::prelude::*;

verus! {

/// The size of one layer of a network: how many neurons it holds. The first
/// entry of a topology gives the number of inputs of the network.
#[derive(Clone, Copy, Debug, PartialEq, Eq, Structural)]
pub struct LayerTopology {
    pub neurons: usize,
}

/// How many parameters a layer of `output_size` neurons with `input_size`
/// inputs has: a bias and `input_size` weights for each neuron.
pub open spec fn layer_weights(input_size: int, output_size: int) -> int {
    output_size * (input_size + 1)
}

/// How many parameters a network of the given topology has.
pub open spec fn weights_needed(topology: Seq<LayerTopology>) -> int
    decreases topology.len(),
{
    if topology.len() < 2 {
        0
    } else {
        weights_needed(topology.drop_last()) + layer_weights(
            topology[topology.len() - 2].neurons as int,
            topology.last().neurons as int,
        )
    }
}

/// A network of a longer topology has at least the parameters of a shorter
/// one that it starts with.
pub proof fn lemma_weights_needed_grows(topology: Seq<LayerTopology>, shorter: int)
    requires
        0 <= shorter <= topology.len(),
    ensures
        0 <= weights_needed(topology.take(shorter)) <= weights_needed(topology),
    decreases topology.len(),
{
    if topology.len() < 2 {
        assert(weights_needed(topology.take(shorter)) == 0);
    } else if shorter == topology.len() {
        assert(topology.take(shorter) == topology);
        lemma_weights_needed_grows(topology.drop_last(), topology.len() - 1);
        assert(topology.drop_last().take(topology.len() - 1) == topology.drop_last());
        lemma_layer_weights_nonnegative(
            topology[topology.len() - 2].neurons as int,
            topology.last().neurons as int,
        );
    } else {
        lemma_weights_needed_grows(topology.drop_last(), shorter);
        assert(topology.drop_last().take(shorter) == topology.take(shorter));
        lemma_layer_weights_nonnegative(
            topology[topology.len() - 2].neurons as int,
            topology.last().neurons as int,
        );
    }
}

pub proof fn lemma_layer_weights_nonnegative(input_size: int, output_size: int)
    requires
        0 <= input_size,
        0 <= output_size,
    ensures
        0 <= layer_weights(input_size, output_size),
{
    assert(0 <= output_size * (input_size + 1)) by (nonlinear_arith)
        requires
            0 <= input_size,
            0 <= output_size,
    ;
}

/// The number of parameters of a network of the given topology, or `None`
/// where that number does not fit the machine's word.
pub fn weight_count(layers: &[LayerTopology]) -> (count: Option<usize>)
    ensures
        count is Some ==> count->Some_0 == weights_needed(layers@),
        count is None ==> weights_needed(layers@) > usize::MAX,
{
    let mut total: usize = 0;
    let mut k: usize = 1;
    if layers.len() < 2 {
        return Some(0);
    }
    while k < layers.len()
        invariant
            1 <= k <= layers.len(),
            total == weights_needed(layers@.take(k as int)),
        decreases layers.len() - k,
    {
        let input_size = layers[k - 1].neurons;
        let output_size = layers[k].neurons;
        proof {
            let next = layers@.take(k + 1);
            assert(next.drop_last() == layers@.take(k as int));
            assert(next[next.len() - 2] == layers[k - 1]);
            assert(next.last() == layers[k as int]);
            lemma_weights_needed_grows(layers@, k + 1);
            lemma_layer_weights_nonnegative(input_size as int, output_size as int);
        }
        if output_size == 0 {
            assert(layer_weights(input_size as int, 0) == 0) by (nonlinear_arith);
            k += 1;
            continue ;
        }
        let per_neuron = match input_size.checked_add(1) {
            Some(n) => n,
            None => {
                assert(output_size * (input_size + 1) >= input_size + 1) by (nonlinear_arith)
                    requires
                        output_size >= 1,
                        input_size >= 0,
                ;
                return None;
            },
        };
        let layer = match output_size.checked_mul(per_neuron) {
            Some(n) => n,
            None => {
                return None;
            },
        };
        total = match total.checked_add(layer) {
            Some(n) => n,
            None => {
                return None;
            },
        };
        k += 1;
    }
    proof {
        assert(layers@.take(layers.len() as int) == layers@);
    }
    Some(total)
}

} // verus!
