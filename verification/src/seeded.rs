use crate::fixed::{lemma_total_of_weights, micros_of, sum_of, Fixed, MICROS_PER_UNIT};
use crate::random::RandomSource;
use rand::seq::SliceRandom;
use rand::Rng;
use rand::SeedableRng;
use rand_chacha::ChaCha8Rng;
use vstd::prelude::*;

verus! {

/// The ChaCha generator of eight rounds of `rand_chacha`, carried as an
/// opaque value.
#[verifier::external_type_specification]
#[verifier::external_body]
pub struct ExChaCha8Rng(rand_chacha::ChaCha8Rng);

/// The sum of the weights of a sequence of items, each an index with its
/// weight.
pub open spec fn total_weight(items: Seq<(usize, u64)>) -> int
    decreases items.len(),
{
    if items.len() == 0 {
        0
    } else {
        total_weight(items.drop_last()) + items.last().1
    }
}

/// Calls `rand::SeedableRng::seed_from_u64` for a ChaCha generator of eight
/// rounds. Nothing is claimed of the generator that comes back.
#[verifier::external_body]
fn seeded_generator(seed: u64) -> ChaCha8Rng {
    ChaCha8Rng::seed_from_u64(seed)
}

/// Calls `rand::Rng::gen_ratio`: a coin that shows `true` with probability
/// `numerator / denominator`. The generator documents that a numerator of
/// zero always gives `false` and a numerator equal to the denominator always
/// gives `true`; it panics on a zero denominator and on a numerator above the
/// denominator, which the precondition excludes.
#[verifier::external_body]
fn ratio(rng: &mut ChaCha8Rng, numerator: u32, denominator: u32) -> (hit: bool)
    requires
        denominator > 0,
        numerator <= denominator,
    ensures
        numerator == 0 ==> !hit,
        numerator == denominator ==> hit,
{
    rng.gen_ratio(numerator, denominator)
}

/// Calls `rand::Rng::gen_range` on the half-open range `low..high`. The
/// result lies in the range; the generator panics on an empty range, which
/// the precondition excludes.
#[verifier::external_body]
fn uniform_between(rng: &mut ChaCha8Rng, low: i64, high: i64) -> (r: i64)
    requires
        low < high,
    ensures
        low <= r < high,
{
    rng.gen_range(low..high)
}

/// Calls `rand::seq::SliceRandom::choose_weighted` with the second entry of
/// each item as its weight. An item is picked with a probability of its
/// weight over the total, so an item of weight zero is never returned. The
/// function refuses an empty list and a total of zero, and adds the weights
/// up without an overflow check; the precondition excludes all three.
#[verifier::external_body]
fn choose_weighted(rng: &mut ChaCha8Rng, items: &Vec<(usize, u64)>) -> (chosen: (usize, u64))
    requires
        items.len() > 0,
        0 < total_weight(items@) <= u64::MAX,
    ensures
        items@.contains(chosen),
        0 < chosen.1,
{
    *items.choose_weighted(rng, |item| item.1).unwrap()
}

/// A source of fixed-point scalars that is driven by a ChaCha generator of
/// eight rounds, so that a seed fixes every draw.
pub struct SeededSource {
    rng: ChaCha8Rng,
}

impl SeededSource {
    /// The source that the seed fixes.
    pub fn new(seed: u64) -> Self {
        SeededSource { rng: seeded_generator(seed) }
    }
}

impl RandomSource<Fixed> for SeededSource {
    fn flip(&mut self) -> bool {
        ratio(&mut self.rng, 1, 2)
    }

    fn strikes(&mut self, chance: Fixed) -> bool {
        ratio(&mut self.rng, chance.micros as u32, 1_000_000u32)
    }

    fn draw_unit(&mut self) -> Fixed {
        Fixed { micros: uniform_between(&mut self.rng, 0, MICROS_PER_UNIT) }
    }

    fn draw_weight(&mut self) -> Fixed {
        Fixed { micros: uniform_between(&mut self.rng, -MICROS_PER_UNIT, MICROS_PER_UNIT + 1) }
    }

    fn draw_below(&mut self, bound: Fixed) -> Fixed {
        Fixed { micros: uniform_between(&mut self.rng, 0, bound.micros) }
    }

    fn pick_weighted(&mut self, weights: &Vec<Fixed>) -> usize {
        let mut items: Vec<(usize, u64)> = Vec::new();
        let mut i: usize = 0;
        proof {
            lemma_total_of_weights(weights@, weights.len() as int);
        }
        while i < weights.len()
            invariant
                i <= weights.len(),
                items.len() == i,
                forall|j: int| 0 <= j < weights.len() ==> (#[trigger] weights[j]).micros >= 0,
                forall|j: int|
                    0 <= j < i ==> (#[trigger] items[j]).0 == j && items[j].1 == weights[j].micros,
                total_weight(items@) == sum_of(micros_of(weights@.take(i as int))),
            decreases weights.len() - i,
        {
            let item = (i, weights[i].micros as u64);
            proof {
                let before = weights@.take(i as int);
                let after = weights@.take(i + 1);
                assert(micros_of(after).drop_last() == micros_of(before));
                assert(micros_of(after).last() == weights[i as int].micros);
                assert(items@.push(item).drop_last() == items@);
            }
            items.push(item);
            i += 1;
        }
        proof {
            assert(weights@.take(weights.len() as int) == weights@);
        }
        let chosen = choose_weighted(&mut self.rng, &items);
        chosen.0
    }
}

} // verus!
