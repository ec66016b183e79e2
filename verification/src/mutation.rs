use crate::chromosome::Chromosome;
use crate::fixed::Fixed;
use crate::random::RandomSource;
use crate::scalar::{in_unit_interval, is_chance, Scalar};
use vstd::prelude::*;

verus! {

/// A way to perturb a chromosome in place.
pub trait MutationMethod<S: Scalar> {
    /// Whether the method can turn `before` into `after`.
    spec fn mutates(&self, before: Chromosome<S>, after: Chromosome<S>) -> bool;

    fn mutate<R: RandomSource<S>>(&self, rng: &mut R, child: &mut Chromosome<S>)
        ensures
            final(child)@.len() == old(child)@.len(),
            self.mutates(*old(child), *final(child)),
    ;
}

/// Gaussian mutation: each gene is left alone or moved by a random share of
/// `coefficient`, up or down.
pub struct GaussianMutation<S: Scalar> {
    chance: S,
    coefficient: S,
}

/// What was drawn for one gene: a direction, and the share of the
/// coefficient by which the gene moves, where it was drawn that it moves.
#[derive(Clone, Copy, Debug, PartialEq)]
pub struct GeneDraw<S> {
    pub negative: bool,
    pub share: Option<S>,
}

/// The gene that a mutation makes of `gene`: `gene` moved by the share `share`
/// of `coefficient`, down where `negative` holds, up where it does not.
pub open spec fn mutated_gene<S: Scalar>(gene: S, coefficient: S, negative: bool, share: S) -> S {
    if negative {
        gene.add_spec(coefficient.mul_spec(share).neg_spec())
    } else {
        gene.add_spec(coefficient.mul_spec(share))
    }
}

/// `after` is `before`, or `before` moved by a share of `coefficient` that
/// lies in `[0, 1)`.
pub open spec fn kept_or_moved<S: Scalar>(before: S, after: S, coefficient: S) -> bool {
    after == before || moved(before, after, coefficient)
}

/// `after` is `before` moved by a share of `coefficient` that lies in
/// `[0, 1)`, up or down.
pub open spec fn moved<S: Scalar>(before: S, after: S, coefficient: S) -> bool {
    exists|negative: bool, share: S|
        in_unit_interval(share) && after == #[trigger] mutated_gene(
            before,
            coefficient,
            negative,
            share,
        )
}

impl<S: Scalar> GaussianMutation<S> {
    #[verifier::type_invariant]
    spec fn chance_is_a_probability(self) -> bool {
        is_chance(self.chance)
    }

    /// The probability with which a gene is changed.
    pub closed spec fn chance_spec(&self) -> S {
        self.chance
    }

    /// The greatest distance by which a gene is moved.
    pub closed spec fn coefficient_spec(&self) -> S {
        self.coefficient
    }

    /// What a mutation with these parameters can make of `before`: with a
    /// chance of zero nothing changes, with a chance of one every gene is
    /// moved, and otherwise each gene is kept or moved.
    pub open spec fn can_turn(&self, before: Seq<S>, after: Seq<S>) -> bool {
        &&& after.len() == before.len()
        &&& forall|i: int|
            0 <= i < before.len() ==> kept_or_moved(
                before[i],
                #[trigger] after[i],
                self.coefficient_spec(),
            )
        &&& self.chance_spec() == S::zero_spec() ==> after == before
        &&& self.chance_spec() == S::one_spec() ==> forall|i: int|
            0 <= i < before.len() ==> moved(before[i], #[trigger] after[i], self.coefficient_spec())
    }

    /// What the mutation makes of `gene` on the given draw: the gene moved
    /// by the drawn share in the drawn direction, or the gene itself where no
    /// share was drawn.
    pub open spec fn drawn_gene(&self, gene: S, draw: GeneDraw<S>) -> S {
        if draw.share is Some {
            mutated_gene(gene, self.coefficient_spec(), draw.negative, draw.share->Some_0)
        } else {
            gene
        }
    }

    /// What the mutation makes of `before` on the given draws, one for each
    /// gene.
    pub open spec fn applied(&self, before: Seq<S>, draws: Seq<GeneDraw<S>>) -> Seq<S> {
        Seq::new(before.len(), |i: int| self.drawn_gene(before[i], draws[i]))
    }

    /// `draws` can be drawn for a mutation with these parameters: every
    /// share lies in `[0, 1)`, with a chance of zero no share is drawn, and
    /// with a chance of one a share is drawn for every gene.
    pub open spec fn can_draw(&self, draws: Seq<GeneDraw<S>>) -> bool {
        &&& forall|i: int|
            0 <= i < draws.len() && (#[trigger] draws[i]).share is Some ==> in_unit_interval(
                draws[i].share->Some_0,
            )
        &&& self.chance_spec() == S::zero_spec() ==> forall|i: int|
            0 <= i < draws.len() ==> (#[trigger] draws[i]).share is None
        &&& self.chance_spec() == S::one_spec() ==> forall|i: int|
            0 <= i < draws.len() ==> (#[trigger] draws[i]).share is Some
    }

    /// The mutation turns `before` into `after` on draws that can be drawn
    /// for it, one for each gene.
    pub open spec fn turns_on_draws(&self, before: Seq<S>, after: Seq<S>) -> bool {
        exists|draws: Seq<GeneDraw<S>>|
            {
                &&& draws.len() == before.len()
                &&& self.can_draw(draws)
                &&& after == #[trigger] self.applied(before, draws)
            }
    }

    /// What can be drawn turns a chromosome into one that the mutation can
    /// turn it into.
    pub proof fn lemma_applied_can_turn(&self, before: Seq<S>, draws: Seq<GeneDraw<S>>)
        requires
            draws.len() == before.len(),
            self.can_draw(draws),
        ensures
            self.can_turn(before, self.applied(before, draws)),
    {
        let after = self.applied(before, draws);
        assert forall|i: int| 0 <= i < before.len() implies kept_or_moved(
            before[i],
            #[trigger] after[i],
            self.coefficient_spec(),
        ) by {
            if draws[i].share is Some {
                assert(after[i] == mutated_gene(
                    before[i],
                    self.coefficient_spec(),
                    draws[i].negative,
                    draws[i].share->Some_0,
                ));
            }
        }
        if self.chance_spec() == S::zero_spec() {
            assert(after =~= before);
        }
        if self.chance_spec() == S::one_spec() {
            assert forall|i: int| 0 <= i < before.len() implies moved(
                before[i],
                #[trigger] after[i],
                self.coefficient_spec(),
            ) by {
                assert(draws[i].share is Some);
                assert(after[i] == mutated_gene(
                    before[i],
                    self.coefficient_spec(),
                    draws[i].negative,
                    draws[i].share->Some_0,
                ));
            }
        }
    }

    /// Draws for `genes` genes, the first gene first: for each gene the
    /// direction, then whether the gene moves, and the share where it does.
    /// For no gene, nothing is drawn.
    pub fn draw<R: RandomSource<S>>(&self, rng: &mut R, genes: usize) -> (draws: Vec<GeneDraw<S>>)
        ensures
            draws.len() == genes,
            self.can_draw(draws@),
            genes == 0 ==> *final(rng) == *old(rng),
    {
        proof {
            use_type_invariant(self);
        }
        let mut draws: Vec<GeneDraw<S>> = Vec::new();
        let mut i: usize = 0;
        while i < genes
            invariant
                i <= genes,
                draws.len() == i,
                is_chance(self.chance),
                self.can_draw(draws@),
                i == 0 ==> *rng == *old(rng),
            decreases genes - i,
        {
            let negative = rng.flip();
            let share = if rng.strikes(self.chance) {
                Some(rng.draw_unit())
            } else {
                None
            };
            draws.push(GeneDraw { negative, share });
            i += 1;
        }
        draws
    }

    /// Moves a gene as was drawn for it.
    pub fn move_gene(&self, gene: S, draw: GeneDraw<S>) -> (moved: S)
        ensures
            moved == self.drawn_gene(gene, draw),
    {
        match draw.share {
            Some(share) => {
                let step = self.coefficient.times(share);
                if draw.negative {
                    gene.plus(step.negated())
                } else {
                    gene.plus(step)
                }
            },
            None => gene,
        }
    }

    /// Moves every gene of `child` as was drawn for it.
    pub fn apply(&self, child: &mut Chromosome<S>, draws: &[GeneDraw<S>])
        requires
            draws@.len() == old(child)@.len(),
        ensures
            final(child)@ == self.applied(old(child)@, draws@),
    {
        let mut i: usize = 0;
        while i < child.len()
            invariant
                i <= child@.len(),
                child@.len() == old(child)@.len(),
                draws@.len() == child@.len(),
                forall|j: int| i <= j < child@.len() ==> child@[j] == old(child)@[j],
                forall|j: int|
                    0 <= j < i ==> #[trigger] child@[j] == self.drawn_gene(
                        old(child)@[j],
                        draws@[j],
                    ),
            decreases child@.len() - i,
        {
            let moved = self.move_gene(child.gene(i), draws[i]);
            child.set_gene(i, moved);
            i += 1;
        }
        assert(child@ =~= self.applied(old(child)@, draws@));
    }

    /// A mutation that changes each gene with probability `chance`, by at
    /// most `coefficient`.
    pub fn new(chance: S, coefficient: S) -> (mutation: Self)
        requires
            is_chance(chance),
        ensures
            mutation.chance_spec() == chance,
            mutation.coefficient_spec() == coefficient,
    {
        Self { chance, coefficient }
    }

    pub fn chance(&self) -> (chance: S)
        ensures
            chance == self.chance_spec(),
            is_chance(chance),
    {
        proof {
            use_type_invariant(self);
        }
        self.chance
    }

    pub fn coefficient(&self) -> (coefficient: S)
        ensures
            coefficient == self.coefficient_spec(),
    {
        self.coefficient
    }
}

impl<S: Scalar> MutationMethod<S> for GaussianMutation<S> {
    open spec fn mutates(&self, before: Chromosome<S>, after: Chromosome<S>) -> bool {
        self.can_turn(before@, after@)
    }

    /// The draws are made for every gene, the first gene first, and the
    /// genes are moved as was drawn.
    fn mutate<R: RandomSource<S>>(&self, rng: &mut R, child: &mut Chromosome<S>)
        ensures
            self.turns_on_draws(old(child)@, final(child)@),
            old(child)@.len() == 0 ==> *final(rng) == *old(rng),
    {
        let draws = self.draw(rng, child.len());
        self.apply(child, draws.as_slice());
        proof {
            self.lemma_applied_can_turn(old(child)@, draws@);
            assert(child@ == self.applied(old(child)@, draws@));
        }
    }
}

/// On fixed-point scalars, moving a gene by a share of a coefficient that is
/// not below zero takes it no farther than the coefficient, up or down.
pub proof fn lemma_moved_gene_stays_near(
    gene: Fixed,
    coefficient: Fixed,
    negative: bool,
    share: Fixed,
)
    requires
        coefficient.micros >= 0,
        in_unit_interval(share),
    ensures
        -coefficient.micros <= mutated_gene(gene, coefficient, negative, share).micros
            - gene.micros <= coefficient.micros,
{
    let c = coefficient.micros as int;
    let u = share.micros as int;
    assert(0 <= (c * u) / 1_000_000 <= c) by (nonlinear_arith)
        requires
            0 <= c,
            0 <= u < 1_000_000,
    ;
    assert(c * u >= 0) by (nonlinear_arith)
        requires
            0 <= c,
            0 <= u,
    ;
}

/// On fixed-point scalars, a gaussian mutation whose coefficient is not
/// below zero moves no gene farther than the coefficient, whatever its
/// chance is.
pub proof fn lemma_gaussian_mutation_is_bounded(
    mutation: GaussianMutation<Fixed>,
    before: Seq<Fixed>,
    after: Seq<Fixed>,
)
    requires
        mutation.coefficient_spec().micros >= 0,
        mutation.can_turn(before, after),
    ensures
        forall|i: int|
            0 <= i < before.len() ==> -mutation.coefficient_spec().micros <= (
            #[trigger] after[i]).micros - before[i].micros <= mutation.coefficient_spec().micros,
{
    let coefficient = mutation.coefficient_spec();
    assert forall|i: int| 0 <= i < before.len() implies -coefficient.micros <= (
    #[trigger] after[i]).micros - before[i].micros <= coefficient.micros by {
        assert(kept_or_moved(before[i], after[i], coefficient));
        if after[i] != before[i] {
            let (negative, share) = choose|negative: bool, share: Fixed|
                in_unit_interval(share) && after[i] == #[trigger] mutated_gene(
                    before[i],
                    coefficient,
                    negative,
                    share,
                );
            lemma_moved_gene_stays_near(before[i], coefficient, negative, share);
        }
    }
}

} // verus!
