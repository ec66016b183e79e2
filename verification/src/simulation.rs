use crate::animal::{lemma_speed_stays_in_range, Animal};
use crate::animal_individual::AnimalIndividial;
use crate::brain::{brain_genes, brain_topology};
use crate::config::Config;
use crate::crossover::UniformCrossover;
use crate::fixed::Fixed;
use crate::food::{in_arena, into_arena, into_arena_spec, random_place, Food};
use crate::genetic_algorithm::GeneticAlgorithm;
use crate::geometry::Geometry;
use crate::individual::{fitness_values, genes_have_length};
use crate::mutation::GaussianMutation;
use crate::network::lemma_flat_layers_len;
use crate::point::Point;
use crate::random::RandomSource;
use crate::scalar::{is_weighable, weighable, Scalar};
use crate::selection::RouletteWheelSelection;
use crate::statistics::Statistics;
use crate::world::World;
use vstd::prelude::*;

verus! {

/// Why a generation could not be replaced.
#[derive(Clone, Copy, Debug, PartialEq, Eq)]
pub enum EvolveError {
    /// The fitness values of the animals cannot drive a weighted choice: no
    /// animal has eaten, or there is no animal at all.
    NothingToSelect,
}

/// The genetic algorithm of a simulation: roulette-wheel selection, uniform
/// crossover and gaussian mutation.
pub type Evolution<S> = GeneticAlgorithm<
    RouletteWheelSelection,
    UniformCrossover,
    GaussianMutation<S>,
>;

/// The driver: a world, the geometry of its arena, the algorithm that
/// replaces its animals, and the age of the current generation in steps.
pub struct Simulation<S: Scalar, G: Geometry<S>> {
    pub world: World<S>,
    pub geometry: G,
    pub ga: Evolution<S>,
    pub age: usize,
    pub config: Config<S>,
}

/// The fitness of each animal, in order: what it has eaten.
pub open spec fn fitness_of<S: Scalar>(animals: Seq<Animal<S>>) -> Seq<S> {
    Seq::new(animals.len(), |i: int| S::from_count_spec(animals[i].satiation))
}

/// Parents can be selected among the animals: there is an animal, and what
/// the animals have eaten can drive a weighted choice.
pub open spec fn selectable<S: Scalar>(animals: Seq<Animal<S>>) -> bool {
    animals.len() > 0 && weighable(fitness_of(animals))
}

/// The population is a snapshot of the animals: one individual stands for
/// each animal, in order.
pub open spec fn snapshot_of<S: Scalar>(
    population: Seq<AnimalIndividial<S>>,
    animals: Seq<Animal<S>>,
) -> bool {
    &&& population.len() == animals.len()
    &&& forall|i: int| 0 <= i < animals.len() ==> (#[trigger] population[i]).stands_for(animals[i])
}

/// The age that a generation of age `age` has after one more step: one more,
/// or zero where the generation has reached its length.
pub open spec fn age_after_step(age: int, generation_length: int) -> int {
    if age < generation_length {
        age + 1
    } else {
        0
    }
}

/// The age that a generation has after `steps` steps, starting at age zero.
pub open spec fn age_after(steps: nat, generation_length: int) -> int
    decreases steps,
{
    if steps == 0 {
        0
    } else {
        age_after_step(age_after((steps - 1) as nat, generation_length), generation_length)
    }
}

/// Whether step number `step`, counted from one and starting at age zero,
/// replaces the generation: whether the generation has reached its length
/// when the step begins.
pub open spec fn replaces_generation(step: nat, generation_length: int) -> bool {
    step > 0 && age_after((step - 1) as nat, generation_length) >= generation_length
}

/// Starting at age zero, the age after any number of steps is that number
/// modulo `generation_length + 1`: the generation is replaced by every step
/// whose number is a multiple of `generation_length + 1` and by no other, and
/// each such step sets the age back to zero.
pub proof fn lemma_generation_boundary(generation_length: nat, step: nat)
    ensures
        age_after(step, generation_length as int) == step % (generation_length + 1),
        replaces_generation(step, generation_length as int) <==> step > 0 && step % (
        generation_length + 1) == 0,
    decreases step,
{
    let length = generation_length as int;
    let period = length + 1;
    if step > 0 {
        let before = (step - 1) as nat;
        lemma_generation_boundary(generation_length, before);
        assert(age_after(step, length) == age_after_step(age_after(before, length), length));
        lemma_next_remainder(before as int, period);
    }
}

/// The remainder of a number that is not below zero grows by one with the
/// number, and goes back to zero where it has reached the divisor less one.
proof fn lemma_next_remainder(n: int, d: int)
    requires
        0 <= n,
        0 < d,
    ensures
        0 <= n % d < d,
        (n + 1) % d == (if n % d < d - 1 {
            n % d + 1
        } else {
            0
        }),
{
    let q = n / d;
    let r = n % d;
    assert(n == q * d + r && 0 <= r < d) by (nonlinear_arith)
        requires
            0 < d,
            q == n / d,
            r == n % d,
    ;
    if r < d - 1 {
        assert((n + 1) % d == r + 1) by (nonlinear_arith)
            requires
                n == q * d + r,
                0 <= r,
                r + 1 < d,
                0 < d,
        ;
    } else {
        assert((n + 1) % d == 0) by (nonlinear_arith)
            requires
                n == q * d + r,
                r == d - 1,
                0 < d,
        ;
    }
}

impl<S: Scalar, G: Geometry<S>> Simulation<S, G> {
    /// The simulation is well formed: its configuration can be used, its
    /// world and its algorithm are as the configuration makes them, every
    /// animal and every piece of food is in the arena, and the generation is
    /// not older than its length.
    pub open spec fn wf(&self) -> bool {
        &&& self.config.valid()
        &&& self.world.fits(self.config)
        &&& self.world.in_bounds()
        &&& self.age <= self.config.generation_length
        &&& self.ga.mutation_method.chance_spec() == self.config.mutation_chance
        &&& self.ga.mutation_method.coefficient_spec() == self.config.mutation_coefficient
    }

    /// This simulation is set up as `before` was: with the same
    /// configuration, the same geometry and the same algorithm.
    pub open spec fn set_up_as(&self, before: Self) -> bool {
        &&& self.config == before.config
        &&& self.geometry == before.geometry
        &&& self.ga == before.ga
    }

    /// `animal` descends from `population`: its brain is decoded from the
    /// genes of a child that the algorithm bred from the population.
    pub open spec fn descendant(
        &self,
        animal: Animal<S>,
        population: Seq<AnimalIndividial<S>>,
    ) -> bool {
        exists|child: AnimalIndividial<S>|
            #[trigger] self.ga.bred(population, child) && animal.brain.nn.decodes(
                brain_topology(self.config.eye.cells),
                child.chromosome@,
            )
    }

    /// The world of this simulation holds the generation that follows
    /// `before`: as many animals, each newly placed and descending from a
    /// snapshot of the animals of `before`, and as much food, all of it at
    /// new places.
    pub open spec fn follows(&self, before: World<S>) -> bool {
        &&& self.world.newly_filled(self.config)
        &&& self.world.animals.len() == before.animals.len()
        &&& self.world.foods.len() == before.foods.len()
        &&& exists|population: Seq<AnimalIndividial<S>>|
            {
                &&& #[trigger] snapshot_of(population, before.animals@)
                &&& forall|k: int|
                    0 <= k < self.world.animals.len() ==> self.descendant(
                        #[trigger] self.world.animals[k],
                        population,
                    )
            }
    }

    /// This simulation has replaced the generation of `before` in one step,
    /// which found the random source as `source`: the world of `before` went
    /// through the three phases of a step, the world of this simulation holds
    /// the generation that follows the animals as they then were, and
    /// `statistics` are their statistics.
    pub open spec fn replaces<R>(
        &self,
        before: Self,
        source: R,
        statistics: Statistics<S>,
    ) -> bool {
        exists|ticked: (World<S>, R)|
            {
                &&& before.ticks((before.world, source), ticked)
                &&& #[trigger] self.follows(ticked.0)
                &&& statistics.summarizes(fitness_of(ticked.0.animals@))
            }
    }

    /// The geometry of this simulation puts no animal of `world` within the
    /// configured radius of any piece of its food: whatever it answers for
    /// an animal and a piece, the answer is above the radius.
    pub open spec fn nothing_in_reach(&self, world: World<S>) -> bool {
        forall|animal: int, food: int, distance: S|
            0 <= animal < world.animals.len() && 0 <= food < world.foods.len()
                && #[trigger] call_ensures(
                G::distance,
                (&self.geometry, world.animals[animal].position, world.foods[food].position),
                distance,
            ) ==> !distance.le_spec(self.config.food_radius)
    }

    /// `later` is `before` after animal number `animal` was held against
    /// piece of food number `food`, each a world together with the random
    /// source as it then was: the geometry of this simulation was asked how
    /// far the two are apart in `before`, and the animal has eaten the piece
    /// where the answer is at most the configured radius. Where it has not,
    /// nothing was drawn from the source.
    pub open spec fn holds_against<R>(
        &self,
        before: (World<S>, R),
        later: (World<S>, R),
        animal: int,
        food: int,
    ) -> bool {
        exists|distance: S|
            {
                &&& #[trigger] call_ensures(
                    G::distance,
                    (
                        &self.geometry,
                        before.0.animals[animal].position,
                        before.0.foods[food].position,
                    ),
                    distance,
                )
                &&& before.0.settles_to(
                    later.0,
                    animal,
                    food,
                    distance.le_spec(self.config.food_radius),
                )
                &&& !distance.le_spec(self.config.food_radius) ==> later.1 == before.1
            }
    }

    /// `trace` holds the worlds and sources that animal number `animal`
    /// passes through while it is held against every piece of food in turn:
    /// each comes from the one before it by holding the animal against the
    /// next piece.
    pub open spec fn grazing<R>(&self, trace: Seq<(World<S>, R)>, animal: int) -> bool {
        forall|food: int|
            0 <= food < trace.len() - 1 ==> #[trigger] self.holds_against(
                trace[food],
                trace[food + 1],
                animal,
                food,
            )
    }

    /// `later` is `before` after animal number `animal` was held against
    /// every piece of food in turn, the first piece first.
    pub open spec fn grazes_to<R>(
        &self,
        before: (World<S>, R),
        later: (World<S>, R),
        animal: int,
    ) -> bool {
        exists|trace: Seq<(World<S>, R)>|
            {
                &&& trace.len() == before.0.foods.len() + 1
                &&& trace[0] == before
                &&& trace.last() == later
                &&& #[trigger] self.grazing(trace, animal)
            }
    }

    /// `trace` holds the worlds and sources that collision resolution passes
    /// through: each comes from the one before it by holding the next animal
    /// against every piece of food.
    pub open spec fn resolving<R>(&self, trace: Seq<(World<S>, R)>) -> bool {
        forall|animal: int|
            0 <= animal < trace.len() - 1 ==> #[trigger] self.grazes_to(
                trace[animal],
                trace[animal + 1],
                animal,
            )
    }

    /// `later` is `before` after its collisions were resolved by this
    /// simulation, each a world together with the random source as it then
    /// was: every animal in turn, the first animal first, was held against
    /// every piece of food in turn, and the source was drawn from only for
    /// food that was eaten.
    pub open spec fn resolves_to<R>(&self, before: (World<S>, R), later: (World<S>, R)) -> bool {
        exists|trace: Seq<(World<S>, R)>|
            {
                &&& trace.len() == before.0.animals.len() + 1
                &&& trace[0] == before
                &&& trace.last() == later
                &&& #[trigger] self.resolving(trace)
            }
    }

    /// `later` is `before` after the move that the geometry of this
    /// simulation answers for it: the geometry was asked where a move from
    /// the animal's place along its heading at its speed ends, the animal
    /// stands at the place in the arena that stands for the answer, and
    /// nothing else of it has changed.
    pub open spec fn moves(&self, before: Animal<S>, later: Animal<S>) -> bool {
        exists|end: Point<S>|
            {
                &&& #[trigger] call_ensures(
                    G::advance,
                    (&self.geometry, before.position, before.rotation, before.speed),
                    end,
                )
                &&& later == before.moved_to(into_arena_spec(end))
            }
    }

    /// `later` is `before` after it has decided: its eye has reported what
    /// it sees of `foods` at the bearings that the geometry of this
    /// simulation answered for the animal's place and heading, and the animal
    /// has changed its speed and its heading as its brain answered the report.
    pub open spec fn decides(
        &self,
        before: Animal<S>,
        later: Animal<S>,
        foods: Seq<Food<S>>,
    ) -> bool {
        exists|vision: Seq<S>|
            {
                &&& before.eye.reports(
                    self.geometry,
                    before.position,
                    before.rotation,
                    foods,
                    vision,
                )
                &&& later == #[trigger] before.steered(vision, self.config)
            }
    }

    /// `later` is `before` after its brains were evaluated by this
    /// simulation: every animal has decided on what it sees of the food of
    /// `before`, and nothing else has changed.
    pub open spec fn steers(&self, before: World<S>, later: World<S>) -> bool {
        &&& later.animals.len() == before.animals.len()
        &&& later.foods == before.foods
        &&& forall|i: int|
            0 <= i < before.animals.len() ==> self.decides(
                before.animals[i],
                #[trigger] later.animals[i],
                before.foods@,
            )
    }

    /// `later` is `before` after its animals were moved by this simulation:
    /// every animal has made the move that the geometry answers for it, and
    /// nothing else has changed.
    pub open spec fn relocates(&self, before: World<S>, later: World<S>) -> bool {
        &&& later.animals.len() == before.animals.len()
        &&& later.foods == before.foods
        &&& forall|i: int|
            0 <= i < before.animals.len() ==> self.moves(
                before.animals[i],
                #[trigger] later.animals[i],
            )
    }

    /// `later` is `before` after the three phases of a step of this
    /// simulation, each a world together with the random source as it then
    /// was: its collisions were resolved, then its brains were evaluated,
    /// then its animals were moved. Only the collisions draw from the
    /// source.
    pub open spec fn ticks<R>(&self, before: (World<S>, R), later: (World<S>, R)) -> bool {
        exists|collided: World<S>, steered: World<S>|
            {
                &&& self.resolves_to(before, (collided, later.1))
                &&& #[trigger] self.steers(collided, steered)
                &&& self.relocates(steered, later.0)
            }
    }

    /// This simulation, with the random source as `source`, is `before` one
    /// step later, and the step had the given outcome. A generation that had
    /// not reached its length has lived on and grown one step older, and
    /// there are no statistics. One that had reached it has either been
    /// replaced, in which case the age is zero and the outcome holds its
    /// statistics, or it could not be replaced, in which case it has lived
    /// on at its age and the outcome is an error.
    pub open spec fn stepped_from<R>(
        &self,
        source: R,
        before: (Self, R),
        outcome: Result<Option<Statistics<S>>, EvolveError>,
    ) -> bool {
        let young = before.0.age < before.0.config.generation_length;
        &&& self.set_up_as(before.0)
        &&& self.world.animals.len() == before.0.world.animals.len()
        &&& self.world.foods.len() == before.0.world.foods.len()
        &&& young ==> outcome == Ok::<Option<Statistics<S>>, EvolveError>(None)
        &&& outcome is Ok ==> self.age == age_after_step(
            before.0.age as int,
            before.0.config.generation_length as int,
        )
        &&& outcome is Ok && !young ==> outcome->Ok_0 is Some && self.replaces(
            before.0,
            before.1,
            outcome->Ok_0->Some_0,
        )
        &&& outcome is Err ==> self.age == before.0.age && !selectable(self.world.animals@)
        &&& young || outcome is Err ==> before.0.ticks(
            (before.0.world, before.1),
            (self.world, source),
        )
    }

    /// `trace` holds the simulations and sources that a run of steps passes
    /// through while no generation is replaced: each comes from the one
    /// before it by a step that had no statistics to report.
    pub open spec fn idling<R>(trace: Seq<(Self, R)>) -> bool {
        forall|k: int|
            0 <= k < trace.len() - 1 ==> (#[trigger] trace[k + 1]).0.stepped_from(
                trace[k + 1].1,
                trace[k],
                Ok::<Option<Statistics<S>>, EvolveError>(None),
            )
    }

    /// This simulation, with the random source as `source`, is `before`
    /// after it was trained with the given outcome: `before` took as many
    /// steps as its generation still had to live, each without statistics to
    /// report, and then one more step, from which this simulation and the
    /// outcome come: the statistics of the generation that the step
    /// replaced, or the error of the step where it could not replace it.
    pub open spec fn trained_from<R>(
        &self,
        source: R,
        before: (Self, R),
        outcome: Result<Statistics<S>, EvolveError>,
    ) -> bool {
        exists|trace: Seq<(Self, R)>|
            {
                &&& trace.len() == before.0.config.generation_length - before.0.age + 1
                &&& trace[0] == before
                &&& #[trigger] Self::idling(trace)
                &&& outcome is Ok ==> self.stepped_from(
                    source,
                    trace.last(),
                    Ok::<Option<Statistics<S>>, EvolveError>(Some(outcome->Ok_0)),
                )
                &&& outcome is Err ==> self.stepped_from(
                    source,
                    trace.last(),
                    Err::<Option<Statistics<S>>, EvolveError>(outcome->Err_0),
                )
            }
    }

    /// A simulation of a random world at age zero. The world is drawn as
    /// `World::random` draws it.
    pub fn random<R: RandomSource<S>>(rng: &mut R, config: Config<S>, geometry: G) -> (simulation:
        Self)
        requires
            config.valid(),
        ensures
            simulation.wf(),
            simulation.age == 0,
            simulation.config == config,
            simulation.geometry == geometry,
            simulation.world.newly_filled(config),
    {
        let world = World::random(rng, &config);
        let ga = GeneticAlgorithm::new(
            RouletteWheelSelection,
            UniformCrossover,
            GaussianMutation::new(config.mutation_chance, config.mutation_coefficient),
        );
        Self { world, geometry, ga, age: 0, config }
    }

    pub fn world(&self) -> (world: &World<S>)
        ensures
            *world == self.world,
    {
        &self.world
    }

    /// The age of the current generation, in steps.
    pub fn age(&self) -> (age: usize)
        ensures
            age == self.age,
    {
        self.age
    }

    /// Tells whether the animals can be replaced now: whether there is an
    /// animal, and what the animals have eaten can drive a weighted choice.
    pub fn can_evolve(&self) -> (b: bool)
        ensures
            b == selectable(self.world.animals@),
    {
        let mut weights: Vec<S> = Vec::new();
        let mut i: usize = 0;
        while i < self.world.animals.len()
            invariant
                i <= self.world.animals.len(),
                weights.len() == i,
                forall|j: int|
                    0 <= j < i ==> #[trigger] weights[j] == S::from_count_spec(
                        self.world.animals[j].satiation,
                    ),
            decreases self.world.animals.len() - i,
        {
            weights.push(S::from_count(self.world.animals[i].satiation));
            i += 1;
        }
        assert(weights@ =~= fitness_of(self.world.animals@));
        self.world.animals.len() > 0 && is_weighable(&weights)
    }

    /// Collision resolution: every animal in turn is held against every
    /// piece of food in turn, and eats what the geometry says is no farther
    /// away than the configured radius. Food that is eaten is set to a new
    /// place at once, so that no piece is eaten twice where it lay. Animals
    /// neither move nor decide here. A place is drawn only for food that is
    /// eaten: where nothing is in reach, nothing changes and nothing is
    /// drawn.
    pub fn process_collisions<R: RandomSource<S>>(&mut self, rng: &mut R)
        requires
            old(self).wf(),
        ensures
            final(self).wf(),
            final(self).age == old(self).age,
            final(self).set_up_as(*old(self)),
            old(self).resolves_to(
                (old(self).world, *old(rng)),
                (final(self).world, *final(rng)),
            ),
            old(self).nothing_in_reach(old(self).world) ==> final(self).world == old(self).world,
            old(self).nothing_in_reach(old(self).world) ==> *final(rng) == *old(rng),
    {
        let ghost setup = *self;
        let ghost animals = self.world.animals.len();
        let ghost foods = self.world.foods.len();
        let ghost outer: Seq<(World<S>, R)> = seq![(self.world, *rng)];
        let mut a: usize = 0;
        while a < self.world.animals.len()
            invariant
                a <= self.world.animals.len(),
                self.wf(),
                self.age == old(self).age,
                self.set_up_as(*old(self)),
                self.world.animals.len() == animals,
                self.world.foods.len() == foods,
                animals == old(self).world.animals.len(),
                outer.len() == a + 1,
                outer[0] == (old(self).world, *old(rng)),
                outer.last() == (self.world, *rng),
                setup == *old(self),
                setup.resolving(outer),
                setup.nothing_in_reach(setup.world) ==> self.world == setup.world && *rng == *old(
                    rng,
                ),
            decreases self.world.animals.len() - a,
        {
            let ghost start = (self.world, *rng);
            let ghost inner: Seq<(World<S>, R)> = seq![start];
            let mut f: usize = 0;
            while f < self.world.foods.len()
                invariant
                    a < self.world.animals.len(),
                    f <= self.world.foods.len(),
                    self.wf(),
                    self.age == old(self).age,
                    self.set_up_as(*old(self)),
                    self.world.animals.len() == animals,
                    self.world.foods.len() == foods,
                    inner.len() == f + 1,
                    inner[0] == start,
                    inner.last() == (self.world, *rng),
                    setup == *old(self),
                    setup.grazing(inner, a as int),
                    setup.nothing_in_reach(setup.world) ==> self.world == setup.world && *rng
                        == *old(rng),
                decreases self.world.foods.len() - f,
            {
                let ghost before = (self.world, *rng);
                let distance = self.geometry.distance(
                    self.world.animals[a].position,
                    self.world.foods[f].position,
                );
                let radius = self.config.food_radius;
                self.world.collide(rng, a, f, distance, radius);
                proof {
                    let now = (self.world, *rng);
                    let grown = inner.push(now);
                    assert(setup.holds_against(before, now, a as int, f as int));
                    assert forall|food: int|
                        0 <= food < grown.len() - 1 implies #[trigger] setup.holds_against(
                        grown[food],
                        grown[food + 1],
                        a as int,
                        food,
                    ) by {
                        if food < f {
                            assert(setup.holds_against(
                                inner[food],
                                inner[food + 1],
                                a as int,
                                food,
                            ));
                        }
                    }
                    inner = grown;
                }
                f += 1;
            }
            proof {
                let now = (self.world, *rng);
                assert(start.0.foods.len() == foods);
                assert(setup.grazes_to(start, now, a as int));
                let grown = outer.push(now);
                assert forall|animal: int|
                    0 <= animal < grown.len() - 1 implies #[trigger] setup.grazes_to(
                    grown[animal],
                    grown[animal + 1],
                    animal,
                ) by {
                    if animal < a {
                        assert(setup.grazes_to(outer[animal], outer[animal + 1], animal));
                    }
                }
                outer = grown;
            }
            a += 1;
        }
    }

    /// Brain evaluation: every animal in turn is told by the geometry where
    /// each piece of food lies, sees what its eye makes of that, and changes
    /// its speed and its heading as its brain decides. Nothing is eaten and
    /// nothing moves here.
    pub fn process_brains(&mut self)
        requires
            old(self).wf(),
        ensures
            final(self).wf(),
            final(self).age == old(self).age,
            final(self).set_up_as(*old(self)),
            old(self).steers(old(self).world, final(self).world),
    {
        let mut a: usize = 0;
        while a < self.world.animals.len()
            invariant
                a <= self.world.animals.len(),
                self.wf(),
                self.age == old(self).age,
                self.set_up_as(*old(self)),
                self.world.foods == old(self).world.foods,
                self.world.animals.len() == old(self).world.animals.len(),
                forall|i: int|
                    0 <= i < a ==> old(self).decides(
                        old(self).world.animals[i],
                        #[trigger] self.world.animals[i],
                        old(self).world.foods@,
                    ),
                forall|i: int|
                    a <= i < self.world.animals.len() ==> #[trigger] self.world.animals[i]
                        == old(self).world.animals[i],
            decreases self.world.animals.len() - a,
        {
            let vision = self.world.animals[a].eye.process_vision(
                &self.geometry,
                self.world.animals[a].position,
                self.world.animals[a].rotation,
                self.world.foods.as_slice(),
            );
            let ghost seen = vision@;
            let ghost before = self.world.animals@;
            self.world.animals[a].steer(vision, &self.config);
            proof {
                assert(self.world.animals[a as int] == before[a as int].steered(seen, self.config));
                assert forall|i: int| 0 <= i < self.world.animals.len() implies (
                #[trigger] self.world.animals[i]).fits(self.config) by {
                    if i != a {
                        assert(self.world.animals[i] == before[i]);
                    }
                }
            }
            a += 1;
        }
    }

    /// Movement: for every animal in turn the geometry is asked where a move
    /// along its heading at its speed ends, and the animal is put at the
    /// place in the arena that stands for the answer. Nothing else changes.
    pub fn process_movements(&mut self)
        requires
            old(self).wf(),
        ensures
            final(self).wf(),
            final(self).age == old(self).age,
            final(self).set_up_as(*old(self)),
            old(self).relocates(old(self).world, final(self).world),
    {
        let mut a: usize = 0;
        while a < self.world.animals.len()
            invariant
                a <= self.world.animals.len(),
                self.wf(),
                self.age == old(self).age,
                self.set_up_as(*old(self)),
                self.world.foods == old(self).world.foods,
                self.world.animals.len() == old(self).world.animals.len(),
                forall|i: int|
                    0 <= i < a ==> old(self).moves(
                        old(self).world.animals[i],
                        #[trigger] self.world.animals[i],
                    ),
                forall|i: int|
                    a <= i < self.world.animals.len() ==> #[trigger] self.world.animals[i]
                        == old(self).world.animals[i],
            decreases self.world.animals.len() - a,
        {
            let end = self.geometry.advance(
                self.world.animals[a].position,
                self.world.animals[a].rotation,
                self.world.animals[a].speed,
            );
            let ghost before = self.world.animals@;
            self.world.animals[a].move_to(into_arena(end));
            proof {
                assert forall|i: int| 0 <= i < self.world.animals.len() implies (
                #[trigger] self.world.animals[i]).fits(self.config) && in_arena(
                    self.world.animals[i].position,
                ) by {
                    if i != a {
                        assert(self.world.animals[i] == before[i]);
                    }
                }
            }
            a += 1;
        }
    }

    /// The three phases that every step starts with, in their order:
    /// collisions, brains, movements. Only collisions draw, and only for
    /// food that is eaten.
    pub fn tick<R: RandomSource<S>>(&mut self, rng: &mut R)
        requires
            old(self).wf(),
        ensures
            final(self).wf(),
            final(self).age == old(self).age,
            final(self).set_up_as(*old(self)),
            old(self).ticks((old(self).world, *old(rng)), (final(self).world, *final(rng))),
            old(self).nothing_in_reach(old(self).world) ==> *final(rng) == *old(rng),
    {
        self.process_collisions(rng);
        let ghost collided = self.world;
        self.process_brains();
        let ghost steered = self.world;
        self.process_movements();
        proof {
            assert(old(self).resolves_to((old(self).world, *old(rng)), (collided, *rng)));
            assert(old(self).steers(collided, steered));
            assert(old(self).relocates(steered, self.world));
        }
    }

    /// A child that was bred from a population whose chromosomes all have
    /// the length that a brain calls for has a chromosome of that length.
    proof fn lemma_bred_length(
        &self,
        population: Seq<AnimalIndividial<S>>,
        child: AnimalIndividial<S>,
    )
        requires
            self.ga.bred(population, child),
            forall|j: int|
                0 <= j < population.len() ==> (#[trigger] population[j]).chromosome@.len()
                    == brain_genes(self.config.eye.cells),
        ensures
            child.chromosome@.len() == brain_genes(self.config.eye.cells),
    {
    }

    /// Replaces the generation. The age goes back to zero; a snapshot of
    /// every animal is taken in order; the algorithm breeds as many children;
    /// each child in turn becomes an animal at a random place; then every
    /// piece of food in turn is set to a new random place. The statistics are
    /// those of the generation that is replaced.
    pub fn evolve<R: RandomSource<S>>(&mut self, rng: &mut R) -> (statistics: Statistics<S>)
        requires
            old(self).wf(),
            selectable(old(self).world.animals@),
        ensures
            final(self).wf(),
            final(self).age == 0,
            final(self).set_up_as(*old(self)),
            final(self).follows(old(self).world),
            statistics.summarizes(fitness_of(old(self).world.animals@)),
    {
        self.age = 0;
        let ghost cells = self.config.eye.cells;
        let mut population: Vec<AnimalIndividial<S>> = Vec::new();
        let mut i: usize = 0;
        while i < self.world.animals.len()
            invariant
                i <= self.world.animals.len(),
                self.world == old(self).world,
                population.len() == i,
                forall|j: int|
                    0 <= j < i ==> (#[trigger] population[j]).stands_for(self.world.animals[j]),
            decreases self.world.animals.len() - i,
        {
            population.push(AnimalIndividial::from_animal(&self.world.animals[i]));
            i += 1;
        }
        proof {
            assert(fitness_values(population@) =~= fitness_of(self.world.animals@));
            assert forall|j: int| 0 <= j < population.len() implies (
            #[trigger] population[j]).chromosome@.len() == brain_genes(cells) by {
                assert(self.world.animals[j].fits(self.config));
                lemma_flat_layers_len(
                    self.world.animals[j].brain.nn.layers@,
                    brain_topology(cells),
                );
            }
            assert(genes_have_length(population@, population[0].chromosome@.len()));
        }
        let (children, statistics) = self.ga.evolve(rng, population.as_slice());
        let mut animals: Vec<Animal<S>> = Vec::new();
        let ghost bred = children@;
        for individual in iter: children
            invariant
                self.wf(),
                self.age == 0,
                self.set_up_as(*old(self)),
                self.world == old(self).world,
                cells == self.config.eye.cells,
                iter.seq() == bred,
                bred.len() == population.len(),
                population.len() == self.world.animals.len(),
                forall|j: int|
                    0 <= j < population.len() ==> (#[trigger] population[j]).chromosome@.len()
                        == brain_genes(cells),
                forall|j: int|
                    0 <= j < bred.len() ==> self.ga.bred(population@, #[trigger] bred[j]),
                animals.len() == iter.index(),
                forall|j: int|
                    0 <= j < animals.len() ==> (#[trigger] animals[j]).newly_placed(self.config),
                forall|j: int|
                    0 <= j < animals.len() ==> self.descendant(#[trigger] animals[j], population@),
        {
            proof {
                assert(individual == bred[iter.index() as int]);
                self.lemma_bred_length(population@, individual);
            }
            let ghost child = individual;
            let animal = individual.into_animal(rng, &self.config);
            proof {
                assert(self.ga.bred(population@, child));
            }
            animals.push(animal);
        }
        self.world.animals = animals;
        let mut f: usize = 0;
        while f < self.world.foods.len()
            invariant
                f <= self.world.foods.len(),
                self.age == 0,
                self.set_up_as(*old(self)),
                self.world.foods.len() == old(self).world.foods.len(),
                self.world.animals@ == animals@,
                forall|j: int| 0 <= j < f ==> in_arena((#[trigger] self.world.foods[j]).position),
            decreases self.world.foods.len() - f,
        {
            self.world.foods[f].position = random_place(rng);
            f += 1;
        }
        proof {
            assert(snapshot_of(population@, old(self).world.animals@));
        }
        statistics
    }

    /// One step of the simulation: collisions are resolved, then the brains
    /// decide, then the animals move, then the generation grows one step
    /// older. A generation that has reached its length is replaced instead,
    /// and the statistics of the replaced generation are returned. Where it
    /// cannot be replaced because no parent can be selected, the step ends in
    /// an error and the generation stays at its age. A step that replaces no
    /// generation draws only for food that is eaten.
    pub fn step<R: RandomSource<S>>(&mut self, rng: &mut R) -> (outcome: Result<
        Option<Statistics<S>>,
        EvolveError,
    >)
        requires
            old(self).wf(),
        ensures
            final(self).wf(),
            final(self).set_up_as(*old(self)),
            final(self).stepped_from(*final(rng), (*old(self), *old(rng)), outcome),
            !(outcome is Ok && outcome->Ok_0 is Some) && old(self).nothing_in_reach(
                old(self).world,
            ) ==> *final(rng) == *old(rng),
    {
        self.tick(rng);
        if self.age < self.config.generation_length {
            self.age = self.age + 1;
            Ok(None)
        } else if self.can_evolve() {
            let ghost ticked = (self.world, *rng);
            let statistics = self.evolve(rng);
            proof {
                assert(old(self).ticks((old(self).world, *old(rng)), ticked));
                assert(self.follows(ticked.0));
            }
            Ok(Some(statistics))
        } else {
            Err(EvolveError::NothingToSelect)
        }
    }

    /// Runs the steps that the generation still has to live and the one
    /// that replaces it, and returns the statistics of the replaced
    /// generation. Where the generation cannot be replaced, the error of the
    /// step that tried is returned.
    pub fn train<R: RandomSource<S>>(&mut self, rng: &mut R) -> (outcome: Result<
        Statistics<S>,
        EvolveError,
    >)
        requires
            old(self).wf(),
        ensures
            final(self).wf(),
            final(self).set_up_as(*old(self)),
            final(self).trained_from(*final(rng), (*old(self), *old(rng)), outcome),
    {
        let ghost trace: Seq<(Self, R)> = seq![(*self, *rng)];
        loop
            invariant
                self.wf(),
                self.set_up_as(*old(self)),
                old(self).age <= self.age,
                trace.len() == self.age - old(self).age + 1,
                trace[0] == (*old(self), *old(rng)),
                trace.last() == (*self, *rng),
                Self::idling(trace),
            decreases self.config.generation_length - self.age,
        {
            let ghost start = *self;
            match self.step(rng) {
                Ok(Some(statistics)) => {
                    assert(start.age == start.config.generation_length);
                    assert(self.trained_from(*rng, (*old(self), *old(rng)), Ok(statistics)));
                    return Ok(statistics);
                },
                Ok(None) => {
                    proof {
                        assert(start.age < start.config.generation_length);
                        let grown = trace.push((*self, *rng));
                        assert forall|k: int| 0 <= k < grown.len() - 1 implies (
                        #[trigger] grown[k + 1]).0.stepped_from(
                            grown[k + 1].1,
                            grown[k],
                            Ok::<Option<Statistics<S>>, EvolveError>(None),
                        ) by {
                            if k < trace.len() - 1 {
                                assert(trace[k + 1].0.stepped_from(
                                    trace[k + 1].1,
                                    trace[k],
                                    Ok::<Option<Statistics<S>>, EvolveError>(None),
                                ));
                            }
                        }
                        trace = grown;
                    }
                },
                Err(error) => {
                    assert(start.age == start.config.generation_length);
                    assert(self.trained_from(*rng, (*old(self), *old(rng)), Err(error)));
                    return Err(error);
                },
            }
        }
    }
}

/// On fixed-point scalars, after the three phases of a step every animal
/// moves at a speed within the range of speeds, whatever the geometry
/// answered and whatever its brain asked for.
pub proof fn lemma_tick_keeps_speeds<G: Geometry<Fixed>, R>(
    simulation: Simulation<Fixed, G>,
    before: (World<Fixed>, R),
    later: (World<Fixed>, R),
)
    requires
        simulation.ticks(before, later),
        simulation.config.speed_min.micros <= simulation.config.speed_max.micros,
    ensures
        forall|i: int|
            0 <= i < later.0.animals.len() ==> simulation.config.speed_min.micros <= (
            #[trigger] later.0.animals[i]).speed.micros <= simulation.config.speed_max.micros,
{
    let (collided, steered) = choose|collided: World<Fixed>, steered: World<Fixed>|
        {
            &&& simulation.resolves_to(before, (collided, later.1))
            &&& #[trigger] simulation.steers(collided, steered)
            &&& simulation.relocates(steered, later.0)
        };
    assert forall|i: int|
        0 <= i < later.0.animals.len() implies simulation.config.speed_min.micros <= (
    #[trigger] later.0.animals[i]).speed.micros <= simulation.config.speed_max.micros by {
        assert(simulation.decides(collided.animals[i], steered.animals[i], collided.foods@));
        let vision = choose|vision: Seq<Fixed>|
            {
                &&& collided.animals[i].eye.reports(
                    simulation.geometry,
                    collided.animals[i].position,
                    collided.animals[i].rotation,
                    collided.foods@,
                    vision,
                )
                &&& steered.animals[i] == #[trigger] collided.animals[i].steered(
                    vision,
                    simulation.config,
                )
            };
        lemma_speed_stays_in_range(
            collided.animals[i].speed,
            collided.animals[i].brain.nn.outputs(vision)[0],
            simulation.config,
        );
        assert(simulation.moves(steered.animals[i], later.0.animals[i]));
    }
}

} // verus!
