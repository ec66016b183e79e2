use crate::brain::{brain_genes, brain_topology, Brain};
use crate::chromosome::Chromosome;
use crate::config::Config;
use crate::eye::Eye;
use crate::fixed::Fixed;
use crate::food::{in_arena, random_place};
use crate::point::Point;
use crate::random::RandomSource;
use crate::scalar::{clamp, clamp_spec, Scalar};
use vstd::prelude::*;

verus! {

/// An agent: where it is, where it is heading and how fast, what it senses
/// and decides with, and how much it has eaten.
#[derive(Clone, Debug, PartialEq)]
pub struct Animal<S> {
    pub position: Point<S>,
    pub rotation: S,
    pub speed: S,
    pub eye: Eye<S>,
    pub brain: Brain<S>,
    pub satiation: usize,
}

/// The speed that an animal has after its brain asked for a change of
/// `delta`: the change is kept within the acceleration, the result within
/// the range of speeds.
pub open spec fn next_speed<S: Scalar>(speed: S, delta: S, config: Config<S>) -> S {
    clamp_spec(
        speed.add_spec(clamp_spec(delta, config.speed_accel.neg_spec(), config.speed_accel)),
        config.speed_min,
        config.speed_max,
    )
}

/// The heading that an animal has after its brain asked for a turn of
/// `delta`: the turn is kept within the rotation acceleration and added to
/// the heading, which is not brought back into one turn.
pub open spec fn next_rotation<S: Scalar>(rotation: S, delta: S, config: Config<S>) -> S {
    rotation.add_spec(
        clamp_spec(delta, config.rotation_accel.neg_spec(), config.rotation_accel),
    )
}

/// On fixed-point scalars, the speed of an animal stays within the range of
/// speeds, whatever its brain asks for.
pub proof fn lemma_speed_stays_in_range(speed: Fixed, delta: Fixed, config: Config<Fixed>)
    requires
        config.speed_min.micros <= config.speed_max.micros,
    ensures
        config.speed_min.micros <= next_speed(speed, delta, config).micros
            <= config.speed_max.micros,
{
}

/// On fixed-point scalars, an animal turns by no more than the rotation
/// acceleration in one step.
pub proof fn lemma_turn_stays_within_acceleration(
    rotation: Fixed,
    delta: Fixed,
    config: Config<Fixed>,
)
    requires
        0 <= config.rotation_accel.micros,
    ensures
        -config.rotation_accel.micros <= next_rotation(rotation, delta, config).micros
            - rotation.micros <= config.rotation_accel.micros,
{
}

impl<S: Scalar> Animal<S> {
    /// The animal is as the configuration makes it: it has the
    /// configuration's eye and a brain that serves it.
    pub open spec fn fits(&self, config: Config<S>) -> bool {
        &&& self.eye == config.eye
        &&& self.brain.serves(config.eye.cells)
    }

    /// The animal has just been set into the world: it has eaten nothing,
    /// moves at the starting speed, stands in the arena and heads somewhere
    /// within the first turn.
    pub open spec fn newly_placed(&self, config: Config<S>) -> bool {
        &&& self.fits(config)
        &&& self.satiation == 0
        &&& self.speed == config.speed_initial
        &&& in_arena(self.position)
        &&& S::zero_spec().le_spec(self.rotation)
        &&& self.rotation.lt_spec(config.full_turn)
    }

    /// The animal after it has answered `vision`: only its speed and its
    /// heading change, as the two outputs of its brain ask.
    pub open spec fn steered(&self, vision: Seq<S>, config: Config<S>) -> Animal<S> {
        let response = self.brain.nn.outputs(vision);
        Animal {
            position: self.position,
            rotation: next_rotation(self.rotation, response[1], config),
            speed: next_speed(self.speed, response[0], config),
            eye: self.eye,
            brain: self.brain,
            satiation: self.satiation,
        }
    }

    /// The animal after it has eaten one more piece of food. The count stops
    /// at the greatest number that it can hold.
    pub open spec fn fed(&self) -> Animal<S> {
        Animal {
            position: self.position,
            rotation: self.rotation,
            speed: self.speed,
            eye: self.eye,
            brain: self.brain,
            satiation: if self.satiation < usize::MAX {
                (self.satiation + 1) as usize
            } else {
                usize::MAX
            },
        }
    }

    /// The animal at another place.
    pub open spec fn moved_to(&self, position: Point<S>) -> Animal<S> {
        Animal {
            position,
            rotation: self.rotation,
            speed: self.speed,
            eye: self.eye,
            brain: self.brain,
            satiation: self.satiation,
        }
    }

    pub fn position(&self) -> (position: Point<S>)
        ensures
            position == self.position,
    {
        self.position
    }

    /// The heading, as an angle.
    pub fn rotation(&self) -> (rotation: S)
        ensures
            rotation == self.rotation,
    {
        self.rotation
    }

    pub fn speed(&self) -> (speed: S)
        ensures
            speed == self.speed,
    {
        self.speed
    }

    pub fn satiation(&self) -> (satiation: usize)
        ensures
            satiation == self.satiation,
    {
        self.satiation
    }

    /// The genes that encode the animal's brain.
    pub fn as_chromosome(&self) -> (chromosome: Chromosome<S>)
        ensures
            chromosome@ == self.brain.nn.flat(),
    {
        self.brain.as_chromosome()
    }

    /// Lets the animal answer what its eye reports.
    pub fn steer(&mut self, vision: Vec<S>, config: &Config<S>)
        requires
            old(self).fits(*config),
            vision.len() == config.eye.cells,
        ensures
            *final(self) == old(self).steered(vision@, *config),
    {
        let response = self.brain.decide(vision);
        let speed = clamp(response[0], config.speed_accel.negated(), config.speed_accel);
        let rotation = clamp(response[1], config.rotation_accel.negated(), config.rotation_accel);
        self.speed = clamp(self.speed.plus(speed), config.speed_min, config.speed_max);
        self.rotation = self.rotation.plus(rotation);
    }

    /// Counts one more piece of food as eaten.
    pub fn feed(&mut self)
        ensures
            *final(self) == old(self).fed(),
    {
        if self.satiation < usize::MAX {
            self.satiation = self.satiation + 1;
        }
    }

    /// Puts the animal at another place.
    pub fn move_to(&mut self, position: Point<S>)
        ensures
            *final(self) == old(self).moved_to(position),
    {
        self.position = position;
    }

    /// Sets an animal with the given eye and brain into the world: its place
    /// is drawn first, then its heading.
    fn new<R: RandomSource<S>>(
        eye: Eye<S>,
        brain: Brain<S>,
        rng: &mut R,
        config: &Config<S>,
    ) -> (animal: Self)
        requires
            config.valid(),
            eye == config.eye,
            brain.serves(eye.cells),
        ensures
            animal.newly_placed(*config),
            animal.brain == brain,
    {
        let position = random_place(rng);
        let rotation = rng.draw_below(config.full_turn);
        Self { position, rotation, speed: config.speed_initial, eye, brain, satiation: 0 }
    }

    /// An animal with a random brain at a random place: the brain is drawn
    /// first, then the place, then the heading.
    pub fn random<R: RandomSource<S>>(rng: &mut R, config: &Config<S>) -> (animal: Self)
        requires
            config.valid(),
        ensures
            animal.newly_placed(*config),
            animal.brain.nn.within_unit_weights(),
    {
        let eye = config.eye;
        let brain = Brain::random(rng, &eye);
        Self::new(eye, brain, rng, config)
    }

    /// An animal whose brain is decoded from `chromosome`, at a random place.
    pub fn from_chromosome<R: RandomSource<S>>(
        chromosome: Chromosome<S>,
        rng: &mut R,
        config: &Config<S>,
    ) -> (animal: Self)
        requires
            config.valid(),
            brain_genes(config.eye.cells) <= chromosome@.len(),
        ensures
            animal.newly_placed(*config),
            animal.brain.nn.decodes(brain_topology(config.eye.cells), chromosome@),
    {
        let eye = config.eye;
        let brain = Brain::from_chromosome(chromosome, &eye);
        Self::new(eye, brain, rng, config)
    }
}

} // verus!
