use crate::animal::Animal;
use crate::config::Config;
use crate::food::{in_arena, random_place, Food};
use crate::random::RandomSource;
use crate::scalar::Scalar;
use vstd::prelude::*;

verus! {

/// The arena: the animals that live in it and the food that lies in it.
#[derive(Clone, Debug, PartialEq)]
pub struct World<S> {
    pub animals: Vec<Animal<S>>,
    pub foods: Vec<Food<S>>,
}

impl<S: Scalar> World<S> {
    /// The world is as the configuration makes it: it holds the configured
    /// number of animals and of pieces of food, and every animal fits the
    /// configuration.
    pub open spec fn fits(&self, config: Config<S>) -> bool {
        &&& self.animals.len() == config.animals
        &&& self.foods.len() == config.foods
        &&& forall|i: int| 0 <= i < self.animals.len() ==> (#[trigger] self.animals[i]).fits(config)
    }

    /// Every animal stands in the arena, and every piece of food lies in it.
    pub open spec fn in_bounds(&self) -> bool {
        &&& forall|i: int|
            0 <= i < self.animals.len() ==> in_arena((#[trigger] self.animals[i]).position)
        &&& forall|f: int|
            0 <= f < self.foods.len() ==> in_arena((#[trigger] self.foods[f]).position)
    }

    /// Every animal has just been set into the world, and every piece of
    /// food lies in the arena.
    pub open spec fn newly_filled(&self, config: Config<S>) -> bool {
        &&& self.fits(config)
        &&& forall|i: int|
            0 <= i < self.animals.len() ==> (#[trigger] self.animals[i]).newly_placed(config)
        &&& forall|f: int|
            0 <= f < self.foods.len() ==> in_arena((#[trigger] self.foods[f]).position)
    }

    /// `later` is this world after it was settled whether animal number
    /// `animal` eats piece of food number `food`. Where it does not, nothing
    /// has changed. Where it does, the animal has eaten once more, the piece
    /// lies at a new place in the arena, and nothing else has changed.
    pub open spec fn settles_to(
        &self,
        later: World<S>,
        animal: int,
        food: int,
        eaten: bool,
    ) -> bool {
        if eaten {
            &&& later.animals@ == self.animals@.update(animal, self.animals[animal].fed())
            &&& later.foods.len() == self.foods.len()
            &&& in_arena(later.foods[food].position)
            &&& forall|f: int|
                0 <= f < later.foods.len() && f != food ==> #[trigger] later.foods[f]
                    == self.foods[f]
        } else {
            later == *self
        }
    }

    pub fn animals(&self) -> (animals: &[Animal<S>])
        ensures
            animals@ == self.animals@,
    {
        self.animals.as_slice()
    }

    pub fn foods(&self) -> (foods: &[Food<S>])
        ensures
            foods@ == self.foods@,
    {
        self.foods.as_slice()
    }

    /// A world of random animals and food: the animals are drawn first, one
    /// after the other, then the pieces of food.
    pub fn random<R: RandomSource<S>>(rng: &mut R, config: &Config<S>) -> (world: Self)
        requires
            config.valid(),
        ensures
            world.newly_filled(*config),
    {
        let mut animals: Vec<Animal<S>> = Vec::new();
        let mut i: usize = 0;
        while i < config.animals
            invariant
                i <= config.animals,
                config.valid(),
                animals.len() == i,
                forall|j: int| 0 <= j < i ==> (#[trigger] animals[j]).newly_placed(*config),
            decreases config.animals - i,
        {
            let animal = Animal::random(rng, config);
            animals.push(animal);
            i += 1;
        }
        let mut foods: Vec<Food<S>> = Vec::new();
        let mut f: usize = 0;
        while f < config.foods
            invariant
                f <= config.foods,
                foods.len() == f,
                forall|k: int| 0 <= k < f ==> in_arena((#[trigger] foods[k]).position),
            decreases config.foods - f,
        {
            let food = Food::random(rng);
            foods.push(food);
            f += 1;
        }
        World { animals, foods }
    }

    /// Settles whether an animal eats a piece of food that lies `distance`
    /// away from it: it does where the distance is at most `radius`. The
    /// animal then counts the food as eaten, and the food is set to a new
    /// random place at once. Where it does not eat, nothing is drawn.
    pub fn collide<R: RandomSource<S>>(
        &mut self,
        rng: &mut R,
        animal: usize,
        food: usize,
        distance: S,
        radius: S,
    ) -> (eaten: bool)
        requires
            animal < old(self).animals.len(),
            food < old(self).foods.len(),
        ensures
            eaten == distance.le_spec(radius),
            old(self).settles_to(*final(self), animal as int, food as int, eaten),
            !eaten ==> *final(self) == *old(self),
            !eaten ==> *final(rng) == *old(rng),
            eaten ==> final(self).animals@ == old(self).animals@.update(
                animal as int,
                old(self).animals[animal as int].fed(),
            ),
            eaten ==> final(self).foods.len() == old(self).foods.len(),
            eaten ==> in_arena(final(self).foods[food as int].position),
            eaten ==> forall|f: int|
                0 <= f < final(self).foods.len() && f != food ==> #[trigger] final(self).foods[f]
                    == old(self).foods[f],
    {
        if distance.at_most(radius) {
            self.animals[animal].feed();
            self.foods[food].position = random_place(rng);
            assert(self.animals@ =~= old(self).animals@.update(
                animal as int,
                old(self).animals[animal as int].fed(),
            ));
            true
        } else {
            false
        }
    }
}

} // verus!
