use simulation::{
    Animal, AnimalIndividial, Bearing, Brain, Chromosome, Config, EvolveError, Eye, Fixed, Food,
    Geometry, Individual, into_arena, LayerTopology, minus, Point, RandomSource, Scalar,
    SeededSource, Simulation, World,
};

fn fixed(micros: i64) -> Fixed {
    Fixed::from_micros(micros)
}

fn rng() -> SeededSource {
    SeededSource::new(0)
}

fn eye(cells: usize) -> Eye<Fixed> {
    Eye::new(fixed(250_000), fixed(3_000_000), cells)
}

fn config() -> Config<Fixed> {
    Config {
        animals: 4,
        foods: 6,
        generation_length: 5,
        eye: eye(9),
        speed_min: fixed(1_000),
        speed_max: fixed(5_000),
        speed_initial: fixed(2_000),
        speed_accel: fixed(200_000),
        rotation_accel: fixed(1_570_796),
        full_turn: fixed(6_283_185),
        food_radius: fixed(10_000),
        mutation_chance: fixed(10_000),
        mutation_coefficient: fixed(300_000),
    }
}

/// A geometry in which every place is equally far from every other, food
/// lies straight ahead, and a move ends where it began.
#[derive(Clone, Copy)]
struct Still {
    distance: Fixed,
}

impl Geometry<Fixed> for Still {
    fn distance(&self, _a: Point<Fixed>, _b: Point<Fixed>) -> Fixed {
        self.distance
    }

    fn bearing(
        &self,
        _position: Point<Fixed>,
        _rotation: Fixed,
        _target: Point<Fixed>,
    ) -> Bearing<Fixed> {
        Bearing { distance: self.distance, angle: fixed(0) }
    }

    fn advance(&self, position: Point<Fixed>, _rotation: Fixed, _speed: Fixed) -> Point<Fixed> {
        position
    }
}

/// A geometry that moves every animal to one given place.
struct Gather {
    place: Point<Fixed>,
}

impl Geometry<Fixed> for Gather {
    fn distance(&self, _a: Point<Fixed>, _b: Point<Fixed>) -> Fixed {
        fixed(1_000_000)
    }

    fn bearing(
        &self,
        _position: Point<Fixed>,
        _rotation: Fixed,
        _target: Point<Fixed>,
    ) -> Bearing<Fixed> {
        Bearing { distance: fixed(1_000_000), angle: fixed(0) }
    }

    fn advance(&self, _position: Point<Fixed>, _rotation: Fixed, _speed: Fixed) -> Point<Fixed> {
        self.place
    }
}

fn bearing(distance: i64, angle: i64) -> Bearing<Fixed> {
    Bearing { distance: fixed(distance), angle: fixed(angle) }
}

fn in_arena(point: Point<Fixed>) -> bool {
    (0..1_000_000).contains(&point.x.micros()) && (0..1_000_000).contains(&point.y.micros())
}

#[test]
fn a_configuration_is_valid_when_every_part_can_be_used() {
    assert!(config().is_valid());
    assert!(Config { eye: eye(0), ..config() }.is_valid());
    assert!(!Config { eye: eye(usize::MAX / 2 + 1), ..config() }.is_valid());
    assert!(Config { eye: eye(usize::MAX / 2), ..config() }.is_valid());
    assert!(!Config { generation_length: usize::MAX, ..config() }.is_valid());
    assert!(Config { generation_length: 0, ..config() }.is_valid());
    assert!(!Config { full_turn: fixed(0), ..config() }.is_valid());
    assert!(!Config { mutation_chance: fixed(-1), ..config() }.is_valid());
    assert!(!Config { mutation_chance: fixed(1_000_001), ..config() }.is_valid());
    assert!(Config { mutation_chance: fixed(1_000_000), ..config() }.is_valid());
    assert!(Config { animals: 0, foods: 0, ..config() }.is_valid());
}

#[test]
fn an_eye_without_food_reports_zero_in_every_cell() {
    assert_eq!(eye(9).see(&[]), vec![fixed(0); 9]);
    assert_eq!(eye(1).see(&[]), vec![fixed(0)]);
    assert_eq!(eye(0).see(&[]), Vec::<Fixed>::new());
    assert_eq!(eye(9).cells(), 9);
}

#[test]
fn an_eye_without_cells_reports_nothing() {
    assert_eq!(eye(0).see(&[bearing(125_000, 0)]), Vec::<Fixed>::new());
}

#[test]
fn an_eye_asks_the_geometry_for_the_bearing_of_every_piece_of_food() {
    let here = Point::new(fixed(500_000), fixed(500_000));
    let foods = vec![Food { position: here }; 3];

    let cells = eye(9).process_vision(&Still { distance: fixed(125_000) }, here, fixed(0), &foods);
    let mut expected = vec![fixed(0); 9];
    expected[4] = fixed(500_000);
    assert_eq!(cells, expected);

    let cells = eye(9).process_vision(&Still { distance: fixed(250_000) }, here, fixed(0), &foods);
    assert_eq!(cells, vec![fixed(0); 9]);

    let cells = eye(9).process_vision(&Still { distance: fixed(0) }, here, fixed(0), &[]);
    assert_eq!(cells, vec![fixed(0); 9]);
}

#[test]
fn an_eye_reports_food_in_the_cell_of_its_angle() {
    // The field of three radians is split into nine cells of a third each.
    let report = |angle: i64| {
        eye(9)
            .see(&[bearing(125_000, angle)])
            .iter()
            .position(|cell| *cell != fixed(0))
    };
    assert_eq!(report(-1_500_000), Some(0));
    assert_eq!(report(-1_200_000), Some(0));
    assert_eq!(report(-1_100_000), Some(1));
    assert_eq!(report(0), Some(4));
    assert_eq!(report(1_100_000), Some(7));
    assert_eq!(report(1_400_000), Some(8));
    assert_eq!(report(1_500_000), Some(8));
    assert_eq!(report(1_500_001), None);
    assert_eq!(report(-1_500_001), None);
}

#[test]
fn an_eye_reports_nearer_food_more_strongly() {
    let cells = eye(9).see(&[bearing(125_000, 0)]);
    assert_eq!(cells[4], fixed(500_000));
    let cells = eye(9).see(&[bearing(0, 0)]);
    assert_eq!(cells[4], fixed(1_000_000));
    let cells = eye(9).see(&[bearing(200_000, 0)]);
    assert_eq!(cells[4], fixed(200_000));
}

#[test]
fn an_eye_does_not_see_food_at_or_beyond_its_range() {
    assert_eq!(eye(9).see(&[bearing(250_000, 0)]), vec![fixed(0); 9]);
    assert_eq!(eye(9).see(&[bearing(900_000, 0)]), vec![fixed(0); 9]);
    assert_ne!(eye(9).see(&[bearing(249_999, 0)]), vec![fixed(0); 9]);
}

#[test]
fn the_last_food_to_reach_a_cell_stays_in_it() {
    let cells = eye(9).see(&[
        bearing(50_000, 0),
        bearing(125_000, 100_000),
        bearing(200_000, -1_400_000),
        bearing(900_000, 0),
    ]);
    let mut expected = vec![fixed(0); 9];
    expected[4] = fixed(500_000);
    expected[0] = fixed(200_000);
    assert_eq!(cells, expected);

    let cells = eye(9).see(&[bearing(125_000, 100_000), bearing(50_000, 0)]);
    assert_eq!(cells[4], fixed(800_000));
}

#[test]
fn the_brain_of_an_eye_has_one_input_for_each_cell_and_two_outputs() {
    assert_eq!(
        Brain::topology(&eye(9)),
        [
            LayerTopology { neurons: 9 },
            LayerTopology { neurons: 18 },
            LayerTopology { neurons: 2 },
        ]
    );
    assert_eq!(
        Brain::topology(&eye(0)),
        [
            LayerTopology { neurons: 0 },
            LayerTopology { neurons: 0 },
            LayerTopology { neurons: 2 },
        ]
    );
}

#[test]
fn a_brain_is_decoded_from_the_chromosome_that_it_encodes_to() {
    let mut rng = rng();
    let brain = Brain::<Fixed>::random(&mut rng, &eye(9));
    let chromosome = brain.as_chromosome();

    assert_eq!(chromosome.len(), 218);
    assert_eq!(chromosome.as_slice(), brain.nn.weights().as_slice());
    assert_eq!(Brain::from_chromosome(chromosome, &eye(9)), brain);
}

#[test]
fn a_brain_decides_with_two_numbers() {
    let mut rng = rng();
    let brain = Brain::<Fixed>::random(&mut rng, &eye(9));
    let response = brain.decide(vec![fixed(500_000); 9]);

    assert_eq!(response.len(), 2);
    assert_eq!(response, brain.nn.propagate(vec![fixed(500_000); 9]));
    assert!(response.iter().all(|r| r.micros() >= 0));
}

/// An animal with an eye of one cell whose brain answers `speed` and
/// `rotation` whatever it sees.
fn stubborn(speed: i64, rotation: i64, config: &Config<Fixed>) -> Animal<Fixed> {
    let genes = vec![0, 0, 0, 0, speed, 0, 0, rotation, 0, 0];
    let chromosome = Chromosome::new(genes.into_iter().map(fixed).collect());
    Animal::from_chromosome(chromosome, &mut rng(), config)
}

#[test]
fn an_animal_changes_speed_and_heading_within_its_limits() {
    let config = Config { eye: eye(1), ..config() };

    let mut animal = stubborn(500_000, 300_000, &config);
    let heading = animal.rotation();
    animal.steer(vec![fixed(0)], &config);
    assert_eq!(animal.speed(), fixed(5_000));
    assert_eq!(animal.rotation(), heading.plus(fixed(300_000)));

    let mut animal = stubborn(1_000, 2_000_000, &config);
    let heading = animal.rotation();
    animal.steer(vec![fixed(700_000)], &config);
    assert_eq!(animal.speed(), fixed(3_000));
    assert_eq!(animal.rotation(), heading.plus(fixed(1_570_796)));

    let mut animal = stubborn(-4_000, -2_000_000, &config);
    let heading = animal.rotation();
    let place = animal.position();
    animal.steer(vec![fixed(0)], &config);
    assert_eq!(animal.speed(), fixed(2_000));
    assert_eq!(animal.rotation(), heading);
    assert_eq!(animal.position(), place);
    assert_eq!(animal.satiation(), 0);
}


#[test]
fn an_animal_counts_what_it_eats() {
    let mut animal = Animal::<Fixed>::random(&mut rng(), &config());
    assert_eq!(animal.satiation(), 0);
    animal.feed();
    animal.feed();
    assert_eq!(animal.satiation(), 2);

    animal.satiation = usize::MAX;
    animal.feed();
    assert_eq!(animal.satiation(), usize::MAX);
}

#[test]
fn a_random_animal_is_newly_placed() {
    let animal = Animal::<Fixed>::random(&mut rng(), &config());

    assert_eq!(animal.satiation(), 0);
    assert_eq!(animal.speed(), fixed(2_000));
    assert_eq!(animal.eye, eye(9));
    assert!(in_arena(animal.position()));
    assert!((0..6_283_185).contains(&animal.rotation().micros()));
    assert_eq!(animal.as_chromosome().len(), 218);
    assert_eq!(animal.as_chromosome(), animal.brain.as_chromosome());
}

#[test]
fn an_animal_moves_to_where_it_is_put() {
    let mut animal = Animal::<Fixed>::random(&mut rng(), &config());
    let brain = animal.brain.clone();
    animal.move_to(Point::new(fixed(1), fixed(2)));
    assert_eq!(animal.position(), Point { x: fixed(1), y: fixed(2) });
    assert_eq!(animal.brain, brain);
}

#[test]
fn an_individual_stands_for_its_animal() {
    let mut animal = Animal::<Fixed>::random(&mut rng(), &config());
    animal.feed();
    animal.feed();
    animal.feed();

    let individual = AnimalIndividial::from_animal(&animal);
    assert_eq!(individual.fitness(), fixed(3_000_000));
    assert_eq!(individual.chromosome(), &animal.as_chromosome());

    let reborn = individual.into_animal(&mut rng(), &config());
    assert_eq!(reborn.brain, animal.brain);
    assert_eq!(reborn.satiation(), 0);
    assert_eq!(reborn.speed(), fixed(2_000));
    assert!(in_arena(reborn.position()));
}

#[test]
fn an_individual_made_from_a_chromosome_has_not_eaten() {
    let genes = Chromosome::new(vec![fixed(1), fixed(2)]);
    let individual = AnimalIndividial::create(genes.clone());
    assert_eq!(individual.fitness(), fixed(0));
    assert_eq!(individual.chromosome(), &genes);
}

#[test]
fn food_lies_in_the_arena() {
    let mut rng = rng();
    for _ in 0..200 {
        assert!(in_arena(Food::<Fixed>::random(&mut rng).position()));
    }
}

#[test]
fn a_random_world_holds_the_configured_animals_and_food() {
    let world = World::<Fixed>::random(&mut rng(), &config());

    assert_eq!(world.animals().len(), 4);
    assert_eq!(world.foods().len(), 6);
    assert!(world.animals().iter().all(|animal| in_arena(animal.position())));
    assert!(world.foods().iter().all(|food| in_arena(food.position())));
    assert_ne!(world.animals()[0].brain, world.animals()[1].brain);
}

#[test]
fn food_within_the_radius_is_eaten_and_set_to_a_new_place() {
    let mut world = World::<Fixed>::random(&mut rng(), &config());
    let before = world.clone();

    assert!(!world.collide(&mut rng(), 1, 2, fixed(10_001), fixed(10_000)));
    assert_eq!(world, before);

    assert!(world.collide(&mut rng(), 1, 2, fixed(10_000), fixed(10_000)));
    assert_eq!(world.animals[1].satiation(), 1);
    assert_eq!(world.animals[0], before.animals[0]);
    assert_ne!(world.foods[2], before.foods[2]);
    assert!(in_arena(world.foods[2].position()));
    assert_eq!(world.foods[1], before.foods[1]);
    assert_eq!(world.foods.len(), 6);

    assert!(world.collide(&mut rng(), 1, 3, fixed(0), fixed(10_000)));
    assert_eq!(world.animals[1].satiation(), 2);
}

#[test]
fn a_generation_is_replaced_after_its_length_plus_one_steps() {
    let mut rng = rng();
    let mut simulation = Simulation::random(&mut rng, config(), Still { distance: fixed(0) });
    assert_eq!(simulation.age(), 0);

    for round in 0..3 {
        for step in 1..=5 {
            assert_eq!(simulation.step(&mut rng), Ok(None));
            assert_eq!(simulation.age(), step);
        }
        let statistics = simulation
            .step(&mut rng)
            .unwrap()
            .unwrap_or_else(|| panic!("no statistics in round {round}"));
        assert_eq!(simulation.age(), 0);
        // Each of the six steps every animal ate each of the six pieces.
        assert_eq!(statistics.min_fitness(), fixed(36_000_000));
        assert_eq!(statistics.max_fitness(), fixed(36_000_000));
        assert_eq!(statistics.avg_fitness(), fixed(36_000_000));
    }
}

#[test]
fn a_generation_of_length_zero_is_replaced_by_every_step() {
    let mut rng = rng();
    let setup = Config { generation_length: 0, ..config() };
    let mut simulation = Simulation::random(&mut rng, setup, Still { distance: fixed(0) });

    for _ in 0..3 {
        assert!(matches!(simulation.step(&mut rng), Ok(Some(_))));
        assert_eq!(simulation.age(), 0);
    }
}

#[test]
fn a_new_generation_is_newly_placed_and_has_not_eaten() {
    let mut rng = rng();
    let mut simulation = Simulation::random(&mut rng, config(), Still { distance: fixed(0) });
    let before = simulation.world().clone();

    let statistics = simulation.train(&mut rng).unwrap();

    assert_eq!(statistics.max_fitness(), fixed(36_000_000));
    assert_eq!(simulation.age(), 0);
    let world = simulation.world();
    assert_eq!(world.animals().len(), 4);
    assert_eq!(world.foods().len(), 6);
    for animal in world.animals() {
        assert_eq!(animal.satiation(), 0);
        assert_eq!(animal.speed(), fixed(2_000));
        assert_eq!(animal.eye, eye(9));
        assert_eq!(animal.as_chromosome().len(), 218);
        assert!(in_arena(animal.position()));
        assert!((0..6_283_185).contains(&animal.rotation().micros()));
    }
    assert!(world.foods().iter().all(|food| in_arena(food.position())));
    assert_ne!(world.foods(), before.foods());
}

#[test]
fn children_carry_genes_of_the_animals_before_them() {
    let mut rng = rng();
    let setup = Config { mutation_chance: fixed(0), ..config() };
    let mut simulation = Simulation::random(&mut rng, setup, Still { distance: fixed(0) });
    let parents: Vec<Chromosome<Fixed>> = simulation
        .world()
        .animals()
        .iter()
        .map(|animal| animal.as_chromosome())
        .collect();

    simulation.train(&mut rng).unwrap();

    for animal in simulation.world().animals() {
        let child = animal.as_chromosome();
        for i in 0..child.len() {
            assert!(parents.iter().any(|parent| parent.gene(i) == child.gene(i)));
        }
    }
}

#[test]
fn a_generation_that_ate_nothing_cannot_be_replaced() {
    let mut rng = rng();
    let mut simulation =
        Simulation::random(&mut rng, config(), Still { distance: fixed(1_000_000) });

    for step in 1..=5 {
        assert!(!simulation.can_evolve());
        assert_eq!(simulation.step(&mut rng), Ok(None));
        assert_eq!(simulation.age(), step);
    }
    assert_eq!(simulation.step(&mut rng), Err(EvolveError::NothingToSelect));
    assert_eq!(simulation.age(), 5);
    assert_eq!(simulation.train(&mut rng), Err(EvolveError::NothingToSelect));
    assert_eq!(simulation.age(), 5);

    simulation.geometry = Still { distance: fixed(0) };
    assert!(matches!(simulation.step(&mut rng), Ok(Some(_))));
    assert_eq!(simulation.age(), 0);
}

#[test]
fn a_world_without_animals_cannot_be_replaced() {
    let mut rng = rng();
    let setup = Config { animals: 0, generation_length: 1, ..config() };
    let mut simulation = Simulation::random(&mut rng, setup, Still { distance: fixed(0) });

    assert!(!simulation.can_evolve());
    assert_eq!(simulation.step(&mut rng), Ok(None));
    assert_eq!(simulation.step(&mut rng), Err(EvolveError::NothingToSelect));
}

#[test]
fn collisions_feed_the_animals_and_leave_them_where_they_are() {
    let mut rng = rng();
    let mut simulation =
        Simulation::random(&mut rng, config(), Still { distance: fixed(10_001) });
    let before = simulation.world().clone();

    simulation.process_collisions(&mut rng);
    assert_eq!(simulation.world(), &before);

    simulation.geometry = Still { distance: fixed(10_000) };
    simulation.process_collisions(&mut rng);
    for (animal, old) in simulation.world().animals().iter().zip(before.animals()) {
        assert_eq!(animal.satiation(), 6);
        assert_eq!(animal.position(), old.position());
        assert_eq!(animal.rotation(), old.rotation());
        assert_eq!(animal.speed(), old.speed());
        assert_eq!(animal.brain, old.brain);
    }
    assert_eq!(simulation.world().foods().len(), 6);
    assert_ne!(simulation.world().foods(), before.foods());
    assert_eq!(simulation.age(), 0);
}

#[test]
fn brains_change_speed_and_heading_only() {
    let mut rng = rng();
    let mut simulation =
        Simulation::random(&mut rng, config(), Still { distance: fixed(100_000) });
    let before = simulation.world().clone();

    simulation.process_brains();

    assert_eq!(simulation.world().foods(), before.foods());
    for (animal, old) in simulation.world().animals().iter().zip(before.animals()) {
        let mut expected = old.clone();
        let bearings = vec![bearing(100_000, 0); 6];
        expected.steer(expected.eye.see(&bearings), &config());
        assert_eq!(animal, &expected);
        assert!((1_000..=5_000).contains(&animal.speed().micros()));
        assert_eq!(animal.position(), old.position());
        assert_eq!(animal.satiation(), 0);
    }
}

#[test]
fn movements_put_the_animals_where_the_geometry_says() {
    let mut rng = rng();
    let place = Point::new(fixed(123_456), fixed(654_321));
    let mut simulation = Simulation::random(&mut rng, config(), Gather { place });
    let before = simulation.world().clone();

    simulation.process_movements();

    assert_eq!(simulation.world().foods(), before.foods());
    for (animal, old) in simulation.world().animals().iter().zip(before.animals()) {
        assert_eq!(animal.position(), place);
        assert_eq!(animal.rotation(), old.rotation());
        assert_eq!(animal.speed(), old.speed());
        assert_eq!(animal.brain, old.brain);
    }
}

#[test]
fn a_tick_runs_collisions_then_brains_then_movements() {
    let geometry = Still { distance: fixed(5_000) };
    let mut rng = rng();
    let mut ticked = Simulation::random(&mut rng, config(), geometry);
    let mut other = SeededSource::new(0);
    let mut phased = Simulation::random(&mut other, config(), geometry);

    ticked.tick(&mut rng);
    phased.process_collisions(&mut other);
    phased.process_brains();
    phased.process_movements();

    assert_eq!(ticked.world(), phased.world());
    assert_eq!(ticked.age(), 0);
}

#[test]
fn the_same_seed_gives_the_same_run() {
    let run = || {
        let mut rng = rng();
        let mut simulation =
            Simulation::random(&mut rng, config(), Still { distance: fixed(5_000) });
        for _ in 0..20 {
            simulation.step(&mut rng).unwrap();
        }
        simulation.world().clone()
    };
    assert_eq!(run(), run());
}

#[test]
fn an_eye_sees_nothing_at_a_distance_below_zero() {
    assert_eq!(eye(9).see(&[bearing(-250_000, 0)]), vec![fixed(0); 9]);
    assert_eq!(eye(9).see(&[bearing(-1, 0)]), vec![fixed(0); 9]);
}

#[test]
fn every_cell_of_a_report_lies_between_zero_and_one() {
    let mut rng = rng();
    for _ in 0..200 {
        let bearings: Vec<Bearing<Fixed>> = (0..20)
            .map(|_| Bearing {
                distance: minus(rng.draw_below(fixed(600_000)), fixed(200_000)),
                angle: minus(rng.draw_below(fixed(4_000_000)), fixed(2_000_000)),
            })
            .collect();
        let cells = eye(9).see(&bearings);
        assert!(cells.iter().all(|cell| (0..=1_000_000).contains(&cell.micros())));
    }
}

#[test]
fn a_move_that_ends_outside_the_arena_comes_back_at_the_other_edge() {
    let mut rng = rng();
    let outside = Point::new(fixed(1_250_000), fixed(-250_000));
    let mut simulation = Simulation::random(&mut rng, config(), Gather { place: outside });

    simulation.process_movements();

    for animal in simulation.world().animals() {
        assert_eq!(animal.position(), Point::new(fixed(250_000), fixed(750_000)));
    }
    assert_eq!(into_arena(outside), Point::new(fixed(250_000), fixed(750_000)));
}

#[test]
fn collisions_draw_only_for_food_that_is_eaten() {
    let far = Still { distance: fixed(10_001) };
    let mut rng = SeededSource::new(0);
    let mut untouched = SeededSource::new(0);
    let mut simulation = Simulation::random(&mut rng, config(), far);
    let _ = Simulation::random(&mut untouched, config(), far);
    let before = simulation.world().clone();

    simulation.process_collisions(&mut rng);
    assert_eq!(simulation.world(), &before);
    let next: Fixed = rng.draw_unit();
    let expected: Fixed = untouched.draw_unit();
    assert_eq!(next, expected);

    assert!(!simulation.world.collide(&mut rng, 0, 0, fixed(10_001), fixed(10_000)));
    let next: Fixed = rng.draw_unit();
    let expected: Fixed = untouched.draw_unit();
    assert_eq!(next, expected);

    assert!(simulation.world.collide(&mut rng, 0, 0, fixed(10_000), fixed(10_000)));
    let drawn: Vec<Fixed> = (0..8).map(|_| rng.draw_unit()).collect();
    let expected: Vec<Fixed> = (0..8).map(|_| untouched.draw_unit()).collect();
    assert_ne!(drawn, expected);
}

#[test]
fn a_step_without_food_in_reach_draws_nothing() {
    let far = Still { distance: fixed(10_001) };
    let mut rng = SeededSource::new(0);
    let mut untouched = SeededSource::new(0);
    let mut simulation = Simulation::random(&mut rng, config(), far);
    let _ = Simulation::random(&mut untouched, config(), far);

    for _ in 0..5 {
        assert_eq!(simulation.step(&mut rng), Ok(None));
    }
    assert_eq!(simulation.step(&mut rng), Err(EvolveError::NothingToSelect));
    let next: Fixed = rng.draw_unit();
    let expected: Fixed = untouched.draw_unit();
    assert_eq!(next, expected);
}
