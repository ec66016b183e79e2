pub mod animal;
pub mod animal_individual;
pub mod brain;
pub mod chromosome;
pub mod config;
pub mod crossover;
pub mod eye;
pub mod fixed;
pub mod food;
pub mod genetic_algorithm;
pub mod geometry;
pub mod individual;
pub mod layer;
pub mod layer_topology;
pub mod mutation;
pub mod network;
pub mod neuron;
pub mod point;
pub mod random;
pub mod scalar;
pub mod seeded;
pub mod selection;
pub mod simulation;
pub mod statistics;
pub mod world;

pub use animal::Animal;
pub use animal_individual::AnimalIndividial;
pub use brain::Brain;
pub use chromosome::Chromosome;
pub use config::Config;
pub use crossover::{CrossOverMethod, UniformCrossover};
pub use eye::{Bearing, Eye};
pub use fixed::Fixed;
pub use food::{into_arena, Food};
pub use genetic_algorithm::GeneticAlgorithm;
pub use geometry::Geometry;
pub use individual::Individual;
pub use layer::Layer;
pub use layer_topology::{weight_count, LayerTopology};
pub use mutation::{GaussianMutation, GeneDraw, MutationMethod};
pub use network::Network;
pub use neuron::Neuron;
pub use point::Point;
pub use random::RandomSource;
pub use scalar::{clamp, is_weighable, minus, Scalar};
pub use seeded::SeededSource;
pub use selection::{RouletteWheelSelection, SelectionMethod};
pub use simulation::{EvolveError, Simulation};
pub use statistics::Statistics;
pub use world::World;
