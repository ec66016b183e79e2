use rand::distributions::{Distribution, Uniform, WeightedIndex};
use rand::{Rng, SeedableRng};
use rand_chacha::ChaCha8Rng;
use simulation::{
    Chromosome, CrossOverMethod, GaussianMutation, GeneticAlgorithm, Individual, Layer,
    LayerTopology, MutationMethod, Network, Neuron, RouletteWheelSelection, RandomSource, Scalar,
    UniformCrossover,
};

/// Single-precision floating point as the library's scalar.
#[derive(Clone, Copy, Debug, PartialEq)]
struct Real(f32);

impl Scalar for Real {
    fn zero_spec() -> Self {
        Real(0.0)
    }

    fn one_spec() -> Self {
        Real(1.0)
    }

    fn add_spec(self, rhs: Self) -> Self {
        Real(self.0 + rhs.0)
    }

    fn mul_spec(self, rhs: Self) -> Self {
        Real(self.0 * rhs.0)
    }

    fn neg_spec(self) -> Self {
        Real(-self.0)
    }

    fn div_spec(self, rhs: Self) -> Self {
        Real(self.0 / rhs.0)
    }

    fn div_count_spec(self, count: usize) -> Self {
        Real(self.0 / count as f32)
    }

    fn abs_spec(self) -> Self {
        Real(self.0.abs())
    }

    fn from_count_spec(count: usize) -> Self {
        Real(count as f32)
    }

    fn to_index_spec(self) -> usize {
        self.0 as usize
    }

    fn wrap_spec(self) -> Self {
        let wrapped = self.0.rem_euclid(1.0);
        if wrapped < 1.0 {
            Real(wrapped)
        } else {
            Real(0.0)
        }
    }

    fn lt_spec(self, rhs: Self) -> bool {
        self.0 < rhs.0
    }

    fn le_spec(self, rhs: Self) -> bool {
        self.0 <= rhs.0
    }

    fn top_spec() -> Self {
        Real(f32::INFINITY)
    }

    fn zero() -> Self {
        Self::zero_spec()
    }

    fn one() -> Self {
        Self::one_spec()
    }

    fn top() -> Self {
        Self::top_spec()
    }

    fn plus(self, rhs: Self) -> Self {
        self.add_spec(rhs)
    }

    fn times(self, rhs: Self) -> Self {
        self.mul_spec(rhs)
    }

    fn negated(self) -> Self {
        self.neg_spec()
    }

    fn divided_by(self, rhs: Self) -> Self {
        self.div_spec(rhs)
    }

    fn magnitude(self) -> Self {
        self.abs_spec()
    }

    fn from_count(count: usize) -> Self {
        Self::from_count_spec(count)
    }

    fn to_index(self) -> usize {
        self.to_index_spec()
    }

    fn over_count(self, count: usize) -> Self {
        self.div_count_spec(count)
    }

    fn wrapped(self) -> Self {
        self.wrap_spec()
    }

    fn less_than(self, rhs: Self) -> bool {
        self.lt_spec(rhs)
    }

    fn at_most(self, rhs: Self) -> bool {
        self.le_spec(rhs)
    }

    fn rectified(self) -> Self {
        if 0.0 < self.0 {
            self
        } else {
            Real(0.0)
        }
    }
}

/// A generator of the `rand` family as a source of floating-point draws.
struct Dice(ChaCha8Rng);

impl Dice {
    fn new() -> Self {
        Dice(ChaCha8Rng::from_seed(Default::default()))
    }
}

impl RandomSource<Real> for Dice {
    fn flip(&mut self) -> bool {
        self.0.gen_bool(0.5)
    }

    fn strikes(&mut self, chance: Real) -> bool {
        self.0.gen_bool(chance.0 as f64)
    }

    fn draw_unit(&mut self) -> Real {
        Real(self.0.gen())
    }

    fn draw_weight(&mut self) -> Real {
        Real(self.0.gen_range(-1.0..=1.0))
    }

    fn draw_below(&mut self, bound: Real) -> Real {
        Real(Uniform::new(0.0, bound.0).sample(&mut self.0))
    }

    fn pick_weighted(&mut self, weights: &Vec<Real>) -> usize {
        WeightedIndex::new(weights.iter().map(|weight| weight.0))
            .unwrap()
            .sample(&mut self.0)
    }
}

fn reals(values: &[f32]) -> Vec<Real> {
    values.iter().map(|value| Real(*value)).collect()
}

fn floats(values: &[Real]) -> Vec<f32> {
    values.iter().map(|value| value.0).collect()
}

fn close(actual: f32, expected: f32) -> bool {
    let tolerance = f32::EPSILON * actual.abs().max(expected.abs()).max(1.0);
    (actual - expected).abs() <= tolerance
}

fn all_close(actual: &[f32], expected: &[f32]) -> bool {
    actual.len() == expected.len()
        && actual
            .iter()
            .zip(expected)
            .all(|(actual, expected)| close(*actual, *expected))
}

#[derive(Debug, PartialEq)]
enum TestIndividual {
    WithChromosome { chromosome: Chromosome<Real> },
    WithFitness { fitness: f32 },
}

impl TestIndividual {
    fn new(fitness: f32) -> Self {
        Self::WithFitness { fitness }
    }
}

impl Individual<Real> for TestIndividual {
    fn fitness_spec(&self) -> Real {
        self.fitness()
    }

    fn chromosome_spec(&self) -> Chromosome<Real> {
        self.chromosome().clone()
    }

    fn fitness(&self) -> Real {
        match self {
            Self::WithFitness { fitness } => Real(*fitness),
            Self::WithChromosome { chromosome } => {
                Real(chromosome.as_slice().iter().map(|gene| gene.0).sum())
            }
        }
    }

    fn chromosome(&self) -> &Chromosome<Real> {
        match self {
            Self::WithChromosome { chromosome } => chromosome,
            Self::WithFitness { .. } => panic!("not supported for TestIndividual"),
        }
    }

    fn create(chromosome: Chromosome<Real>) -> Self {
        Self::WithChromosome { chromosome }
    }
}

fn individual(genes: &[f32]) -> TestIndividual {
    TestIndividual::create(Chromosome::new(reals(genes)))
}

#[test]
fn lib_test() {
    // Ten generations of four individuals.
    {
        let mut rng = Dice::new();

        let ga = GeneticAlgorithm::new(
            RouletteWheelSelection::default(),
            UniformCrossover::default(),
            GaussianMutation::new(Real(0.5), Real(0.5)),
        );

        let mut population = vec![
            individual(&[0.0, 0.0, 0.0]),
            individual(&[1.0, 1.0, 1.0]),
            individual(&[1.0, 2.0, 1.0]),
            individual(&[1.0, 2.0, 4.0]),
        ];

        for _ in 0..10 {
            population = ga.evolve(&mut rng, &population).0;
        }

        let expected_population = vec![
            individual(&[0.4476949, 2.0648358, 4.3058133]),
            individual(&[1.2126867, 1.5538777, 2.886911]),
            individual(&[1.0617678, 2.265739, 4.428764]),
            individual(&[0.95909685, 2.4618788, 4.024733]),
        ];

        assert_eq!(population, expected_population);
    }

    // A random network of three inputs, two hidden neurons and one output.
    {
        let mut rng = Dice::new();

        let network = Network::<Real>::random(
            &mut rng,
            &[
                LayerTopology { neurons: 3 },
                LayerTopology { neurons: 2 },
                LayerTopology { neurons: 1 },
            ],
        );

        assert_eq!(network.layers.len(), 2);
        assert_eq!(network.layers[0].neurons.len(), 2);

        assert!(close(network.layers[0].neurons[0].bias.0, -0.6255188));
        assert!(all_close(
            &floats(&network.layers[0].neurons[0].weights),
            &[0.67383957, 0.8181262, 0.26284897]
        ));

        assert!(close(network.layers[0].neurons[1].bias.0, 0.5238807));
        assert!(all_close(
            &floats(&network.layers[0].neurons[0].weights),
            &[0.67383957, 0.8181262, 0.26284897]
        ));

        assert_eq!(network.layers[1].neurons.len(), 1);
        assert!(all_close(
            &floats(&network.layers[1].neurons[0].weights),
            &[-0.48879617, -0.19277132]
        ));
    }

    // A network answers as its layers do, one after the other.
    {
        let layers = vec![
            Layer::new(vec![
                Neuron::new(Real(0.0), reals(&[-0.5, -0.4, -0.3])),
                Neuron::new(Real(0.0), reals(&[-0.2, -0.1, 0.0])),
            ]),
            Layer::new(vec![Neuron::new(Real(0.0), reals(&[-0.5, 0.5]))]),
        ];

        let network = Network::new(vec![layers[0].clone(), layers[1].clone()]);

        let inputs = reals(&[0.5, 0.6, 0.7]);

        let actual = network.propagate(inputs.clone());
        let expected = layers[1].propagate(layers[0].propagate(inputs.clone()));

        assert!(all_close(&floats(&actual), &floats(&expected)));
    }
}

fn mutated(chance: f32, coeff: f32) -> Vec<f32> {
    let mut child = Chromosome::new(reals(&[1.0, 2.0, 3.0, 4.0, 5.0]));
    let mut rng = Dice::new();

    GaussianMutation::new(Real(chance), Real(coeff)).mutate(&mut rng, &mut child);

    floats(child.as_slice())
}

#[test]
fn gaussian_does_not_change_the_original_chromosome() {
    let expected = vec![1.0, 2.0, 3.0, 4.0, 5.0];

    assert!(all_close(&mutated(0.0, 0.0), &expected));
    assert!(all_close(&mutated(0.0, 0.5), &expected));
    assert!(all_close(&mutated(0.5, 0.0), &expected));
    assert!(all_close(&mutated(1.0, 0.0), &expected));
}

#[test]
fn slightly_change_the_original_chromosome() {
    let actual = mutated(0.5, 0.5);
    let expected = vec![1.0, 1.7756249, 3.0, 4.1596804, 5.0];

    assert!(all_close(&actual, &expected));
}

#[test]
fn entirely_changes_the_original_chromosome() {
    let actual = mutated(1.0, 1.0);
    let expected = vec![1.9090631, 2.2324157, 2.5512497, 3.901025, 4.2773824];

    assert!(all_close(&actual, &expected));
}

#[test]
fn neuron_test() {
    let mut rng = Dice::new();
    let neuron = Neuron::<Real>::random(&mut rng, 4);

    assert!(close(neuron.bias.0, -0.6255188));
    assert!(all_close(
        &floats(&neuron.weights),
        &[0.67383957, 0.8181262, 0.26284897, 0.5238807]
    ));
}

#[test]
fn returns_propagated_input() {
    let neuron = Neuron::new(Real(0.5), reals(&[-0.3, 0.8]));

    assert!(close(neuron.propagate(&reals(&[-10.0, -10.0])).0, 0.0));

    assert!(close(
        neuron.propagate(&reals(&[0.5, 1.0])).0,
        (-0.3 * 0.5) + (0.8 * 1.0) + 0.5
    ));
}

#[test]
fn layer_test() {
    // A random layer of two neurons with three inputs each.
    {
        let mut rng = Dice::new();

        let layer = Layer::<Real>::random(&mut rng, 3, 2);

        let actual_biases: Vec<f32> = layer.neurons.iter().map(|neuron| neuron.bias.0).collect();

        let actual_weights: Vec<Vec<f32>> = layer
            .neurons
            .iter()
            .map(|neuron| floats(&neuron.weights))
            .collect();

        let expected_weights: Vec<Vec<f32>> = vec![
            vec![0.67383957, 0.8181262, 0.26284897],
            vec![-0.53516835, 0.069369674, -0.7648182],
        ];

        assert!(all_close(&actual_biases, &[-0.6255188, 0.5238807]));
        assert_eq!(actual_weights.len(), expected_weights.len());
        for (actual, expected) in actual_weights.iter().zip(&expected_weights) {
            assert!(all_close(actual, expected));
        }

    }

    // A layer answers as its neurons do, one after the other.
    {
        let neurons = vec![
            Neuron::new(Real(0.0), reals(&[0.1, 0.2, 0.3])),
            Neuron::new(Real(0.0), reals(&[0.4, 0.5, 0.6])),
        ];

        let layer = Layer::new(vec![neurons[0].clone(), neurons[1].clone()]);

        let inputs = reals(&[0.5, 0.0, 0.5]);

        let actual_propagate = layer.propagate(inputs.clone());
        let expected_propagate: Vec<Real> = neurons
            .iter()
            .map(|neuron| neuron.propagate(&inputs))
            .collect();

        assert!(all_close(
            &floats(&actual_propagate),
            &floats(&expected_propagate)
        ));
    }
}

#[test]
fn uniform_crossover_takes_each_gene_from_a_parent() {
    let mut rng = Dice::new();
    let parent_a = Chromosome::new(reals(&(1..=100).map(|n| n as f32).collect::<Vec<_>>()));
    let parent_b = Chromosome::new(reals(&(1..=100).map(|n| -n as f32).collect::<Vec<_>>()));

    let child = UniformCrossover::default().crossover(&mut rng, &parent_a, &parent_b);

    assert_eq!(child.len(), 100);
    let from_a = (0..100).filter(|i| child.gene(*i) == parent_a.gene(*i)).count();
    let from_b = (0..100).filter(|i| child.gene(*i) == parent_b.gene(*i)).count();
    assert_eq!(from_a + from_b, 100);
    assert_eq!(from_a, 51);
}

#[test]
fn fitness_of_a_test_individual_is_read_back() {
    assert_eq!(TestIndividual::new(2.5).fitness(), Real(2.5));
}

#[test]
fn decoding_what_a_network_encodes_to_gives_the_network_back() {
    let mut rng = Dice::new();
    let layers = [
        LayerTopology { neurons: 9 },
        LayerTopology { neurons: 18 },
        LayerTopology { neurons: 2 },
    ];
    let network = Network::<Real>::random(&mut rng, &layers);

    let weights = network.weights();
    let decoded = Network::from_weights(&layers, &weights);

    assert_eq!(weights.len(), 218);
    assert_eq!(decoded, network);
    assert_eq!(decoded.weights(), weights);

    let inputs = reals(&[0.1, 0.2, 0.3, 0.4, 0.5, 0.6, 0.7, 0.8, 0.9]);
    assert_eq!(decoded.propagate(inputs.clone()), network.propagate(inputs));
}

#[test]
fn a_neuron_of_floats_never_answers_below_zero() {
    let mut rng = Dice::new();
    for _ in 0..500 {
        let neuron = Neuron::<Real>::random(&mut rng, 6);
        let inputs: Vec<Real> = Neuron::<Real>::random(&mut rng, 6)
            .weights
            .iter()
            .map(|input| Real(input.0 * 100.0))
            .collect();
        assert!(neuron.propagate(&inputs).0 >= 0.0);
    }
    let neuron = Neuron::new(Real(f32::NAN), reals(&[1.0]));
    assert_eq!(neuron.propagate(&reals(&[1.0])), Real(0.0));
}

#[test]
fn a_mutation_of_floats_moves_no_gene_farther_than_its_coefficient() {
    let before: Vec<f32> = vec![1.0, 2.0, 3.0, 4.0, 5.0];
    for (chance, coefficient) in [(1.0, 1.0), (1.0, 0.25), (0.5, 0.5), (0.5, 3.0)] {
        let after = mutated(chance, coefficient);
        assert!(before
            .iter()
            .zip(&after)
            .all(|(before, after)| (after - before).abs() <= coefficient + f32::EPSILON * 8.0));
    }
}
