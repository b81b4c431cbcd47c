use birdsim::bird_individual::BirdIndividual;
use birdsim::chromosome::Chromosome;
use birdsim::crossover::{CrossoverMethod, UniformCrossover};
use birdsim::fx::FX_ONE;
use birdsim::genetic::GeneticAlgorithm;
use birdsim::individual::Individual;
use birdsim::mutation::{GaussianMutation, MutationMethod};
use birdsim::rng::Prng;
use birdsim::selection::RouletteWheelSelection;
use birdsim::statistics::Statistics;

fn individual(genes: &[i64], fitness: i64) -> BirdIndividual {
    BirdIndividual { fitness, chromosome: Chromosome::from_genes(genes.to_vec()) }
}

#[test]
fn crossover_test() {
    let mut rng = Prng::from_seed(1);
    let parent_a = Chromosome::from_genes((1..=100).map(|n: i64| n * FX_ONE).collect());
    let parent_b = Chromosome::from_genes((1..=100).map(|n: i64| -n * FX_ONE).collect());

    let child = UniformCrossover::new().crossover(&mut rng, &parent_a, &parent_b);

    assert_eq!(child.len(), 100);

    let mut diff_a = 0;
    let mut diff_b = 0;
    for i in 0..child.len() {
        let g = child.gene(i);
        assert!(g == parent_a.gene(i) || g == parent_b.gene(i));
        if g != parent_a.gene(i) {
            diff_a += 1;
        }
        if g != parent_b.gene(i) {
            diff_b += 1;
        }
    }

    // Every gene comes from exactly one parent (the parents never agree).
    assert_eq!(diff_a + diff_b, 100);
    // A fair coin picks roughly half of the genes from each parent.
    assert!(diff_a >= 30 && diff_a <= 70);
}

fn mutate_a_child(chance: i64, coeff: i64, seed: u64) -> Vec<i64> {
    let mut child = Chromosome::from_genes(
        vec![1 * FX_ONE, 2 * FX_ONE, 3 * FX_ONE, 4 * FX_ONE, 5 * FX_ONE],
    );
    let mut rng = Prng::from_seed(seed);
    GaussianMutation::new(chance, coeff).mutate(&mut rng, &mut child);
    child.to_genes()
}

#[test]
fn does_not_change_original_chromosome() {
    // With a zero chance no gene moves, whatever the coefficient.
    for coeff in [0, FX_ONE / 2, 3 * FX_ONE] {
        for seed in [0, 1, 2] {
            let result = mutate_a_child(0, coeff, seed);
            assert_eq!(result, vec![1 * FX_ONE, 2 * FX_ONE, 3 * FX_ONE, 4 * FX_ONE, 5 * FX_ONE]);
        }
    }
    // A zero coefficient moves no gene either, whatever the chance.
    for chance in [0, FX_ONE / 2, FX_ONE] {
        let result = mutate_a_child(chance, 0, 0);
        assert_eq!(result, vec![1 * FX_ONE, 2 * FX_ONE, 3 * FX_ONE, 4 * FX_ONE, 5 * FX_ONE]);
    }
}

#[test]
fn slightly_changes_original_chromosome() {
    let original = vec![1 * FX_ONE, 2 * FX_ONE, 3 * FX_ONE, 4 * FX_ONE, 5 * FX_ONE];
    let coeff = FX_ONE / 2;
    let result = mutate_a_child(FX_ONE / 2, coeff, 42);

    assert_eq!(result.len(), 5);
    let mut changed = 0;
    for i in 0..5 {
        let diff = (result[i] - original[i]).abs();
        // Every change stays strictly below the coefficient.
        assert!(diff < coeff);
        if diff != 0 {
            changed += 1;
        }
    }
    // A fifty-fifty chance leaves some genes alone and moves others.
    assert!(changed >= 1 && changed <= 4);
}

#[test]
fn entirely_changes_original_chromosome() {
    let original = vec![1 * FX_ONE, 2 * FX_ONE, 3 * FX_ONE, 4 * FX_ONE, 5 * FX_ONE];
    let coeff = FX_ONE / 2;
    let result = mutate_a_child(FX_ONE, coeff, 42);

    assert_eq!(result.len(), 5);
    let mut changed = 0;
    for i in 0..5 {
        let diff = (result[i] - original[i]).abs();
        // With full chance, every gene moves by strictly less than the
        // coefficient.
        assert!(diff < coeff);
        if diff != 0 {
            changed += 1;
        }
    }
    assert!(changed >= 3);
}

#[test]
fn evolution_test() {
    let mut rng = Prng::from_seed(5);

    let genetic_algorithm = GeneticAlgorithm::new(
        RouletteWheelSelection::new(),
        UniformCrossover::new(),
        GaussianMutation::new(FX_ONE / 2, FX_ONE / 2),
    );

    let population = vec![
        individual(&[0, 0, 0], 0),
        individual(&[1 * FX_ONE, 1 * FX_ONE, 1 * FX_ONE], 3 * FX_ONE),
        individual(&[1 * FX_ONE, 2 * FX_ONE, 1 * FX_ONE], 4 * FX_ONE),
        individual(&[1 * FX_ONE, 2 * FX_ONE, 4 * FX_ONE], 7 * FX_ONE),
    ];

    let (evolved, stats) = genetic_algorithm.evolve(&mut rng, &population);

    // Evolution replaces the population one for one.
    assert_eq!(evolved.len(), population.len());
    for child in &evolved {
        assert_eq!(child.chromosome().len(), 3);
    }

    // The statistics describe the population handed in.
    assert_eq!(stats.min_fitness(), 0);
    assert_eq!(stats.max_fitness(), 7 * FX_ONE);
    assert_eq!(stats.avg_fitness(), 14 * FX_ONE / 4);
}

#[test]
fn crossover_empty_test() {
    // Crossing over empty parents yields an empty child.
    let mut rng = Prng::from_seed(2);
    let parent_a = Chromosome::from_genes(vec![]);
    let parent_b = Chromosome::from_genes(vec![]);

    let child = UniformCrossover::new().crossover(&mut rng, &parent_a, &parent_b);
    assert_eq!(child.len(), 0);
}

#[test]
fn mutation_empty_test() {
    // Mutating an empty chromosome is a no-op.
    let mut rng = Prng::from_seed(2);
    let mut child = Chromosome::from_genes(vec![]);
    GaussianMutation::new(FX_ONE, FX_ONE).mutate(&mut rng, &mut child);
    assert_eq!(child.len(), 0);
}

#[test]
fn single_individual_statistics_test() {
    let population = vec![individual(&[FX_ONE], 5 * FX_ONE)];
    let stats = Statistics::new(&population);
    assert_eq!(stats.min_fitness(), 5 * FX_ONE);
    assert_eq!(stats.max_fitness(), 5 * FX_ONE);
    assert_eq!(stats.avg_fitness(), 5 * FX_ONE);
}

#[test]
fn evolve_single_test() {
    // A population of one evolves into a population of one.
    let mut rng = Prng::from_seed(8);
    let genetic_algorithm = GeneticAlgorithm::new(
        RouletteWheelSelection::new(),
        UniformCrossover::new(),
        GaussianMutation::new(0, FX_ONE),
    );
    let population = vec![individual(&[FX_ONE, 2 * FX_ONE], FX_ONE)];
    let (evolved, _) = genetic_algorithm.evolve(&mut rng, &population);

    assert_eq!(evolved.len(), 1);
    // With a zero mutation chance the child is an exact copy of the only
    // possible parent pair.
    assert_eq!(evolved[0].chromosome().to_genes(), vec![FX_ONE, 2 * FX_ONE]);
}
