use birdsim::bird_individual::BirdIndividual;
use birdsim::chromosome::Chromosome;
use birdsim::fx::FX_ONE;
use birdsim::individual::Individual;
use birdsim::rng::Prng;
use birdsim::selection::{RouletteWheelSelection, SelectionMethod};
use birdsim::statistics::Statistics;

fn with_fitness(fitness: i64) -> BirdIndividual {
    BirdIndividual { fitness, chromosome: Chromosome::from_genes(vec![]) }
}

#[test]
fn test_test() {
    // Roulette-wheel selection picks each individual with probability
    // proportional to its fitness: with fitnesses 2 : 1 : 4 : 3 over a
    // thousand draws, the histogram follows the weights, up to sampling
    // noise.
    let method = RouletteWheelSelection::new();
    let mut rng = Prng::from_seed(0);

    let population = vec![
        with_fitness(2 * FX_ONE),
        with_fitness(1 * FX_ONE),
        with_fitness(4 * FX_ONE),
        with_fitness(3 * FX_ONE),
    ];

    let mut histogram: [i64; 5] = [0; 5];

    for _ in 0..1_000 {
        let fitness = method.select(&mut rng, &population).fitness();
        histogram[(fitness / FX_ONE) as usize] += 1;
    }

    // Expected counts out of 1000 draws: 200, 100, 400, 300.
    assert_eq!(histogram[0], 0);
    assert!((histogram[2] - 200).abs() <= 75, "histogram: {:?}", histogram);
    assert!((histogram[1] - 100).abs() <= 60, "histogram: {:?}", histogram);
    assert!((histogram[4] - 400).abs() <= 90, "histogram: {:?}", histogram);
    assert!((histogram[3] - 300).abs() <= 85, "histogram: {:?}", histogram);
    assert_eq!(histogram[1] + histogram[2] + histogram[3] + histogram[4], 1_000);
}

#[test]
fn selection_returns_member_test() {
    let method = RouletteWheelSelection::new();
    let mut rng = Prng::from_seed(9);
    let population = vec![with_fitness(5 * FX_ONE)];

    for _ in 0..10 {
        let picked = method.select(&mut rng, &population);
        assert_eq!(picked.fitness(), 5 * FX_ONE);
    }
}

#[test]
fn statistics_test() {
    let population = vec![
        with_fitness(30 * FX_ONE),
        with_fitness(10 * FX_ONE),
        with_fitness(20 * FX_ONE),
        with_fitness(40 * FX_ONE),
    ];

    let stats = Statistics::new(&population);

    assert_eq!(stats.min_fitness(), 10 * FX_ONE);
    assert_eq!(stats.max_fitness(), 40 * FX_ONE);
    assert_eq!(stats.avg_fitness(), 25 * FX_ONE);
}

#[test]
fn statistics_ordering_test() {
    // For any non-empty population, min <= avg <= max.
    let population = vec![with_fitness(7), with_fitness(13), with_fitness(2), with_fitness(2)];

    let stats = Statistics::new(&population);

    assert!(stats.min_fitness() <= stats.avg_fitness());
    assert!(stats.avg_fitness() <= stats.max_fitness());
    assert_eq!(stats.min_fitness(), 2);
    assert_eq!(stats.max_fitness(), 13);
    assert_eq!(stats.avg_fitness(), 6);
}
