use birdsim::fx::FX_ONE;
use birdsim::network::{Layer, LayerTopology, Network, Neuron, WeightCountError};
use birdsim::rng::Prng;

fn fx(numerator: i64, denominator: i64) -> i64 {
    numerator * FX_ONE / denominator
}

#[test]
fn random_test() {
    let mut rng = Prng::from_seed(7);
    let neuron = Neuron::random(&mut rng, 4);

    let weights = neuron.weights;
    assert_eq!(weights.len(), 4);
    assert!(-FX_ONE <= neuron.bias && neuron.bias <= FX_ONE);
    for w in weights {
        assert!(-FX_ONE <= w && w <= FX_ONE);
    }
}

#[test]
fn propagate_test() {
    // bias 0.5, weights [-0.3, 0.8]
    let neuron = Neuron::new(fx(1, 2), vec![fx(-3, 10), fx(8, 10)]);

    // Inputs far below zero fall to the ReLU floor.
    assert_eq!(neuron.propagate(&vec![-10 * FX_ONE, -10 * FX_ONE]), 0);

    // (-0.3 * 0.5) + (0.8 * 1.0) + 0.5 == 1.15, exactly.
    assert_eq!(neuron.propagate(&vec![fx(1, 2), FX_ONE]), fx(115, 100));
}

#[test]
fn weights_test() {
    let network = Network::new(vec![
        Layer::new(vec![Neuron::new(fx(1, 10), vec![fx(2, 10), fx(3, 10), fx(4, 10)])]),
        Layer::new(vec![Neuron::new(fx(5, 10), vec![fx(6, 10), fx(7, 10), fx(8, 10)])]),
    ]);

    let actual = network.weights();
    let expected = vec![
        fx(1, 10),
        fx(2, 10),
        fx(3, 10),
        fx(4, 10),
        fx(5, 10),
        fx(6, 10),
        fx(7, 10),
        fx(8, 10),
    ];

    assert_eq!(actual, expected);
}

#[test]
fn from_weights_test() {
    let layers = vec![LayerTopology { neurons: 3 }, LayerTopology { neurons: 2 }];

    let weights = vec![
        fx(1, 10),
        fx(2, 10),
        fx(3, 10),
        fx(4, 10),
        fx(5, 10),
        fx(6, 10),
        fx(7, 10),
        fx(8, 10),
    ];

    let network = Network::from_weights(&layers, &weights);
    let actual = network.weights();

    assert_eq!(actual, weights);
}

#[test]
fn network_propagate_test() {
    // A 2-3-1 network of known weights, propagated by hand.
    let mut rng = Prng::from_seed(11);
    let topology = vec![
        LayerTopology { neurons: 2 },
        LayerTopology { neurons: 3 },
        LayerTopology { neurons: 1 },
    ];
    let network = Network::random(&mut rng, &topology);

    let out = network.propagate(vec![fx(1, 2), fx(1, 4)]);
    assert_eq!(out.len(), 1);
    assert!(out[0] >= 0);
}

#[test]
fn try_from_weights_test() {
    let layers = vec![LayerTopology { neurons: 3 }, LayerTopology { neurons: 2 }];

    let too_few = vec![FX_ONE; 7];
    let exact = vec![FX_ONE; 8];
    let too_many = vec![FX_ONE; 9];

    assert!(matches!(
        Network::try_from_weights(&layers, &too_few),
        Err(WeightCountError::TooFew)
    ));
    assert!(matches!(
        Network::try_from_weights(&layers, &too_many),
        Err(WeightCountError::TooMany)
    ));

    let network = Network::try_from_weights(&layers, &exact).unwrap_or_else(|_| panic!());
    assert_eq!(network.weights(), exact);
}

#[test]
fn round_trip_random_test() {
    // Round trip: from_weights is the exact inverse of weights, gene for
    // gene, also through a randomly drawn network.
    let mut rng = Prng::from_seed(3);
    let topology = vec![
        LayerTopology { neurons: 4 },
        LayerTopology { neurons: 3 },
        LayerTopology { neurons: 2 },
    ];
    let network = Network::random(&mut rng, &topology);
    let flat = network.weights();

    let rebuilt = Network::from_weights(&topology, &flat);
    assert_eq!(rebuilt.weights(), flat);
}

#[test]
fn minimal_topology_test() {
    // The smallest legal topology: one input, one neuron.
    let layers = vec![LayerTopology { neurons: 1 }, LayerTopology { neurons: 1 }];
    let weights = vec![fx(1, 10), fx(2, 10)];

    let network = Network::from_weights(&layers, &weights);
    assert_eq!(network.weights(), weights);

    // relu(0.5 * 0.2 + 0.1) == 0.2, exactly.
    let out = network.propagate(vec![fx(1, 2)]);
    assert_eq!(out, vec![fx(2, 10)]);
}
