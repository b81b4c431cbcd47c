//! The bird's brain: a network whose topology is derived from its eye.
use vstd::prelude::*;
use crate::chromosome::Chromosome;
use crate::eye::{eye_wf, Eye};
use crate::network::{
    layer_wf_with, lemma_neurons_flat_len, net_flat, net_in_unit_range, net_in_width,
    net_out_width, net_wf, neurons_flat, topology_weights, LayerTopology, Network,
};
use crate::rng::Prng;

verus! {

/// The gene count of a brain for an eye of `cells` photoreceptors: the
/// hidden layer holds `2 * cells` neurons of `cells` weights and one bias
/// each, and the output layer two neurons of `2 * cells` weights and one
/// bias each.
pub open spec fn brain_genes(cells: int) -> int {
    2 * cells * (cells + 1) + 2 * (2 * cells + 1)
}

/// A wrapper for the neural network, with conversions to and from a
/// chromosome.
pub struct Brain {
    pub neural_network: Network,
}

/// Well-formedness of a brain for an eye of `cells` photoreceptors: an
/// input width of `cells`, one hidden layer of `2 * cells` neurons, and an
/// output width of two (speed delta and rotation delta).
pub open spec fn brain_wf(b: Brain, cells: int) -> bool {
    &&& b.neural_network.layers@.len() == 2
    &&& b.neural_network.layers@[0].neurons@.len() == 2 * cells
    &&& layer_wf_with(b.neural_network.layers@[0], cells as nat)
    &&& b.neural_network.layers@[1].neurons@.len() == 2
    &&& layer_wf_with(b.neural_network.layers@[1], (2 * cells) as nat)
}

/// A well-formed brain's network is well-formed with input width `cells`
/// and output width two.
pub proof fn lemma_brain_net_wf(b: Brain, cells: int)
    requires
        brain_wf(b, cells),
        cells >= 1,
    ensures
        net_wf(b.neural_network),
        net_in_width(b.neural_network) == cells,
        net_out_width(b.neural_network) == 2,
{
    let ls = b.neural_network.layers@;
    assert(ls[0].neurons@.len() > 0);
    assert(ls[0].neurons@[0].weights@.len() == cells);
}

/// A well-formed brain flattens to exactly `brain_genes(cells)` values.
pub proof fn lemma_brain_flat_len(b: Brain, cells: int)
    requires
        brain_wf(b, cells),
        cells >= 0,
    ensures
        net_flat(b.neural_network).len() == brain_genes(cells),
{
    let ls = b.neural_network.layers@;
    lemma_neurons_flat_len(ls[0].neurons@, ls[0].neurons@.len() as int, cells);
    lemma_neurons_flat_len(ls[1].neurons@, ls[1].neurons@.len() as int, 2 * cells);
    assert(crate::network::layers_flat(ls, 0) == Seq::<i64>::empty());
    assert(crate::network::layers_flat(ls, 1) == crate::network::layers_flat(ls, 0)
        + neurons_flat(ls[0].neurons@, ls[0].neurons@.len() as int));
    assert(crate::network::layers_flat(ls, 2) == crate::network::layers_flat(ls, 1)
        + neurons_flat(ls[1].neurons@, ls[1].neurons@.len() as int));
    assert((2 * cells) * (cells + 1) == 2 * cells * (cells + 1)) by (nonlinear_arith);
    assert(2int * (2 * cells + 1) == 2 * (2 * cells + 1)) by (nonlinear_arith);
}

impl Brain {
    /// The network topology an eye dictates: input width equal to the cell
    /// count, a hidden layer twice as wide, and two outputs.
    fn topology(eye: &Eye) -> (r: Vec<LayerTopology>)
        requires
            eye_wf(*eye),
        ensures
            r@.len() == 3,
            r@[0].neurons == eye.cells,
            r@[1].neurons == 2 * eye.cells,
            r@[2].neurons == 2,
            topology_weights(r@) == brain_genes(eye.cells as int),
    {
        let mut t: Vec<LayerTopology> = Vec::new();
        t.push(LayerTopology { neurons: eye.cells });
        t.push(LayerTopology { neurons: 2 * eye.cells });
        t.push(LayerTopology { neurons: 2 });
        proof {
            let c = eye.cells as int;
            assert(crate::network::expected_weights(t@, 1) == 0);
            assert(crate::network::expected_weights(t@, 2) == (2 * c) * (c + 1));
            assert(crate::network::expected_weights(t@, 3) == (2 * c) * (c + 1) + 2int * (2 * c
                + 1));
            assert((2 * c) * (c + 1) == 2 * c * (c + 1)) by (nonlinear_arith);
            assert(2int * (2 * c + 1) == 2 * (2 * c + 1)) by (nonlinear_arith);
        }
        t
    }

    /// Draw a random brain for an eye: its network has the eye's topology
    /// and uniform random weights and biases in `[-1, 1]`.
    pub fn random(rng: &mut Prng, eye: &Eye) -> (r: Brain)
        requires
            eye_wf(*eye),
        ensures
            brain_wf(r, eye.cells as int),
            net_in_unit_range(r.neural_network),
    {
        let t = Brain::topology(eye);
        let network = Network::random(rng, &t);
        Brain { neural_network: network }
    }

    /// The brain's genetic material: its network's flat weight sequence.
    pub fn as_chromosome(&self) -> (r: Chromosome)
        ensures
            r@ == net_flat(self.neural_network),
    {
        Chromosome::from_genes(self.neural_network.weights())
    }

    /// Rebuild a brain from a chromosome, for an eye's topology: the exact
    /// inverse of [`Brain::as_chromosome`].
    pub fn from_chromosome(chromosome: Chromosome, eye: &Eye) -> (r: Brain)
        requires
            eye_wf(*eye),
            chromosome@.len() == brain_genes(eye.cells as int),
        ensures
            brain_wf(r, eye.cells as int),
            net_flat(r.neural_network) == chromosome@,
    {
        let t = Brain::topology(eye);
        let genes = chromosome.to_genes();
        let network = Network::from_weights(&t, &genes);
        Brain { neural_network: network }
    }
}

} // verus!
