//! Feed-forward neural networks over fixed-point signals.
//!
//! A network is an ordered sequence of layers; a layer an ordered sequence
//! of neurons; a neuron one bias and one weight per input.  Propagation is
//! the left fold of the layers over the input vector, with per-neuron
//! activation `relu(dot(inputs, weights) + bias)`.  A network serializes to
//! and from a flat weight sequence in layer, then neuron, then
//! (bias, weights...) order; the round trip is exact.
use vstd::prelude::*;
use crate::fx::{fx_add, fx_add_spec, fx_mul, fx_mul_spec, relu, relu_spec, FX_ONE};
use crate::rng::Prng;

verus! {

/// The number of neurons of one layer of a topology.
pub struct LayerTopology {
    pub neurons: usize,
}

/// One neuron: a bias and one weight per input of its layer.
pub struct Neuron {
    pub bias: i64,
    pub weights: Vec<i64>,
}

/// One layer: its neuron count is the output width of that stage.
pub struct Layer {
    pub neurons: Vec<Neuron>,
}

/// A feed-forward network: at least one weight-bearing layer.
pub struct Network {
    pub layers: Vec<Layer>,
}

/// Saturating fixed-point dot product of the first `k` inputs and weights,
/// folded left to right.
pub open spec fn sum_products(ins: Seq<i64>, ws: Seq<i64>, k: int) -> int
    decreases k,
{
    if k <= 0 {
        0
    } else {
        fx_add_spec(sum_products(ins, ws, k - 1), fx_mul_spec(ins[k - 1] as int, ws[k - 1] as int))
    }
}

/// Activation of one neuron on an input vector.
pub open spec fn neuron_output(nr: Neuron, ins: Seq<i64>) -> int {
    relu_spec(fx_add_spec(sum_products(ins, nr.weights@, nr.weights@.len() as int), nr.bias as int))
}

/// Output vector of one layer on an input vector.
pub open spec fn layer_output(l: Layer, ins: Seq<i64>) -> Seq<i64> {
    Seq::new(l.neurons@.len(), |j: int| neuron_output(l.neurons@[j], ins) as i64)
}

/// Output of the layers from index `i` on, threaded over `ins`.
pub open spec fn net_output_from(layers: Seq<Layer>, ins: Seq<i64>, i: int) -> Seq<i64>
    decreases layers.len() - i,
{
    if i < 0 || i >= layers.len() {
        ins
    } else {
        net_output_from(layers, layer_output(layers[i], ins), i + 1)
    }
}

/// Output vector of the whole network on an input vector.
pub open spec fn net_output(n: Network, ins: Seq<i64>) -> Seq<i64> {
    net_output_from(n.layers@, ins, 0)
}

/// Input width of a layer: the weight count its neurons agree on.
pub open spec fn layer_in_width(l: Layer) -> nat {
    if l.neurons@.len() == 0 {
        0nat
    } else {
        l.neurons@[0].weights@.len()
    }
}

/// Every neuron of the layer has exactly `w` weights.
pub open spec fn layer_wf_with(l: Layer, w: nat) -> bool {
    forall|j: int| 0 <= j < l.neurons@.len() ==> (#[trigger] l.neurons@[j]).weights@.len() == w
}

/// Well-formedness of a layer sequence: each layer's neuron input arity
/// equals the previous layer's neuron count.
pub open spec fn layers_wf(ls: Seq<Layer>) -> bool {
    &&& ls.len() >= 1
    &&& layer_wf_with(ls[0], layer_in_width(ls[0]))
    &&& forall|i: int|
        1 <= i < ls.len() ==> layer_wf_with(#[trigger] ls[i], ls[i - 1].neurons@.len())
}

/// Well-formedness of a network.
pub open spec fn net_wf(n: Network) -> bool {
    layers_wf(n.layers@)
}

/// Expected input width of the network.
pub open spec fn net_in_width(n: Network) -> nat {
    layer_in_width(n.layers@[0])
}

/// Output width of the network.
pub open spec fn net_out_width(n: Network) -> nat {
    n.layers@.last().neurons@.len()
}

/// Whether a neuron's bias and weights all lie in `[-1, 1]`.
pub open spec fn neuron_in_unit_range(nr: Neuron) -> bool {
    &&& -FX_ONE <= nr.bias <= FX_ONE
    &&& forall|w: int| 0 <= w < nr.weights@.len() ==> -FX_ONE <= #[trigger] nr.weights@[w]
        <= FX_ONE
}

/// Whether every bias and weight of the network lies in `[-1, 1]`.
pub open spec fn net_in_unit_range(n: Network) -> bool {
    forall|i: int, j: int|
        0 <= i < n.layers@.len() && 0 <= j < n.layers@[i].neurons@.len() ==> neuron_in_unit_range(
            #[trigger] n.layers@[i].neurons@[j],
        )
}

/// Flattening of one neuron: its bias, then its weights in order.
pub open spec fn neuron_flat(nr: Neuron) -> Seq<i64> {
    seq![nr.bias] + nr.weights@
}

/// Flattening of the first `k` neurons of a layer.
pub open spec fn neurons_flat(ns: Seq<Neuron>, k: int) -> Seq<i64>
    decreases k,
{
    if k <= 0 {
        Seq::empty()
    } else {
        neurons_flat(ns, k - 1) + neuron_flat(ns[k - 1])
    }
}

/// Flattening of the first `k` layers of a network.
pub open spec fn layers_flat(ls: Seq<Layer>, k: int) -> Seq<i64>
    decreases k,
{
    if k <= 0 {
        Seq::empty()
    } else {
        layers_flat(ls, k - 1) + neurons_flat(ls[k - 1].neurons@, ls[k - 1].neurons@.len() as int)
    }
}

/// Flattening of the whole network, in layer, then neuron, then
/// (bias, weights...) order.
pub open spec fn net_flat(n: Network) -> Seq<i64> {
    layers_flat(n.layers@, n.layers@.len() as int)
}

/// Weight count a flat sequence must have for the first `k` entries of a
/// topology: for each adjacent pair of widths `(a, b)`, `b` neurons of one
/// bias and `a` weights each.
pub open spec fn expected_weights(t: Seq<LayerTopology>, k: int) -> int
    decreases k,
{
    if k <= 1 {
        0
    } else {
        expected_weights(t, k - 1) + (t[k - 1].neurons as int) * ((t[k - 2].neurons as int) + 1)
    }
}

/// Weight count a flat sequence must have for a whole topology.
pub open spec fn topology_weights(t: Seq<LayerTopology>) -> int {
    expected_weights(t, t.len() as int)
}

/// The flattening of `k` neurons of `w` weights each holds `k * (w + 1)`
/// values.
pub proof fn lemma_neurons_flat_len(ns: Seq<Neuron>, k: int, w: int)
    requires
        0 <= k <= ns.len(),
        w >= 0,
        forall|j: int| 0 <= j < ns.len() ==> (#[trigger] ns[j]).weights@.len() == w,
    ensures
        neurons_flat(ns, k).len() == k * (w + 1),
    decreases k,
{
    if k <= 0 {
        assert(0int * (w + 1) == 0) by (nonlinear_arith);
    } else {
        lemma_neurons_flat_len(ns, k - 1, w);
        assert((k - 1) * (w + 1) + (w + 1) == k * (w + 1)) by (nonlinear_arith);
    }
}

/// The first `k` layers of a network shaped like topology `t` flatten to
/// exactly the weight count the first `k + 1` topology entries call for.
proof fn lemma_layers_flat_len(ls: Seq<Layer>, t: Seq<LayerTopology>, k: int)
    requires
        0 <= k <= ls.len(),
        ls.len() == t.len() - 1,
        forall|i: int| 0 <= i < ls.len() ==> (#[trigger] ls[i]).neurons@.len() == t[i + 1].neurons,
        forall|i: int| 0 <= i < ls.len() ==> layer_wf_with(#[trigger] ls[i], t[i].neurons as nat),
    ensures
        layers_flat(ls, k).len() == expected_weights(t, k + 1),
    decreases k,
{
    if k > 0 {
        lemma_layers_flat_len(ls, t, k - 1);
        lemma_neurons_flat_len(
            ls[k - 1].neurons@,
            ls[k - 1].neurons@.len() as int,
            t[k - 1].neurons as int,
        );
    }
}

/// Serialization is size-exact: a network shaped like topology `t` flattens
/// to exactly the weight count `t` calls for, so the flat sequence that
/// `weights` produces is exactly what `from_weights` consumes.
pub proof fn lemma_net_flat_len(n: Network, t: Seq<LayerTopology>)
    requires
        t.len() >= 2,
        n.layers@.len() == t.len() - 1,
        forall|i: int| 0 <= i < n.layers@.len() ==> (#[trigger] n.layers@[i]).neurons@.len() == t[i
            + 1].neurons,
        forall|i: int| 0 <= i < n.layers@.len() ==> layer_wf_with(
            #[trigger] n.layers@[i],
            t[i].neurons as nat,
        ),
    ensures
        net_flat(n).len() == topology_weights(t),
{
    lemma_layers_flat_len(n.layers@, t, n.layers@.len() as int);
}

/// Splitting a sequence concatenation: equal concatenations with equally
/// long parts have equal parts.
proof fn lemma_concat_split(x: Seq<i64>, y: Seq<i64>, u: Seq<i64>, v: Seq<i64>)
    requires
        x.len() == u.len(),
        y.len() == v.len(),
        x + y == u + v,
    ensures
        x == u,
        y == v,
{
    assert forall|i: int| 0 <= i < x.len() implies x[i] == u[i] by {
        assert((x + y)[i] == x[i]);
        assert((u + v)[i] == u[i]);
    }
    assert(x =~= u);
    assert forall|i: int| 0 <= i < y.len() implies y[i] == v[i] by {
        assert((x + y)[x.len() + i] == y[i]);
        assert((u + v)[u.len() + i] == v[i]);
    }
    assert(y =~= v);
}

/// The flattening of neurons of a common width determines each bias and
/// each weight.
proof fn lemma_neurons_flat_determines(a: Seq<Neuron>, b: Seq<Neuron>, k: int, w: int)
    requires
        0 <= k <= a.len(),
        k <= b.len(),
        w >= 0,
        forall|j: int| 0 <= j < a.len() ==> (#[trigger] a[j]).weights@.len() == w,
        forall|j: int| 0 <= j < b.len() ==> (#[trigger] b[j]).weights@.len() == w,
        neurons_flat(a, k) == neurons_flat(b, k),
    ensures
        forall|j: int|
            0 <= j < k ==> (#[trigger] a[j]).bias == b[j].bias && a[j].weights@ == b[j].weights@,
    decreases k,
{
    if k > 0 {
        lemma_neurons_flat_len(a, k - 1, w);
        lemma_neurons_flat_len(b, k - 1, w);
        lemma_concat_split(
            neurons_flat(a, k - 1),
            neuron_flat(a[k - 1]),
            neurons_flat(b, k - 1),
            neuron_flat(b[k - 1]),
        );
        lemma_neurons_flat_determines(a, b, k - 1, w);
        assert(a[k - 1].bias == neuron_flat(a[k - 1])[0]);
        assert(b[k - 1].bias == neuron_flat(b[k - 1])[0]);
        assert forall|i: int| 0 <= i < w implies #[trigger] a[k - 1].weights@[i] == b[k
            - 1].weights@[i] by {
            assert(neuron_flat(a[k - 1])[1 + i] == a[k - 1].weights@[i]);
            assert(neuron_flat(b[k - 1])[1 + i] == b[k - 1].weights@[i]);
        }
        assert(a[k - 1].weights@ =~= b[k - 1].weights@);
    }
}

/// The flattening of the first `k` layers of two networks shaped like one
/// topology determines each bias and each weight in them.
proof fn lemma_layers_flat_determines(la: Seq<Layer>, lb: Seq<Layer>, t: Seq<LayerTopology>, k: int)
    requires
        0 <= k <= la.len(),
        la.len() == t.len() - 1,
        lb.len() == t.len() - 1,
        forall|i: int| 0 <= i < la.len() ==> (#[trigger] la[i]).neurons@.len() == t[i + 1].neurons,
        forall|i: int| 0 <= i < lb.len() ==> (#[trigger] lb[i]).neurons@.len() == t[i + 1].neurons,
        forall|i: int| 0 <= i < la.len() ==> layer_wf_with(#[trigger] la[i], t[i].neurons as nat),
        forall|i: int| 0 <= i < lb.len() ==> layer_wf_with(#[trigger] lb[i], t[i].neurons as nat),
        layers_flat(la, k) == layers_flat(lb, k),
    ensures
        forall|i: int, j: int|
            0 <= i < k && 0 <= j < la[i].neurons@.len() ==> (
            #[trigger] la[i].neurons@[j]).bias == lb[i].neurons@[j].bias
                && la[i].neurons@[j].weights@ == lb[i].neurons@[j].weights@,
    decreases k,
{
    if k > 0 {
        lemma_layers_flat_len(la, t, k - 1);
        lemma_layers_flat_len(lb, t, k - 1);
        lemma_neurons_flat_len(
            la[k - 1].neurons@,
            la[k - 1].neurons@.len() as int,
            t[k - 1].neurons as int,
        );
        lemma_neurons_flat_len(
            lb[k - 1].neurons@,
            lb[k - 1].neurons@.len() as int,
            t[k - 1].neurons as int,
        );
        lemma_concat_split(
            layers_flat(la, k - 1),
            neurons_flat(la[k - 1].neurons@, la[k - 1].neurons@.len() as int),
            layers_flat(lb, k - 1),
            neurons_flat(lb[k - 1].neurons@, lb[k - 1].neurons@.len() as int),
        );
        lemma_layers_flat_determines(la, lb, t, k - 1);
        lemma_neurons_flat_determines(
            la[k - 1].neurons@,
            lb[k - 1].neurons@,
            la[k - 1].neurons@.len() as int,
            t[k - 1].neurons as int,
        );
    }
}

/// Serialization is lossless: two networks shaped like one topology with
/// equal flattenings agree on every bias and every weight, so a network is
/// rebuilt from its flat weight sequence gene for gene.
pub proof fn lemma_flat_determines_network(a: Network, b: Network, t: Seq<LayerTopology>)
    requires
        t.len() >= 2,
        a.layers@.len() == t.len() - 1,
        b.layers@.len() == t.len() - 1,
        forall|i: int| 0 <= i < a.layers@.len() ==> (#[trigger] a.layers@[i]).neurons@.len() == t[i
            + 1].neurons,
        forall|i: int| 0 <= i < b.layers@.len() ==> (#[trigger] b.layers@[i]).neurons@.len() == t[i
            + 1].neurons,
        forall|i: int| 0 <= i < a.layers@.len() ==> layer_wf_with(
            #[trigger] a.layers@[i],
            t[i].neurons as nat,
        ),
        forall|i: int| 0 <= i < b.layers@.len() ==> layer_wf_with(
            #[trigger] b.layers@[i],
            t[i].neurons as nat,
        ),
        net_flat(a) == net_flat(b),
    ensures
        forall|i: int, j: int|
            0 <= i < a.layers@.len() && 0 <= j < a.layers@[i].neurons@.len() ==> (
            #[trigger] a.layers@[i].neurons@[j]).bias == b.layers@[i].neurons@[j].bias
                && a.layers@[i].neurons@[j].weights@ == b.layers@[i].neurons@[j].weights@,
{
    lemma_layers_flat_determines(a.layers@, b.layers@, t, a.layers@.len() as int);
}

/// Flattening only reads the first `k` neurons, so it agrees on sequences
/// that agree there.
proof fn lemma_neurons_flat_prefix(a: Seq<Neuron>, b: Seq<Neuron>, k: int)
    requires
        k <= a.len(),
        k <= b.len(),
        forall|i: int| 0 <= i < k ==> a[i] == b[i],
    ensures
        neurons_flat(a, k) == neurons_flat(b, k),
    decreases k,
{
    if k > 0 {
        lemma_neurons_flat_prefix(a, b, k - 1);
    }
}

/// Flattening only reads the first `k` layers, so it agrees on sequences
/// that agree there.
proof fn lemma_layers_flat_prefix(a: Seq<Layer>, b: Seq<Layer>, k: int)
    requires
        k <= a.len(),
        k <= b.len(),
        forall|i: int| 0 <= i < k ==> a[i] == b[i],
    ensures
        layers_flat(a, k) == layers_flat(b, k),
    decreases k,
{
    if k > 0 {
        lemma_layers_flat_prefix(a, b, k - 1);
    }
}

impl Neuron {
    /// Wrap a bias and a weight vector as a neuron.
    pub fn new(bias: i64, weights: Vec<i64>) -> (r: Neuron)
        ensures
            r.bias == bias,
            r.weights@ == weights@,
    {
        Neuron { bias, weights }
    }

    /// Activation of the neuron: the rectified saturating dot product of
    /// the inputs and the weights, plus the bias.  The input width must
    /// match the weight count.
    pub fn propagate(&self, inputs: &Vec<i64>) -> (r: i64)
        requires
            inputs@.len() == self.weights@.len(),
        ensures
            r as int == neuron_output(*self, inputs@),
    {
        let mut acc: i64 = 0;
        let mut k: usize = 0;
        while k < self.weights.len()
            invariant
                k <= self.weights@.len(),
                inputs@.len() == self.weights@.len(),
                acc as int == sum_products(inputs@, self.weights@, k as int),
            decreases self.weights@.len() - k,
        {
            acc = fx_add(acc, fx_mul(inputs[k], self.weights[k]));
            k = k + 1;
        }
        relu(fx_add(acc, self.bias))
    }

    /// Draw a neuron with `output_size` weights, the bias and every weight
    /// independent and uniform in `[-1, 1]`.
    pub fn random(rng: &mut Prng, output_size: usize) -> (r: Neuron)
        ensures
            r.weights@.len() == output_size,
            neuron_in_unit_range(r),
    {
        let bias = rng.range_i64(-FX_ONE, FX_ONE);
        let mut weights: Vec<i64> = Vec::new();
        let mut i: usize = 0;
        while i < output_size
            invariant
                i <= output_size,
                weights@.len() == i,
                forall|j: int| 0 <= j < i ==> -FX_ONE <= #[trigger] weights@[j] <= FX_ONE,
            decreases output_size - i,
        {
            weights.push(rng.range_i64(-FX_ONE, FX_ONE));
            i = i + 1;
        }
        Neuron { bias, weights }
    }

    /// Read one neuron off a flat weight sequence: its bias, then
    /// `input_size` weights, starting at `pos`.
    pub fn from_weights(input_size: usize, weights: &Vec<i64>, pos: usize) -> (r: Neuron)
        requires
            pos + 1 + input_size <= weights@.len(),
        ensures
            r.weights@.len() == input_size,
            neuron_flat(r) == weights@.subrange(pos as int, pos as int + 1 + input_size as int),
    {
        let total: usize = weights.len();
        let bias = weights[pos];
        let mut ws: Vec<i64> = Vec::new();
        let mut i: usize = 0;
        while i < input_size
            invariant
                i <= input_size,
                total == weights@.len(),
                pos + 1 + input_size <= total,
                ws@.len() == i,
                forall|j: int| 0 <= j < i ==> #[trigger] ws@[j] == weights@[pos + 1 + j],
            decreases input_size - i,
        {
            ws.push(weights[pos + 1 + i]);
            i = i + 1;
        }
        let r = Neuron { bias, weights: ws };
        proof {
            assert(neuron_flat(r) =~= weights@.subrange(
                pos as int,
                pos as int + 1 + input_size as int,
            ));
        }
        r
    }
}

impl Layer {
    /// Wrap a neuron vector as a layer.
    pub fn new(neurons: Vec<Neuron>) -> (r: Layer)
        ensures
            r.neurons@ == neurons@,
    {
        Layer { neurons }
    }

    /// Output vector of the layer: one activation per neuron.  Every neuron
    /// must expect exactly the width of the input vector.
    pub fn propagate(&self, inputs: &Vec<i64>) -> (r: Vec<i64>)
        requires
            layer_wf_with(*self, inputs@.len()),
        ensures
            r@ == layer_output(*self, inputs@),
    {
        let mut out: Vec<i64> = Vec::new();
        let mut j: usize = 0;
        while j < self.neurons.len()
            invariant
                j <= self.neurons@.len(),
                layer_wf_with(*self, inputs@.len()),
                out@.len() == j,
                forall|m: int| 0 <= m <= j - 1 ==> #[trigger] out@[m] == layer_output(
                    *self,
                    inputs@,
                )[m],
            decreases self.neurons@.len() - j,
        {
            out.push(self.neurons[j].propagate(inputs));
            j = j + 1;
        }
        proof {
            assert(out@ =~= layer_output(*self, inputs@));
        }
        out
    }

    /// Draw a layer of `output_neurons` random neurons of `input_neurons`
    /// weights each.
    pub fn random(rng: &mut Prng, input_neurons: usize, output_neurons: usize) -> (r: Layer)
        ensures
            r.neurons@.len() == output_neurons,
            layer_wf_with(r, input_neurons as nat),
            forall|m: int| 0 <= m < r.neurons@.len() ==> neuron_in_unit_range(
                #[trigger] r.neurons@[m],
            ),
    {
        let mut neurons: Vec<Neuron> = Vec::new();
        let mut j: usize = 0;
        while j < output_neurons
            invariant
                j <= output_neurons,
                neurons@.len() == j,
                forall|m: int| 0 <= m < j ==> (#[trigger] neurons@[m]).weights@.len()
                    == input_neurons,
                forall|m: int| 0 <= m < j ==> neuron_in_unit_range(#[trigger] neurons@[m]),
            decreases output_neurons - j,
        {
            neurons.push(Neuron::random(rng, input_neurons));
            j = j + 1;
        }
        Layer { neurons }
    }

    /// Read one layer of `output_size` neurons of `input_size` weights each
    /// off a flat weight sequence, starting at `pos`.
    pub fn from_weights(input_size: usize, output_size: usize, weights: &Vec<i64>, pos: usize) -> (r:
        Layer)
        requires
            input_size < usize::MAX,
            pos as int + (output_size as int) * (input_size as int + 1) <= weights@.len(),
        ensures
            r.neurons@.len() == output_size,
            layer_wf_with(r, input_size as nat),
            neurons_flat(r.neurons@, output_size as int) == weights@.subrange(
                pos as int,
                pos as int + (output_size as int) * (input_size as int + 1),
            ),
    {
        let total: usize = weights.len();
        let stride: usize = input_size + 1;
        proof {
            assert((output_size as int) * (input_size as int + 1) >= 0) by (nonlinear_arith);
            assert(0int * (stride as int) == 0) by (nonlinear_arith);
            assert(neurons_flat(Seq::<Neuron>::empty(), 0) =~= weights@.subrange(
                pos as int,
                pos as int + 0int * (stride as int),
            ));
        }
        let mut neurons: Vec<Neuron> = Vec::new();
        let mut j: usize = 0;
        while j < output_size
            invariant
                j <= output_size,
                total == weights@.len(),
                stride == input_size + 1,
                pos as int + (output_size as int) * (stride as int) <= total,
                neurons@.len() == j,
                forall|m: int| 0 <= m < j ==> (#[trigger] neurons@[m]).weights@.len()
                    == input_size,
                neurons_flat(neurons@, j as int) == weights@.subrange(
                    pos as int,
                    pos as int + (j as int) * (stride as int),
                ),
            decreases output_size - j,
        {
            proof {
                assert((j as int) * (stride as int) + (stride as int) == (j as int + 1) * (
                stride as int)) by (nonlinear_arith);
                assert((j as int + 1) * (stride as int) <= (output_size as int) * (stride as int))
                    by (nonlinear_arith)
                    requires
                        j as int + 1 <= output_size as int,
                        stride as int >= 0,
                ;
                assert((j as int) * (stride as int) >= 0) by (nonlinear_arith)
                    requires
                        j as int >= 0,
                        stride as int >= 0,
                ;
                assert((j as int) * (stride as int) <= (output_size as int) * (stride as int))
                    by (nonlinear_arith)
                    requires
                        0 <= j as int <= output_size as int,
                        stride as int >= 0,
                ;
            }
            let start: usize = pos + j * stride;
            let nr = Neuron::from_weights(input_size, weights, start);
            let ghost old_neurons = neurons@;
            neurons.push(nr);
            proof {
                lemma_neurons_flat_prefix(old_neurons, neurons@, j as int);
                assert(neurons_flat(neurons@, j as int + 1) == neurons_flat(neurons@, j as int)
                    + neuron_flat(neurons@[j as int]));
                assert(neurons_flat(neurons@, j as int + 1) =~= weights@.subrange(
                    pos as int,
                    pos as int + (j as int + 1) * (stride as int),
                ));
            }
            j = j + 1;
        }
        let r = Layer { neurons };
        proof {
            assert(layer_wf_with(r, input_size as nat));
        }
        r
    }
}

/// Why a flat weight sequence cannot rebuild a network of a given topology.
#[derive(Clone, Copy, PartialEq, Eq, Structural, Debug)]
pub enum WeightCountError {
    /// Fewer values than the topology consumes.
    TooFew,
    /// Values left unconsumed after the last layer.
    TooMany,
}

/// Every expected weight count is non-negative.
proof fn lemma_expected_nonneg(t: Seq<LayerTopology>, k: int)
    ensures
        expected_weights(t, k) >= 0,
    decreases k,
{
    if k > 1 {
        lemma_expected_nonneg(t, k - 1);
        assert((t[k - 1].neurons as int) * ((t[k - 2].neurons as int) + 1) >= 0)
            by (nonlinear_arith);
    }
}

/// The expected weight count grows with the topology prefix length.
proof fn lemma_expected_mono(t: Seq<LayerTopology>, j: int, k: int)
    requires
        j <= k,
    ensures
        expected_weights(t, j) <= expected_weights(t, k),
    decreases k - j,
{
    if j < k {
        lemma_expected_mono(t, j, k - 1);
        assert((t[k - 1].neurons as int) * ((t[k - 2].neurons as int) + 1) >= 0)
            by (nonlinear_arith);
    }
}

impl Network {
    /// Wrap a layer vector as a network: at least one weight-bearing
    /// transition is required, so a topology has at least two entries.
    pub fn new(layers: Vec<Layer>) -> (r: Network)
        requires
            layers@.len() >= 2,
        ensures
            r.layers@ == layers@,
    {
        Network { layers }
    }

    /// Output of the network: the left fold of the layers over `inputs`.
    /// The input width must match the first layer's expected width.
    pub fn propagate(&self, inputs: Vec<i64>) -> (r: Vec<i64>)
        requires
            net_wf(*self),
            inputs@.len() == net_in_width(*self),
        ensures
            r@ == net_output(*self, inputs@),
            r@.len() == net_out_width(*self),
    {
        let ghost first = inputs@;
        let mut current = inputs;
        let mut i: usize = 0;
        while i < self.layers.len()
            invariant
                i <= self.layers@.len(),
                net_wf(*self),
                net_output_from(self.layers@, first, 0) == net_output_from(
                    self.layers@,
                    current@,
                    i as int,
                ),
                i == 0 ==> current@.len() == net_in_width(*self),
                i >= 1 ==> current@.len() == self.layers@[i - 1].neurons@.len(),
            decreases self.layers@.len() - i,
        {
            proof {
                if i == 0 {
                    assert(layer_wf_with(self.layers@[0], current@.len()));
                } else {
                    assert(layer_wf_with(self.layers@[i as int], current@.len()));
                }
            }
            current = self.layers[i].propagate(&current);
            i = i + 1;
        }
        current
    }

    /// Draw a random network of the given topology: for each adjacent pair
    /// of widths `(a, b)`, a layer of `b` neurons with `a` weights each, all
    /// biases and weights independent and uniform in `[-1, 1]`.
    pub fn random(rng: &mut Prng, topology: &Vec<LayerTopology>) -> (r: Network)
        requires
            topology@.len() >= 2,
        ensures
            r.layers@.len() == topology@.len() - 1,
            forall|i: int| 0 <= i < r.layers@.len() ==> (#[trigger] r.layers@[i]).neurons@.len()
                == topology@[i + 1].neurons,
            forall|i: int| 0 <= i < r.layers@.len() ==> layer_wf_with(
                #[trigger] r.layers@[i],
                topology@[i].neurons as nat,
            ),
            net_wf(r),
            net_in_unit_range(r),
    {
        let mut layers: Vec<Layer> = Vec::new();
        let mut w: usize = 1;
        while w < topology.len()
            invariant
                1 <= w <= topology@.len(),
                topology@.len() >= 2,
                layers@.len() == w - 1,
                forall|i: int| 0 <= i < layers@.len() ==> (#[trigger] layers@[i]).neurons@.len()
                    == topology@[i + 1].neurons,
                forall|i: int| 0 <= i < layers@.len() ==> layer_wf_with(
                    #[trigger] layers@[i],
                    topology@[i].neurons as nat,
                ),
                forall|i: int, j: int|
                    0 <= i < layers@.len() && 0 <= j < layers@[i].neurons@.len()
                        ==> neuron_in_unit_range(#[trigger] layers@[i].neurons@[j]),
            decreases topology@.len() - w,
        {
            layers.push(Layer::random(rng, topology[w - 1].neurons, topology[w].neurons));
            w = w + 1;
        }
        let r = Network { layers };
        proof {
            lemma_shape_gives_wf(r, topology@);
        }
        r
    }

    /// The deterministic flattening of the network: layer order, then
    /// neuron order, then `(bias, weight, weight, ...)` per neuron.
    pub fn weights(&self) -> (r: Vec<i64>)
        ensures
            r@ == net_flat(*self),
    {
        let mut out: Vec<i64> = Vec::new();
        let mut li: usize = 0;
        while li < self.layers.len()
            invariant
                li <= self.layers@.len(),
                out@ == layers_flat(self.layers@, li as int),
            decreases self.layers@.len() - li,
        {
            let ghost done_layers = out@;
            let mut ni: usize = 0;
            while ni < self.layers[li].neurons.len()
                invariant
                    li < self.layers@.len(),
                    ni <= self.layers@[li as int].neurons@.len(),
                    done_layers == layers_flat(self.layers@, li as int),
                    out@ == done_layers + neurons_flat(
                        self.layers@[li as int].neurons@,
                        ni as int,
                    ),
                decreases self.layers@[li as int].neurons@.len() - ni,
            {
                let ghost done_neurons = out@;
                out.push(self.layers[li].neurons[ni].bias);
                let mut wi: usize = 0;
                while wi < self.layers[li].neurons[ni].weights.len()
                    invariant
                        li < self.layers@.len(),
                        ni < self.layers@[li as int].neurons@.len(),
                        wi <= self.layers@[li as int].neurons@[ni as int].weights@.len(),
                        out@ == done_neurons + seq![
                            self.layers@[li as int].neurons@[ni as int].bias,
                        ] + self.layers@[li as int].neurons@[ni as int].weights@.take(wi as int),
                    decreases self.layers@[li as int].neurons@[ni as int].weights@.len() - wi,
                {
                    out.push(self.layers[li].neurons[ni].weights[wi]);
                    proof {
                        let nr = self.layers@[li as int].neurons@[ni as int];
                        assert(out@ =~= done_neurons + seq![nr.bias] + nr.weights@.take(
                            wi as int + 1,
                        ));
                    }
                    wi = wi + 1;
                }
                proof {
                    let nr = self.layers@[li as int].neurons@[ni as int];
                    assert(nr.weights@.take(nr.weights@.len() as int) =~= nr.weights@);
                    assert(out@ =~= done_layers + (neurons_flat(
                        self.layers@[li as int].neurons@,
                        ni as int,
                    ) + neuron_flat(nr)));
                }
                ni = ni + 1;
            }
            proof {
                let l = self.layers@[li as int];
                assert(out@ =~= layers_flat(self.layers@, li as int + 1));
            }
            li = li + 1;
        }
        out
    }

    /// Rebuild a network from a flat weight sequence: the exact inverse of
    /// [`Network::weights`].  The sequence must hold exactly the count the
    /// topology consumes.
    pub fn from_weights(topology: &Vec<LayerTopology>, weights: &Vec<i64>) -> (r: Network)
        requires
            topology@.len() >= 2,
            weights@.len() == topology_weights(topology@),
        ensures
            r.layers@.len() == topology@.len() - 1,
            forall|i: int| 0 <= i < r.layers@.len() ==> (#[trigger] r.layers@[i]).neurons@.len()
                == topology@[i + 1].neurons,
            forall|i: int| 0 <= i < r.layers@.len() ==> layer_wf_with(
                #[trigger] r.layers@[i],
                topology@[i].neurons as nat,
            ),
            net_wf(r),
            net_flat(r) == weights@,
    {
        let total: usize = weights.len();
        let mut layers: Vec<Layer> = Vec::new();
        let mut pos: usize = 0;
        let mut w: usize = 1;
        proof {
            assert(layers_flat(layers@, 0) =~= weights@.take(0));
        }
        while w < topology.len()
            invariant
                1 <= w <= topology@.len(),
                topology@.len() >= 2,
                total == weights@.len(),
                weights@.len() == topology_weights(topology@),
                layers@.len() == w - 1,
                forall|i: int| 0 <= i < layers@.len() ==> (#[trigger] layers@[i]).neurons@.len()
                    == topology@[i + 1].neurons,
                forall|i: int| 0 <= i < layers@.len() ==> layer_wf_with(
                    #[trigger] layers@[i],
                    topology@[i].neurons as nat,
                ),
                pos as int == expected_weights(topology@, w as int),
                pos <= total,
                layers_flat(layers@, w as int - 1) == weights@.take(pos as int),
            decreases topology@.len() - w,
        {
            let in_size = topology[w - 1].neurons;
            let out_size = topology[w].neurons;
            let ghost term = (out_size as int) * ((in_size as int) + 1);
            proof {
                lemma_expected_mono(topology@, w as int + 1, topology@.len() as int);
                assert(expected_weights(topology@, w as int + 1) == pos as int + term);
                assert(term >= 0) by (nonlinear_arith)
                    requires
                        term == (out_size as int) * ((in_size as int) + 1),
                        out_size as int >= 0,
                        in_size as int >= 0,
                ;
            }
            let ghost old_layers = layers@;
            let layer = if out_size == 0 {
                proof {
                    assert(0int * ((in_size as int) + 1) == 0) by (nonlinear_arith);
                    assert(neurons_flat(Seq::<Neuron>::empty(), 0) =~= weights@.subrange(
                        pos as int,
                        pos as int + term,
                    ));
                }
                Layer { neurons: Vec::new() }
            } else {
                proof {
                    assert(term >= (in_size as int) + 1) by (nonlinear_arith)
                        requires
                            out_size as int >= 1,
                            term == (out_size as int) * ((in_size as int) + 1),
                            in_size as int >= 0,
                    ;
                }
                Layer::from_weights(in_size, out_size, weights, pos)
            };
            layers.push(layer);
            proof {
                lemma_layers_flat_prefix(old_layers, layers@, w as int - 1);
                assert(layers_flat(layers@, w as int) == layers_flat(layers@, w as int - 1)
                    + neurons_flat(
                    layers@[w as int - 1].neurons@,
                    layers@[w as int - 1].neurons@.len() as int,
                ));
                assert(layers_flat(layers@, w as int) =~= weights@.take(pos as int + term));
            }
            if out_size > 0 {
                let stride: usize = in_size + 1;
                pos = pos + out_size * stride;
            }
            proof {
                assert(out_size as int == 0 ==> term == 0) by (nonlinear_arith)
                    requires
                        term == (out_size as int) * ((in_size as int) + 1),
                ;
            }
            w = w + 1;
        }
        let r = Network { layers };
        proof {
            assert(weights@.take(pos as int) =~= weights@);
            lemma_shape_gives_wf(r, topology@);
        }
        r
    }

    /// Try to rebuild a network from a flat weight sequence, surfacing an
    /// out-of-band count as a typed, recoverable error: `TooFew` exactly
    /// when the sequence runs out while a bias or weight is needed, and
    /// `TooMany` exactly when values remain unconsumed after the last
    /// layer.
    pub fn try_from_weights(topology: &Vec<LayerTopology>, weights: &Vec<i64>) -> (r: Result<
        Network,
        WeightCountError,
    >)
        requires
            topology@.len() >= 2,
        ensures
            (r is Ok) <==> weights@.len() == topology_weights(topology@),
            (r == Result::<Network, WeightCountError>::Err(WeightCountError::TooFew)) <==> (
            weights@.len() < topology_weights(topology@)),
            (r == Result::<Network, WeightCountError>::Err(WeightCountError::TooMany)) <==> (
            weights@.len() > topology_weights(topology@)),
            r matches Ok(n) ==> {
                &&& n.layers@.len() == topology@.len() - 1
                &&& net_wf(n)
                &&& net_flat(n) == weights@
            },
    {
        let total: usize = weights.len();
        let mut count: u128 = 0;
        let mut w: usize = 1;
        while w < topology.len()
            invariant
                1 <= w <= topology@.len(),
                topology@.len() >= 2,
                total == weights@.len(),
                count as int == expected_weights(topology@, w as int),
                count <= total as u128,
            decreases topology@.len() - w,
        {
            let in_size = topology[w - 1].neurons;
            let out_size = topology[w].neurons;
            proof {
                assert((out_size as int) * ((in_size as int) + 1) <= 0xffff_ffff_ffff_ffffint * (
                0xffff_ffff_ffff_ffffint + 1)) by (nonlinear_arith)
                    requires
                        0 <= out_size as int <= 0xffff_ffff_ffff_ffffint,
                        0 <= in_size as int <= 0xffff_ffff_ffff_ffffint,
                ;
                assert((out_size as int) * ((in_size as int) + 1) >= 0) by (nonlinear_arith);
            }
            let term: u128 = (out_size as u128) * ((in_size as u128) + 1);
            if term > (total as u128) - count {
                proof {
                    lemma_expected_mono(topology@, w as int + 1, topology@.len() as int);
                }
                return Result::Err(WeightCountError::TooFew);
            }
            count = count + term;
            w = w + 1;
        }
        if count < total as u128 {
            Result::Err(WeightCountError::TooMany)
        } else {
            Result::Ok(Network::from_weights(topology, weights))
        }
    }
}

/// A layer stack whose widths chain like a topology is well-formed.
proof fn lemma_shape_gives_wf(n: Network, t: Seq<LayerTopology>)
    requires
        t.len() >= 2,
        n.layers@.len() == t.len() - 1,
        forall|i: int| 0 <= i < n.layers@.len() ==> (#[trigger] n.layers@[i]).neurons@.len() == t[i
            + 1].neurons,
        forall|i: int| 0 <= i < n.layers@.len() ==> layer_wf_with(
            #[trigger] n.layers@[i],
            t[i].neurons as nat,
        ),
    ensures
        net_wf(n),
{
    let ls = n.layers@;
    assert(layer_wf_with(ls[0], layer_in_width(ls[0])));
    assert forall|i: int| 1 <= i < ls.len() implies layer_wf_with(
        #[trigger] ls[i],
        ls[i - 1].neurons@.len(),
    ) by {
        assert(ls[i - 1].neurons@.len() == t[i].neurons);
        assert(layer_wf_with(ls[i], t[i].neurons as nat));
    }
}

} // verus!
