//! Chromosome mutation.
use vstd::prelude::*;
use crate::chromosome::Chromosome;
use crate::fx::{abs_int, fx_add, fx_mul, fx_add_spec, fx_mul_spec, FX_LIMIT, FX_ONE};
use crate::rng::Prng;

verus! {

/// A method that can alter the genes of a child's chromosome in place.  The
/// gene count is preserved; what else holds of the altered genes is stated
/// by the method's own `mutate_ens`.
pub trait MutationMethod: Sized {
    /// What the method guarantees of the genes before and after the call.
    spec fn mutate_ens(&self, before: Seq<i64>, after: Seq<i64>) -> bool;

    /// Alter `child` in place.
    fn mutate(&self, rng: &mut Prng, child: &mut Chromosome)
        ensures
            final(child)@.len() == old(child)@.len(),
            self.mutate_ens(old(child)@, final(child)@),
    ;
}

/// The largest distance a mutation step of coefficient `coeff` can move one
/// gene: zero for a zero coefficient, and otherwise strictly less than the
/// coefficient's absolute value.
pub open spec fn mutation_delta_bound(coeff: int) -> int {
    if coeff == 0 {
        0
    } else {
        abs_int(coeff) - 1
    }
}

/// Probabilistic magnitude-bounded mutation: each gene is altered
/// independently with probability `chance` (a fixed-point fraction of one),
/// by a uniformly drawn step of magnitude strictly below `coeff`, with a
/// fair sign.  Despite the traditional name, the step is uniform, not
/// Gaussian; this exact distribution is kept for compatibility.
#[derive(Clone)]
pub struct GaussianMutation {
    /// Probability of changing a gene, as a fixed-point fraction of one.
    chance: i64,
    /// Magnitude bound of a change.
    coeff: i64,
}

impl GaussianMutation {
    /// The mutation probability, as a mathematical value.
    pub closed spec fn chance_spec(&self) -> int {
        self.chance as int
    }

    /// The magnitude bound, as a mathematical value.
    pub closed spec fn coeff_spec(&self) -> int {
        self.coeff as int
    }

    /// Build the mutation method.  The chance is a fixed-point probability,
    /// so it must lie between zero and one.
    pub fn new(chance: i64, coeff: i64) -> (r: GaussianMutation)
        requires
            0 <= chance <= FX_ONE,
        ensures
            r.chance_spec() == chance as int,
            r.coeff_spec() == coeff as int,
    {
        GaussianMutation { chance, coeff }
    }
}

/// A mutation step `coeff * u` with `0 <= u < 1` stays strictly below the
/// coefficient in magnitude.
proof fn lemma_step_bound(coeff: int, u: int)
    requires
        0 <= u < FX_ONE as int,
    ensures
        abs_int(fx_mul_spec(coeff, u)) <= mutation_delta_bound(coeff),
    decreases 0int,
{
    let one = FX_ONE as int;
    if coeff == 0 {
        assert(coeff * u == 0) by (nonlinear_arith)
            requires
                coeff == 0,
        ;
    } else {
        let a = abs_int(coeff);
        assert(coeff * u == if coeff >= 0 {
            a * u
        } else {
            -(a * u)
        }) by (nonlinear_arith)
            requires
                a == abs_int(coeff),
        ;
        assert(a * u >= 0) by (nonlinear_arith)
            requires
                a >= 0,
                u >= 0,
        ;
        assert(a * u <= a * one - a) by (nonlinear_arith)
            requires
                a >= 1,
                0 <= u <= one - 1,
        ;
        assert(a * one - 1 == (a - 1) * one + (one - 1)) by (nonlinear_arith);
        vstd::arithmetic::div_mod::lemma_fundamental_div_mod_converse(
            a * one - 1,
            one,
            a - 1,
            one - 1,
        );
        vstd::arithmetic::div_mod::lemma_div_is_ordered(a * u, a * one - 1, one);
    }
}

impl MutationMethod for GaussianMutation {
    /// With a zero chance no gene moves; and any gene that started within
    /// the saturation range moves by at most `mutation_delta_bound` of the
    /// coefficient, hence strictly less than the coefficient's magnitude.
    open spec fn mutate_ens(&self, before: Seq<i64>, after: Seq<i64>) -> bool {
        forall|i: int|
            0 <= i < before.len() ==> {
                &&& (self.chance_spec() == 0 ==> #[trigger] after[i] == before[i])
                &&& (abs_int(before[i] as int) <= FX_LIMIT as int ==> abs_int(
                    after[i] - before[i],
                ) <= mutation_delta_bound(self.coeff_spec()))
            }
    }

    fn mutate(&self, rng: &mut Prng, child: &mut Chromosome) {
        let n = child.len();
        let mut i: usize = 0;
        while i < n
            invariant
                i <= n,
                n == child@.len(),
                child@.len() == old(child)@.len(),
                forall|j: int| i <= j < n ==> #[trigger] child@[j] == old(child)@[j],
                forall|j: int|
                    0 <= j < i ==> {
                        &&& (self.chance_spec() == 0 ==> #[trigger] child@[j] == old(child)@[j])
                        &&& (abs_int(old(child)@[j] as int) <= FX_LIMIT as int ==> abs_int(
                            child@[j] - old(child)@[j],
                        ) <= mutation_delta_bound(self.coeff_spec()))
                    },
            decreases n - i,
        {
            let flip = rng.coin();
            let draw = rng.range_i64(0, FX_ONE - 1);
            if draw < self.chance {
                let u = rng.range_i64(0, FX_ONE - 1);
                let step = fx_mul(self.coeff, u);
                proof {
                    lemma_step_bound(self.coeff as int, u as int);
                }
                let signed_step: i64 = if flip {
                    -step
                } else {
                    step
                };
                let gene = child.gene(i);
                let mutated = fx_add(gene, signed_step);
                proof {
                    assert(abs_int(old(child)@[i as int] as int) <= FX_LIMIT as int ==> abs_int(
                        fx_add_spec(gene as int, signed_step as int) - gene as int,
                    ) <= abs_int(signed_step as int));
                }
                child.set_gene(i, mutated);
            }
            i = i + 1;
        }
    }
}

} // verus!
