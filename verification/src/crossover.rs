//! Chromosome crossover.
use vstd::prelude::*;
use crate::chromosome::Chromosome;
use crate::rng::Prng;

verus! {

/// A method that can fuse two parent chromosomes into one child chromosome.
/// The parents must have equal gene counts; the child has that gene count,
/// and every gene of the child comes from one of the parents at the same
/// position.
pub trait CrossoverMethod: Sized {
    /// Cross `parent_a` and `parent_b` over into a child chromosome.
    fn crossover(&self, rng: &mut Prng, parent_a: &Chromosome, parent_b: &Chromosome) -> (r:
        Chromosome)
        requires
            parent_a@.len() == parent_b@.len(),
        ensures
            r@.len() == parent_a@.len(),
            forall|i: int|
                0 <= i < r@.len() ==> #[trigger] r@[i] == parent_a@[i] || r@[i] == parent_b@[i],
    ;
}

/// Uniform crossover: for each gene index, a fair coin decides independently
/// whether the child takes the gene of the first or of the second parent.
#[derive(Clone)]
pub struct UniformCrossover;

impl UniformCrossover {
    /// Build the crossover method.
    pub fn new() -> (r: UniformCrossover) {
        UniformCrossover
    }
}

impl CrossoverMethod for UniformCrossover {
    fn crossover(&self, rng: &mut Prng, parent_a: &Chromosome, parent_b: &Chromosome) -> (r:
        Chromosome) {
        let n = parent_a.len();
        let mut genes: Vec<i64> = Vec::new();
        let mut i: usize = 0;
        while i < n
            invariant
                i <= n,
                n == parent_a@.len() == parent_b@.len(),
                genes@.len() == i,
                forall|j: int|
                    0 <= j < i ==> #[trigger] genes@[j] == parent_a@[j] || genes@[j]
                        == parent_b@[j],
            decreases n - i,
        {
            if rng.coin() {
                genes.push(parent_a.gene(i));
            } else {
                genes.push(parent_b.gene(i));
            }
            i = i + 1;
        }
        Chromosome::from_genes(genes)
    }
}

} // verus!
