//! The adapter exposing a bird to the genetic algorithm.
use vstd::prelude::*;
use crate::bird::Bird;
use crate::brain::brain_genes;
use crate::chromosome::Chromosome;
use crate::eye::EYE_CELLS;
use crate::fx::FX_ONE;
use crate::individual::Individual;
use crate::network::net_flat;
use crate::rng::Prng;

verus! {

/// Largest satiation whose fitness encoding fits the fixed-point range.
pub const SATIATION_FIT_MAX: u64 = 9_000_000_000_000;

/// A bird seen as a genetic-algorithm individual: its fitness is its
/// satiation, and its chromosome is its brain's flat weight sequence.
pub struct BirdIndividual {
    pub fitness: i64,
    pub chromosome: Chromosome,
}

impl Individual for BirdIndividual {
    open spec fn fitness_spec(&self) -> int {
        self.fitness as int
    }

    open spec fn chromosome_spec(&self) -> Seq<i64> {
        self.chromosome@
    }

    fn fitness(&self) -> (r: i64) {
        self.fitness
    }

    fn chromosome(&self) -> (r: &Chromosome) {
        &self.chromosome
    }

    fn create(chromosome: Chromosome) -> (r: BirdIndividual) {
        BirdIndividual { fitness: 0, chromosome }
    }
}

impl BirdIndividual {
    /// View a bird as an individual: fitness is the satiation count as a
    /// fixed-point value, the chromosome is the brain's flat weights.
    pub fn from_bird(bird: &Bird) -> (r: BirdIndividual)
        requires
            bird.satiation <= SATIATION_FIT_MAX,
        ensures
            r.fitness as int == (bird.satiation as int) * (FX_ONE as int),
            r.chromosome@ == net_flat(bird.brain.neural_network),
    {
        proof {
            assert((bird.satiation as int) * (FX_ONE as int) <= 9_000_000_000_000_000_000int
                && (bird.satiation as int) * (FX_ONE as int) >= 0) by (nonlinear_arith)
                requires
                    0 <= bird.satiation as int <= 9_000_000_000_000int,
        ;
        }
        let fitness: i64 = (bird.satiation as i64) * FX_ONE;
        BirdIndividual { fitness, chromosome: bird.as_chromosome() }
    }

    /// Materialize the individual back into a bird with a fresh random
    /// position and rotation and the default eye.
    pub fn into_bird(self, rng: &mut Prng) -> (r: Bird)
        requires
            self.chromosome@.len() == brain_genes(EYE_CELLS as int),
        ensures
            crate::bird::bird_wf(r),
            r.eye.cells == EYE_CELLS,
            r.satiation == 0,
            net_flat(r.brain.neural_network) == self.chromosome@,
    {
        Bird::from_chromosome(self.chromosome, rng)
    }
}

} // verus!
