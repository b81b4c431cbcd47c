//! Parent selection.
use vstd::prelude::*;
use crate::individual::Individual;
use crate::rng::{choose_weighted_by_fitness, Prng};
use crate::statistics::total_fitness;

verus! {

/// A method that can select one parent from a population.  Selection weights
/// are fitness scores, so they must be non-negative, their total must be
/// positive (an empty population or one whose weights are all zero admits no
/// weighted choice), and the total must fit the weight arithmetic.
pub trait SelectionMethod: Sized {
    /// Select one individual from `population`.
    fn select<'a, I: Individual>(&self, rng: &mut Prng, population: &'a Vec<I>) -> (r: &'a I)
        requires
            population@.len() >= 1,
            forall|i: int|
                0 <= i < population@.len() ==> #[trigger] population@[i].fitness_spec() >= 0,
            total_fitness(population@) > 0,
            total_fitness(population@) <= 0x7fff_ffff_ffff_ffffint,
        ensures
            exists|i: int| 0 <= i < population@.len() && *r == #[trigger] population@[i],
    ;
}

/// Roulette-wheel selection: each individual is picked with probability
/// proportional to its fitness.  Selection is performed independently per
/// call, so the same individual may be picked for both parent slots.
pub struct RouletteWheelSelection;

impl RouletteWheelSelection {
    /// Build the selection method.
    pub fn new() -> (r: RouletteWheelSelection) {
        RouletteWheelSelection
    }
}

impl SelectionMethod for RouletteWheelSelection {
    fn select<'a, I: Individual>(&self, rng: &mut Prng, population: &'a Vec<I>) -> (r: &'a I) {
        let picked = choose_weighted_by_fitness(rng, population);
        match picked {
            Some(individual) => individual,
            None => vstd::pervasive::unreached(),
        }
    }
}

} // verus!
