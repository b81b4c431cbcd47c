//! Pseudorandom number source.
//!
//! Randomness is threaded explicitly through every operation that needs it,
//! as a `&mut Prng`, so a run is reproducible from its seed.  The draws are
//! delegated to the `rand` crate behind trusted wrappers whose contracts
//! state only what holds of every outcome.
use vstd::prelude::*;
use rand::Rng;
use rand::SeedableRng;
use rand::seq::SliceRandom;
use crate::individual::Individual;
use crate::statistics::total_fitness;

verus! {

#[verifier::external_type_specification]
#[verifier::external_body]
pub struct ExStdRng(rand::rngs::StdRng);

/// An explicit pseudorandom number source, seeded once and then passed by
/// mutable reference into every operation that draws from it.
pub struct Prng {
    inner: rand::rngs::StdRng,
}

impl Prng {
    /// Relies on `rand::rngs::StdRng::seed_from_u64`: builds a generator
    /// whose stream of draws is a function of the seed alone.
    #[verifier::external_body]
    pub fn from_seed(seed: u64) -> Prng {
        Prng { inner: rand::rngs::StdRng::seed_from_u64(seed) }
    }

    /// Relies on `rand::Rng::gen_range`: a draw from the inclusive range
    /// `lo..=hi` lies between `lo` and `hi`; the range is non-empty, so the
    /// call does not panic.
    #[verifier::external_body]
    pub(crate) fn range_i64(&mut self, lo: i64, hi: i64) -> (r: i64)
        requires
            lo <= hi,
        ensures
            lo <= r <= hi,
    {
        self.inner.gen_range(lo..=hi)
    }

    /// Relies on `rand::Rng::gen::<bool>`: the standard distribution on
    /// `bool` is a fair coin.  Nothing can be promised of a single outcome.
    #[verifier::external_body]
    pub(crate) fn coin(&mut self) -> bool {
        self.inner.gen::<bool>()
    }
}

/// Relies on `rand::seq::SliceRandom::choose_weighted`: picks one element
/// with probability proportional to its weight (here, its fitness); it
/// returns `Err` exactly when the slice is empty, a weight is negative, or
/// the total weight is zero.  Negative weights are ruled out here, and the
/// total is kept within `i64` so the internal weight sum cannot overflow.
#[verifier::external_body]
pub(crate) fn choose_weighted_by_fitness<'a, I: Individual>(
    rng: &mut Prng,
    population: &'a Vec<I>,
) -> (r: Option<&'a I>)
    requires
        forall|i: int|
            0 <= i < population@.len() ==> #[trigger] population@[i].fitness_spec() >= 0,
        total_fitness(population@) <= 0x7fff_ffff_ffff_ffffint,
    ensures
        (r is Some) <==> (population@.len() > 0 && total_fitness(population@) > 0),
        r matches Some(x) ==> exists|i: int|
            0 <= i < population@.len() && *x == #[trigger] population@[i],
{
    population.as_slice().choose_weighted(&mut rng.inner, |individual| individual.fitness()).ok()
}

} // verus!
