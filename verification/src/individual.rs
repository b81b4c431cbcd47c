//! The capability interface binding a domain entity to the genetic algorithm.
use vstd::prelude::*;
use crate::chromosome::Chromosome;

verus! {

/// A domain entity that can take part in genetic-algorithm reproduction: it
/// exposes a fitness score and a chromosome, and can be rebuilt from a
/// chromosome.  Fitness must be non-negative for weighted selection to be
/// well-defined; that requirement is placed on the operations that need it.
pub trait Individual: Sized {
    /// The fitness score, as a mathematical value.
    spec fn fitness_spec(&self) -> int;

    /// The genes, as a mathematical sequence.
    spec fn chromosome_spec(&self) -> Seq<i64>;

    /// The fitness score: acts as an unnormalized selection weight.
    fn fitness(&self) -> (r: i64)
        ensures
            r as int == self.fitness_spec(),
    ;

    /// A view of the individual's genetic material.
    fn chromosome(&self) -> (r: &Chromosome)
        ensures
            r@ == self.chromosome_spec(),
    ;

    /// Materialize a new individual from a chromosome.
    fn create(chromosome: Chromosome) -> (r: Self)
        ensures
            r.chromosome_spec() == chromosome@,
    ;
}

/// The fitness scores of a population, in order.
pub open spec fn fitness_seq<I: Individual>(s: Seq<I>) -> Seq<int> {
    Seq::new(s.len(), |i: int| s[i].fitness_spec())
}

} // verus!
