//! One generational replacement: select, cross over, mutate, rebuild.
use vstd::prelude::*;
use crate::crossover::CrossoverMethod;
use crate::individual::{fitness_seq, Individual};
use crate::mutation::MutationMethod;
use crate::rng::Prng;
use crate::selection::SelectionMethod;
use crate::statistics::{total_fitness, Statistics};

verus! {

/// The genetic algorithm: a bundle of one selection, one crossover and one
/// mutation method, able to evolve any population of [`Individual`]s.
pub struct GeneticAlgorithm<S, C, M> {
    selection_method: S,
    crossover_method: C,
    mutation_method: M,
}

/// Whether `child` is a possible child of `pop` under mutation method `m`:
/// some pair of parents exists whose chromosomes a gene-wise crossover
/// turned into a sequence that `m`'s mutation relation connects to `child`.
/// The same parent may fill both slots.
pub open spec fn child_of<I: Individual, M: MutationMethod>(
    m: M,
    pop: Seq<I>,
    child: Seq<i64>,
) -> bool {
    exists|a: int, b: int, crossed: Seq<i64>|
        {
            &&& 0 <= a < pop.len()
            &&& 0 <= b < pop.len()
            &&& crossed.len() == pop[a].chromosome_spec().len()
            &&& crossed.len() == pop[b].chromosome_spec().len()
            &&& forall|g: int|
                0 <= g < crossed.len() ==> #[trigger] crossed[g] == pop[a].chromosome_spec()[g]
                    || crossed[g] == pop[b].chromosome_spec()[g]
            &&& child.len() == crossed.len()
            &&& m.mutate_ens(crossed, child)
        }
}

impl<S, C, M> GeneticAlgorithm<S, C, M> {
    /// The stored selection method.
    pub closed spec fn selection_spec(&self) -> S {
        self.selection_method
    }

    /// The stored crossover method.
    pub closed spec fn crossover_spec(&self) -> C {
        self.crossover_method
    }

    /// The stored mutation method.
    pub closed spec fn mutation_spec(&self) -> M {
        self.mutation_method
    }
}

impl<S: SelectionMethod, C: CrossoverMethod, M: MutationMethod> GeneticAlgorithm<S, C, M> {
    /// Bundle the three genetic operators; every later evolution delegates
    /// selection, crossover and mutation to exactly these.
    pub fn new(selection_method: S, crossover_method: C, mutation_method: M) -> (r: GeneticAlgorithm<
        S,
        C,
        M,
    >)
        ensures
            r.selection_spec() == selection_method,
            r.crossover_spec() == crossover_method,
            r.mutation_spec() == mutation_method,
    {
        GeneticAlgorithm { selection_method, crossover_method, mutation_method }
    }

    /// Evolve a population one generation: for each output slot, select two
    /// parents by fitness, cross their chromosomes over, mutate the child
    /// chromosome in place, and materialize a new individual from it.  The
    /// output population has exactly the size of the input population, and
    /// every child chromosome has the common gene count of the parents.
    ///
    /// The returned statistics describe the population as handed in, that
    /// is, the snapshot before this evolution step.
    pub fn evolve<I: Individual>(&self, rng: &mut Prng, population: &Vec<I>) -> (r: (
        Vec<I>,
        Statistics,
    ))
        requires
            population@.len() >= 1,
            forall|i: int|
                0 <= i < population@.len() ==> #[trigger] population@[i].fitness_spec() >= 0,
            total_fitness(population@) > 0,
            total_fitness(population@) <= 0x7fff_ffff_ffff_ffffint,
            forall|i: int|
                0 <= i < population@.len() ==> (#[trigger] population@[i].chromosome_spec()).len()
                    == population@[0].chromosome_spec().len(),
        ensures
            r.0@.len() == population@.len(),
            forall|k: int|
                0 <= k < r.0@.len() ==> (#[trigger] r.0@[k].chromosome_spec()).len()
                    == population@[0].chromosome_spec().len(),
            forall|k: int|
                0 <= k < r.0@.len() ==> child_of(
                    self.mutation_spec(),
                    population@,
                    (#[trigger] r.0@[k]).chromosome_spec(),
                ),
            r.1.describes(fitness_seq(population@)),
    {
        let ghost gene_count = population@[0].chromosome_spec().len();
        let mut new_population: Vec<I> = Vec::new();
        let mut slot: usize = 0;
        while slot < population.len()
            invariant
                slot <= population@.len(),
                population@.len() >= 1,
                forall|i: int|
                    0 <= i < population@.len() ==> #[trigger] population@[i].fitness_spec() >= 0,
                total_fitness(population@) > 0,
                total_fitness(population@) <= 0x7fff_ffff_ffff_ffffint,
                forall|i: int|
                    0 <= i < population@.len() ==> (
                    #[trigger] population@[i].chromosome_spec()).len() == gene_count,
                new_population@.len() == slot,
                forall|k: int|
                    0 <= k < new_population@.len() ==> (
                    #[trigger] new_population@[k].chromosome_spec()).len() == gene_count,
                forall|k: int|
                    0 <= k < new_population@.len() ==> child_of(
                        self.mutation_spec(),
                        population@,
                        (#[trigger] new_population@[k]).chromosome_spec(),
                    ),
            decreases population@.len() - slot,
        {
            let parent_a = self.selection_method.select(rng, population);
            let parent_b = self.selection_method.select(rng, population);
            let genes_a = parent_a.chromosome();
            let genes_b = parent_b.chromosome();
            proof {
                assert(genes_a@.len() == gene_count);
                assert(genes_b@.len() == gene_count);
            }
            let mut child = self.crossover_method.crossover(rng, genes_a, genes_b);
            let ghost crossed = child@;
            self.mutation_method.mutate(rng, &mut child);
            let created = I::create(child);
            proof {
                let a = choose|i: int|
                    0 <= i < population@.len() && *parent_a == population@[i];
                let b = choose|i: int|
                    0 <= i < population@.len() && *parent_b == population@[i];
                assert(crossed.len() == population@[a].chromosome_spec().len());
                assert(crossed.len() == population@[b].chromosome_spec().len());
                assert(forall|g: int|
                    0 <= g < crossed.len() ==> #[trigger] crossed[g]
                        == population@[a].chromosome_spec()[g] || crossed[g]
                        == population@[b].chromosome_spec()[g]);
                assert(child_of(self.mutation_spec(), population@, created.chromosome_spec()));
            }
            new_population.push(created);
            slot = slot + 1;
        }
        let stats = Statistics::new(population);
        (new_population, stats)
    }
}

} // verus!
