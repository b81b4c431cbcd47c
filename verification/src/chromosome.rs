//! Chromosomes: flat ordered sequences of fixed-point genes.
use vstd::prelude::*;

verus! {

/// One individual's genetic material: a flat ordered sequence of fixed-point
/// genes (here, a neural network's biases and weights in flattening order).
pub struct Chromosome {
    pub genes: Vec<i64>,
}

impl View for Chromosome {
    type V = Seq<i64>;

    open spec fn view(&self) -> Seq<i64> {
        self.genes@
    }
}

impl Chromosome {
    /// Wrap a gene vector as a chromosome.
    pub fn from_genes(genes: Vec<i64>) -> (r: Chromosome)
        ensures
            r@ == genes@,
    {
        Chromosome { genes }
    }

    /// Number of genes.
    pub fn len(&self) -> (r: usize)
        ensures
            r == self@.len(),
    {
        self.genes.len()
    }

    /// Whether the chromosome holds no genes.
    pub fn is_empty(&self) -> (r: bool)
        ensures
            r == (self@.len() == 0),
    {
        self.genes.len() == 0
    }

    /// The gene at `index`.
    pub fn gene(&self, index: usize) -> (r: i64)
        requires
            index < self@.len(),
        ensures
            r == self@[index as int],
    {
        self.genes[index]
    }

    /// The genes as a plain vector, in order.
    pub fn to_genes(&self) -> (r: Vec<i64>)
        ensures
            r@ == self@,
    {
        let mut out: Vec<i64> = Vec::new();
        let mut i: usize = 0;
        while i < self.genes.len()
            invariant
                i <= self.genes.len(),
                out@ == self.genes@.take(i as int),
            decreases self.genes.len() - i,
        {
            out.push(self.genes[i]);
            i = i + 1;
            proof {
                assert(out@ =~= self.genes@.take(i as int));
            }
        }
        proof {
            assert(out@ =~= self.genes@);
        }
        out
    }

    /// Replace the gene at `index`.
    pub fn set_gene(&mut self, index: usize, value: i64)
        requires
            index < old(self)@.len(),
        ensures
            final(self)@ == old(self)@.update(index as int, value),
    {
        self.genes.set(index, value);
    }
}

impl Clone for Chromosome {
    fn clone(&self) -> (r: Chromosome)
        ensures
            r@ == self@,
    {
        Chromosome { genes: self.to_genes() }
    }
}

impl PartialEq for Chromosome {
    fn eq(&self, other: &Chromosome) -> (r: bool)
        ensures
            r == (self@ == other@),
    {
        if self.genes.len() != other.genes.len() {
            proof {
                assert(self@ != other@);
            }
            return false;
        }
        let mut i: usize = 0;
        while i < self.genes.len()
            invariant
                i <= self.genes.len(),
                self.genes@.len() == other.genes@.len(),
                forall|j: int| 0 <= j < i ==> self.genes@[j] == other.genes@[j],
            decreases self.genes.len() - i,
        {
            if self.genes[i] != other.genes[i] {
                proof {
                    assert(self@[i as int] != other@[i as int]);
                }
                return false;
            }
            i = i + 1;
        }
        proof {
            assert(self@ =~= other@);
        }
        true
    }
}

impl vstd::std_specs::cmp::PartialEqSpecImpl for Chromosome {
    open spec fn obeys_eq_spec() -> bool {
        true
    }

    open spec fn eq_spec(&self, other: &Chromosome) -> bool {
        self@ == other@
    }
}

} // verus!
