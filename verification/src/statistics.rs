//! Fitness statistics over a population snapshot.
use vstd::prelude::*;
use crate::individual::{fitness_seq, Individual};

verus! {

/// Sum of a sequence of mathematical integers.
pub open spec fn seq_sum(s: Seq<int>) -> int
    decreases s.len(),
{
    if s.len() == 0 {
        0
    } else {
        seq_sum(s.drop_last()) + s.last()
    }
}

/// Least element of a non-empty sequence of mathematical integers.
pub open spec fn seq_min(s: Seq<int>) -> int
    decreases s.len(),
{
    if s.len() <= 1 {
        s[0]
    } else if s.last() < seq_min(s.drop_last()) {
        s.last()
    } else {
        seq_min(s.drop_last())
    }
}

/// Greatest element of a non-empty sequence of mathematical integers.
pub open spec fn seq_max(s: Seq<int>) -> int
    decreases s.len(),
{
    if s.len() <= 1 {
        s[0]
    } else if s.last() > seq_max(s.drop_last()) {
        s.last()
    } else {
        seq_max(s.drop_last())
    }
}

/// Floor of the average of a non-empty sequence of mathematical integers.
pub open spec fn seq_avg(s: Seq<int>) -> int {
    seq_sum(s) / (s.len() as int)
}

/// The sum of a non-empty sequence lies between `len * min` and `len * max`.
proof fn lemma_sum_bounds(s: Seq<int>)
    requires
        s.len() >= 1,
    ensures
        s.len() * seq_min(s) <= seq_sum(s),
        seq_sum(s) <= s.len() * seq_max(s),
    decreases s.len(),
{
    if s.len() == 1 {
        assert(s.drop_last().len() == 0);
        assert(seq_sum(s) == seq_sum(s.drop_last()) + s.last());
        assert(seq_sum(s) == s[0]);
        assert(1 * seq_min(s) == seq_min(s)) by (nonlinear_arith);
        assert(1 * seq_max(s) == seq_max(s)) by (nonlinear_arith);
    } else {
        let t = s.drop_last();
        lemma_sum_bounds(t);
        let n = t.len() as int;
        assert(seq_min(t) >= seq_min(s) && s.last() >= seq_min(s));
        assert(seq_max(t) <= seq_max(s) && s.last() <= seq_max(s));
        assert(n * seq_min(t) + seq_min(s) >= (n + 1) * seq_min(s)) by (nonlinear_arith)
            requires
                n >= 1,
                seq_min(t) >= seq_min(s),
        ;
        assert(n * seq_max(t) + seq_max(s) <= (n + 1) * seq_max(s)) by (nonlinear_arith)
            requires
                n >= 1,
                seq_max(t) <= seq_max(s),
        ;
        assert(seq_sum(s) == seq_sum(t) + s.last());
        assert(s.len() as int == n + 1);
    }
}

/// The statistics of any non-empty population are ordered: the minimum
/// fitness is at most the average fitness, which is at most the maximum
/// fitness.
pub proof fn lemma_statistics_ordering(s: Seq<int>)
    requires
        s.len() >= 1,
    ensures
        seq_min(s) <= seq_avg(s) <= seq_max(s),
{
    lemma_sum_bounds(s);
    let n = s.len() as int;
    let total = seq_sum(s);
    vstd::arithmetic::div_mod::lemma_fundamental_div_mod(total, n);
    assert(seq_min(s) <= total / n) by (nonlinear_arith)
        requires
            n >= 1,
            n * seq_min(s) <= total,
            total == n * (total / n) + (total % n),
            0 <= total % n < n,
    ;
    assert(total / n <= seq_max(s)) by (nonlinear_arith)
        requires
            n >= 1,
            total <= n * seq_max(s),
            total == n * (total / n) + (total % n),
            0 <= total % n < n,
    ;
}

/// Total fitness of a population: the sum of all fitness scores.
pub open spec fn total_fitness<I: Individual>(s: Seq<I>) -> int {
    seq_sum(fitness_seq(s))
}

/// A pointwise order of two sequences carries over to their sums.
pub proof fn lemma_sum_pointwise_le(a: Seq<int>, b: Seq<int>)
    requires
        a.len() == b.len(),
        forall|k: int| 0 <= k < a.len() ==> #[trigger] a[k] <= b[k],
    ensures
        seq_sum(a) <= seq_sum(b),
    decreases a.len(),
{
    if a.len() > 0 {
        lemma_sum_pointwise_le(a.drop_last(), b.drop_last());
    }
}

/// A pointwise lower bound carries over to the sum.
pub proof fn lemma_sum_ge(s: Seq<int>, b: int)
    requires
        forall|k: int| 0 <= k < s.len() ==> #[trigger] s[k] >= b,
        b <= 0,
    ensures
        seq_sum(s) >= s.len() * b,
    decreases s.len(),
{
    if s.len() == 0 {
        assert(0int * b == 0) by (nonlinear_arith);
    } else {
        lemma_sum_ge(s.drop_last(), b);
        assert((s.len() - 1) * b + b == s.len() * b) by (nonlinear_arith);
    }
}

/// A pointwise upper bound carries over to the sum.
pub proof fn lemma_sum_le(s: Seq<int>, b: int)
    requires
        forall|k: int| 0 <= k < s.len() ==> #[trigger] s[k] <= b,
        b >= 0,
    ensures
        seq_sum(s) <= s.len() * b,
    decreases s.len(),
{
    if s.len() == 0 {
        assert(0int * b == 0) by (nonlinear_arith);
    } else {
        lemma_sum_le(s.drop_last(), b);
        assert((s.len() - 1) * b + b == s.len() * b) by (nonlinear_arith);
    }
}

/// A pointwise lower bound carries over to the minimum.
pub proof fn lemma_min_ge(s: Seq<int>, b: int)
    requires
        s.len() >= 1,
        forall|k: int| 0 <= k < s.len() ==> #[trigger] s[k] >= b,
    ensures
        seq_min(s) >= b,
    decreases s.len(),
{
    if s.len() > 1 {
        lemma_min_ge(s.drop_last(), b);
    }
}

/// Scaling every element by `m` scales the sum by `m`.
pub proof fn lemma_sum_scaled(a: Seq<int>, b: Seq<int>, m: int)
    requires
        a.len() == b.len(),
        forall|k: int| 0 <= k < a.len() ==> #[trigger] b[k] == m * a[k],
    ensures
        seq_sum(b) == m * seq_sum(a),
    decreases a.len(),
{
    if a.len() == 0 {
        assert(m * 0int == 0) by (nonlinear_arith);
    } else {
        lemma_sum_scaled(a.drop_last(), b.drop_last(), m);
        assert(m * seq_sum(a.drop_last()) + m * a.last() == m * (seq_sum(a.drop_last())
            + a.last())) by (nonlinear_arith);
    }
}

/// Minimum, maximum and floor-averaged fitness over one population snapshot;
/// immutable once computed.
#[derive(Clone, Copy)]
pub struct Statistics {
    min_fitness: i64,
    max_fitness: i64,
    avg_fitness: i64,
}

impl Statistics {
    /// The least fitness of the snapshot, as a mathematical value.
    pub closed spec fn min_spec(&self) -> int {
        self.min_fitness as int
    }

    /// The greatest fitness of the snapshot, as a mathematical value.
    pub closed spec fn max_spec(&self) -> int {
        self.max_fitness as int
    }

    /// The floor-averaged fitness of the snapshot, as a mathematical value.
    pub closed spec fn avg_spec(&self) -> int {
        self.avg_fitness as int
    }

    /// Whether the statistics describe the fitness scores `s`.
    pub open spec fn describes(&self, s: Seq<int>) -> bool {
        &&& self.min_spec() == seq_min(s)
        &&& self.max_spec() == seq_max(s)
        &&& self.avg_spec() == seq_avg(s)
    }

    /// Compute the statistics of a non-empty population snapshot.
    pub fn new<I: Individual>(population: &Vec<I>) -> (r: Statistics)
        requires
            population@.len() >= 1,
        ensures
            r.describes(fitness_seq(population@)),
    {
        let ghost all = fitness_seq(population@);
        let first = population[0].fitness();
        let mut min_fitness: i64 = first;
        let mut max_fitness: i64 = first;
        let mut sum: i128 = first as i128;
        let mut i: usize = 1;
        proof {
            assert(all.take(1).drop_last() =~= Seq::<int>::empty());
            assert(all.take(1).last() == first as int);
            assert(all.take(1).len() == 1);
            assert(seq_sum(Seq::<int>::empty()) == 0);
            assert(seq_sum(all.take(1)) == seq_sum(all.take(1).drop_last()) + all.take(1).last());
            assert(seq_sum(all.take(1)) == first as int);
            assert(seq_min(all.take(1)) == first as int);
            assert(seq_max(all.take(1)) == first as int);
        }
        while i < population.len()
            invariant
                1 <= i <= population@.len(),
                all == fitness_seq(population@),
                all.len() == population@.len(),
                min_fitness as int == seq_min(all.take(i as int)),
                max_fitness as int == seq_max(all.take(i as int)),
                sum as int == seq_sum(all.take(i as int)),
                -(i as int) * 0x8000_0000_0000_0000int <= sum as int,
                sum as int <= (i as int) * 0x8000_0000_0000_0000int,
            decreases population@.len() - i,
        {
            let f = population[i].fitness();
            proof {
                let k = i as int;
                assert(all.take(k + 1).drop_last() =~= all.take(k));
                assert(all.take(k + 1).last() == f as int);
                assert((k + 1) * 0x8000_0000_0000_0000int == k * 0x8000_0000_0000_0000int
                    + 0x8000_0000_0000_0000int) by (nonlinear_arith);
                assert(k * 0x8000_0000_0000_0000int <= 0xffff_ffff_ffff_ffffint
                    * 0x8000_0000_0000_0000int) by (nonlinear_arith)
                    requires
                        0 <= k <= 0xffff_ffff_ffff_ffffint,
                ;
                assert(-(0xffff_ffff_ffff_ffffint * 0x8000_0000_0000_0000int) <= k
                    * -0x8000_0000_0000_0000int) by (nonlinear_arith)
                    requires
                        0 <= k <= 0xffff_ffff_ffff_ffffint,
                ;
            }
            sum = sum + f as i128;
            if f < min_fitness {
                min_fitness = f;
            }
            if f > max_fitness {
                max_fitness = f;
            }
            i = i + 1;
        }
        proof {
            assert(all.take(all.len() as int) =~= all);
            lemma_sum_bounds(all);
        }
        let avg_fitness = floor_avg(sum, population.len(), min_fitness, max_fitness);
        Statistics { min_fitness, max_fitness, avg_fitness }
    }

    /// The least fitness of the snapshot.
    pub fn min_fitness(&self) -> (r: i64)
        ensures
            r as int == self.min_spec(),
    {
        self.min_fitness
    }

    /// The greatest fitness of the snapshot.
    pub fn max_fitness(&self) -> (r: i64)
        ensures
            r as int == self.max_spec(),
    {
        self.max_fitness
    }

    /// The floor of the average fitness of the snapshot.
    pub fn avg_fitness(&self) -> (r: i64)
        ensures
            r as int == self.avg_spec(),
    {
        self.avg_fitness
    }
}

/// Floor division of a bounded sum by a positive population size.
fn floor_avg(sum: i128, len: usize, lo: i64, hi: i64) -> (r: i64)
    requires
        len >= 1,
        sum as int > -0x8000_0000_0000_0000_0000_0000_0000_0000int,
        (len as int) * (lo as int) <= sum as int,
        sum as int <= (len as int) * (hi as int),
    ensures
        r as int == (sum as int) / (len as int),
{
    let ghost n = len as int;
    proof {
        vstd::arithmetic::div_mod::lemma_fundamental_div_mod(sum as int, n);
        assert(lo as int <= (sum as int) / n) by (nonlinear_arith)
            requires
                n >= 1,
                n * (lo as int) <= sum as int,
                sum as int == n * ((sum as int) / n) + ((sum as int) % n),
                0 <= (sum as int) % n < n,
        ;
        assert((sum as int) / n <= hi as int) by (nonlinear_arith)
            requires
                n >= 1,
                sum as int <= n * (hi as int),
                sum as int == n * ((sum as int) / n) + ((sum as int) % n),
                0 <= (sum as int) % n < n,
        ;
    }
    if sum >= 0 {
        let q: u128 = (sum as u128) / (len as u128);
        proof {
            assert(q as int == (sum as int) / n);
        }
        q as i64
    } else {
        let m: u128 = (-sum) as u128;
        let q: u128 = (m + (len as u128) - 1) / (len as u128);
        proof {
            let mi = m as int;
            let qq = mi / n;
            let rr = mi % n;
            vstd::arithmetic::div_mod::lemma_fundamental_div_mod(mi, n);
            assert(mi == n * qq + rr);
            assert(qq * n + rr == n * qq + rr) by (nonlinear_arith);
            assert((-qq) * n == -(n * qq)) by (nonlinear_arith);
            assert((-qq - 1) * n == -(n * qq) - n) by (nonlinear_arith);
            assert((qq + 1) * n == n * qq + n) by (nonlinear_arith);
            if rr == 0 {
                vstd::arithmetic::div_mod::lemma_fundamental_div_mod_converse(
                    mi + n - 1,
                    n,
                    qq,
                    n - 1,
                );
                vstd::arithmetic::div_mod::lemma_fundamental_div_mod_converse(-mi, n, -qq, 0);
            } else {
                vstd::arithmetic::div_mod::lemma_fundamental_div_mod_converse(
                    mi + n - 1,
                    n,
                    qq + 1,
                    rr - 1,
                );
                vstd::arithmetic::div_mod::lemma_fundamental_div_mod_converse(
                    -mi,
                    n,
                    -qq - 1,
                    n - rr,
                );
            }
            assert(q as int == -((sum as int) / n));
        }
        let qi: i128 = -(q as i128);
        qi as i64
    }
}

} // verus!
