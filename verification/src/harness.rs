//! The computational core of the benchmark harness.
//!
//! The harness drives worker threads against each lock variant while
//! background threads run a CPU-bound recursive computation ([`fib`]) to
//! stand in for the rest of a busy system. Each worker reports one latency
//! sample per iteration through a many-producers/one-consumer channel; the
//! collector drains the channel ([`collect_samples`]) and reduces the samples
//! to aggregate statistics ([`summarize`]): count, total, minimum, maximum and
//! median. Everything that computes is here, under contract; the spawning,
//! timing and printing around it belong to the embedding program.

use vstd::arithmetic::power2::{lemma2_to64, lemma2_to64_rest, lemma_pow2_strictly_increases, pow2};
use vstd::prelude::*;
use vstd::relations::total_ordering;
use vstd::seq_lib::lemma_sorted_unique;

verus! {

/// The Fibonacci numbers: the background load computes these recursively.
pub open spec fn fib_spec(n: nat) -> nat
    decreases n,
{
    if n < 2 {
        n
    } else {
        fib_spec((n - 1) as nat) + fib_spec((n - 2) as nat)
    }
}

/// Every Fibonacci number is below the matching power of two, which is what
/// keeps the recursive computation inside one machine word.
pub proof fn lemma_fib_below_pow2(n: nat)
    ensures
        fib_spec(n) < pow2(n),
    decreases n,
{
    if n < 2 {
        lemma2_to64();
    } else {
        lemma_fib_below_pow2((n - 1) as nat);
        lemma_fib_below_pow2((n - 2) as nat);
        lemma_pow2_strictly_increases((n - 2) as nat, n);
        lemma_pow2_strictly_increases((n - 1) as nat, n);
        assert(pow2((n - 1) as nat) + pow2((n - 2) as nat) <= pow2(n)) by {
            vstd::arithmetic::power2::lemma_pow2_adds((n - 2) as nat, 1);
            vstd::arithmetic::power2::lemma_pow2_adds((n - 1) as nat, 1);
            lemma2_to64();
        }
    }
}

/// The CPU-bound background computation: the naive doubly-recursive Fibonacci,
/// chosen for burning cycles, not for speed. Arguments up to 63 keep the
/// result below `2^63` by [`lemma_fib_below_pow2`].
pub fn fib(n: u64) -> (r: u64)
    requires
        n <= 63,
    ensures
        r == fib_spec(n as nat),
    decreases n,
{
    if n < 2 {
        return n;
    }
    let a = fib(n - 1);
    let b = fib(n - 2);
    proof {
        lemma_fib_below_pow2(n as nat);
        if n < 63 {
            lemma_pow2_strictly_increases(n as nat, 63);
        }
        lemma2_to64_rest();
    }
    a + b
}

/// The latency samples all workers reported, worker by worker, in one
/// sequence, as the collector sees them after the channel is drained.
pub open spec fn reported(per_worker: Seq<Vec<u64>>) -> Seq<u64> {
    per_worker.map_values(|v: Vec<u64>| v@).flatten()
}

/// Drains the per-worker sample lists into one sequence, as the collector
/// drains the channel: every sample of every worker, in order, none dropped
/// and none invented.
pub fn collect_samples(per_worker: &Vec<Vec<u64>>) -> (all: Vec<u64>)
    ensures
        all@ == reported(per_worker@),
{
    let views = Ghost(per_worker@.map_values(|v: Vec<u64>| v@));
    let mut all: Vec<u64> = Vec::new();
    let mut i: usize = 0;
    while i < per_worker.len()
        invariant
            i <= per_worker@.len(),
            views@ == per_worker@.map_values(|v: Vec<u64>| v@),
            all@ == views@.subrange(0, i as int).flatten(),
        decreases per_worker@.len() - i,
    {
        let worker = &per_worker[i];
        let mut j: usize = 0;
        while j < worker.len()
            invariant
                i < per_worker@.len(),
                j <= worker@.len(),
                worker@ == views@[i as int],
                views@ == per_worker@.map_values(|v: Vec<u64>| v@),
                all@ == views@.subrange(0, i as int).flatten() + worker@.subrange(0, j as int),
            decreases worker@.len() - j,
        {
            all.push(worker[j]);
            proof {
                assert(worker@.subrange(0, j + 1) =~= worker@.subrange(0, j as int).push(
                    worker@[j as int],
                ));
                assert(all@ =~= views@.subrange(0, i as int).flatten() + worker@.subrange(
                    0,
                    j + 1,
                ));
            }
            j = j + 1;
        }
        proof {
            assert(worker@.subrange(0, worker@.len() as int) =~= worker@);
            assert(views@.subrange(0, i + 1) =~= views@.subrange(0, i as int).push(
                views@[i as int],
            ));
            views@.subrange(0, i as int).lemma_flatten_push(views@[i as int]);
            assert(all@ =~= views@.subrange(0, i + 1).flatten());
        }
        i = i + 1;
    }
    proof {
        assert(views@.subrange(0, per_worker@.len() as int) =~= views@);
    }
    all
}

/// No sample is dropped: with `per_worker.len()` workers each reporting
/// exactly `iters` samples, the collector hands back exactly
/// `per_worker.len() * iters` samples.
pub proof fn lemma_no_sample_dropped(per_worker: Seq<Vec<u64>>, iters: nat)
    requires
        forall|i: int| 0 <= i < per_worker.len() ==> per_worker[i]@.len() == iters,
    ensures
        reported(per_worker).len() == per_worker.len() * iters,
    decreases per_worker.len(),
{
    let views = per_worker.map_values(|v: Vec<u64>| v@);
    if per_worker.len() == 0 {
        assert(views.len() == 0);
    } else {
        lemma_no_sample_dropped(per_worker.drop_first(), iters);
        assert(per_worker.drop_first().map_values(|v: Vec<u64>| v@) =~= views.drop_first());
        assert(views.flatten() == views.first() + views.drop_first().flatten());
        assert(views.first().len() == iters);
        assert(iters + (per_worker.len() - 1) * iters == per_worker.len() * iters)
            by (nonlinear_arith);
    }
}

/// Samples in non-decreasing order.
pub open spec fn sorted(s: Seq<u64>) -> bool {
    forall|a: int, b: int| 0 <= a <= b < s.len() ==> s[a] <= s[b]
}

/// The sum of a sequence of samples.
pub open spec fn sum_samples(s: Seq<u64>) -> int
    decreases s.len(),
{
    if s.len() == 0 {
        0
    } else {
        sum_samples(s.drop_last()) + s.last()
    }
}

/// The samples in non-decreasing order: by [`lemma_sorted_of`] this is *the*
/// sorted sequence holding the same samples.
pub open spec fn sorted_of(s: Seq<u64>) -> Seq<u64> {
    choose|t: Seq<u64>| sorted(t) && t.to_multiset() == s.to_multiset()
}

/// Exhibiting any sorted rearrangement of `s` pins [`sorted_of`] down: sorted
/// sequences with equal multisets of samples are equal.
pub proof fn lemma_sorted_of(s: Seq<u64>, t: Seq<u64>)
    requires
        sorted(t),
        t.to_multiset() == s.to_multiset(),
    ensures
        sorted_of(s) == t,
{
    let leq = |x: u64, y: u64| x <= y;
    let u = sorted_of(s);
    assert(sorted(u) && u.to_multiset() == s.to_multiset());
    assert(total_ordering(leq)) by {
        assert(vstd::relations::reflexive(leq));
        assert(vstd::relations::antisymmetric(leq));
        assert(vstd::relations::transitive(leq));
        assert(vstd::relations::strongly_connected(leq));
    }
    assert(vstd::relations::sorted_by(u, leq));
    assert(vstd::relations::sorted_by(t, leq));
    lemma_sorted_unique(u, t, leq);
}

proof fn lemma_swap_multiset(s: Seq<u64>, i: int, j: int)
    requires
        0 <= i < s.len(),
        0 <= j < s.len(),
        i != j,
    ensures
        s.update(i, s[j]).update(j, s[i]).to_multiset() == s.to_multiset(),
{
    broadcast use vstd::seq_lib::to_multiset_update;
    broadcast use vstd::seq_lib::group_to_multiset_ensures;
    broadcast use vstd::multiset::group_multiset_axioms;

    let s1 = s.update(i, s[j]);
    assert(s.contains(s[i]));
    assert(s1[j] == s[j]);
    assert(s1.contains(s1[j]));
    assert(s1.update(j, s[i]).to_multiset() =~= s.to_multiset());
}

proof fn lemma_sum_samples_bound(s: Seq<u64>)
    ensures
        0 <= sum_samples(s) <= s.len() * u64::MAX,
    decreases s.len(),
{
    if s.len() == 0 {
    } else {
        lemma_sum_samples_bound(s.drop_last());
        assert((s.len() - 1) * u64::MAX + u64::MAX == s.len() * u64::MAX) by (nonlinear_arith);
    }
}

/// Sorts the samples: the result is in non-decreasing order and holds exactly
/// the samples that came in. Insertion sort, as fits the short sample lists of
/// a benchmark run.
pub fn sort_samples(samples: &Vec<u64>) -> (r: Vec<u64>)
    ensures
        sorted(r@),
        r@.to_multiset() == samples@.to_multiset(),
        r@.len() == samples@.len(),
{
    broadcast use vstd::seq_lib::group_to_multiset_ensures;

    let mut out: Vec<u64> = Vec::new();
    let mut idx: usize = 0;
    while idx < samples.len()
        invariant
            idx <= samples@.len(),
            out@ == samples@.subrange(0, idx as int),
        decreases samples@.len() - idx,
    {
        out.push(samples[idx]);
        proof {
            assert(samples@.subrange(0, idx + 1) =~= samples@.subrange(0, idx as int).push(
                samples@[idx as int],
            ));
        }
        idx = idx + 1;
    }
    proof {
        assert(samples@.subrange(0, samples@.len() as int) =~= samples@);
    }
    let mut i: usize = 1;
    while i < out.len()
        invariant
            out@.len() == samples@.len(),
            out@.to_multiset() == samples@.to_multiset(),
            1 <= i,
            forall|a: int, b: int| 0 <= a <= b < i && b < out@.len() ==> out@[a] <= out@[b],
        decreases out@.len() - i,
    {
        let mut j: usize = i;
        while j > 0 && out[j - 1] > out[j]
            invariant
                j <= i < out@.len(),
                out@.len() == samples@.len(),
                out@.to_multiset() == samples@.to_multiset(),
                forall|a: int, b: int| 0 <= a <= b <= i && b != j ==> out@[a] <= out@[b],
            decreases j,
        {
            let ghost pre = out@;
            let x = out[j - 1];
            let y = out[j];
            out[j - 1] = y;
            out[j] = x;
            proof {
                assert(out@ == pre.update(j - 1, pre[j as int]).update(j as int, pre[j - 1]));
                lemma_swap_multiset(pre, j - 1, j as int);
            }
            j = j - 1;
        }
        i = i + 1;
    }
    out
}

/// One run's aggregate latency statistics. The mean is `total / count` and the
/// median is `median_twice / 2`, divisions the reporting layer performs in
/// whatever precision it prints.
#[derive(Clone, Copy, Debug, PartialEq, Eq)]
pub struct LatencyStats {
    /// How many samples were reported.
    pub count: usize,
    /// The sum of all samples, in nanoseconds.
    pub total: u128,
    /// The smallest sample.
    pub min: u64,
    /// The largest sample.
    pub max: u64,
    /// Twice the median: the sum of the two middle samples of the sorted run
    /// when the count is even, twice the middle sample when it is odd.
    pub median_twice: u128,
}

/// Reduces one run's samples to their aggregate statistics, each pinned to the
/// sorted rearrangement of the input: count, sum, smallest, largest, and the
/// median with the two middle samples averaged on an even count.
pub fn summarize(samples: &Vec<u64>) -> (stats: LatencyStats)
    requires
        samples@.len() > 0,
    ensures
        stats.count == samples@.len(),
        stats.total == sum_samples(samples@),
        ({
            let t = sorted_of(samples@);
            &&& stats.min == t[0]
            &&& stats.max == t[t.len() - 1]
            &&& stats.median_twice == if samples@.len() % 2 == 0 {
                t[samples@.len() as int / 2 - 1] + t[samples@.len() as int / 2]
            } else {
                2 * t[samples@.len() as int / 2]
            }
        }),
{
    broadcast use vstd::seq_lib::group_to_multiset_ensures;

    let sorted_v = sort_samples(samples);
    proof {
        lemma_sorted_of(samples@, sorted_v@);
    }
    let n = sorted_v.len();
    let mut total: u128 = 0;
    let mut idx: usize = 0;
    while idx < samples.len()
        invariant
            idx <= samples@.len(),
            total == sum_samples(samples@.subrange(0, idx as int)),
        decreases samples@.len() - idx,
    {
        proof {
            lemma_sum_samples_bound(samples@.subrange(0, idx as int));
            assert(samples@.subrange(0, idx as int).len() == idx);
            assert(idx * (u64::MAX as int) + u64::MAX == (idx + 1) * (u64::MAX as int))
                by (nonlinear_arith);
            assert((idx + 1) * (u64::MAX as int) <= u128::MAX) by (nonlinear_arith)
                requires
                    idx + 1 <= 0x1_0000_0000_0000_0000int,
            ;
            assert(samples@.subrange(0, idx + 1).drop_last() =~= samples@.subrange(0, idx as int));
        }
        total = total + samples[idx] as u128;
        idx = idx + 1;
    }
    proof {
        assert(samples@.subrange(0, samples@.len() as int) =~= samples@);
    }
    let min = sorted_v[0];
    let max = sorted_v[n - 1];
    let mid = n / 2;
    let median_twice: u128 = if n % 2 == 0 {
        sorted_v[mid - 1] as u128 + sorted_v[mid] as u128
    } else {
        2 * (sorted_v[mid] as u128)
    };
    LatencyStats { count: n, total, min, max, median_twice }
}

} // verus!
