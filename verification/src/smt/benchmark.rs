//! Latency statistics for the solver-strategy benchmark.
//!
//! The benchmark itself times solver runs, which happens outside this crate;
//! here the timings of one strategy are summarised (minimum, maximum,
//! average and 95th percentile) and a report's strategies are ranked.
use vstd::prelude::*;
use crate::smt::types::{SmtLatencyBenchmarkReport, SmtProofStrategy, SmtStrategyLatency};

verus! {

broadcast use vstd::seq_lib::group_to_multiset_ensures, vstd::multiset::group_multiset_axioms;

// ── Sorting samples ascending ───────────────────────────────────────────────

/// Where `x` goes in `s`: after the last element not greater than it.
pub open spec fn asc_pos(s: Seq<u128>, x: u128) -> int
    decreases s.len(),
{
    if s.len() == 0 {
        0
    } else if s.last() <= x {
        s.len() as int
    } else {
        asc_pos(s.drop_last(), x)
    }
}

/// `s` sorted ascending by insertion, one element at a time.
pub open spec fn sort_asc(s: Seq<u128>) -> Seq<u128>
    decreases s.len(),
{
    if s.len() == 0 {
        s
    } else {
        let t = sort_asc(s.drop_last());
        t.insert(asc_pos(t, s.last()), s.last())
    }
}

/// Whether `s` is in ascending order.
pub open spec fn is_ascending(s: Seq<u128>) -> bool {
    forall|i: int, j: int| 0 <= i < j < s.len() ==> s[i] <= s[j]
}

proof fn lemma_asc_pos(s: Seq<u128>, x: u128)
    ensures
        0 <= asc_pos(s, x) <= s.len(),
        asc_pos(s, x) > 0 ==> s[asc_pos(s, x) - 1] <= x,
        forall|j: int| asc_pos(s, x) <= j < s.len() ==> x < #[trigger] s[j],
    decreases s.len(),
{
    if s.len() > 0 && !(s.last() <= x) {
        lemma_asc_pos(s.drop_last(), x);
        assert forall|j: int| asc_pos(s, x) <= j < s.len() implies x < #[trigger] s[j] by {
            if j < s.len() - 1 {
                assert(s[j] == s.drop_last()[j]);
            }
        }
    }
}

/// Sorting orders ascending and keeps exactly the same samples.
pub proof fn lemma_sort_asc(s: Seq<u128>)
    ensures
        is_ascending(sort_asc(s)),
        sort_asc(s).to_multiset() == s.to_multiset(),
        sort_asc(s).len() == s.len(),
    decreases s.len(),
{
    if s.len() > 0 {
        let p = s.drop_last();
        let t = sort_asc(p);
        let x = s.last();
        lemma_sort_asc(p);
        lemma_asc_pos(t, x);
        let k = asc_pos(t, x);
        let u = t.insert(k, x);
        assert forall|i: int, j: int| 0 <= i < j < u.len() implies u[i] <= u[j] by {
            if j < k {
            } else if j == k {
                if i < k - 1 {
                    assert(t[i] <= t[k - 1]);
                }
            } else if i < k {
                assert(t[i] <= t[j - 1]);
            } else if i == k {
                assert(x < t[j - 1]);
            } else {
            }
        }
        assert(s =~= p.push(x));
    }
}

/// Inserts `x` into ascending `v` after the last element not greater than it.
fn insert_asc(v: &mut Vec<u128>, x: u128)
    ensures
        final(v)@ == old(v)@.insert(asc_pos(old(v)@, x), x),
{
    let mut pos = v.len();
    assert(v@.take(pos as int) =~= v@);
    while pos > 0 && v[pos - 1] > x
        invariant
            pos <= v@.len(),
            v@ == old(v)@,
            asc_pos(v@, x) == asc_pos(v@.take(pos as int), x),
        decreases pos,
    {
        assert(v@.take(pos as int).drop_last() =~= v@.take(pos - 1));
        pos = pos - 1;
    }
    assert(asc_pos(v@.take(pos as int), x) == pos);
    v.insert(pos, x);
}

/// The samples sorted ascending.
fn sorted_samples(samples: &Vec<u128>) -> (r: Vec<u128>)
    ensures
        r@ == sort_asc(samples@),
{
    let mut out: Vec<u128> = Vec::new();
    let mut i: usize = 0;
    while i < samples.len()
        invariant
            i <= samples@.len(),
            out@ == sort_asc(samples@.take(i as int)),
        decreases samples.len() - i,
    {
        assert(samples@.take(i + 1).drop_last() =~= samples@.take(i as int));
        insert_asc(&mut out, samples[i]);
        i = i + 1;
    }
    assert(samples@.take(samples@.len() as int) =~= samples@);
    out
}

// ── Statistics ──────────────────────────────────────────────────────────────

/// The sum of the samples.
pub open spec fn sum(s: Seq<u128>) -> nat
    decreases s.len(),
{
    if s.len() == 0 {
        0
    } else {
        sum(s.drop_last()) + s.last() as nat
    }
}

/// The index of the 95th percentile among `n` sorted samples:
/// `(n - 1) * 0.95` rounded to the nearest integer, halves rounded up.
pub open spec fn p95_index(n: nat) -> int {
    (((n - 1) * 190 + 100) / 200) as int
}

/// The number of runs a benchmark makes per strategy: at least one.
pub fn benchmark_iterations(requested: usize) -> (r: usize)
    ensures
        r == if requested == 0 { 1 } else { requested },
{
    if requested == 0 { 1 } else { requested }
}

/// The latency statistics of `strategy` from its timings, in microseconds.
pub fn strategy_latency(strategy: SmtProofStrategy, samples: &Vec<u128>) -> (r: SmtStrategyLatency)
    requires
        samples@.len() > 0,
        sum(samples@) <= u128::MAX,
    ensures
        r.strategy == strategy,
        r.runs == samples@.len(),
        r.min_micros == sort_asc(samples@)[0],
        r.max_micros == sort_asc(samples@).last(),
        r.avg_micros == sum(samples@) / samples@.len(),
        r.p95_micros == sort_asc(samples@)[p95_index(samples@.len())],
{
    let sorted = sorted_samples(samples);
    proof {
        lemma_sort_asc(samples@);
    }
    let n = sorted.len();
    let mut total: u128 = 0;
    let mut i: usize = 0;
    while i < samples.len()
        invariant
            i <= samples@.len(),
            total == sum(samples@.take(i as int)),
            sum(samples@) <= u128::MAX,
        decreases samples.len() - i,
    {
        assert(samples@.take(i + 1).drop_last() =~= samples@.take(i as int));
        proof {
            lemma_sum_prefix(samples@, i as int + 1);
        }
        total = total + samples[i];
        i = i + 1;
    }
    assert(samples@.take(samples@.len() as int) =~= samples@);
    let k: usize = ((n - 1) / 20 * 19) + (((n - 1) % 20) * 19 + 10) / 20;
    proof {
        assert(k == p95_index(n as nat)) by (nonlinear_arith)
            requires
                k == ((n - 1) / 20 * 19) + (((n - 1) % 20) * 19 + 10) / 20,
                n >= 1,
        ;
        assert(k < n) by (nonlinear_arith)
            requires
                k == ((n - 1) / 20 * 19) + (((n - 1) % 20) * 19 + 10) / 20,
                n >= 1,
        ;
    }
    SmtStrategyLatency {
        strategy,
        runs: samples.len(),
        min_micros: sorted[0],
        max_micros: sorted[n - 1],
        avg_micros: total / (n as u128),
        p95_micros: sorted[k],
    }
}

/// The sum of a prefix never exceeds the sum of the whole.
proof fn lemma_sum_prefix(s: Seq<u128>, i: int)
    requires
        0 <= i <= s.len(),
    ensures
        sum(s.take(i)) <= sum(s),
    decreases s.len() - i,
{
    if i < s.len() {
        lemma_sum_prefix(s, i + 1);
        assert(s.take(i + 1).drop_last() =~= s.take(i));
    } else {
        assert(s.take(i) =~= s);
    }
}

/// Every sample lies between the first and the last of the sorted samples.
proof fn lemma_sorted_bounds(s: Seq<u128>, e: u128)
    requires
        s.contains(e),
    ensures
        sort_asc(s)[0] <= e <= sort_asc(s).last(),
{
    lemma_sort_asc(s);
    let t = sort_asc(s);
    assert(t.to_multiset().count(e) > 0);
    assert(t.contains(e));
    let k = choose|k: int| 0 <= k < t.len() && t[k] == e;
    if k > 0 {
        assert(t[0] <= t[k]);
    }
    if k < t.len() - 1 {
        assert(t[k] <= t[t.len() - 1]);
    }
}

/// A sum of `n` samples, each between `lo` and `hi`, lies between `n * lo` and `n * hi`.
proof fn lemma_sum_bounds(s: Seq<u128>, lo: int, hi: int)
    requires
        forall|i: int| 0 <= i < s.len() ==> lo <= #[trigger] s[i] <= hi,
    ensures
        s.len() * lo <= sum(s) <= s.len() * hi,
    decreases s.len(),
{
    if s.len() > 0 {
        let p = s.drop_last();
        assert forall|i: int| 0 <= i < p.len() implies lo <= #[trigger] p[i] <= hi by {
            assert(p[i] == s[i]);
        }
        lemma_sum_bounds(p, lo, hi);
        assert(s.len() * lo == p.len() * lo + lo) by (nonlinear_arith)
            requires
                s.len() == p.len() + 1,
        ;
        assert(s.len() * hi == p.len() * hi + hi) by (nonlinear_arith)
            requires
                s.len() == p.len() + 1,
        ;
    }
}

/// The statistics of a strategy are ordered: the minimum is at most the
/// average and the 95th percentile, which are at most the maximum.
pub proof fn law_latency_statistics_ordered(samples: Seq<u128>)
    requires
        samples.len() > 0,
    ensures
        sort_asc(samples)[0] <= sum(samples) / samples.len() <= sort_asc(samples).last(),
        sort_asc(samples)[0] <= sort_asc(samples)[p95_index(samples.len())] <= sort_asc(samples).last(),
{
    lemma_sort_asc(samples);
    let t = sort_asc(samples);
    let lo: int = t[0] as int;
    let hi: int = t.last() as int;
    assert forall|i: int| 0 <= i < samples.len() implies lo <= #[trigger] samples[i] <= hi by {
        lemma_sorted_bounds(samples, samples[i]);
    }
    lemma_sum_bounds(samples, lo, hi);
    let n = samples.len();
    assert(lo <= sum(samples) / n <= hi) by (nonlinear_arith)
        requires
            n > 0,
            n * lo <= sum(samples) <= n * hi,
            0 <= lo,
    {
        vstd::arithmetic::div_mod::lemma_div_is_ordered((n * lo) as int, sum(samples) as int, n as int);
        vstd::arithmetic::div_mod::lemma_div_is_ordered(sum(samples) as int, (n * hi) as int, n as int);
        vstd::arithmetic::div_mod::lemma_div_multiples_vanish(lo, n as int);
        vstd::arithmetic::div_mod::lemma_div_multiples_vanish(hi, n as int);
    }
    let k = p95_index(n);
    assert(0 <= k < n) by (nonlinear_arith)
        requires
            k == (((n - 1) * 190 + 100) / 200) as int,
            n >= 1,
    ;
    if k > 0 {
        assert(t[0] <= t[k]);
    }
    if k < n - 1 {
        assert(t[k] <= t[n - 1]);
    }
}

// ── Ranking strategies ──────────────────────────────────────────────────────

/// Where `x` goes among strategies ranked by descending average: after the
/// last one whose average is at least as high.
pub open spec fn desc_pos(s: Seq<SmtStrategyLatency>, x: SmtStrategyLatency) -> int
    decreases s.len(),
{
    if s.len() == 0 {
        0
    } else if s.last().avg_micros >= x.avg_micros {
        s.len() as int
    } else {
        desc_pos(s.drop_last(), x)
    }
}

/// The strategies ranked by descending average latency, keeping the input
/// order among equal averages.
pub open spec fn rank_by_avg_desc(s: Seq<SmtStrategyLatency>) -> Seq<SmtStrategyLatency>
    decreases s.len(),
{
    if s.len() == 0 {
        s
    } else {
        let t = rank_by_avg_desc(s.drop_last());
        t.insert(desc_pos(t, s.last()), s.last())
    }
}

proof fn lemma_desc_pos(s: Seq<SmtStrategyLatency>, x: SmtStrategyLatency)
    ensures
        0 <= desc_pos(s, x) <= s.len(),
        desc_pos(s, x) > 0 ==> s[desc_pos(s, x) - 1].avg_micros >= x.avg_micros,
        forall|j: int| desc_pos(s, x) <= j < s.len() ==> x.avg_micros > (#[trigger] s[j]).avg_micros,
    decreases s.len(),
{
    if s.len() > 0 && !(s.last().avg_micros >= x.avg_micros) {
        lemma_desc_pos(s.drop_last(), x);
        assert forall|j: int| desc_pos(s, x) <= j < s.len() implies x.avg_micros > (
        #[trigger] s[j]).avg_micros by {
            if j < s.len() - 1 {
                assert(s[j] == s.drop_last()[j]);
            }
        }
    }
}

/// The ranking is ordered by descending average and holds exactly the
/// report's strategies.
pub proof fn law_ranking_sorted_permutation(s: Seq<SmtStrategyLatency>)
    ensures
        forall|i: int, j: int|
            0 <= i < j < rank_by_avg_desc(s).len() ==> (#[trigger] rank_by_avg_desc(s)[i]).avg_micros
                >= (#[trigger] rank_by_avg_desc(s)[j]).avg_micros,
        rank_by_avg_desc(s).to_multiset() == s.to_multiset(),
    decreases s.len(),
{
    if s.len() > 0 {
        let p = s.drop_last();
        let t = rank_by_avg_desc(p);
        let x = s.last();
        law_ranking_sorted_permutation(p);
        lemma_desc_pos(t, x);
        let k = desc_pos(t, x);
        let u = t.insert(k, x);
        assert forall|i: int, j: int| 0 <= i < j < u.len() implies (#[trigger] u[i]).avg_micros
            >= (#[trigger] u[j]).avg_micros by {
            if j < k {
                assert(u[i] == t[i] && u[j] == t[j]);
            } else if j == k {
                if i < k - 1 {
                    assert(t[i].avg_micros >= t[k - 1].avg_micros);
                }
            } else if i < k {
                assert(u[j] == t[j - 1]);
                assert(t[i].avg_micros >= t[j - 1].avg_micros);
            } else if i == k {
                assert(u[j] == t[j - 1]);
            } else {
                assert(u[i] == t[i - 1] && u[j] == t[j - 1]);
            }
        }
        assert(s =~= p.push(x));
    }
}

impl SmtLatencyBenchmarkReport {
    /// The strategies ranked by descending average latency; strategies with
    /// equal averages keep their order in the report.
    pub fn most_expensive_first(&self) -> (r: Vec<SmtStrategyLatency>)
        ensures
            r@ == rank_by_avg_desc(self.strategies@),
    {
        let mut out: Vec<SmtStrategyLatency> = Vec::new();
        let mut i: usize = 0;
        while i < self.strategies.len()
            invariant
                i <= self.strategies@.len(),
                out@ == rank_by_avg_desc(self.strategies@.take(i as int)),
            decreases self.strategies.len() - i,
        {
            assert(self.strategies@.take(i + 1).drop_last() =~= self.strategies@.take(i as int));
            let x = self.strategies[i];
            let mut pos = out.len();
            assert(out@.take(pos as int) =~= out@);
            while pos > 0 && out[pos - 1].avg_micros < x.avg_micros
                invariant
                    pos <= out@.len(),
                    desc_pos(out@, x) == desc_pos(out@.take(pos as int), x),
                decreases pos,
            {
                assert(out@.take(pos as int).drop_last() =~= out@.take(pos - 1));
                pos = pos - 1;
            }
            assert(desc_pos(out@.take(pos as int), x) == pos);
            out.insert(pos, x);
            i = i + 1;
        }
        assert(self.strategies@.take(self.strategies@.len() as int) =~= self.strategies@);
        out
    }
}

} // verus!
