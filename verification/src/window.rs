//! Bounded sliding windows of latency samples and nearest-rank percentiles.
use std::collections::VecDeque;
use vstd::prelude::*;
use vstd::relations::{sorted_by, total_ordering};

verus! {

broadcast use vstd::seq_lib::group_to_multiset_ensures;

/// Ascending order on latency samples.
pub open spec fn ascending() -> spec_fn(u64, u64) -> bool {
    |a: u64, b: u64| a <= b
}

/// The number of samples a window keeps: at least one, even when configured with zero.
pub open spec fn window_capacity(max_samples: nat) -> nat {
    if max_samples == 0 { 1 } else { max_samples }
}

/// The samples of a window after one more sample arrives: the oldest one is
/// evicted when the window is already full.
pub open spec fn window_push(samples: Seq<u64>, max_samples: nat, sample: u64) -> Seq<u64> {
    if samples.len() >= max_samples && samples.len() > 0 {
        samples.drop_first().push(sample)
    } else {
        samples.push(sample)
    }
}

/// Index into the sorted samples of the `p`-th percentile (nearest rank):
/// `ceil(p * n / 100) - 1`, saturated at zero and clamped to the last index.
pub open spec fn rank_index(p: nat, n: nat) -> int {
    let rank = (p * n + 99) / 100;
    let idx = if rank == 0 { 0 } else { rank - 1 };
    if idx > n - 1 { n - 1 } else { idx }
}

/// The samples in ascending order.
pub open spec fn sorted_samples(samples: Seq<u64>) -> Seq<u64> {
    samples.sort_by(ascending())
}

/// The `p`-th percentile of the samples, `None` for an empty window.
pub open spec fn window_percentile(samples: Seq<u64>, p: nat) -> Option<u64> {
    if samples.len() == 0 {
        None
    } else {
        Some(sorted_samples(samples)[rank_index(p, samples.len())])
    }
}

pub proof fn lemma_ascending_total()
    ensures
        total_ordering(ascending()),
{
    assert(vstd::relations::reflexive(ascending()));
    assert(vstd::relations::antisymmetric(ascending()));
    assert(vstd::relations::transitive(ascending()));
    assert(vstd::relations::strongly_connected(ascending()));
}

/// Facts about the sorted view of a window: same samples, ascending, same length.
pub proof fn lemma_sorted_samples(samples: Seq<u64>)
    ensures
        sorted_samples(samples).to_multiset() == samples.to_multiset(),
        sorted_by(sorted_samples(samples), ascending()),
        sorted_samples(samples).len() == samples.len(),
{
    lemma_ascending_total();
    samples.lemma_sort_by_ensures(ascending());
    samples.to_multiset_ensures();
    sorted_samples(samples).to_multiset_ensures();
}


/// The window after a run of arrivals, one `window_push` per arrival.
pub open spec fn window_after(samples: Seq<u64>, max_samples: nat, arrivals: Seq<u64>) -> Seq<u64>
    decreases arrivals.len(),
{
    if arrivals.len() == 0 {
        samples
    } else {
        window_push(window_after(samples, max_samples, arrivals.drop_last()), max_samples, arrivals.last())
    }
}

/// The last `k` elements of `s` (all of them when there are fewer).
pub open spec fn latest(s: Seq<u64>, k: nat) -> Seq<u64> {
    if s.len() <= k {
        s
    } else {
        s.skip(s.len() - k)
    }
}

/// One arrival on a window holding the latest samples of a history leaves it
/// holding the latest samples of the history extended by that arrival.
pub proof fn lemma_window_push_latest(history: Seq<u64>, max_samples: nat, sample: u64)
    ensures
        window_push(latest(history, window_capacity(max_samples)), max_samples, sample)
            == latest(history.push(sample), window_capacity(max_samples)),
{
    let c = window_capacity(max_samples);
    let w = latest(history, c);
    if w.len() >= max_samples && w.len() > 0 {
        assert(history.len() >= c);
        assert(w.drop_first().push(sample) =~= latest(history.push(sample), c));
    } else {
        assert(history.len() < c);
        assert(w.push(sample) =~= latest(history.push(sample), c));
    }
}

/// Sliding window law: whatever arrives, a window that starts within its
/// capacity holds exactly the most recent samples, as many as its capacity allows.
pub proof fn lemma_window_keeps_latest(samples: Seq<u64>, max_samples: nat, arrivals: Seq<u64>)
    requires
        samples.len() <= window_capacity(max_samples),
    ensures
        window_after(samples, max_samples, arrivals) == latest(samples + arrivals, window_capacity(max_samples)),
    decreases arrivals.len(),
{
    let c = window_capacity(max_samples);
    if arrivals.len() == 0 {
        assert(samples + arrivals =~= samples);
    } else {
        let prefix = arrivals.drop_last();
        let x = arrivals.last();
        lemma_window_keeps_latest(samples, max_samples, prefix);
        lemma_window_push_latest(samples + prefix, max_samples, x);
        assert(samples + arrivals =~= (samples + prefix).push(x));
    }
}

/// A window never holds more samples than its capacity.
pub proof fn lemma_window_push_bounded(samples: Seq<u64>, max_samples: nat, sample: u64)
    requires
        samples.len() <= window_capacity(max_samples),
    ensures
        window_push(samples, max_samples, sample).len() <= window_capacity(max_samples),
{
}

/// The rank used for a percentile grows with the percentile.
pub proof fn lemma_rank_index_monotone(p: nat, q: nat, n: nat)
    requires
        p <= q,
        n > 0,
    ensures
        0 <= rank_index(p, n) <= rank_index(q, n) < n,
{
    assert(p * n <= q * n) by (nonlinear_arith)
        requires
            p <= q,
    ;
    assert((p * n + 99) / 100 <= (q * n + 99) / 100) by (nonlinear_arith)
        requires
            p * n <= q * n,
    ;
}

/// Percentiles are ordered: a lower percentile never exceeds a higher one
/// (so p50 <= p95 <= p99).
pub proof fn lemma_percentile_monotone(samples: Seq<u64>, p: nat, q: nat)
    requires
        p <= q,
        samples.len() > 0,
    ensures
        window_percentile(samples, p).unwrap() <= window_percentile(samples, q).unwrap(),
{
    lemma_sorted_samples(samples);
    lemma_rank_index_monotone(p, q, samples.len());
    let i = rank_index(p, samples.len());
    let j = rank_index(q, samples.len());
    if i < j {
        assert(ascending()(sorted_samples(samples)[i], sorted_samples(samples)[j]));
    }
}

/// A percentile of a non-empty window is one of its samples; the 100th
/// percentile is the largest sample and the 0th the smallest.
pub proof fn lemma_percentile_is_sample(samples: Seq<u64>, p: nat)
    requires
        samples.len() > 0,
    ensures
        samples.contains(window_percentile(samples, p).unwrap()),
        p >= 100 ==> forall|k: int| 0 <= k < samples.len() ==> samples[k] <= window_percentile(samples, p).unwrap(),
        p == 0 ==> forall|k: int| 0 <= k < samples.len() ==> window_percentile(samples, p).unwrap() <= samples[k],
{
    lemma_sorted_samples(samples);
    let sorted = sorted_samples(samples);
    let n = samples.len();
    let i = rank_index(p, n);
    lemma_rank_index_monotone(0, p, n);
    samples.to_multiset_ensures();
    sorted.to_multiset_ensures();
    assert(sorted.contains(sorted[i]));
    assert(sorted.to_multiset().count(sorted[i]) > 0);
    assert(samples.to_multiset().count(sorted[i]) > 0);
    if p >= 100 {
        assert(p * n >= 100 * n) by (nonlinear_arith)
            requires
                p >= 100,
        ;
        assert(i == n - 1);
        assert forall|k: int| 0 <= k < n implies samples[k] <= sorted[i] by {
            assert(samples.contains(samples[k]));
            assert(samples.to_multiset().count(samples[k]) > 0);
            assert(sorted.to_multiset().count(samples[k]) > 0);
            assert(sorted.contains(samples[k]));
            let m = choose|m: int| 0 <= m < n && sorted[m] == samples[k];
            if m < i {
                assert(ascending()(sorted[m], sorted[i]));
            }
        }
    }
    if p == 0 {
        assert forall|k: int| 0 <= k < n implies sorted[i] <= samples[k] by {
            assert(samples.contains(samples[k]));
            assert(samples.to_multiset().count(samples[k]) > 0);
            assert(sorted.to_multiset().count(samples[k]) > 0);
            assert(sorted.contains(samples[k]));
            let m = choose|m: int| 0 <= m < n && sorted[m] == samples[k];
            if m > 0 {
                assert(ascending()(sorted[0], sorted[m]));
            }
        }
    }
}

/// The samples below `v`.
pub open spec fn below(v: u64) -> spec_fn(u64) -> bool {
    |x: u64| x < v
}

/// The samples at or below `v`.
pub open spec fn at_most(v: u64) -> spec_fn(u64) -> bool {
    |x: u64| x <= v
}

proof fn lemma_filter_to_multiset(t: Seq<u64>, f: spec_fn(u64) -> bool)
    ensures
        t.filter(f).to_multiset() =~= t.to_multiset().filter(f),
    decreases t.len(),
{
    broadcast use vstd::multiset::group_multiset_axioms;

    reveal(Seq::filter);
    if t.len() == 0 {
        assert(t.filter(f) =~= t);
        t.to_multiset_ensures();
        assert(t.to_multiset() =~= vstd::multiset::Multiset::empty());
    } else {
        let dl = t.drop_last();
        lemma_filter_to_multiset(dl, f);
        assert(t =~= dl.push(t.last()));
        dl.to_multiset_ensures();
        dl.filter(f).to_multiset_ensures();
    }
}

proof fn lemma_filter_all(t: Seq<u64>, f: spec_fn(u64) -> bool)
    requires
        forall|i: int| 0 <= i < t.len() ==> f(t[i]),
    ensures
        t.filter(f).len() == t.len(),
    decreases t.len(),
{
    reveal(Seq::filter);
    if t.len() > 0 {
        lemma_filter_all(t.drop_last(), f);
    }
}

proof fn lemma_sorted_count_below(t: Seq<u64>, r: int)
    requires
        sorted_by(t, ascending()),
        0 <= r < t.len(),
    ensures
        t.filter(below(t[r])).len() <= r,
    decreases t.len(),
{
    reveal(Seq::filter);
    let dl = t.drop_last();
    if r < t.len() - 1 {
        assert(ascending()(t[r], t[t.len() - 1]));
        assert(sorted_by(dl, ascending()));
        assert(dl[r] == t[r]);
        lemma_sorted_count_below(dl, r);
    } else {
        dl.lemma_filter_len(below(t[r]));
    }
}

proof fn lemma_sorted_count_at_most(t: Seq<u64>, r: int)
    requires
        sorted_by(t, ascending()),
        0 <= r < t.len(),
    ensures
        t.filter(at_most(t[r])).len() >= r + 1,
    decreases t.len(),
{
    reveal(Seq::filter);
    let dl = t.drop_last();
    if r < t.len() - 1 {
        assert(sorted_by(dl, ascending()));
        assert(dl[r] == t[r]);
        lemma_sorted_count_at_most(dl, r);
    } else {
        assert forall|i: int| 0 <= i < dl.len() implies at_most(t[r])(dl[i]) by {
            assert(ascending()(t[i], t[r]));
        }
        lemma_filter_all(dl, at_most(t[r]));
    }
}

/// Nearest-rank law: for a percentile `p` of at most 100, the value reported
/// has at least `p`% of the samples at or below it, and it is the smallest
/// such sample: the samples strictly below it are none, or fewer than `p`%.
pub proof fn lemma_percentile_nearest_rank(samples: Seq<u64>, p: nat)
    requires
        samples.len() > 0,
        p <= 100,
    ensures
        ({
            let v = window_percentile(samples, p).unwrap();
            let n = samples.len();
            &&& 100 * samples.to_multiset().filter(at_most(v)).len() >= p * n
            &&& (samples.to_multiset().filter(below(v)).len() == 0
                || 100 * samples.to_multiset().filter(below(v)).len() < p * n)
        }),
{
    lemma_sorted_samples(samples);
    let t = sorted_samples(samples);
    let n = samples.len();
    let r = rank_index(p, n);
    lemma_rank_index_monotone(0, p, n);
    let v = t[r];
    lemma_sorted_count_below(t, r);
    lemma_sorted_count_at_most(t, r);
    lemma_filter_to_multiset(t, below(v));
    lemma_filter_to_multiset(t, at_most(v));
    t.filter(below(v)).to_multiset_ensures();
    t.filter(at_most(v)).to_multiset_ensures();
    assert(p * n <= 100 * n) by (nonlinear_arith)
        requires
            p <= 100,
    ;
    let pn = p * n;
    let rank = (pn + 99) / 100;
    assert(100 * rank >= pn && 100 * rank <= pn + 99);
}

/// A bounded window of latency samples in arrival order.
pub(crate) struct LatencyWindow {
    samples: VecDeque<u64>,
    max_samples: usize,
}

impl LatencyWindow {
    pub(crate) closed spec fn samples_view(&self) -> Seq<u64> {
        self.samples@
    }

    pub(crate) closed spec fn max_view(&self) -> nat {
        self.max_samples as nat
    }

    /// An empty window that keeps at most `max_samples` samples.
    pub(crate) fn new(max_samples: usize) -> (w: Self)
        ensures
            w.samples_view() == Seq::<u64>::empty(),
            w.max_view() == max_samples,
    {
        LatencyWindow { samples: VecDeque::new(), max_samples }
    }

    /// Number of samples held.
    pub(crate) fn len(&self) -> (n: usize)
        ensures
            n == self.samples_view().len(),
    {
        self.samples.len()
    }

    /// Adds a sample, evicting the oldest one when the window is full.
    pub(crate) fn push(&mut self, latency_ms: u64)
        ensures
            final(self).samples_view() == window_push(old(self).samples_view(), old(self).max_view(), latency_ms),
            final(self).max_view() == old(self).max_view(),
    {
        if self.samples.len() >= self.max_samples {
            let _ = self.samples.pop_front();
        }
        self.samples.push_back(latency_ms);
    }

    /// The `p`-th percentile (in whole percent) of the samples, by exact sort.
    pub(crate) fn percentile(&self, p: u32) -> (r: Option<u64>)
        ensures
            r == window_percentile(self.samples_view(), p as nat),
    {
        let n = self.samples.len();
        if n == 0 {
            return None;
        }
        let sorted = sorted_copy(&self.samples);
        proof {
            lemma_sorted_samples(self.samples@);
            lemma_ascending_total();
            vstd::seq_lib::lemma_sorted_unique(sorted@, sorted_samples(self.samples@), ascending());
        }
        assert((p as u128) * (n as u128) <= 0xffff_ffff * 0xffff_ffff_ffff_ffffu128) by (nonlinear_arith)
            requires
                p <= 0xffff_ffff,
                n <= 0xffff_ffff_ffff_ffff,
        ;
        let rank: u128 = ((p as u128) * (n as u128) + 99) / 100;
        let idx: u128 = if rank == 0 { 0 } else { rank - 1 };
        let last: u128 = (n - 1) as u128;
        let i: usize = if idx > last { (n - 1) } else { idx as usize };
        Some(sorted[i])
    }
}

/// The samples of a deque in ascending order, built by insertion.
fn sorted_copy(samples: &VecDeque<u64>) -> (r: Vec<u64>)
    ensures
        sorted_by(r@, ascending()),
        r@.to_multiset() == samples@.to_multiset(),
{
    let n = samples.len();
    let mut out: Vec<u64> = Vec::new();
    let mut i: usize = 0;
    while i < n
        invariant
            n == samples@.len(),
            i <= n,
            sorted_by(out@, ascending()),
            out@.to_multiset() == samples@.take(i as int).to_multiset(),
        decreases n - i,
    {
        let x = samples[i];
        let mut pos: usize = 0;
        while pos < out.len() && out[pos] <= x
            invariant
                pos <= out@.len(),
                forall|k: int| 0 <= k < pos ==> out@[k] <= x,
            decreases out@.len() - pos,
        {
            pos = pos + 1;
        }
        let ghost before = out@;
        out.insert(pos, x);
        proof {
            assert(out@ == before.insert(pos as int, x));
            assert forall|a: int, b: int| 0 <= a < b < out@.len() implies #[trigger] ascending()(out@[a], out@[b]) by {
                if b < pos {
                } else if a < pos && b == pos {
                } else if a < pos {
                    assert(ascending()(before[a], before[b - 1]));
                } else if a == pos {
                    assert(pos < before.len());
                    assert(ascending()(before[pos as int], before[b - 1]));
                } else {
                    assert(ascending()(before[a - 1], before[b - 1]));
                }
            }
            assert(samples@.take(i + 1) == samples@.take(i as int).push(x));
        }
        i = i + 1;
    }
    assert(samples@.take(n as int) == samples@);
    out
}

} // verus!
