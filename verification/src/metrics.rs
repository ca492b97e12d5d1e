//! In-memory metrics engine: request counters and per-label latency windows.
use vstd::prelude::*;
use vstd::wrapping::u64_specs::wrapping_add;

use crate::domain::{MetricsRecorder, RequestMetricPoint};
use crate::window::{
    latest, lemma_percentile_is_sample, lemma_percentile_monotone, lemma_window_push_latest,
    window_capacity, window_percentile, window_push, LatencyWindow,
};

verus! {

/// A label as plain values: route group, internal address, external address.
pub type LabelKey = (Seq<char>, Seq<char>, Seq<char>);

/// Aggregation key: route group, internal (source) address and external
/// (destination) address, so that a degraded node stays visible behind NAT.
#[derive(Debug, Clone, PartialEq, Eq, Hash)]
pub struct MetricLabel {
    pub route_group: String,
    pub internal_ip: String,
    pub external_ip: String,
}

impl MetricLabel {
    pub open spec fn key(&self) -> LabelKey {
        (self.route_group@, self.internal_ip@, self.external_ip@)
    }
}

/// The label a measurement is aggregated under.
pub open spec fn point_key(point: RequestMetricPoint) -> LabelKey {
    (point.route_group@, point.internal_ip@, point.external_ip@)
}

/// The state of a metrics engine as plain values.
pub struct MetricsModel {
    pub requests: u64,
    pub errors: u64,
    pub retries: u64,
    pub timeouts: u64,
    /// One latency window per label, in the order the labels first appeared.
    pub windows: Seq<(LabelKey, Seq<u64>)>,
    pub max_samples: nat,
}

/// `i` is the first position whose label is `key`.
pub open spec fn is_first_with(windows: Seq<(LabelKey, Seq<u64>)>, key: LabelKey, i: int) -> bool {
    &&& 0 <= i < windows.len()
    &&& windows[i].0 == key
    &&& forall|j: int| 0 <= j < i ==> windows[j].0 != key
}

/// Position of the window of `key`, or -1 when the label has none yet.
pub open spec fn window_position(windows: Seq<(LabelKey, Seq<u64>)>, key: LabelKey) -> int {
    if exists|i: int| is_first_with(windows, key, i) {
        choose|i: int| is_first_with(windows, key, i)
    } else {
        -1
    }
}

/// The windows after a sample of `latency_ms` arrives for `key`: the label's
/// window takes the sample, or a new window is opened at the end.
pub open spec fn record_windows(
    windows: Seq<(LabelKey, Seq<u64>)>,
    key: LabelKey,
    max_samples: nat,
    latency_ms: u64,
) -> Seq<(LabelKey, Seq<u64>)> {
    let i = window_position(windows, key);
    if i >= 0 {
        windows.update(i, (key, window_push(windows[i].1, max_samples, latency_ms)))
    } else {
        windows.push((key, window_push(Seq::empty(), max_samples, latency_ms)))
    }
}

/// The engine state after one measurement: counters wrap around like the
/// atomic counters they stand for.
pub open spec fn record_model(m: MetricsModel, point: RequestMetricPoint) -> MetricsModel {
    MetricsModel {
        requests: wrapping_add(m.requests, 1),
        errors: if point.is_error { wrapping_add(m.errors, 1) } else { m.errors },
        retries: wrapping_add(m.retries, point.retry_count as u64),
        timeouts: wrapping_add(m.timeouts, point.timeout_count as u64),
        windows: record_windows(m.windows, point_key(point), m.max_samples, point.latency_ms),
        max_samples: m.max_samples,
    }
}

/// Every label has one window, and no window exceeds its capacity.
pub open spec fn windows_wf(windows: Seq<(LabelKey, Seq<u64>)>, max_samples: nat) -> bool {
    &&& forall|i: int, j: int| 0 <= i < j < windows.len() ==> windows[i].0 != windows[j].0
    &&& forall|i: int| 0 <= i < windows.len() ==> #[trigger] windows[i].1.len() <= window_capacity(max_samples)
}

proof fn lemma_position_found(windows: Seq<(LabelKey, Seq<u64>)>, key: LabelKey, i: int)
    requires
        is_first_with(windows, key, i),
    ensures
        window_position(windows, key) == i,
{
    let k = choose|k: int| is_first_with(windows, key, k);
    assert(is_first_with(windows, key, k));
    if k < i {
        assert(windows[k].0 != key);
    } else if k > i {
        assert(windows[i].0 != key);
    }
}

proof fn lemma_position_absent(windows: Seq<(LabelKey, Seq<u64>)>, key: LabelKey)
    requires
        forall|j: int| 0 <= j < windows.len() ==> windows[j].0 != key,
    ensures
        window_position(windows, key) == -1,
{
    if exists|i: int| is_first_with(windows, key, i) {
        let k = choose|k: int| is_first_with(windows, key, k);
        assert(windows[k].0 != key);
    }
}

/// Recording keeps labels distinct and windows within capacity.
pub proof fn lemma_record_preserves_wf(m: MetricsModel, point: RequestMetricPoint)
    requires
        windows_wf(m.windows, m.max_samples),
    ensures
        windows_wf(record_model(m, point).windows, m.max_samples),
        record_model(m, point).max_samples == m.max_samples,
{
    let key = point_key(point);
    let w = m.windows;
    let i = window_position(w, key);
    let r = record_windows(w, key, m.max_samples, point.latency_ms);
    if i >= 0 {
        let k = choose|k: int| is_first_with(w, key, k);
        assert(is_first_with(w, key, k));
        assert forall|a: int| 0 <= a < r.len() implies #[trigger] r[a].1.len() <= window_capacity(m.max_samples) by {
            assert(w[a].1.len() <= window_capacity(m.max_samples));
        }
    } else {
        assert forall|j: int| 0 <= j < w.len() implies w[j].0 != key by {
            if w[j].0 == key {
                lemma_first_exists(w, key, j);
            }
        }
        assert forall|a: int| 0 <= a < r.len() implies #[trigger] r[a].1.len() <= window_capacity(m.max_samples) by {
            if a < w.len() {
                assert(w[a].1.len() <= window_capacity(m.max_samples));
            }
        }
    }
}

proof fn lemma_first_exists(w: Seq<(LabelKey, Seq<u64>)>, key: LabelKey, j: int)
    requires
        0 <= j < w.len(),
        w[j].0 == key,
    ensures
        exists|f: int| is_first_with(w, key, f),
    decreases j,
{
    if exists|g: int| 0 <= g < j && w[g].0 == key {
        let g = choose|g: int| 0 <= g < j && w[g].0 == key;
        lemma_first_exists(w, key, g);
    } else {
        assert(is_first_with(w, key, j));
    }
}

/// Counting law: every measurement counts one request, one error exactly when
/// it failed, and adds its retries and timeouts. While no counter overflows,
/// errors never outnumber requests.
pub proof fn lemma_record_counts(m: MetricsModel, point: RequestMetricPoint)
    requires
        m.errors <= m.requests,
        m.requests < u64::MAX,
        m.retries + point.retry_count <= u64::MAX,
        m.timeouts + point.timeout_count <= u64::MAX,
    ensures
        record_model(m, point).requests == m.requests + 1,
        record_model(m, point).errors == m.errors + (if point.is_error { 1int } else { 0int }),
        record_model(m, point).retries == m.retries + point.retry_count,
        record_model(m, point).timeouts == m.timeouts + point.timeout_count,
        record_model(m, point).errors <= record_model(m, point).requests,
{
}

/// Isolation law: a measurement changes the window of its own label only;
/// every other label keeps its samples and its position.
pub proof fn lemma_record_isolates_labels(m: MetricsModel, point: RequestMetricPoint, i: int)
    requires
        0 <= i < m.windows.len(),
        m.windows[i].0 != point_key(point),
    ensures
        record_model(m, point).windows[i] == m.windows[i],
{
}

/// A label's window inside the engine.
struct LabelledWindow {
    label: MetricLabel,
    window: LatencyWindow,
}

/// Latency percentiles of one label at snapshot time.
#[derive(Debug, Clone)]
pub struct LatencyPercentiles {
    pub label: MetricLabelSnapshot,
    pub p50_ms: Option<u64>,
    pub p95_ms: Option<u64>,
    pub p99_ms: Option<u64>,
    pub sample_count: usize,
}

/// A label as reported in a snapshot.
#[derive(Debug, Clone)]
pub struct MetricLabelSnapshot {
    pub route_group: String,
    pub internal_ip: String,
    pub external_ip: String,
}

impl MetricLabelSnapshot {
    pub open spec fn key(&self) -> LabelKey {
        (self.route_group@, self.internal_ip@, self.external_ip@)
    }
}

/// Aggregated metrics at one instant.
#[derive(Debug, Clone)]
pub struct NetworkMetricsSnapshot {
    pub requests_total: u64,
    pub errors_total: u64,
    pub retries_total: u64,
    pub timeouts_total: u64,
    /// Percentiles per (route group, internal address, external address).
    pub latency_by_label: Vec<LatencyPercentiles>,
}

/// What a snapshot reports for one label window.
pub open spec fn percentiles_of(entry: LatencyPercentiles, window: (LabelKey, Seq<u64>)) -> bool {
    &&& entry.label.key() == window.0
    &&& entry.p50_ms == window_percentile(window.1, 50)
    &&& entry.p95_ms == window_percentile(window.1, 95)
    &&& entry.p99_ms == window_percentile(window.1, 99)
    &&& entry.sample_count == window.1.len()
}

/// Percentile law of a snapshot entry: the percentiles are absent exactly
/// when the label has no sample, and otherwise p50 <= p95 <= p99, each being
/// one of the label's samples.
pub proof fn lemma_snapshot_percentiles_ordered(entry: LatencyPercentiles, window: (LabelKey, Seq<u64>))
    requires
        percentiles_of(entry, window),
    ensures
        entry.p50_ms is None <==> entry.sample_count == 0,
        entry.p95_ms is None <==> entry.sample_count == 0,
        entry.p99_ms is None <==> entry.sample_count == 0,
        entry.sample_count > 0 ==> entry.p50_ms.unwrap() <= entry.p95_ms.unwrap() <= entry.p99_ms.unwrap(),
        entry.sample_count > 0 ==> window.1.contains(entry.p50_ms.unwrap()) && window.1.contains(
            entry.p99_ms.unwrap(),
        ),
{
    if window.1.len() > 0 {
        lemma_percentile_monotone(window.1, 50, 95);
        lemma_percentile_monotone(window.1, 95, 99);
        lemma_percentile_is_sample(window.1, 50);
        lemma_percentile_is_sample(window.1, 99);
    }
}

/// The state of a new engine whose windows keep `max_samples` samples.
pub open spec fn empty_model(max_samples: nat) -> MetricsModel {
    MetricsModel {
        requests: 0,
        errors: 0,
        retries: 0,
        timeouts: 0,
        windows: Seq::empty(),
        max_samples,
    }
}

/// The state after recording `points` in order.
pub open spec fn record_all(m: MetricsModel, points: Seq<RequestMetricPoint>) -> MetricsModel
    decreases points.len(),
{
    if points.len() == 0 {
        m
    } else {
        record_model(record_all(m, points.drop_last()), points.last())
    }
}

/// The latencies recorded under `key`, in order.
pub open spec fn latencies_for(points: Seq<RequestMetricPoint>, key: LabelKey) -> Seq<u64>
    decreases points.len(),
{
    if points.len() == 0 {
        Seq::empty()
    } else if point_key(points.last()) == key {
        latencies_for(points.drop_last(), key).push(points.last().latency_ms)
    } else {
        latencies_for(points.drop_last(), key)
    }
}

/// Number of failed points.
pub open spec fn error_count(points: Seq<RequestMetricPoint>) -> nat
    decreases points.len(),
{
    if points.len() == 0 {
        0
    } else {
        error_count(points.drop_last()) + if points.last().is_error { 1nat } else { 0nat }
    }
}

/// Sum of the retries of the points.
pub open spec fn retry_sum(points: Seq<RequestMetricPoint>) -> nat
    decreases points.len(),
{
    if points.len() == 0 {
        0
    } else {
        retry_sum(points.drop_last()) + points.last().retry_count as nat
    }
}

/// Sum of the timeouts of the points.
pub open spec fn timeout_sum(points: Seq<RequestMetricPoint>) -> nat
    decreases points.len(),
{
    if points.len() == 0 {
        0
    } else {
        timeout_sum(points.drop_last()) + points.last().timeout_count as nat
    }
}

/// Counters wrap modulo 2^64.
pub open spec fn counter_of(n: nat) -> u64 {
    (n % 0x1_0000_0000_0000_0000) as u64
}

proof fn lemma_wrapping_add_counter(n: nat, y: u64)
    ensures
        wrapping_add(counter_of(n), y) == counter_of(n + y as nat),
{
    let m: int = 0x1_0000_0000_0000_0000;
    let x = counter_of(n);
    vstd::arithmetic::div_mod::lemma_add_mod_noop(n as int, y as int, m);
    vstd::arithmetic::div_mod::lemma_small_mod(y as nat, m as nat);
    vstd::arithmetic::div_mod::lemma_mod_bound(n as int, m);
    if x + y > u64::MAX {
        vstd::arithmetic::div_mod::lemma_mod_sub_multiples_vanish(x + y, m);
        vstd::arithmetic::div_mod::lemma_small_mod((x + y - m) as nat, m as nat);
    } else {
        vstd::arithmetic::div_mod::lemma_small_mod((x + y) as nat, m as nat);
    }
}

/// Counting law over a run: after `new` and a run of records, the counters
/// are the number of points, of failed points, and the sums of retries and
/// timeouts, each modulo 2^64.
pub proof fn lemma_run_counters(max_samples: nat, points: Seq<RequestMetricPoint>)
    ensures
        record_all(empty_model(max_samples), points).requests == counter_of(points.len()),
        record_all(empty_model(max_samples), points).errors == counter_of(error_count(points)),
        record_all(empty_model(max_samples), points).retries == counter_of(retry_sum(points)),
        record_all(empty_model(max_samples), points).timeouts == counter_of(timeout_sum(points)),
        record_all(empty_model(max_samples), points).max_samples == max_samples,
    decreases points.len(),
{
    if points.len() > 0 {
        let prefix = points.drop_last();
        let p = points.last();
        lemma_run_counters(max_samples, prefix);
        lemma_wrapping_add_counter(prefix.len(), 1);
        lemma_wrapping_add_counter(error_count(prefix), 1);
        lemma_wrapping_add_counter(retry_sum(prefix), p.retry_count as u64);
        lemma_wrapping_add_counter(timeout_sum(prefix), p.timeout_count as u64);
    }
}

/// Window law over a run: after `new` and a run of records, there is one
/// window per label recorded and no other, and each holds the latest
/// latencies recorded under its label, as many as the capacity allows.
pub proof fn lemma_run_windows(max_samples: nat, points: Seq<RequestMetricPoint>)
    ensures
        windows_wf(record_all(empty_model(max_samples), points).windows, max_samples),
        forall|i: int| 0 <= i < record_all(empty_model(max_samples), points).windows.len() ==> {
            let w = #[trigger] record_all(empty_model(max_samples), points).windows[i];
            &&& latencies_for(points, w.0).len() > 0
            &&& w.1 == latest(latencies_for(points, w.0), window_capacity(max_samples))
        },
        forall|key: LabelKey| latencies_for(points, key).len() > 0 <==> exists|i: int|
            0 <= i < record_all(empty_model(max_samples), points).windows.len()
                && (#[trigger] record_all(empty_model(max_samples), points).windows[i]).0 == key,
    decreases points.len(),
{
    let c = window_capacity(max_samples);
    if points.len() == 0 {
    } else {
        let prefix = points.drop_last();
        let p = points.last();
        let key = point_key(p);
        lemma_run_windows(max_samples, prefix);
        lemma_run_counters(max_samples, prefix);
        let prev = record_all(empty_model(max_samples), prefix);
        let cur = record_all(empty_model(max_samples), points);
        lemma_record_preserves_wf(prev, p);
        let w = prev.windows;
        let pos = window_position(w, key);
        lemma_window_push_latest(latencies_for(prefix, key), max_samples, p.latency_ms);
        if pos >= 0 {
            let k = choose|k: int| is_first_with(w, key, k);
            assert(is_first_with(w, key, k));
            assert forall|i: int| 0 <= i < cur.windows.len() implies {
                let x = #[trigger] cur.windows[i];
                &&& latencies_for(points, x.0).len() > 0
                &&& x.1 == latest(latencies_for(points, x.0), c)
            } by {
                assert(w[i].1 == latest(latencies_for(prefix, w[i].0), c));
            }
            assert forall|kk: LabelKey| latencies_for(points, kk).len() > 0 implies exists|i: int|
                0 <= i < cur.windows.len() && (#[trigger] cur.windows[i]).0 == kk by {
                if kk != key {
                    assert(latencies_for(points, kk) == latencies_for(prefix, kk));
                    assert(latencies_for(prefix, kk).len() > 0);
                    let i = choose|i: int| 0 <= i < w.len() && (#[trigger] w[i]).0 == kk;
                    assert(cur.windows[i].0 == kk);
                } else {
                    assert(cur.windows[k].0 == kk);
                }
            }
            assert forall|kk: LabelKey| (exists|i: int|
                0 <= i < cur.windows.len() && (#[trigger] cur.windows[i]).0 == kk) implies latencies_for(points, kk).len() > 0 by {
                let i = choose|i: int| 0 <= i < cur.windows.len() && (#[trigger] cur.windows[i]).0 == kk;
                assert(w[i].0 == kk);
            }
        } else {
            assert forall|j: int| 0 <= j < w.len() implies w[j].0 != key by {
                if w[j].0 == key {
                    lemma_first_exists(w, key, j);
                }
            }
            assert(latencies_for(prefix, key).len() == 0);
            assert(latencies_for(prefix, key) =~= Seq::<u64>::empty());
            assert forall|i: int| 0 <= i < cur.windows.len() implies {
                let x = #[trigger] cur.windows[i];
                &&& latencies_for(points, x.0).len() > 0
                &&& x.1 == latest(latencies_for(points, x.0), c)
            } by {
                if i < w.len() {
                    assert(w[i].1 == latest(latencies_for(prefix, w[i].0), c));
                }
            }
            assert forall|kk: LabelKey| latencies_for(points, kk).len() > 0 implies exists|i: int|
                0 <= i < cur.windows.len() && (#[trigger] cur.windows[i]).0 == kk by {
                if kk != key {
                    assert(latencies_for(points, kk) == latencies_for(prefix, kk));
                    assert(latencies_for(prefix, kk).len() > 0);
                    let i = choose|i: int| 0 <= i < w.len() && (#[trigger] w[i]).0 == kk;
                    assert(cur.windows[i].0 == kk);
                } else {
                    assert(cur.windows[w.len() as int].0 == kk);
                }
            }
            assert forall|kk: LabelKey| (exists|i: int|
                0 <= i < cur.windows.len() && (#[trigger] cur.windows[i]).0 == kk) implies latencies_for(points, kk).len() > 0 by {
                let i = choose|i: int| 0 <= i < cur.windows.len() && (#[trigger] cur.windows[i]).0 == kk;
                if i < w.len() {
                    assert(w[i].0 == kk);
                }
            }
        }
    }
}

/// Some point recorded under `key` had latency `v`.
pub open spec fn recorded_under(points: Seq<RequestMetricPoint>, key: LabelKey, v: u64) -> bool {
    exists|j: int| 0 <= j < points.len() && point_key(#[trigger] points[j]) == key && points[j].latency_ms == v
}

proof fn lemma_latency_recorded(points: Seq<RequestMetricPoint>, key: LabelKey, v: u64)
    requires
        latencies_for(points, key).contains(v),
    ensures
        recorded_under(points, key, v),
    decreases points.len(),
{
    let prefix = points.drop_last();
    if point_key(points.last()) == key && points.last().latency_ms == v {
        assert(point_key(points[points.len() - 1]) == key);
    } else {
        let l = latencies_for(prefix, key);
        if point_key(points.last()) == key {
            let k = choose|k: int| 0 <= k < l.push(points.last().latency_ms).len() && l.push(points.last().latency_ms)[k] == v;
            assert(l[k] == v);
        }
        lemma_latency_recorded(prefix, key, v);
        let j = choose|j: int| 0 <= j < prefix.len() && point_key(#[trigger] prefix[j]) == key && prefix[j].latency_ms == v;
        assert(points[j] == prefix[j]);
    }
}

/// Snapshot law over a run: after `new` and a run of records, every entry of
/// a snapshot counts min(c, capacity) samples, c being the points recorded
/// under its label (at least one), and its p50 <= p95 <= p99 are the
/// nearest-rank percentiles of the latest such latencies, each the latency
/// of a point recorded under that label.
pub proof fn lemma_run_snapshot_entry(
    max_samples: nat,
    points: Seq<RequestMetricPoint>,
    entry: LatencyPercentiles,
    i: int,
)
    requires
        0 <= i < record_all(empty_model(max_samples), points).windows.len(),
        percentiles_of(entry, record_all(empty_model(max_samples), points).windows[i]),
    ensures
        ({
            let all = latencies_for(points, entry.label.key());
            let window = latest(all, window_capacity(max_samples));
            &&& all.len() > 0
            &&& entry.sample_count >= 1
            &&& entry.sample_count == if all.len() <= window_capacity(max_samples) {
                all.len()
            } else {
                window_capacity(max_samples)
            }
            &&& entry.p50_ms == window_percentile(window, 50)
            &&& entry.p95_ms == window_percentile(window, 95)
            &&& entry.p99_ms == window_percentile(window, 99)
            &&& entry.p50_ms is Some && entry.p95_ms is Some && entry.p99_ms is Some
            &&& entry.p50_ms.unwrap() <= entry.p95_ms.unwrap() <= entry.p99_ms.unwrap()
            &&& recorded_under(points, entry.label.key(), entry.p50_ms.unwrap())
            &&& recorded_under(points, entry.label.key(), entry.p95_ms.unwrap())
            &&& recorded_under(points, entry.label.key(), entry.p99_ms.unwrap())
        }),
{
    lemma_run_windows(max_samples, points);
    let w = record_all(empty_model(max_samples), points).windows[i];
    let all = latencies_for(points, w.0);
    let c = window_capacity(max_samples);
    let window = latest(all, c);
    assert(w.1 == window);
    lemma_snapshot_percentiles_ordered(entry, w);
    lemma_percentile_is_sample(window, 50);
    lemma_percentile_is_sample(window, 95);
    lemma_percentile_is_sample(window, 99);
    assert forall|v: u64| window.contains(v) implies all.contains(v) by {
        let k = choose|k: int| 0 <= k < window.len() && window[k] == v;
        if all.len() > c {
            assert(all[all.len() - c + k] == v);
        }
    }
    lemma_latency_recorded(points, w.0, entry.p50_ms.unwrap());
    lemma_latency_recorded(points, w.0, entry.p95_ms.unwrap());
    lemma_latency_recorded(points, w.0, entry.p99_ms.unwrap());
}

/// Counters plus a bounded latency window per label.
pub struct InMemoryMetricsEngine {
    requests_total: u64,
    errors_total: u64,
    retries_total: u64,
    timeouts_total: u64,
    latency_windows: Vec<LabelledWindow>,
    max_latency_samples: usize,
}

impl View for InMemoryMetricsEngine {
    type V = MetricsModel;

    closed spec fn view(&self) -> MetricsModel {
        MetricsModel {
            requests: self.requests_total,
            errors: self.errors_total,
            retries: self.retries_total,
            timeouts: self.timeouts_total,
            windows: Seq::new(
                self.latency_windows@.len(),
                |i: int| (self.latency_windows@[i].label.key(), self.latency_windows@[i].window.samples_view()),
            ),
            max_samples: self.max_latency_samples as nat,
        }
    }
}

impl InMemoryMetricsEngine {
    #[verifier::type_invariant]
    closed spec fn inv(self) -> bool {
        &&& forall|i: int| 0 <= i < self.latency_windows@.len()
            ==> #[trigger] self.latency_windows@[i].window.max_view() == self.max_latency_samples
        &&& windows_wf(self@.windows, self.max_latency_samples as nat)
    }

    /// An engine with zeroed counters whose windows keep `max_latency_samples` samples.
    pub fn new(max_latency_samples: usize) -> (e: Self)
        ensures
            e@.requests == 0,
            e@.errors == 0,
            e@.retries == 0,
            e@.timeouts == 0,
            e@.windows == Seq::<(LabelKey, Seq<u64>)>::empty(),
            e@.max_samples == max_latency_samples,
            e@ == empty_model(max_latency_samples as nat),
    {
        let e = InMemoryMetricsEngine {
            requests_total: 0,
            errors_total: 0,
            retries_total: 0,
            timeouts_total: 0,
            latency_windows: Vec::new(),
            max_latency_samples,
        };
        assert(e@.windows =~= Seq::<(LabelKey, Seq<u64>)>::empty());
        e
    }

    /// The current counters and the percentiles of every label window.
    pub fn snapshot(&self) -> (s: NetworkMetricsSnapshot)
        ensures
            s.requests_total == self@.requests,
            s.errors_total == self@.errors,
            s.retries_total == self@.retries,
            s.timeouts_total == self@.timeouts,
            s.latency_by_label@.len() == self@.windows.len(),
            forall|i: int| 0 <= i < self@.windows.len()
                ==> percentiles_of(#[trigger] s.latency_by_label@[i], self@.windows[i]),
            windows_wf(self@.windows, self@.max_samples),
    {
        proof {
            use_type_invariant(self);
        }
        let n = self.latency_windows.len();
        let mut out: Vec<LatencyPercentiles> = Vec::new();
        let mut i: usize = 0;
        while i < n
            invariant
                n == self.latency_windows@.len(),
                i <= n,
                out@.len() == i,
                forall|k: int| 0 <= k < i ==> percentiles_of(#[trigger] out@[k], self@.windows[k]),
            decreases n - i,
        {
            let entry = &self.latency_windows[i];
            let label = MetricLabelSnapshot {
                route_group: entry.label.route_group.clone(),
                internal_ip: entry.label.internal_ip.clone(),
                external_ip: entry.label.external_ip.clone(),
            };
            let p = LatencyPercentiles {
                label,
                p50_ms: entry.window.percentile(50),
                p95_ms: entry.window.percentile(95),
                p99_ms: entry.window.percentile(99),
                sample_count: entry.window.len(),
            };
            out.push(p);
            i = i + 1;
        }
        NetworkMetricsSnapshot {
            requests_total: self.requests_total,
            errors_total: self.errors_total,
            retries_total: self.retries_total,
            timeouts_total: self.timeouts_total,
            latency_by_label: out,
        }
    }
}

impl MetricsRecorder for InMemoryMetricsEngine {
    /// Counts the request and adds its latency to the window of its label.
    fn record(&mut self, point: &RequestMetricPoint)
        ensures
            final(self)@ == record_model(old(self)@, *point),
            windows_wf(final(self)@.windows, final(self)@.max_samples),
    {
        proof {
            use_type_invariant(&*self);
        }
        let ghost before = self@;
        self.requests_total = self.requests_total.wrapping_add(1);
        self.retries_total = self.retries_total.wrapping_add(point.retry_count as u64);
        self.timeouts_total = self.timeouts_total.wrapping_add(point.timeout_count as u64);
        if point.is_error {
            self.errors_total = self.errors_total.wrapping_add(1);
        }
        let mut windows: Vec<LabelledWindow> = Vec::new();
        std::mem::swap(&mut windows, &mut self.latency_windows);
        let ghost key = point_key(*point);
        let ghost old_windows = before.windows;
        let n = windows.len();
        let mut i: usize = 0;
        let mut found = false;
        let max_samples = self.max_latency_samples;
        assert forall|j: int| 0 <= j < n implies #[trigger] old_windows[j] == (
            windows@[j].label.key(),
            windows@[j].window.samples_view(),
        ) && windows@[j].window.max_view() == max_samples by {}
        while i < n
            invariant_except_break
                n == windows@.len(),
                i <= n,
                !found,
                forall|j: int| 0 <= j < i ==> old_windows[j].0 != key,
            invariant
                key == point_key(*point),
                windows@ == old(self).latency_windows@,
                n == old_windows.len(),
                forall|j: int| 0 <= j < n ==> #[trigger] old_windows[j] == (
                    windows@[j].label.key(),
                    windows@[j].window.samples_view(),
                ) && windows@[j].window.max_view() == max_samples,
            ensures
                found ==> (i < n && is_first_with(old_windows, key, i as int)),
                !found ==> i == n && forall|j: int| 0 <= j < n ==> old_windows[j].0 != key,
            decreases n - i,
        {
            let entry = &windows[i];
            assert(old_windows[i as int].0 == entry.label.key());
            let same_route = entry.label.route_group == point.route_group;
            let same_internal = entry.label.internal_ip == point.internal_ip;
            let same_external = entry.label.external_ip == point.external_ip;
            if same_route && same_internal && same_external {
                found = true;
                break;
            }
            i = i + 1;
        }
        let ghost max = self.max_latency_samples as nat;
        if found {
            proof {
                lemma_position_found(old_windows, key, i as int);
            }
            windows[i].window.push(point.latency_ms);
        } else {
            proof {
                lemma_position_absent(old_windows, key);
            }
            let label = MetricLabel {
                route_group: point.route_group.clone(),
                internal_ip: point.internal_ip.clone(),
                external_ip: point.external_ip.clone(),
            };
            let mut window = LatencyWindow::new(self.max_latency_samples);
            window.push(point.latency_ms);
            windows.push(LabelledWindow { label, window });
        }
        proof {
            lemma_record_preserves_wf(before, *point);
            let target = record_model(before, *point).windows;
            assert(windows@.len() == target.len());
            assert forall|j: int| 0 <= j < windows@.len() implies #[trigger] target[j] == (
                windows@[j].label.key(),
                windows@[j].window.samples_view(),
            ) && windows@[j].window.max_view() == max_samples by {}
            assert(Seq::new(
                windows@.len(),
                |j: int| (windows@[j].label.key(), windows@[j].window.samples_view()),
            ) =~= target);
        }
        self.latency_windows = windows;
    }
}

} // verus!
