//! The samples behind the trend charts.
use crate::loadtest::RuntimeMetrics;
use crate::reading::Reading;
use vstd::prelude::*;

verus! {

/// How many samples the history of a load test keeps.
pub const MAX_TREND_POINTS: usize = 720;

/// One sample of a running load test.
#[derive(Clone, Copy, Debug, PartialEq, Eq, Structural)]
pub struct MetricHistoryPoint {
    pub elapsed_secs: Reading,
    pub qps: Reading,
    pub avg_latency_ms: Reading,
    pub p95_latency_ms: Reading,
}

impl MetricHistoryPoint {
    /// The sample that some metrics give.
    pub open spec fn of_metrics(metrics: RuntimeMetrics) -> MetricHistoryPoint {
        MetricHistoryPoint {
            elapsed_secs: metrics.elapsed_secs,
            qps: metrics.qps,
            avg_latency_ms: metrics.avg_latency_ms,
            p95_latency_ms: metrics.p95_latency_ms,
        }
    }

    /// Takes a sample of the metrics.
    pub fn from_runtime_metrics(metrics: &RuntimeMetrics) -> (r: MetricHistoryPoint)
        ensures
            r == MetricHistoryPoint::of_metrics(*metrics),
    {
        MetricHistoryPoint {
            elapsed_secs: metrics.elapsed_secs,
            qps: metrics.qps,
            avg_latency_ms: metrics.avg_latency_ms,
            p95_latency_ms: metrics.p95_latency_ms,
        }
    }

    /// Every part of the sample is a number.
    pub open spec fn is_measured(self) -> bool {
        &&& self.elapsed_secs.is_number()
        &&& self.qps.is_number()
        &&& self.avg_latency_ms.is_number()
        &&& self.p95_latency_ms.is_number()
    }

    /// The two samples hold the same numbers.
    pub open spec fn same_numbers(self, other: MetricHistoryPoint) -> bool {
        &&& self.elapsed_secs.same_number(other.elapsed_secs)
        &&& self.qps.same_number(other.qps)
        &&& self.avg_latency_ms.same_number(other.avg_latency_ms)
        &&& self.p95_latency_ms.same_number(other.p95_latency_ms)
    }

    /// Whether the two samples hold the same numbers.
    pub fn same(&self, other: &MetricHistoryPoint) -> (r: bool)
        ensures
            r == self.same_numbers(*other),
    {
        self.elapsed_secs.same(other.elapsed_secs) && self.qps.same(other.qps)
            && self.avg_latency_ms.same(other.avg_latency_ms) && self.p95_latency_ms.same(
            other.p95_latency_ms,
        )
    }
}

/// `a / b`, rounded up.
pub open spec fn ceil_div(a: int, b: int) -> int {
    (a + b - 1) / b
}

/// Every `stride`-th item, the first one included.
pub open spec fn strided<T>(items: Seq<T>, stride: int) -> Seq<T> {
    Seq::new(ceil_div(items.len() as int, stride) as nat, |i: int| items[i * stride])
}

/// `a / b`, rounded up.
pub fn div_up(a: usize, b: usize) -> (r: usize)
    requires
        b > 0,
    ensures
        r == ceil_div(a as int, b as int),
{
    let q: usize = a / b;
    let m: usize = a % b;
    proof {
        vstd::arithmetic::div_mod::lemma_fundamental_div_mod(a as int, b as int);
        let (x, y) = (a as int, b as int);
        if m == 0 {
            vstd::arithmetic::div_mod::lemma_fundamental_div_mod_converse(
                x + y - 1,
                y,
                q as int,
                y - 1,
            );
        } else {
            assert(y * (q + 1) == y * q + y) by (nonlinear_arith);
            vstd::arithmetic::div_mod::lemma_fundamental_div_mod_converse(
                x + y - 1,
                y,
                q + 1,
                m - 1,
            );
            assert(q < a) by (nonlinear_arith)
                requires
                    a == b * q + m,
                    m > 0,
                    b > 0,
            ;
        }
    }
    if m == 0 {
        q
    } else {
        q + 1
    }
}

/// Where the walk with a stride ends.
pub proof fn lemma_stride_end(len: int, stride: int, i: int)
    requires
        stride > 0,
        i >= 0,
        len >= 0,
    ensures
        i * stride < len <==> i < ceil_div(len, stride),
{
    let n = ceil_div(len, stride);
    vstd::arithmetic::div_mod::lemma_fundamental_div_mod(len + stride - 1, stride);
    let r = (len + stride - 1) % stride;
    assert(stride * n + r == len + stride - 1);
    if i < n {
        assert(i * stride <= (n - 1) * stride) by (nonlinear_arith)
            requires
                i <= n - 1,
                stride > 0,
        ;
        assert((n - 1) * stride == stride * n - stride) by (nonlinear_arith);
    } else {
        assert(i * stride >= n * stride) by (nonlinear_arith)
            requires
                i >= n,
                stride > 0,
        ;
        assert(n * stride == stride * n) by (nonlinear_arith);
    }
}

/// Picks every `stride`-th item.
pub fn take_strided<T: Copy>(items: &Vec<T>, stride: usize) -> (r: Vec<T>)
    requires
        stride > 0,
    ensures
        r@ == strided(items@, stride as int),
{
    let mut out: Vec<T> = Vec::new();
    let total: usize = items.len();
    let mut at: usize = 0;
    proof {
        lemma_stride_end(total as int, stride as int, 0);
    }
    while at < total
        invariant
            total == items@.len(),
            stride > 0,
            at < total ==> at == out@.len() * stride,
            at < total <==> out@.len() < ceil_div(total as int, stride as int),
            out@.len() <= ceil_div(total as int, stride as int),
            forall|i: int| 0 <= i < out@.len() ==> out@[i] == items@[#[trigger] (i * stride)],
        decreases total - at,
    {
        let ghost n = out@.len() as int;
        out.push(items[at]);
        proof {
            lemma_stride_end(total as int, stride as int, n + 1);
            assert((n + 1) * stride == n * stride + stride) by (nonlinear_arith);
        }
        if total - at > stride {
            at += stride;
        } else {
            at = total;
        }
    }
    assert(out@ =~= strided(items@, stride as int));
    out
}

/// The history with every other sample dropped; the latest one stays.
pub open spec fn compacted(history: Seq<MetricHistoryPoint>) -> Seq<MetricHistoryPoint> {
    if history.len() <= MAX_TREND_POINTS {
        history
    } else {
        let half = strided(history, 2);
        if half.last().same_numbers(history.last()) {
            half
        } else {
            half.push(history.last())
        }
    }
}

/// The history with one more sample. A sample that is no later than the latest one takes its
/// place; a history that grows too long is compacted.
pub open spec fn with_sample(
    history: Seq<MetricHistoryPoint>,
    sample: MetricHistoryPoint,
) -> Seq<MetricHistoryPoint> {
    if history.len() > 0 && sample.elapsed_secs.at_most(history.last().elapsed_secs) {
        history.drop_last().push(sample)
    } else {
        compacted(history.push(sample))
    }
}

/// Halves a history that is too long.
pub fn compact_metric_history(history: &mut Vec<MetricHistoryPoint>)
    ensures
        final(history)@ == compacted(old(history)@),
{
    let total: usize = history.len();
    if total <= MAX_TREND_POINTS {
        return;
    }
    let last = history[total - 1];
    let mut half = take_strided(history, 2);
    proof {
        lemma_stride_end(total as int, 2, 0);
    }
    if !half[half.len() - 1].same(&last) {
        half.push(last);
    }
    *history = half;
}

/// Adds a sample to the history.
pub fn push_metric_history_sample(
    history: &mut Vec<MetricHistoryPoint>,
    sample: MetricHistoryPoint,
)
    ensures
        final(history)@ == with_sample(old(history)@, sample),
{
    let total: usize = history.len();
    if total > 0 && sample.elapsed_secs.le(history[total - 1].elapsed_secs) {
        history.pop();
        history.push(sample);
        return;
    }
    history.push(sample);
    if history.len() > MAX_TREND_POINTS {
        compact_metric_history(history);
    }
}

/// The samples are in the order of time, no two at the same instant.
pub open spec fn in_time_order(history: Seq<MetricHistoryPoint>) -> bool {
    &&& forall|i: int| 0 <= i < history.len() ==> (#[trigger] history[i]).is_measured()
    &&& forall|i: int, j: int|
        0 <= i < j < history.len() ==> (#[trigger] history[i]).elapsed_secs.rank() < (
        #[trigger] history[j]).elapsed_secs.rank()
}

/// The latest sample is always the one added last, and the history never grows beyond its limit.
pub proof fn law_history_keeps_latest(
    history: Seq<MetricHistoryPoint>,
    sample: MetricHistoryPoint,
)
    requires
        history.len() <= MAX_TREND_POINTS,
    ensures
        with_sample(history, sample).len() > 0,
        with_sample(history, sample).last() == sample,
        with_sample(history, sample).len() <= MAX_TREND_POINTS,
{
    let longer = history.push(sample);
    if longer.len() > MAX_TREND_POINTS {
        assert(longer.len() == 721);
        assert(strided(longer, 2).len() == 361);
        assert(strided(longer, 2).last() == longer[360int * 2]);
    }
}

/// A sample with the time of the latest one replaces it and adds nothing.
pub proof fn law_same_time_replaces(
    history: Seq<MetricHistoryPoint>,
    sample: MetricHistoryPoint,
)
    requires
        history.len() > 0,
        sample.elapsed_secs.same_number(history.last().elapsed_secs),
    ensures
        with_sample(history, sample) == history.drop_last().push(sample),
        with_sample(history, sample).len() == history.len(),
{
}

/// Samples that are added as time goes on stay in the order of time: a sample that is later than
/// all others goes to the end, also where the history is compacted.
pub proof fn law_history_stays_in_order(
    history: Seq<MetricHistoryPoint>,
    sample: MetricHistoryPoint,
)
    requires
        in_time_order(history),
        sample.is_measured(),
        history.len() > 1 ==> history[history.len() - 2].elapsed_secs.rank()
            < sample.elapsed_secs.rank(),
    ensures
        in_time_order(with_sample(history, sample)),
{
    let longer = history.push(sample);
    if history.len() > 0 && sample.elapsed_secs.at_most(history.last().elapsed_secs) {
        let r = history.drop_last().push(sample);
        assert forall|i: int, j: int| 0 <= i < j < r.len() implies (
        #[trigger] r[i]).elapsed_secs.rank() < (#[trigger] r[j]).elapsed_secs.rank() by {
            if j == r.len() - 1 && i < r.len() - 2 {
                assert(history[i].elapsed_secs.rank() < history[r.len() - 2].elapsed_secs.rank());
            }
        }
    } else {
        assert(in_time_order(longer)) by {
            assert forall|i: int, j: int| 0 <= i < j < longer.len() implies (
            #[trigger] longer[i]).elapsed_secs.rank() < (
            #[trigger] longer[j]).elapsed_secs.rank() by {
                if j == longer.len() - 1 && i < history.len() - 1 {
                    assert(history[i].elapsed_secs.rank() < history.last().elapsed_secs.rank());
                }
            }
        }
        if longer.len() > MAX_TREND_POINTS {
            lemma_compacted_in_order(longer);
        }
    }
}

proof fn lemma_compacted_in_order(history: Seq<MetricHistoryPoint>)
    requires
        in_time_order(history),
        history.len() > MAX_TREND_POINTS,
    ensures
        in_time_order(compacted(history)),
{
    let half = strided(history, 2);
    let n = history.len() as int;
    assert(half.len() == (n + 1) / 2);
    assert forall|i: int| 0 <= i < half.len() implies half[i] == #[trigger] history[2 * i] by {}
    assert forall|i: int| 0 <= i < half.len() implies (#[trigger] half[i]).is_measured() by {
        assert(half[i] == history[i * 2]);
    }
    assert forall|i: int, j: int| 0 <= i < j < half.len() implies (
    #[trigger] half[i]).elapsed_secs.rank() < (#[trigger] half[j]).elapsed_secs.rank() by {
        assert(half[i] == history[i * 2]);
        assert(half[j] == history[j * 2]);
    }
    if !half.last().same_numbers(history.last()) {
        let r = half.push(history.last());
        assert forall|i: int, j: int| 0 <= i < j < r.len() implies (
        #[trigger] r[i]).elapsed_secs.rank() < (#[trigger] r[j]).elapsed_secs.rank() by {
            if j == r.len() - 1 {
                assert(r[i] == history[i * 2]);
                assert(i * 2 < n);
                if i * 2 < n - 1 {
                    assert(history[i * 2].elapsed_secs.rank() < history[n - 1].elapsed_secs.rank());
                }
            }
        }
    }
}

/// Adding a sample, or compacting, invents nothing: every sample in the history was there before
/// or is the one that was added.
pub proof fn law_history_invents_nothing(
    history: Seq<MetricHistoryPoint>,
    sample: MetricHistoryPoint,
    i: int,
)
    requires
        0 <= i < with_sample(history, sample).len(),
    ensures
        with_sample(history, sample)[i] == sample || history.contains(
            with_sample(history, sample)[i],
        ),
{
    let longer = history.push(sample);
    let after = with_sample(history, sample);
    if history.len() > 0 && sample.elapsed_secs.at_most(history.last().elapsed_secs) {
        if i < history.len() - 1 {
            assert(after[i] == history[i]);
        }
    } else if longer.len() > MAX_TREND_POINTS {
        let half = strided(longer, 2);
        if i < half.len() {
            lemma_stride_end(longer.len() as int, 2, i);
            assert(after[i] == longer[i * 2]);
            if i * 2 < history.len() {
                assert(after[i] == history[i * 2]);
            }
        }
    } else if i < history.len() {
        assert(after[i] == history[i]);
    }
}

} // verus!
