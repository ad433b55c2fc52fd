//! The engine of a load test: its plan, what each worker does next, and what is counted.
use crate::error::{ErrorView, RequestError};
use crate::i18n::{I18nKey, Language};
use crate::reading::Reading;
use vstd::prelude::*;

verus! {

/// What the user sets for a load test.
#[derive(Clone, Copy, Debug, PartialEq, Eq, Structural)]
pub struct LoadTestSettings {
    pub concurrency: usize,
    pub duration_secs: u64,
    pub interval_ms: u64,
    pub timeout_secs: u64,
    pub keep_alive: bool,
}

/// The state of a load test while it runs.
#[derive(Clone, Debug)]
pub struct RuntimeMetrics {
    pub elapsed_secs: Reading,
    pub total_requests: u64,
    pub success_requests: u64,
    pub failed_requests: u64,
    pub timeout_requests: u64,
    pub qps: Reading,
    pub avg_latency_ms: Reading,
    pub p50_latency_ms: Reading,
    pub p95_latency_ms: Reading,
    pub p99_latency_ms: Reading,
    pub max_latency_ms: Reading,
    pub status_code_counts: Vec<(u16, u64)>,
    pub transport_error_requests: u64,
}

/// The result of a load test.
#[derive(Clone, Debug)]
pub struct FinalMetrics {
    pub elapsed_secs: Reading,
    pub total_requests: u64,
    pub success_requests: u64,
    pub failed_requests: u64,
    pub timeout_requests: u64,
    pub qps: Reading,
    pub avg_latency_ms: Reading,
    pub p50_latency_ms: Reading,
    pub p95_latency_ms: Reading,
    pub p99_latency_ms: Reading,
    pub max_latency_ms: Reading,
    pub status_code_counts: Vec<(u16, u64)>,
}

/// What the engine tells the user interface.
#[derive(Clone, Debug)]
pub enum EngineEvent {
    Progress(RuntimeMetrics),
    Completed(FinalMetrics),
    Failed(String),
}

/// The latencies of the requests so far, in milliseconds.
#[derive(Clone, Copy, Debug, PartialEq, Eq, Structural)]
pub struct LatencySummary {
    pub avg_latency_ms: Reading,
    pub p50_latency_ms: Reading,
    pub p95_latency_ms: Reading,
    pub p99_latency_ms: Reading,
    pub max_latency_ms: Reading,
}

/// How many different status codes are told apart.
pub const STATUS_CODES: usize = 600;

/// What the workers have counted.
#[derive(Clone, Copy, Debug)]
pub struct SharedCounters {
    pub total: u64,
    pub success: u64,
    pub failed: u64,
    pub timeout: u64,
    /// For each status code how many responses had it.
    pub status_codes: [u64; 600],
    pub transport_error: u64,
}

impl Default for SharedCounters {
    fn default() -> (r: Self)
        ensures
            r.total == 0 && r.success == 0 && r.failed == 0 && r.timeout == 0 && r.transport_error
                == 0,
            forall|i: int| 0 <= i < STATUS_CODES ==> r.status_codes@[i] == 0,
    {
        SharedCounters {
            total: 0,
            success: 0,
            failed: 0,
            timeout: 0,
            status_codes: [0u64;600],
            transport_error: 0,
        }
    }
}

impl RuntimeMetrics {
    /// Nothing has happened yet.
    pub open spec fn is_zero(self) -> bool {
        &&& self.elapsed_secs.bits == 0
        &&& self.total_requests == 0
        &&& self.success_requests == 0
        &&& self.failed_requests == 0
        &&& self.timeout_requests == 0
        &&& self.qps.bits == 0
        &&& self.avg_latency_ms.bits == 0
        &&& self.p50_latency_ms.bits == 0
        &&& self.p95_latency_ms.bits == 0
        &&& self.p99_latency_ms.bits == 0
        &&& self.max_latency_ms.bits == 0
        &&& self.status_code_counts@.len() == 0
        &&& self.transport_error_requests == 0
    }
}

impl FinalMetrics {
    /// Nothing has happened.
    pub open spec fn is_zero(self) -> bool {
        &&& self.elapsed_secs.bits == 0
        &&& self.total_requests == 0
        &&& self.success_requests == 0
        &&& self.failed_requests == 0
        &&& self.timeout_requests == 0
        &&& self.qps.bits == 0
        &&& self.avg_latency_ms.bits == 0
        &&& self.p50_latency_ms.bits == 0
        &&& self.p95_latency_ms.bits == 0
        &&& self.p99_latency_ms.bits == 0
        &&& self.max_latency_ms.bits == 0
        &&& self.status_code_counts@.len() == 0
    }
}

impl Default for FinalMetrics {
    fn default() -> (r: Self)
        ensures
            r.is_zero(),
    {
        let zero = Reading { bits: 0 };
        FinalMetrics {
            elapsed_secs: zero,
            total_requests: 0,
            success_requests: 0,
            failed_requests: 0,
            timeout_requests: 0,
            qps: zero,
            avg_latency_ms: zero,
            p50_latency_ms: zero,
            p95_latency_ms: zero,
            p99_latency_ms: zero,
            max_latency_ms: zero,
            status_code_counts: Vec::new(),
        }
    }
}

impl Default for RuntimeMetrics {
    fn default() -> (r: Self)
        ensures
            r.is_zero(),
    {
        let zero = Reading { bits: 0 };
        RuntimeMetrics {
            elapsed_secs: zero,
            total_requests: 0,
            success_requests: 0,
            failed_requests: 0,
            timeout_requests: 0,
            qps: zero,
            avg_latency_ms: zero,
            p50_latency_ms: zero,
            p95_latency_ms: zero,
            p99_latency_ms: zero,
            max_latency_ms: zero,
            status_code_counts: Vec::new(),
            transport_error_requests: 0,
        }
    }
}

/// The slot of a status code, if there is one for it.
pub open spec fn slot_of(code: u16) -> Option<usize> {
    if code < STATUS_CODES {
        Some(code as usize)
    } else {
        None
    }
}

/// The slot in which a status code is counted, if there is one for it.
pub fn status_code_slot(code: u16) -> (r: Option<usize>)
    ensures
        r == slot_of(code),
        r == (if code < STATUS_CODES {
            Some(code as usize)
        } else {
            None
        }),
{
    if code <= 599 {
        Some(code as usize)
    } else {
        None
    }
}

/// The codes that were counted at all, in ascending order, each with its count.
pub open spec fn counted_codes(counts: Seq<u64>) -> Seq<(u16, u64)>
    decreases counts.len(),
{
    if counts.len() == 0 {
        Seq::empty()
    } else {
        let before = counted_codes(counts.drop_last());
        if counts.last() > 0 {
            before.push(((counts.len() - 1) as u16, counts.last()))
        } else {
            before
        }
    }
}

/// Lists the status codes that were counted.
pub fn status_code_counts(counters: &SharedCounters) -> (r: Vec<(u16, u64)>)
    ensures
        r@ == counted_codes(counters.status_codes@),
{
    let ghost counts = counters.status_codes@;
    let mut out: Vec<(u16, u64)> = Vec::new();
    let mut i: usize = 0;
    while i < STATUS_CODES
        invariant
            0 <= i <= STATUS_CODES,
            counts == counters.status_codes@,
            counts.len() == STATUS_CODES,
            out@ == counted_codes(counts.take(i as int)),
        decreases STATUS_CODES - i,
    {
        assert(counts.take(i + 1).drop_last() =~= counts.take(i as int));
        let value: u64 = counters.status_codes[i];
        if value > 0 {
            out.push((i as u16, value));
        }
        i += 1;
    }
    assert(counts.take(i as int) =~= counts);
    out
}

/// The list of status codes says how often each code was counted: it holds a code if and only if
/// that code was counted, with its count, and the codes ascend.
pub proof fn law_status_codes_are_listed(counts: Seq<u64>)
    requires
        counts.len() <= STATUS_CODES,
    ensures
        forall|code: u16, n: u64| #[trigger]
            counted_codes(counts).contains((code, n)) <==> (code < counts.len() && n > 0
                && counts[code as int] == n),
        forall|i: int, j: int|
            0 <= i < j < counted_codes(counts).len() ==> (#[trigger] counted_codes(counts)[i]).0 < (
            #[trigger] counted_codes(counts)[j]).0,
    decreases counts.len(),
{
    if counts.len() > 0 {
        let shorter = counts.drop_last();
        let before = counted_codes(shorter);
        let list = counted_codes(counts);
        law_status_codes_are_listed(shorter);
        assert forall|i: int| 0 <= i < before.len() implies (#[trigger] before[i]).0
            < counts.len() - 1 by {
            assert(before.contains((before[i].0, before[i].1)));
        }
        assert forall|code: u16, n: u64| #[trigger] list.contains((code, n)) <==> (code
            < counts.len() && n > 0 && counts[code as int] == n) by {
            if list.contains((code, n)) {
                let k = choose|k: int| 0 <= k < list.len() && list[k] == (code, n);
                if k < before.len() {
                    assert(before[k] == (code, n));
                    assert(before.contains((code, n)));
                }
            }
            if code < counts.len() && n > 0 && counts[code as int] == n {
                if code == counts.len() - 1 {
                    assert(list.last() == (code, n));
                } else {
                    assert(before.contains((code, n)));
                    let k = choose|k: int| 0 <= k < before.len() && before[k] == (code, n);
                    assert(list[k] == (code, n));
                }
            }
        }
    }
}

/// The sum of the counts of the codes from `from` up to, but without, `to`.
pub open spec fn sum_between(counts: Seq<nat>, from: int, to: int) -> nat
    decreases to - from,
{
    if to <= from {
        0
    } else {
        sum_between(counts, from, to - 1) + counts[to - 1]
    }
}

/// The sum of the counts that a list gives for the codes from `from` up to, but without, `to`.
pub open spec fn listed_between(list: Seq<(u16, u64)>, from: int, to: int) -> nat
    decreases list.len(),
{
    if list.len() == 0 {
        0
    } else {
        let (code, n) = list.last();
        listed_between(list.drop_last(), from, to) + if from <= code && code < to {
            n as nat
        } else {
            0
        }
    }
}

/// Counts as unbounded numbers.
pub open spec fn unbounded(counts: Seq<u64>) -> Seq<nat> {
    counts.map_values(|n: u64| n as nat)
}

/// The sum depends on nothing but the counts that it is taken over.
proof fn lemma_sum_of_same(a: Seq<nat>, b: Seq<nat>, from: int, to: int)
    requires
        forall|i: int| from <= i < to ==> #[trigger] a[i] == b[i],
    ensures
        sum_between(a, from, to) == sum_between(b, from, to),
    decreases to - from,
{
    if from < to {
        lemma_sum_of_same(a, b, from, to - 1);
        assert(a[to - 1] == b[to - 1]);
    }
}

/// The list of status codes loses nothing: over any range of codes its counts add up to the
/// counts that were kept.
pub proof fn law_listed_counts_add_up(counts: Seq<u64>, from: int, to: int)
    requires
        counts.len() <= STATUS_CODES,
        0 <= from <= to <= counts.len(),
    ensures
        listed_between(counted_codes(counts), from, to) == sum_between(
            unbounded(counts),
            from,
            to,
        ),
    decreases counts.len(),
{
    if counts.len() > 0 {
        let last = counts.len() - 1;
        let shorter = counts.drop_last();
        let before = counted_codes(shorter);
        if counts.last() > 0 {
            assert(counted_codes(counts).drop_last() =~= before);
        }
        if to == counts.len() {
            if from < to {
                law_listed_counts_add_up(shorter, from, to - 1);
                lemma_listed_within(before, shorter, from, to);
                lemma_sum_of_same(unbounded(counts), unbounded(shorter), from, to - 1);
            } else {
                law_listed_counts_add_up(shorter, last, last);
                lemma_nothing_listed(counted_codes(counts), from);
            }
        } else {
            law_listed_counts_add_up(shorter, from, to);
            lemma_sum_of_same(unbounded(counts), unbounded(shorter), from, to);
        }
    }
}

/// Beyond its last count a list has no code.
proof fn lemma_listed_within(list: Seq<(u16, u64)>, counts: Seq<u64>, from: int, to: int)
    requires
        counts.len() < STATUS_CODES,
        list == counted_codes(counts),
        to == counts.len() + 1,
    ensures
        listed_between(list, from, to) == listed_between(list, from, to - 1),
{
    law_status_codes_are_listed(counts);
    assert forall|i: int| 0 <= i < list.len() implies (#[trigger] list[i]).0 < counts.len() by {
        assert(list.contains((list[i].0, list[i].1)));
    }
    lemma_listed_below(list, from, to);
}

proof fn lemma_listed_below(list: Seq<(u16, u64)>, from: int, to: int)
    requires
        forall|i: int| 0 <= i < list.len() ==> (#[trigger] list[i]).0 < to - 1,
    ensures
        listed_between(list, from, to) == listed_between(list, from, to - 1),
    decreases list.len(),
{
    if list.len() > 0 {
        let shorter = list.drop_last();
        assert forall|i: int| 0 <= i < shorter.len() implies (#[trigger] shorter[i]).0 < to - 1 by {
            assert(shorter[i] == list[i]);
        }
        lemma_listed_below(shorter, from, to);
        assert(list[list.len() - 1].0 < to - 1);
    }
}

proof fn lemma_nothing_listed(list: Seq<(u16, u64)>, from: int)
    ensures
        listed_between(list, from, from) == 0,
    decreases list.len(),
{
    if list.len() > 0 {
        lemma_nothing_listed(list.drop_last(), from);
    }
}

/// No latency at all.
pub open spec fn no_latency() -> LatencySummary {
    LatencySummary {
        avg_latency_ms: Reading { bits: 0 },
        p50_latency_ms: Reading { bits: 0 },
        p95_latency_ms: Reading { bits: 0 },
        p99_latency_ms: Reading { bits: 0 },
        max_latency_ms: Reading { bits: 0 },
    }
}

/// The latencies that are reported.
pub open spec fn reported_latency(nothing_recorded: bool, measured: LatencySummary) -> LatencySummary {
    if nothing_recorded {
        no_latency()
    } else {
        measured
    }
}

/// The latencies to report: those that were measured, and zeros as long as nothing was.
pub fn summarize_latency(nothing_recorded: bool, measured: LatencySummary) -> (r: LatencySummary)
    ensures
        r == reported_latency(nothing_recorded, measured),
        r == (if nothing_recorded {
            no_latency()
        } else {
            measured
        }),
{
    if nothing_recorded {
        let zero = Reading { bits: 0 };
        LatencySummary {
            avg_latency_ms: zero,
            p50_latency_ms: zero,
            p95_latency_ms: zero,
            p99_latency_ms: zero,
            max_latency_ms: zero,
        }
    } else {
        measured
    }
}

/// The pattern of 0.001: a load test counts as lasting a millisecond at the least.
pub const LEAST_ELAPSED: u64 = 0x3f50_624d_d2f1_a9fc;

/// The time that a rate is taken over: the time that has passed, or a millisecond if that is
/// longer.
pub open spec fn rate_time(elapsed_secs: Reading) -> Reading {
    elapsed_secs.greater(Reading { bits: LEAST_ELAPSED })
}

/// The time to divide a number of requests by.
pub fn elapsed_for_rate(elapsed_secs: Reading) -> (r: Reading)
    ensures
        r == rate_time(elapsed_secs),
{
    elapsed_secs.max(Reading { bits: LEAST_ELAPSED })
}

/// The metrics tell what was counted and measured.
pub open spec fn runtime_tells(
    metrics: RuntimeMetrics,
    counters: SharedCounters,
    latency: LatencySummary,
    elapsed_secs: Reading,
    qps: Reading,
) -> bool {
    &&& metrics.elapsed_secs == rate_time(elapsed_secs)
    &&& metrics.total_requests == counters.total
    &&& metrics.success_requests == counters.success
    &&& metrics.failed_requests == counters.failed
    &&& metrics.timeout_requests == counters.timeout
    &&& metrics.qps == qps
    &&& metrics.avg_latency_ms == latency.avg_latency_ms
    &&& metrics.p50_latency_ms == latency.p50_latency_ms
    &&& metrics.p95_latency_ms == latency.p95_latency_ms
    &&& metrics.p99_latency_ms == latency.p99_latency_ms
    &&& metrics.max_latency_ms == latency.max_latency_ms
    &&& metrics.status_code_counts@ == counted_codes(counters.status_codes@)
    &&& metrics.transport_error_requests == counters.transport_error
}

/// The result tells what was counted and measured.
pub open spec fn final_tells(
    metrics: FinalMetrics,
    counters: SharedCounters,
    latency: LatencySummary,
    elapsed_secs: Reading,
    qps: Reading,
) -> bool {
    &&& metrics.elapsed_secs == rate_time(elapsed_secs)
    &&& metrics.total_requests == counters.total
    &&& metrics.success_requests == counters.success
    &&& metrics.failed_requests == counters.failed
    &&& metrics.timeout_requests == counters.timeout
    &&& metrics.qps == qps
    &&& metrics.avg_latency_ms == latency.avg_latency_ms
    &&& metrics.p50_latency_ms == latency.p50_latency_ms
    &&& metrics.p95_latency_ms == latency.p95_latency_ms
    &&& metrics.p99_latency_ms == latency.p99_latency_ms
    &&& metrics.max_latency_ms == latency.max_latency_ms
    &&& metrics.status_code_counts@ == counted_codes(counters.status_codes@)
}

/// Sums up a running load test: what was counted, the latencies, and the rate `qps`, which is
/// the total over `elapsed_for_rate(elapsed_secs)`.
pub fn build_runtime_metrics(
    counters: &SharedCounters,
    latency: LatencySummary,
    elapsed_secs: Reading,
    qps: Reading,
) -> (r: RuntimeMetrics)
    ensures
        runtime_tells(r, *counters, latency, elapsed_secs, qps),
        r.elapsed_secs == rate_time(elapsed_secs),
        r.total_requests == counters.total,
        r.success_requests == counters.success,
        r.failed_requests == counters.failed,
        r.timeout_requests == counters.timeout,
        r.qps == qps,
        r.avg_latency_ms == latency.avg_latency_ms,
        r.p50_latency_ms == latency.p50_latency_ms,
        r.p95_latency_ms == latency.p95_latency_ms,
        r.p99_latency_ms == latency.p99_latency_ms,
        r.max_latency_ms == latency.max_latency_ms,
        r.status_code_counts@ == counted_codes(counters.status_codes@),
        r.transport_error_requests == counters.transport_error,
{
    RuntimeMetrics {
        elapsed_secs: elapsed_for_rate(elapsed_secs),
        total_requests: counters.total,
        success_requests: counters.success,
        failed_requests: counters.failed,
        timeout_requests: counters.timeout,
        qps,
        avg_latency_ms: latency.avg_latency_ms,
        p50_latency_ms: latency.p50_latency_ms,
        p95_latency_ms: latency.p95_latency_ms,
        p99_latency_ms: latency.p99_latency_ms,
        max_latency_ms: latency.max_latency_ms,
        status_code_counts: status_code_counts(counters),
        transport_error_requests: counters.transport_error,
    }
}

/// Sums up a completed load test, as `build_runtime_metrics` does a running one.
pub fn build_final_metrics(
    counters: &SharedCounters,
    latency: LatencySummary,
    elapsed_secs: Reading,
    qps: Reading,
) -> (r: FinalMetrics)
    ensures
        final_tells(r, *counters, latency, elapsed_secs, qps),
        r.elapsed_secs == rate_time(elapsed_secs),
        r.total_requests == counters.total,
        r.success_requests == counters.success,
        r.failed_requests == counters.failed,
        r.timeout_requests == counters.timeout,
        r.qps == qps,
        r.avg_latency_ms == latency.avg_latency_ms,
        r.p50_latency_ms == latency.p50_latency_ms,
        r.p95_latency_ms == latency.p95_latency_ms,
        r.p99_latency_ms == latency.p99_latency_ms,
        r.max_latency_ms == latency.max_latency_ms,
        r.status_code_counts@ == counted_codes(counters.status_codes@),
{
    FinalMetrics {
        elapsed_secs: elapsed_for_rate(elapsed_secs),
        total_requests: counters.total,
        success_requests: counters.success,
        failed_requests: counters.failed,
        timeout_requests: counters.timeout,
        qps,
        avg_latency_ms: latency.avg_latency_ms,
        p50_latency_ms: latency.p50_latency_ms,
        p95_latency_ms: latency.p95_latency_ms,
        p99_latency_ms: latency.p99_latency_ms,
        max_latency_ms: latency.max_latency_ms,
        status_code_counts: status_code_counts(counters),
    }
}

/// How a load test is carried out.
#[derive(Clone, Copy, Debug, PartialEq, Eq, Structural)]
pub struct RunPlan {
    /// How many workers send requests side by side.
    pub workers: usize,
    /// When the workers stop, counted from the start.
    pub duration_secs: u64,
    /// How long a worker rests between two requests.
    pub interval_ms: u64,
    /// When a request counts as timed out.
    pub timeout_secs: u64,
    /// How many idle connections to one host are kept.
    pub pool_max_idle_per_host: usize,
    /// How long an idle connection is kept.
    pub pool_idle_timeout_secs: u64,
    /// Whether packets are sent without delay.
    pub tcp_nodelay: bool,
    /// The time between two reports of progress.
    pub report_every_ms: u64,
    /// How long a report waits for the latencies that workers are about to record.
    pub refresh_wait_ms: u64,
}

/// The plan for some settings: two idle connections for each worker, kept for half a minute,
/// where connections are to be reused, and else none.
pub open spec fn plan_of(settings: LoadTestSettings) -> RunPlan {
    RunPlan {
        workers: settings.concurrency,
        duration_secs: settings.duration_secs,
        interval_ms: settings.interval_ms,
        timeout_secs: settings.timeout_secs,
        pool_max_idle_per_host: if !settings.keep_alive {
            0
        } else if settings.concurrency * 2 <= usize::MAX {
            (settings.concurrency * 2) as usize
        } else {
            usize::MAX
        },
        pool_idle_timeout_secs: if settings.keep_alive {
            30
        } else {
            0
        },
        tcp_nodelay: true,
        report_every_ms: 250,
        refresh_wait_ms: 25,
    }
}

/// The plan for some settings, or what is wrong with them: there must be a worker, and time to
/// work.
pub open spec fn plan_outcome(settings: LoadTestSettings, language: Language) -> Result<
    RunPlan,
    ErrorView,
> {
    if settings.concurrency == 0 {
        Err(ErrorView::Fault(language, I18nKey::ConcurrencyMustGtZero))
    } else if settings.duration_secs == 0 {
        Err(ErrorView::Fault(language, I18nKey::DurationMustGtZero))
    } else {
        Ok(plan_of(settings))
    }
}

/// Checks the settings of a load test and plans it.
pub fn plan_load_test(settings: LoadTestSettings, language: Language) -> (r: Result<
    RunPlan,
    RequestError,
>)
    ensures
        (match r {
            Ok(plan) => Ok(plan),
            Err(e) => Err(e@),
        }) == plan_outcome(settings, language),
{
    if settings.concurrency == 0 {
        return Err(RequestError::Fault { language, key: I18nKey::ConcurrencyMustGtZero });
    }
    if settings.duration_secs == 0 {
        return Err(RequestError::Fault { language, key: I18nKey::DurationMustGtZero });
    }
    let pool_max_idle_per_host: usize = if !settings.keep_alive {
        0
    } else if settings.concurrency <= usize::MAX / 2 {
        settings.concurrency * 2
    } else {
        usize::MAX
    };
    let pool_idle_timeout_secs: u64 = if settings.keep_alive {
        30
    } else {
        0
    };
    Ok(
        RunPlan {
            workers: settings.concurrency,
            duration_secs: settings.duration_secs,
            interval_ms: settings.interval_ms,
            timeout_secs: settings.timeout_secs,
            pool_max_idle_per_host,
            pool_idle_timeout_secs,
            tcp_nodelay: true,
            report_every_ms: 250,
            refresh_wait_ms: 25,
        },
    )
}

/// A load test goes on: nobody has stopped it and its time is not up.
pub open spec fn goes_on(stop_requested: bool, before_deadline: bool) -> bool {
    !stop_requested && before_deadline
}

/// Whether a load test goes on.
pub fn keeps_running(stop_requested: bool, before_deadline: bool) -> (r: bool)
    ensures
        r == goes_on(stop_requested, before_deadline),
        r == (!stop_requested && before_deadline),
{
    !stop_requested && before_deadline
}

/// The events report the last progress of a load test, and then its result.
pub open spec fn closes_with(
    events: Seq<EngineEvent>,
    counters: SharedCounters,
    latency: LatencySummary,
    elapsed_secs: Reading,
    qps: Reading,
) -> bool {
    &&& events.len() == 2
    &&& events[0] matches EngineEvent::Progress(m) && runtime_tells(
        m,
        counters,
        latency,
        elapsed_secs,
        qps,
    )
    &&& events[1] matches EngineEvent::Completed(m) && final_tells(
        m,
        counters,
        latency,
        elapsed_secs,
        qps,
    )
}

/// What a completed load test reports: its last progress, and then its result.
pub fn closing_events(
    counters: &SharedCounters,
    latency: LatencySummary,
    elapsed_secs: Reading,
    qps: Reading,
) -> (r: Vec<EngineEvent>)
    ensures
        closes_with(r@, *counters, latency, elapsed_secs, qps),
        r@.len() == 2,
        r@[0] matches EngineEvent::Progress(m) && m.total_requests == counters.total
            && m.success_requests == counters.success && m.failed_requests == counters.failed
            && m.timeout_requests == counters.timeout && m.transport_error_requests
            == counters.transport_error && m.status_code_counts@ == counted_codes(
            counters.status_codes@,
        ) && m.elapsed_secs == rate_time(elapsed_secs) && m.qps == qps && m.avg_latency_ms
            == latency.avg_latency_ms && m.p50_latency_ms == latency.p50_latency_ms
            && m.p95_latency_ms == latency.p95_latency_ms && m.p99_latency_ms
            == latency.p99_latency_ms && m.max_latency_ms == latency.max_latency_ms,
        r@[1] matches EngineEvent::Completed(m) && m.total_requests == counters.total
            && m.success_requests == counters.success && m.failed_requests == counters.failed
            && m.timeout_requests == counters.timeout && m.status_code_counts@ == counted_codes(
            counters.status_codes@,
        ) && m.elapsed_secs == rate_time(elapsed_secs) && m.qps == qps && m.avg_latency_ms
            == latency.avg_latency_ms && m.p50_latency_ms == latency.p50_latency_ms
            && m.p95_latency_ms == latency.p95_latency_ms && m.p99_latency_ms
            == latency.p99_latency_ms && m.max_latency_ms == latency.max_latency_ms,
{
    let mut out: Vec<EngineEvent> = Vec::new();
    out.push(
        EngineEvent::Progress(build_runtime_metrics(counters, latency, elapsed_secs, qps)),
    );
    out.push(EngineEvent::Completed(build_final_metrics(counters, latency, elapsed_secs, qps)));
    out
}

} // verus!
