use hdrhistogram::Histogram;
use reqwave::error::RequestError;
use reqwave::i18n::{I18nKey, Language};
use reqwave::loadtest::{
    build_final_metrics, build_runtime_metrics, closing_events, elapsed_for_rate, keeps_running,
    plan_load_test, status_code_counts, status_code_slot, summarize_latency, EngineEvent,
    FinalMetrics, LatencySummary, LoadTestSettings, RuntimeMetrics, SharedCounters, LEAST_ELAPSED,
};
use reqwave::reading::Reading;
use reqwave::worker::{worker_step, CounterBump, WorkerEvent, WorkerState};

fn reading(x: f64) -> Reading {
    Reading { bits: x.to_bits() }
}

fn number(r: Reading) -> f64 {
    f64::from_bits(r.bits)
}

fn latencies(hist: &Histogram<u64>) -> LatencySummary {
    let measured = LatencySummary {
        avg_latency_ms: reading(hist.mean() / 1000.0),
        p50_latency_ms: reading(hist.value_at_quantile(0.50) as f64 / 1000.0),
        p95_latency_ms: reading(hist.value_at_quantile(0.95) as f64 / 1000.0),
        p99_latency_ms: reading(hist.value_at_quantile(0.99) as f64 / 1000.0),
        max_latency_ms: reading(hist.max() as f64 / 1000.0),
    };
    summarize_latency(hist.is_empty(), measured)
}

fn rate(counters: &SharedCounters, elapsed: f64) -> Reading {
    reading(counters.total as f64 / number(elapsed_for_rate(reading(elapsed))))
}

fn settings() -> LoadTestSettings {
    LoadTestSettings {
        concurrency: 100,
        duration_secs: 10,
        interval_ms: 1,
        timeout_secs: 5,
        keep_alive: true,
    }
}

fn none() -> CounterBump {
    CounterBump {
        total: false,
        success: false,
        failed: false,
        timeout: false,
        transport_error: false,
        status_slot: None,
    }
}

#[test]
fn runtime_metrics_include_live_latency_summary() {
    let mut counters = SharedCounters::default();
    counters.total += 3;
    counters.success += 2;
    counters.failed += 1;
    counters.status_codes[200] += 2;
    counters.status_codes[500] += 1;

    let mut hist = Histogram::<u64>::new(3).unwrap();
    hist.record(1_000).unwrap();
    hist.record(2_000).unwrap();
    hist.record(4_000).unwrap();

    let metrics =
        build_runtime_metrics(&counters, latencies(&hist), reading(2.0), rate(&counters, 2.0));

    assert_eq!(metrics.total_requests, 3);
    assert_eq!(metrics.success_requests, 2);
    assert_eq!(metrics.failed_requests, 1);
    assert_eq!(number(metrics.qps), 1.5);
    assert_eq!(metrics.status_code_counts, vec![(200, 2), (500, 1)]);
    assert!(number(metrics.avg_latency_ms) > 0.0);
    assert!(number(metrics.p95_latency_ms) >= number(metrics.p50_latency_ms));
    assert!((number(metrics.max_latency_ms) - 4.0).abs() < 0.2);
}

#[test]
fn final_metrics_include_request_summary() {
    let mut counters = SharedCounters::default();
    counters.total += 4;
    counters.success += 2;
    counters.failed += 1;
    counters.timeout += 1;
    counters.status_codes[200] += 2;
    counters.status_codes[503] += 1;
    counters.transport_error += 1;

    let mut hist = Histogram::<u64>::new(3).unwrap();
    hist.record(2_000).unwrap();
    hist.record(3_000).unwrap();

    let metrics =
        build_final_metrics(&counters, latencies(&hist), reading(2.0), rate(&counters, 2.0));

    assert_eq!(metrics.total_requests, 4);
    assert_eq!(metrics.success_requests, 2);
    assert_eq!(metrics.failed_requests, 1);
    assert_eq!(metrics.timeout_requests, 1);
    assert_eq!(number(metrics.qps), 2.0);
    assert_eq!(metrics.status_code_counts, vec![(200, 2), (503, 1)]);
    assert!(number(metrics.avg_latency_ms) > 0.0);
}

#[test]
fn nothing_recorded_reports_zeros() {
    let hist = Histogram::<u64>::new(3).unwrap();
    let summary = latencies(&hist);
    assert_eq!(number(summary.avg_latency_ms), 0.0);
    assert_eq!(number(summary.max_latency_ms), 0.0);
    let some = LatencySummary { p50_latency_ms: reading(3.5), ..summary };
    assert_eq!(summarize_latency(false, some), some);
    assert_eq!(summarize_latency(true, some), summary);
}

#[test]
fn load_test_lasts_a_millisecond_at_the_least() {
    assert_eq!(number(Reading { bits: LEAST_ELAPSED }), 0.001);
    assert_eq!(number(elapsed_for_rate(reading(0.0))), 0.001);
    assert_eq!(number(elapsed_for_rate(reading(f64::NAN))), 0.001);
    assert_eq!(number(elapsed_for_rate(reading(2.5))), 2.5);
}

#[test]
fn closing_events_are_progress_and_result() {
    let mut counters = SharedCounters::default();
    counters.total = 2;
    counters.success = 1;
    counters.timeout = 1;
    counters.transport_error = 1;
    counters.status_codes[204] = 1;
    let hist = Histogram::<u64>::new(3).unwrap();
    let events = closing_events(&counters, latencies(&hist), reading(0.0), reading(2000.0));
    assert_eq!(events.len(), 2);
    match (&events[0], &events[1]) {
        (EngineEvent::Progress(p), EngineEvent::Completed(c)) => {
            assert_eq!(p.transport_error_requests, 1);
            assert_eq!(p.status_code_counts, vec![(204, 1)]);
            assert_eq!(number(p.elapsed_secs), 0.001);
            assert_eq!(c.total_requests, 2);
            assert_eq!(c.timeout_requests, 1);
            assert_eq!(number(c.qps), 2000.0);
            assert_eq!(c.status_code_counts, vec![(204, 1)]);
        }
        other => panic!("other events: {:?}", other),
    }
}

#[test]
fn metrics_begin_at_zero() {
    let metrics = RuntimeMetrics::default();
    assert_eq!(metrics.total_requests, 0);
    assert_eq!(number(metrics.qps), 0.0);
    assert!(metrics.status_code_counts.is_empty());
    let result = FinalMetrics::default();
    assert_eq!(result.total_requests, 0);
    assert_eq!(number(result.max_latency_ms), 0.0);
    assert!(result.status_code_counts.is_empty());
}

#[test]
fn status_codes_up_to_599_are_told_apart() {
    assert_eq!(status_code_slot(0), Some(0));
    assert_eq!(status_code_slot(200), Some(200));
    assert_eq!(status_code_slot(599), Some(599));
    assert_eq!(status_code_slot(600), None);
    assert_eq!(status_code_slot(65535), None);
}

#[test]
fn only_counted_codes_are_listed_in_order() {
    let mut counters = SharedCounters::default();
    assert!(status_code_counts(&counters).is_empty());
    counters.status_codes[599] = 7;
    counters.status_codes[0] = 1;
    counters.status_codes[404] = u64::MAX;
    assert_eq!(status_code_counts(&counters), vec![(0, 1), (404, u64::MAX), (599, 7)]);
}

#[test]
fn plan_follows_the_settings() {
    let plan = plan_load_test(settings(), Language::EnUs).unwrap();
    assert_eq!(plan.workers, 100);
    assert_eq!(plan.duration_secs, 10);
    assert_eq!(plan.interval_ms, 1);
    assert_eq!(plan.timeout_secs, 5);
    assert_eq!(plan.pool_max_idle_per_host, 200);
    assert_eq!(plan.pool_idle_timeout_secs, 30);
    assert!(plan.tcp_nodelay);
    assert_eq!(plan.report_every_ms, 250);
    assert_eq!(plan.refresh_wait_ms, 25);
    let closing = LoadTestSettings { keep_alive: false, ..settings() };
    let plan = plan_load_test(closing, Language::EnUs).unwrap();
    assert_eq!(plan.pool_max_idle_per_host, 0);
    assert_eq!(plan.pool_idle_timeout_secs, 0);
    let huge = LoadTestSettings { concurrency: usize::MAX, ..settings() };
    assert_eq!(plan_load_test(huge, Language::EnUs).unwrap().pool_max_idle_per_host, usize::MAX);
}

#[test]
fn settings_need_a_worker_and_time() {
    let key = |s: LoadTestSettings| match plan_load_test(s, Language::EnUs).unwrap_err() {
        RequestError::Fault { key, .. } => key,
        other => panic!("no fault: {:?}", other),
    };
    let idle = LoadTestSettings { concurrency: 0, ..settings() };
    assert_eq!(key(idle), I18nKey::ConcurrencyMustGtZero);
    let short = LoadTestSettings { duration_secs: 0, ..settings() };
    assert_eq!(key(short), I18nKey::DurationMustGtZero);
    let both = LoadTestSettings { concurrency: 0, duration_secs: 0, ..settings() };
    assert_eq!(key(both), I18nKey::ConcurrencyMustGtZero);
}

#[test]
fn load_test_runs_until_it_is_stopped_or_its_time_is_up() {
    assert!(keeps_running(false, true));
    assert!(!keeps_running(true, true));
    assert!(!keeps_running(false, false));
}

#[test]
fn successful_request_is_counted() {
    let go = WorkerEvent::Clock { stop_requested: false, before_deadline: true };
    let step = worker_step(WorkerState::Checking, go, 5);
    assert_eq!(step.state, WorkerState::Sending);
    assert_eq!(step.bump, none());
    let step = worker_step(step.state, WorkerEvent::Responded { status: 204 }, 5);
    assert_eq!(step.state, WorkerState::Receiving { status: 204 });
    assert_eq!(step.bump, CounterBump { total: true, status_slot: Some(204), ..none() });
    assert_eq!(step.latency_us, None);
    let read = WorkerEvent::BodyRead { complete: true, latency_us: 0 };
    let step = worker_step(step.state, read, 5);
    assert_eq!(step.state, WorkerState::Resting);
    assert_eq!(step.bump, CounterBump { success: true, ..none() });
    assert_eq!(step.latency_us, Some(1));
    let step = worker_step(step.state, WorkerEvent::Rested, 5);
    assert_eq!(step.state, WorkerState::Checking);
}

#[test]
fn unsuccessful_status_and_broken_body_are_failures() {
    let read = |complete| WorkerEvent::BodyRead { complete, latency_us: 9 };
    let refused = worker_step(WorkerState::Receiving { status: 404 }, read(true), 0);
    assert_eq!(refused.state, WorkerState::Checking);
    assert_eq!(refused.bump, CounterBump { failed: true, ..none() });
    assert_eq!(refused.latency_us, Some(9));
    let broken = worker_step(WorkerState::Receiving { status: 200 }, read(false), 0);
    assert_eq!(broken.bump, CounterBump { failed: true, transport_error: true, ..none() });
    let moved = worker_step(WorkerState::Receiving { status: 300 }, read(true), 0);
    assert_eq!(moved.bump, CounterBump { failed: true, ..none() });
}

#[test]
fn request_without_response_is_a_timeout_or_a_failure() {
    let lost = |timed_out| WorkerEvent::SendFailed { timed_out, latency_us: 8 };
    let timeout = worker_step(WorkerState::Sending, lost(true), 0);
    assert_eq!(
        timeout.bump,
        CounterBump { total: true, timeout: true, transport_error: true, ..none() }
    );
    assert_eq!(timeout.latency_us, Some(8));
    let failure = worker_step(WorkerState::Sending, lost(false), 3);
    assert_eq!(
        failure.bump,
        CounterBump { total: true, failed: true, transport_error: true, ..none() }
    );
    assert_eq!(failure.state, WorkerState::Resting);
}

#[test]
fn unknown_status_has_no_slot() {
    let step = worker_step(WorkerState::Sending, WorkerEvent::Responded { status: 999 }, 0);
    assert_eq!(step.bump, CounterBump { total: true, ..none() });
}

#[test]
fn stopped_worker_finishes_and_stays_so() {
    let stop = WorkerEvent::Clock { stop_requested: true, before_deadline: true };
    let late = WorkerEvent::Clock { stop_requested: false, before_deadline: false };
    assert_eq!(worker_step(WorkerState::Checking, stop, 1).state, WorkerState::Finished);
    assert_eq!(worker_step(WorkerState::Checking, late, 1).state, WorkerState::Finished);
    let go = WorkerEvent::Clock { stop_requested: false, before_deadline: true };
    assert_eq!(worker_step(WorkerState::Finished, go, 1).state, WorkerState::Finished);
    assert_eq!(worker_step(WorkerState::Finished, WorkerEvent::Rested, 1).bump, none());
}

#[test]
fn counts_of_many_workers_add_up() {
    let mut counters = SharedCounters::default();
    let mut latencies = 0;
    let mut good = 0;
    for worker in 0..20u16 {
        let mut state = WorkerState::Checking;
        for turn in 0..50u16 {
            let event = match state {
                WorkerState::Checking => {
                    WorkerEvent::Clock { stop_requested: false, before_deadline: turn < 40 }
                }
                WorkerState::Sending if (worker + turn) % 5 == 0 => {
                    WorkerEvent::SendFailed { timed_out: turn % 2 == 0, latency_us: 1 }
                }
                WorkerState::Sending => WorkerEvent::Responded { status: 190 + worker + turn },
                WorkerState::Receiving { .. } => {
                    WorkerEvent::BodyRead { complete: turn % 7 != 0, latency_us: 2 }
                }
                WorkerState::Resting => WorkerEvent::Rested,
                WorkerState::Finished => break,
            };
            let step = worker_step(state, event, 1);
            counters.total += step.bump.total as u64;
            counters.success += step.bump.success as u64;
            counters.failed += step.bump.failed as u64;
            counters.timeout += step.bump.timeout as u64;
            latencies += step.latency_us.is_some() as u64;
            if let Some(slot) = step.bump.status_slot {
                counters.status_codes[slot] += 1;
                good += (200..=299).contains(&slot) as u64;
            }
            state = step.state;
        }
        assert_eq!(state, WorkerState::Finished);
    }
    assert!(counters.success > 0 && counters.failed > 0 && counters.timeout > 0);
    assert_eq!(counters.total, counters.success + counters.failed + counters.timeout);
    assert_eq!(counters.total, latencies);
    let listed = status_code_counts(&counters);
    let sum: u64 = listed.iter().map(|(_, n)| n).sum();
    let listed_good: u64 =
        listed.iter().filter(|(code, _)| (200..=299).contains(code)).map(|(_, n)| n).sum();
    assert_eq!(listed_good, good);
    assert!(counters.success <= listed_good);
    assert!(listed_good <= sum && sum <= counters.total);
}
