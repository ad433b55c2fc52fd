//! What a load test does with its settings, and what its workers count.
use crate::draft::{supports_body, text_supports_body};
use crate::error::ErrorView;
use crate::i18n::{I18nKey, Language};
use crate::loadtest::{
    closes_with, counted_codes, final_tells, goes_on, plan_of, plan_outcome, rate_time,
    reported_latency, runtime_tells, slot_of, EngineEvent, FinalMetrics, LatencySummary,
    LoadTestSettings, RunPlan, RuntimeMetrics, SharedCounters,
};
use crate::reading::Reading;
use crate::text::{lower, lowered, upper, uppered};
use crate::worker::{
    good_statuses, law_every_request_counts_once, lemma_sum_after_bump, lemma_sum_of_zeros, one_if,
    step_of, worker_run, CounterBump, WorkerEvent, WorkerState,
};
use vstd::prelude::*;
use vstd::string::*;

verus! {

/// A load test is planned if and only if there is a worker and time to work; what is missing is
/// told, the workers first.
pub proof fn law_settings_that_are_refused(settings: LoadTestSettings, language: Language)
    ensures
        settings.concurrency == 0 ==> plan_outcome(settings, language) == Err::<
            RunPlan,
            ErrorView,
        >(ErrorView::Fault(language, I18nKey::ConcurrencyMustGtZero)),
        settings.concurrency > 0 && settings.duration_secs == 0 ==> plan_outcome(settings, language)
            == Err::<RunPlan, ErrorView>(ErrorView::Fault(language, I18nKey::DurationMustGtZero)),
        settings.concurrency > 0 && settings.duration_secs > 0 ==> plan_outcome(
            settings,
            language,
        ) is Ok,
{
}

/// The plan does what was set: as many workers, for as long, with as much rest between requests
/// and as much patience. Where connections are to be reused there are two idle ones for each
/// worker, kept for half a minute, and else none is kept. Packets are never held back, and
/// progress is reported four times a second.
pub proof fn law_plan_does_what_was_set(settings: LoadTestSettings, language: Language)
    requires
        settings.concurrency > 0,
        settings.duration_secs > 0,
    ensures
        plan_outcome(settings, language) matches Ok(plan) && {
            &&& plan.workers == settings.concurrency
            &&& plan.duration_secs == settings.duration_secs
            &&& plan.interval_ms == settings.interval_ms
            &&& plan.timeout_secs == settings.timeout_secs
            &&& settings.keep_alive && settings.concurrency * 2 <= usize::MAX
                ==> plan.pool_max_idle_per_host == settings.concurrency * 2
            &&& settings.keep_alive && settings.concurrency * 2 > usize::MAX
                ==> plan.pool_max_idle_per_host == usize::MAX
            &&& settings.keep_alive ==> plan.pool_idle_timeout_secs == 30
            &&& !settings.keep_alive ==> plan.pool_max_idle_per_host == 0
                && plan.pool_idle_timeout_secs == 0
            &&& plan.tcp_nodelay
            &&& plan.report_every_ms * 4 == 1000
            &&& plan.refresh_wait_ms == 25
            &&& plan == plan_of(settings)
        },
{
}

/// A load test goes on until it is stopped or its time is up, whichever comes first.
pub proof fn law_what_ends_a_load_test(stop_requested: bool, before_deadline: bool)
    ensures
        stop_requested ==> !goes_on(stop_requested, before_deadline),
        !before_deadline ==> !goes_on(stop_requested, before_deadline),
        goes_on(false, true),
{
}

/// Each status code below 600 has a slot of its own, the one with its number, and no other code
/// has one.
pub proof fn law_slots_of_status_codes(code: u16, other: u16)
    ensures
        slot_of(code) is Some <==> code <= 599,
        slot_of(code) matches Some(slot) ==> slot == code,
        slot_of(code) is Some && slot_of(code) == slot_of(other) ==> code == other,
{
}

/// Latencies are reported as they were measured, and as zeros as long as there is none.
pub proof fn law_latencies_as_measured(measured: LatencySummary)
    ensures
        reported_latency(false, measured) == measured,
        reported_latency(true, measured).avg_latency_ms.bits == 0,
        reported_latency(true, measured).p50_latency_ms.bits == 0,
        reported_latency(true, measured).p95_latency_ms.bits == 0,
        reported_latency(true, measured).p99_latency_ms.bits == 0,
        reported_latency(true, measured).max_latency_ms.bits == 0,
{
}

/// A rate is taken over the time that has passed or over a millisecond, whichever is longer.
pub proof fn law_time_of_a_rate(elapsed_secs: Reading)
    ensures
        ({
            let least = Reading { bits: 0x3f50_624d_d2f1_a9fc };
            &&& rate_time(elapsed_secs).is_number()
            &&& least.at_most(rate_time(elapsed_secs))
            &&& elapsed_secs.is_number() ==> elapsed_secs.at_most(rate_time(elapsed_secs))
            &&& rate_time(elapsed_secs) == elapsed_secs || rate_time(elapsed_secs) == least
        }),
{
}

/// The live metrics and the result give each count and each latency under its own name.
pub proof fn law_metrics_tell_what_was_counted(
    live: RuntimeMetrics,
    result: FinalMetrics,
    counters: SharedCounters,
    latency: LatencySummary,
    elapsed_secs: Reading,
    qps: Reading,
)
    ensures
        runtime_tells(live, counters, latency, elapsed_secs, qps) ==> {
            &&& live.elapsed_secs == rate_time(elapsed_secs) && live.qps == qps
            &&& live.total_requests == counters.total
            &&& live.success_requests == counters.success
            &&& live.failed_requests == counters.failed
            &&& live.timeout_requests == counters.timeout
            &&& live.transport_error_requests == counters.transport_error
            &&& live.avg_latency_ms == latency.avg_latency_ms
            &&& live.p50_latency_ms == latency.p50_latency_ms
            &&& live.p95_latency_ms == latency.p95_latency_ms
            &&& live.p99_latency_ms == latency.p99_latency_ms
            &&& live.max_latency_ms == latency.max_latency_ms
            &&& live.status_code_counts@ == counted_codes(counters.status_codes@)
        },
        final_tells(result, counters, latency, elapsed_secs, qps) ==> {
            &&& result.elapsed_secs == rate_time(elapsed_secs) && result.qps == qps
            &&& result.total_requests == counters.total
            &&& result.success_requests == counters.success
            &&& result.failed_requests == counters.failed
            &&& result.timeout_requests == counters.timeout
            &&& result.avg_latency_ms == latency.avg_latency_ms
            &&& result.p50_latency_ms == latency.p50_latency_ms
            &&& result.p95_latency_ms == latency.p95_latency_ms
            &&& result.p99_latency_ms == latency.p99_latency_ms
            &&& result.max_latency_ms == latency.max_latency_ms
            &&& result.status_code_counts@ == counted_codes(counters.status_codes@)
        },
{
}

/// The result of a load test agrees with its last progress.
pub proof fn law_result_agrees_with_progress(
    events: Seq<EngineEvent>,
    counters: SharedCounters,
    latency: LatencySummary,
    elapsed_secs: Reading,
    qps: Reading,
)
    requires
        closes_with(events, counters, latency, elapsed_secs, qps),
    ensures
        events.len() == 2,
        events[0] is Progress,
        events[1] is Completed,
        ({
            let (live, result) = (events[0]->Progress_0, events[1]->Completed_0);
            &&& live.total_requests == result.total_requests == counters.total
            &&& live.success_requests == result.success_requests == counters.success
            &&& live.failed_requests == result.failed_requests == counters.failed
            &&& live.timeout_requests == result.timeout_requests == counters.timeout
            &&& live.elapsed_secs == result.elapsed_secs && live.qps == result.qps && result.qps
                == qps
            &&& live.avg_latency_ms == result.avg_latency_ms
            &&& live.p50_latency_ms == result.p50_latency_ms
            &&& live.p95_latency_ms == result.p95_latency_ms
            &&& live.p99_latency_ms == result.p99_latency_ms
            &&& live.max_latency_ms == result.max_latency_ms
            &&& live.status_code_counts@ == result.status_code_counts@
        }),
{
}

/// A request that was answered with a status from 200 to 299 and a complete body is a success and
/// nothing else; with any other status it is a failure, and nothing went wrong on the way. A body
/// that breaks off is a failure on the way, whatever the status.
pub proof fn law_how_an_answered_request_ends(
    status: u16,
    complete: bool,
    latency_us: u64,
    interval_ms: u64,
)
    ensures
        ({
            let step = step_of(
                WorkerState::Receiving { status },
                WorkerEvent::BodyRead { complete, latency_us },
                interval_ms,
            );
            let good = complete && 200 <= status && status <= 299;
            &&& step.bump.success == good
            &&& step.bump.failed == !good
            &&& step.bump.transport_error == !complete
            &&& !step.bump.timeout
            &&& !step.bump.total
            &&& step.bump.status_slot is None
            &&& takes_down(step.latency_us, latency_us)
            &&& rests_or_goes_on(step.state, interval_ms)
        }),
{
}

/// The latency is taken down as it was, but as a microsecond where the clock saw none pass.
pub open spec fn takes_down(taken: Option<u64>, latency_us: u64) -> bool {
    &&& taken is Some
    &&& latency_us > 0 ==> taken == Some(latency_us)
    &&& latency_us == 0 ==> taken == Some(1u64)
}

/// The worker rests if it is to rest, and else goes straight on.
pub open spec fn rests_or_goes_on(state: WorkerState, interval_ms: u64) -> bool {
    &&& interval_ms > 0 ==> state == WorkerState::Resting
    &&& interval_ms == 0 ==> state == WorkerState::Checking
}

/// A request without an answer is counted, as a timeout or as a failure, and always as something
/// that went wrong on the way; no status is counted for it.
pub proof fn law_how_an_unanswered_request_ends(
    timed_out: bool,
    latency_us: u64,
    interval_ms: u64,
)
    ensures
        ({
            let step = step_of(
                WorkerState::Sending,
                WorkerEvent::SendFailed { timed_out, latency_us },
                interval_ms,
            );
            &&& step.bump.total
            &&& step.bump.timeout == timed_out
            &&& step.bump.failed == !timed_out
            &&& step.bump.transport_error
            &&& !step.bump.success
            &&& step.bump.status_slot is None
            &&& takes_down(step.latency_us, latency_us)
            &&& rests_or_goes_on(step.state, interval_ms)
        }),
{
}

/// An answer is counted once, under its status if that is below 600; how it ends is open until its
/// body is read, and until then no latency is taken down.
pub proof fn law_how_an_answer_begins(status: u16, interval_ms: u64)
    ensures
        ({
            let step = step_of(
                WorkerState::Sending,
                WorkerEvent::Responded { status },
                interval_ms,
            );
            &&& step.bump.total
            &&& status <= 599 ==> step.bump.status_slot == Some(status as usize)
            &&& status > 599 ==> step.bump.status_slot is None
            &&& !step.bump.success && !step.bump.failed && !step.bump.timeout
                && !step.bump.transport_error
            &&& step.latency_us is None
            &&& step.state == WorkerState::Receiving { status }
        }),
{
}

/// Nothing is counted and nothing is changed.
pub open spec fn counts_nothing(bump: CounterBump) -> bool {
    !bump.total && !bump.success && !bump.failed && !bump.timeout && !bump.transport_error
        && bump.status_slot is None
}

/// A worker sends the next request if the load test goes on, and after a rest looks whether it
/// does; neither is counted.
pub proof fn law_how_a_worker_goes_on(
    stop_requested: bool,
    before_deadline: bool,
    interval_ms: u64,
)
    ensures
        ({
            let step = step_of(
                WorkerState::Checking,
                WorkerEvent::Clock { stop_requested, before_deadline },
                interval_ms,
            );
            &&& !stop_requested && before_deadline ==> step.state == WorkerState::Sending
            &&& stop_requested || !before_deadline ==> step.state == WorkerState::Finished
            &&& counts_nothing(step.bump)
            &&& step.latency_us is None
        }),
        ({
            let step = step_of(WorkerState::Resting, WorkerEvent::Rested, interval_ms);
            &&& step.state == WorkerState::Checking
            &&& counts_nothing(step.bump)
            &&& step.latency_us is None
        }),
{
}

/// An event that does not belong to what the worker is about to do changes and counts nothing.
pub proof fn law_other_events_change_nothing(
    state: WorkerState,
    event: WorkerEvent,
    interval_ms: u64,
)
    requires
        !(state is Checking && event is Clock),
        !(state is Sending && (event is Responded || event is SendFailed)),
        !(state is Receiving && event is BodyRead),
        !(state is Resting && event is Rested),
    ensures
        step_of(state, event, interval_ms).state == state,
        counts_nothing(step_of(state, event, interval_ms).bump),
        step_of(state, event, interval_ms).latency_us is None,
{
}

/// Every body that was read was complete.
pub open spec fn bodies_complete(events: Seq<WorkerEvent>) -> bool {
    forall|i: int|
        0 <= i < events.len() ==> ((#[trigger] events[i]) matches WorkerEvent::BodyRead {
            complete,
            ..
        } ==> complete)
}

/// Where every body is complete, the successes are exactly the answers with a status from 200 to
/// 299, save the one that is being read; nothing goes wrong on the way but requests without an
/// answer.
pub proof fn law_good_answers_are_successes(events: Seq<WorkerEvent>, interval_ms: u64)
    requires
        bodies_complete(events),
    ensures
        ({
            let (state, tally) = worker_run(events, interval_ms);
            tally.success + one_if(
                state matches WorkerState::Receiving { status } && 200 <= status && status <= 299,
            ) == good_statuses(tally)
        }),
    decreases events.len(),
{
    law_every_request_counts_once(events, interval_ms);
    if events.len() > 0 {
        let before = events.drop_last();
        assert forall|i: int| 0 <= i < before.len() implies ((
        #[trigger] before[i]) matches WorkerEvent::BodyRead { complete, .. } ==> complete) by {
            assert(before[i] == events[i]);
        }
        assert(events.last() == events[events.len() - 1]);
        law_good_answers_are_successes(before, interval_ms);
        law_every_request_counts_once(before, interval_ms);
        lemma_good_step(before, events.last(), interval_ms);
        assert(before.push(events.last()) =~= events);
    } else {
        assert(events =~= Seq::empty());
        lemma_good_start(interval_ms);
    }
}

proof fn lemma_good_start(interval_ms: u64)
    ensures
        good_statuses(worker_run(Seq::empty(), interval_ms).1) == 0,
{
    lemma_sum_of_zeros(worker_run(Seq::empty(), interval_ms).1.codes, 200, 300);
}

proof fn lemma_good_step(before: Seq<WorkerEvent>, event: WorkerEvent, interval_ms: u64)
    ensures
        good_statuses(worker_run(before.push(event), interval_ms).1) == good_statuses(
            worker_run(before, interval_ms).1,
        ) + one_if(
            step_of(
                worker_run(before, interval_ms).0,
                event,
                interval_ms,
            ).bump.status_slot matches Some(slot) && 200 <= slot && slot < 300,
        ),
{
    law_every_request_counts_once(before, interval_ms);
    assert(before.push(event).drop_last() =~= before);
    let (state, tally) = worker_run(before, interval_ms);
    if let Some(slot) = step_of(state, event, interval_ms).bump.status_slot {
        lemma_sum_after_bump(tally.codes, slot as int, 200, 300);
    }
}

/// Whether the typed method carries a body does not depend on its case, and agrees with what the
/// method in upper case carries.
pub proof fn law_case_of_the_method(method: Seq<char>, other: Seq<char>)
    ensures
        lowered(method) == lowered(other) ==> text_supports_body(method) == text_supports_body(
            other,
        ),
        text_supports_body(method) == supports_body(uppered(method)),
{
    reveal_strlit("GET");
    reveal_strlit("HEAD");
    lemma_same_in_either_case(method, "GET"@);
    lemma_same_in_either_case(method, "HEAD"@);
}

proof fn lemma_same_in_either_case(s: Seq<char>, word: Seq<char>)
    requires
        forall|i: int| 0 <= i < word.len() ==> 'A' <= #[trigger] word[i] && word[i] <= 'Z',
    ensures
        lowered(s) == lowered(word) <==> uppered(s) == word,
{
    if lowered(s) == lowered(word) {
        assert(lowered(s).len() == lowered(word).len());
        assert forall|i: int| 0 <= i < word.len() implies uppered(s)[i] == word[i] by {
            assert(lowered(s)[i] == lowered(word)[i]);
            assert(lower(s[i]) == lower(word[i]));
        }
        assert(uppered(s) =~= word);
    }
    if uppered(s) == word {
        assert forall|i: int| 0 <= i < word.len() implies lowered(s)[i] == lowered(word)[i] by {
            assert(uppered(s)[i] == word[i]);
            assert(upper(s[i]) == word[i]);
        }
        assert(lowered(s) =~= lowered(word));
    }
}

} // verus!
