//! What one worker of a load test does next, and what it counts.
use crate::loadtest::{
    counted_codes, keeps_running, law_listed_counts_add_up, listed_between, status_code_slot,
    sum_between, unbounded, SharedCounters, STATUS_CODES,
};
use vstd::prelude::*;

verus! {

/// What a worker is about to do.
#[derive(Clone, Copy, Debug, PartialEq, Eq, Structural)]
pub enum WorkerState {
    /// Find out whether the load test goes on.
    Checking,
    /// Send the request and wait for the response.
    Sending,
    /// Read the body of a response with this status.
    Receiving { status: u16 },
    /// Rest before the next request.
    Resting,
    /// Nothing more.
    Finished,
}

/// What has come of what a worker did.
#[derive(Clone, Copy, Debug, PartialEq, Eq, Structural)]
pub enum WorkerEvent {
    /// The clock and the stop flag were read.
    Clock { stop_requested: bool, before_deadline: bool },
    /// A response with this status has begun.
    Responded { status: u16 },
    /// The body was read, or broke off, this long after the request was sent.
    BodyRead { complete: bool, latency_us: u64 },
    /// There was no response, this long after the request was sent.
    SendFailed { timed_out: bool, latency_us: u64 },
    /// The rest is over.
    Rested,
}

/// Which counters go up by one.
#[derive(Clone, Copy, Debug, PartialEq, Eq, Structural)]
pub struct CounterBump {
    pub total: bool,
    pub success: bool,
    pub failed: bool,
    pub timeout: bool,
    pub transport_error: bool,
    pub status_slot: Option<usize>,
}

/// What follows from an event.
#[derive(Clone, Copy, Debug, PartialEq, Eq, Structural)]
pub struct WorkerStep {
    pub state: WorkerState,
    pub bump: CounterBump,
    /// The latency to be recorded, if a request is over.
    pub latency_us: Option<u64>,
}

/// The statuses that mean success.
pub open spec fn is_success(status: u16) -> bool {
    200 <= status && status < 300
}

/// Nothing is counted.
pub open spec fn no_bump() -> CounterBump {
    CounterBump {
        total: false,
        success: false,
        failed: false,
        timeout: false,
        transport_error: false,
        status_slot: None,
    }
}

/// What a worker does after a request: it rests, unless there is no rest to take.
pub open spec fn after_request(interval_ms: u64) -> WorkerState {
    if interval_ms == 0 {
        WorkerState::Checking
    } else {
        WorkerState::Resting
    }
}

/// A latency as it is recorded: a microsecond at the least.
pub open spec fn recorded(latency_us: u64) -> u64 {
    if latency_us == 0 {
        1
    } else {
        latency_us
    }
}

/// What follows when `event` comes of what a worker in `state` did. An event that does not
/// belong to the state changes nothing.
pub open spec fn step_of(state: WorkerState, event: WorkerEvent, interval_ms: u64) -> WorkerStep {
    match (state, event) {
        (WorkerState::Checking, WorkerEvent::Clock { stop_requested, before_deadline }) => {
            WorkerStep {
                state: if !stop_requested && before_deadline {
                    WorkerState::Sending
                } else {
                    WorkerState::Finished
                },
                bump: no_bump(),
                latency_us: None,
            }
        },
        (WorkerState::Sending, WorkerEvent::Responded { status }) => WorkerStep {
            state: WorkerState::Receiving { status },
            bump: CounterBump {
                total: true,
                status_slot: if status < STATUS_CODES {
                    Some(status as usize)
                } else {
                    None
                },
                ..no_bump()
            },
            latency_us: None,
        },
        (WorkerState::Sending, WorkerEvent::SendFailed { timed_out, latency_us }) => WorkerStep {
            state: after_request(interval_ms),
            bump: CounterBump {
                total: true,
                timeout: timed_out,
                failed: !timed_out,
                transport_error: true,
                ..no_bump()
            },
            latency_us: Some(recorded(latency_us)),
        },
        (WorkerState::Receiving { status }, WorkerEvent::BodyRead { complete, latency_us }) => {
            WorkerStep {
                state: after_request(interval_ms),
                bump: CounterBump {
                    success: complete && is_success(status),
                    failed: !(complete && is_success(status)),
                    transport_error: !complete,
                    ..no_bump()
                },
                latency_us: Some(recorded(latency_us)),
            }
        },
        (WorkerState::Resting, WorkerEvent::Rested) => WorkerStep {
            state: WorkerState::Checking,
            bump: no_bump(),
            latency_us: None,
        },
        _ => WorkerStep { state, bump: no_bump(), latency_us: None },
    }
}

/// Decides what a worker counts and does next.
pub fn worker_step(state: WorkerState, event: WorkerEvent, interval_ms: u64) -> (r: WorkerStep)
    ensures
        r == step_of(state, event, interval_ms),
{
    let none = CounterBump {
        total: false,
        success: false,
        failed: false,
        timeout: false,
        transport_error: false,
        status_slot: None,
    };
    let next = if interval_ms == 0 {
        WorkerState::Checking
    } else {
        WorkerState::Resting
    };
    match (state, event) {
        (WorkerState::Checking, WorkerEvent::Clock { stop_requested, before_deadline }) => {
            let state = if keeps_running(stop_requested, before_deadline) {
                WorkerState::Sending
            } else {
                WorkerState::Finished
            };
            WorkerStep { state, bump: none, latency_us: None }
        },
        (WorkerState::Sending, WorkerEvent::Responded { status }) => {
            let bump = CounterBump { total: true, status_slot: status_code_slot(status), ..none };
            WorkerStep { state: WorkerState::Receiving { status }, bump, latency_us: None }
        },
        (WorkerState::Sending, WorkerEvent::SendFailed { timed_out, latency_us }) => {
            let bump = CounterBump {
                total: true,
                timeout: timed_out,
                failed: !timed_out,
                transport_error: true,
                ..none
            };
            WorkerStep { state: next, bump, latency_us: Some(at_least_one(latency_us)) }
        },
        (WorkerState::Receiving { status }, WorkerEvent::BodyRead { complete, latency_us }) => {
            let success = complete && 200 <= status && status < 300;
            let bump = CounterBump {
                success,
                failed: !success,
                transport_error: !complete,
                ..none
            };
            WorkerStep { state: next, bump, latency_us: Some(at_least_one(latency_us)) }
        },
        (WorkerState::Resting, WorkerEvent::Rested) => WorkerStep {
            state: WorkerState::Checking,
            bump: none,
            latency_us: None,
        },
        _ => WorkerStep { state, bump: none, latency_us: None },
    }
}

fn at_least_one(latency_us: u64) -> (r: u64)
    ensures
        r == recorded(latency_us),
{
    if latency_us == 0 {
        1
    } else {
        latency_us
    }
}

/// What a worker has counted, as unbounded numbers.
pub struct Tally {
    pub total: nat,
    pub success: nat,
    pub failed: nat,
    pub timeout: nat,
    pub transport_error: nat,
    /// For each status code that is told apart how many responses had it.
    pub codes: Seq<nat>,
    /// How many latencies were recorded.
    pub latencies: nat,
}

/// One where `b` holds.
pub open spec fn one_if(b: bool) -> nat {
    if b {
        1
    } else {
        0
    }
}

/// How many responses had a status that is told apart.
pub open spec fn statuses(tally: Tally) -> nat {
    sum_between(tally.codes, 0, STATUS_CODES as int)
}

/// How many responses had a status that means success.
pub open spec fn good_statuses(tally: Tally) -> nat {
    sum_between(tally.codes, 200, 300)
}

/// One more in one place is one more in the sum over it.
pub proof fn lemma_sum_after_bump(codes: Seq<nat>, slot: int, from: int, to: int)
    requires
        0 <= from,
        to <= codes.len(),
        0 <= slot < codes.len(),
    ensures
        sum_between(codes.update(slot, codes[slot] + 1), from, to) == sum_between(codes, from, to)
            + one_if(from <= slot && slot < to),
    decreases to - from,
{
    if from < to {
        lemma_sum_after_bump(codes, slot, from, to - 1);
    }
}

proof fn lemma_sum_of_parts(a: Seq<nat>, b: Seq<nat>, sum: Seq<nat>, from: int, to: int)
    requires
        forall|i: int| from <= i < to ==> #[trigger] sum[i] == a[i] + b[i],
    ensures
        sum_between(sum, from, to) == sum_between(a, from, to) + sum_between(b, from, to),
    decreases to - from,
{
    if from < to {
        lemma_sum_of_parts(a, b, sum, from, to - 1);
        assert(sum[to - 1] == a[to - 1] + b[to - 1]);
    }
}

/// The sum over a part of the codes is no more than that over all of them.
proof fn lemma_sum_of_part(codes: Seq<nat>, low: int, from: int, to: int, high: int)
    requires
        low <= from <= to <= high,
    ensures
        sum_between(codes, from, to) <= sum_between(codes, low, high),
    decreases high - to, to - from,
{
    if to < high {
        lemma_sum_of_part(codes, low, from, to, high - 1);
    } else if from < to {
        lemma_sum_of_part(codes, low, from, to - 1, to - 1);
    }
}

/// Where a worker stands after some events, and what it has counted.
pub open spec fn worker_run(events: Seq<WorkerEvent>, interval_ms: u64) -> (WorkerState, Tally)
    decreases events.len(),
{
    if events.len() == 0 {
        (
            WorkerState::Checking,
            Tally {
                total: 0,
                success: 0,
                failed: 0,
                timeout: 0,
                transport_error: 0,
                codes: Seq::new(STATUS_CODES as nat, |i: int| 0),
                latencies: 0,
            },
        )
    } else {
        let (state, tally) = worker_run(events.drop_last(), interval_ms);
        let step = step_of(state, events.last(), interval_ms);
        (
            step.state,
            Tally {
                total: tally.total + one_if(step.bump.total),
                success: tally.success + one_if(step.bump.success),
                failed: tally.failed + one_if(step.bump.failed),
                timeout: tally.timeout + one_if(step.bump.timeout),
                transport_error: tally.transport_error + one_if(step.bump.transport_error),
                codes: match step.bump.status_slot {
                    Some(slot) => tally.codes.update(
                        slot as int,
                        tally.codes[slot as int] + 1,
                    ),
                    None => tally.codes,
                },
                latencies: tally.latencies + one_if(step.latency_us is Some),
            },
        )
    }
}

/// Whatever happens to a worker, every request that it counts ends as exactly one of a success,
/// a failure and a timeout, save the one whose body it is reading; a latency is recorded for
/// each that has ended; a timeout is always a transport error, and a transport error is never a
/// success; at most one status is counted for each request; and there are no more successes than
/// responses with a status of success, of which the one that it is reading is not a success yet.
pub proof fn law_every_request_counts_once(events: Seq<WorkerEvent>, interval_ms: u64)
    ensures
        ({
            let (state, tally) = worker_run(events, interval_ms);
            &&& tally.total == tally.success + tally.failed + tally.timeout + one_if(
                state is Receiving,
            )
            &&& tally.latencies == tally.success + tally.failed + tally.timeout
            &&& tally.timeout <= tally.transport_error <= tally.failed + tally.timeout
            &&& tally.codes.len() == STATUS_CODES
            &&& good_statuses(tally) <= statuses(tally) <= tally.total
            &&& tally.success + one_if(
                state matches WorkerState::Receiving { status } && is_success(status),
            ) <= good_statuses(tally)
        }),
    decreases events.len(),
{
    if events.len() > 0 {
        law_every_request_counts_once(events.drop_last(), interval_ms);
        let (state, before) = worker_run(events.drop_last(), interval_ms);
        let step = step_of(state, events.last(), interval_ms);
        if let Some(slot) = step.bump.status_slot {
            lemma_sum_after_bump(before.codes, slot as int, 0, STATUS_CODES as int);
            lemma_sum_after_bump(before.codes, slot as int, 200, 300);
        }
    } else {
        lemma_sum_of_zeros(worker_run(events, interval_ms).1.codes, 0, STATUS_CODES as int);
        lemma_sum_of_zeros(worker_run(events, interval_ms).1.codes, 200, 300);
    }
    lemma_sum_of_part(worker_run(events, interval_ms).1.codes, 0, 200, 300, STATUS_CODES as int);
}

pub proof fn lemma_sum_of_zeros(codes: Seq<nat>, from: int, to: int)
    requires
        forall|i: int| from <= i < to ==> #[trigger] codes[i] == 0,
    ensures
        sum_between(codes, from, to) == 0,
    decreases to - from,
{
    if from < to {
        lemma_sum_of_zeros(codes, from, to - 1);
        assert(codes[to - 1] == 0);
    }
}

/// What some workers have counted together.
pub open spec fn combined_tally(runs: Seq<Seq<WorkerEvent>>, interval_ms: u64) -> Tally
    decreases runs.len(),
{
    if runs.len() == 0 {
        worker_run(Seq::empty(), interval_ms).1
    } else {
        let before = combined_tally(runs.drop_last(), interval_ms);
        let one = worker_run(runs.last(), interval_ms).1;
        Tally {
            total: before.total + one.total,
            success: before.success + one.success,
            failed: before.failed + one.failed,
            timeout: before.timeout + one.timeout,
            transport_error: before.transport_error + one.transport_error,
            codes: Seq::new(
                STATUS_CODES as nat,
                |i: int| before.codes[i] + one.codes[i],
            ),
            latencies: before.latencies + one.latencies,
        }
    }
}

/// However many workers there are, and while they are at it: no more statuses are counted than
/// requests, and no more requests succeed than have a response with a status of success.
pub proof fn law_successes_have_statuses(runs: Seq<Seq<WorkerEvent>>, interval_ms: u64)
    ensures
        ({
            let tally = combined_tally(runs, interval_ms);
            &&& tally.codes.len() == STATUS_CODES
            &&& tally.success <= good_statuses(tally) <= statuses(tally) <= tally.total
            &&& tally.timeout <= tally.transport_error <= tally.failed + tally.timeout
        }),
    decreases runs.len(),
{
    let tally = combined_tally(runs, interval_ms);
    if runs.len() > 0 {
        law_successes_have_statuses(runs.drop_last(), interval_ms);
        law_every_request_counts_once(runs.last(), interval_ms);
        let before = combined_tally(runs.drop_last(), interval_ms);
        let one = worker_run(runs.last(), interval_ms).1;
        lemma_sum_of_parts(before.codes, one.codes, tally.codes, 0, STATUS_CODES as int);
        lemma_sum_of_parts(before.codes, one.codes, tally.codes, 200, 300);
    } else {
        law_every_request_counts_once(Seq::empty(), interval_ms);
    }
}

/// However many workers there are: once no request is under way any more, the successes, the
/// failures and the timeouts add up to the total, and there is a latency for each.
pub proof fn law_counts_add_up(runs: Seq<Seq<WorkerEvent>>, interval_ms: u64)
    requires
        forall|i: int|
            0 <= i < runs.len() ==> !(worker_run(#[trigger] runs[i], interval_ms).0 is Receiving),
    ensures
        ({
            let tally = combined_tally(runs, interval_ms);
            &&& tally.total == tally.success + tally.failed + tally.timeout
            &&& tally.latencies == tally.total
        }),
    decreases runs.len(),
{
    if runs.len() > 0 {
        let shorter = runs.drop_last();
        assert forall|i: int| 0 <= i < shorter.len() implies !(worker_run(
            #[trigger] shorter[i],
            interval_ms,
        ).0 is Receiving) by {
            assert(shorter[i] == runs[i]);
        }
        law_counts_add_up(shorter, interval_ms);
        assert(!(worker_run(runs[runs.len() - 1], interval_ms).0 is Receiving));
        law_every_request_counts_once(runs.last(), interval_ms);
    }
}

/// The counters hold what was tallied.
pub open spec fn counters_hold(counters: SharedCounters, tally: Tally) -> bool {
    &&& counters.total == tally.total
    &&& counters.success == tally.success
    &&& counters.failed == tally.failed
    &&& counters.timeout == tally.timeout
    &&& counters.transport_error == tally.transport_error
    &&& unbounded(counters.status_codes@) == tally.codes
}

/// What is reported of counters that hold what the workers have counted: the listed status codes
/// add up to no more than the total, and those from 200 to 299 to no less than the successes; and
/// once no request is under way any more, the three ways in which requests end add up to the
/// total.
pub proof fn law_report_adds_up(
    counters: SharedCounters,
    runs: Seq<Seq<WorkerEvent>>,
    interval_ms: u64,
)
    requires
        counters_hold(counters, combined_tally(runs, interval_ms)),
    ensures
        ({
            let list = counted_codes(counters.status_codes@);
            &&& listed_between(list, 0, STATUS_CODES as int) <= counters.total
            &&& counters.success <= listed_between(list, 200, 300)
            &&& listed_between(list, 200, 300) <= listed_between(list, 0, STATUS_CODES as int)
        }),
        (forall|i: int|
            0 <= i < runs.len() ==> !(worker_run(#[trigger] runs[i], interval_ms).0 is Receiving))
            ==> counters.total == counters.success + counters.failed + counters.timeout,
{
    law_successes_have_statuses(runs, interval_ms);
    law_listed_counts_add_up(counters.status_codes@, 0, STATUS_CODES as int);
    law_listed_counts_add_up(counters.status_codes@, 200, 300);
    if forall|i: int|
        0 <= i < runs.len() ==> !(worker_run(#[trigger] runs[i], interval_ms).0 is Receiving) {
        law_counts_add_up(runs, interval_ms);
    }
}

/// A worker that has been stopped, or whose time is up, sends no further request: once it is
/// told so it finishes, and from then on nothing changes.
pub proof fn law_stopped_worker_finishes(event: WorkerEvent, interval_ms: u64)
    ensures
        event matches WorkerEvent::Clock { stop_requested, before_deadline } && (stop_requested
            || !before_deadline) ==> step_of(WorkerState::Checking, event, interval_ms)
            == (WorkerStep {
            state: WorkerState::Finished,
            bump: no_bump(),
            latency_us: None,
        }),
        step_of(WorkerState::Finished, event, interval_ms) == (WorkerStep {
            state: WorkerState::Finished,
            bump: no_bump(),
            latency_us: None,
        }),
{
}

} // verus!
