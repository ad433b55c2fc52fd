//! What happens to the state of the tool.
use crate::app::{
    blank_draft, digest_after, frame_events, initial_command, initial_settings,
    law_run_ends_with_its_event, optional_text, startup_error, ApiQpsApp, Digest, RunState,
    StartOrder,
};
use crate::curl_parser::{curl_outcome, TemplateView};
use crate::draft::draft_of;
use crate::error::{error_text, ErrorView};
use crate::history::{with_sample, MetricHistoryPoint};
use crate::i18n::{chinese, english, wording, I18nKey, Language};
use crate::laws::text::law_label_and_text;
use crate::loadtest::{EngineEvent, FinalMetrics, RuntimeMetrics};
use vstd::prelude::*;

verus! {

/// All that a conversion does not touch is as it was.
pub open spec fn only_the_draft_differs(before: ApiQpsApp, after: ApiQpsApp) -> bool {
    &&& after.language == before.language
    &&& after.curl_input == before.curl_input
    &&& after.expanded_editor == before.expanded_editor
    &&& after.generic_error == before.generic_error
    &&& after.settings == before.settings
    &&& after.run_state == before.run_state
    &&& after.latest_runtime_metrics == before.latest_runtime_metrics
    &&& after.metric_history == before.metric_history
    &&& after.final_metrics == before.final_metrics
    &&& after.final_report_drawer_open == before.final_report_drawer_open
}

/// A command that was understood fills the draft, and one that was not leaves it as it was; either
/// is told, the latter with the reason, and nothing else changes.
pub proof fn law_conversion_fills_the_draft(
    before: ApiQpsApp,
    after: ApiQpsApp,
    outcome: Result<TemplateView, ErrorView>,
)
    requires
        before.converted(after, outcome),
    ensures
        only_the_draft_differs(before, after),
        after.convert_status is Some,
        outcome matches Ok(template) ==> after.request_draft@ == draft_of(template)
            && after.convert_status->0.ok && after.convert_status->0.message@ == wording(
            before.language,
            I18nKey::ConvertSuccess,
        ),
        outcome matches Err(e) ==> after.request_draft == before.request_draft
            && !after.convert_status->0.ok && after.convert_status->0.message@ == wording(
            before.language,
            I18nKey::ConvertFailed,
        ) + ": "@ + error_text(e),
{
    if let Err(e) = outcome {
        law_label_and_text(wording(before.language, I18nKey::ConvertFailed), error_text(e));
    }
}

/// What the cURL editor holds is what is converted, in the language of the tool.
pub proof fn law_typed_command_is_converted(before: ApiQpsApp, after: ApiQpsApp)
    requires
        before.auto_converted(after),
        before.curl_input@.len() < 6554,
    ensures
        before.converted(after, curl_outcome(before.curl_input@, before.language)),
{
}

/// The tool begins with the example command, an empty draft of a GET request, a hundred workers
/// for ten seconds with a millisecond of rest and five seconds of patience, connections that are
/// reused, and nothing known of a load test.
pub proof fn law_how_the_tool_begins(app: ApiQpsApp, language: Language, error: Option<Seq<char>>)
    requires
        app.is_initial(language, error),
    ensures
        app.language == language,
        app.curl_input@
            == "curl -X POST -H 'Content-Type: application/json' -d '{\"key\":\"value\"}' https://api.example.com/endpoint"@,
        app.request_draft@ == blank_draft(),
        blank_draft().method == "GET"@ && blank_draft().headers_json == "{}"@
            && blank_draft().api_url.len() == 0 && blank_draft().body.len() == 0,
        optional_text(app.generic_error) == error,
        app.settings == initial_settings(),
        initial_settings().concurrency == 100 && initial_settings().duration_secs == 10
            && initial_settings().interval_ms == 1 && initial_settings().timeout_secs == 5
            && initial_settings().keep_alive,
        app.run_state == RunState::Idle,
        app.has_no_results(),
        app.expanded_editor is None,
        app.convert_status is None,
{
}

/// A fresh start has converted the example command, and differs in nothing else from how the tool
/// begins.
pub proof fn law_fresh_start_shows_the_example(
    app: ApiQpsApp,
    language: Language,
    error: Option<Seq<char>>,
)
    requires
        app.is_fresh(language, error),
    ensures
        app.language == language,
        app.curl_input@ == initial_command(),
        optional_text(app.generic_error) == error,
        app.settings == initial_settings(),
        app.run_state == RunState::Idle,
        app.has_no_results(),
        app.expanded_editor is None,
        app.convert_status is Some,
        ({
            let outcome = curl_outcome(initial_command(), language);
            &&& app.convert_status->0.ok == (outcome is Ok)
            &&& outcome matches Ok(template) ==> app.request_draft@ == draft_of(template)
            &&& outcome is Err ==> app.request_draft@ == blank_draft()
        }),
{
    let outcome = curl_outcome(initial_command(), language);
    let first = choose|first: ApiQpsApp| #[trigger]
        first.is_initial(language, error) && first.converted(app, outcome);
    law_conversion_fills_the_draft(first, app, outcome);
}

/// A runtime that did not start is reported with the reason; else nothing is.
pub proof fn law_failed_runtime_is_reported(failure: Option<&str>)
    ensures
        failure is None ==> startup_error(failure) is None,
        failure matches Some(e) ==> startup_error(failure) == Some(
            wording(Language::ZhCn, I18nKey::RuntimeInitFailed) + ": "@ + e@,
        ),
{
    if let Some(e) = failure {
        law_label_and_text(wording(Language::ZhCn, I18nKey::RuntimeInitFailed), e@);
    }
}

/// Nothing is known of a load test where there is no report, no metrics and no history.
pub proof fn law_no_results(app: ApiQpsApp)
    requires
        app.has_no_results(),
    ensures
        app.final_metrics is None,
        !app.final_report_drawer_open,
        app.metric_history@.len() == 0,
        app.latest_runtime_metrics.total_requests == 0,
        app.latest_runtime_metrics.success_requests == 0,
        app.latest_runtime_metrics.failed_requests == 0,
        app.latest_runtime_metrics.timeout_requests == 0,
        app.latest_runtime_metrics.transport_error_requests == 0,
        app.latest_runtime_metrics.status_code_counts@.len() == 0,
        app.latest_runtime_metrics.elapsed_secs.bits == 0,
        app.latest_runtime_metrics.qps.bits == 0,
        app.latest_runtime_metrics.avg_latency_ms.bits == 0,
        app.latest_runtime_metrics.p50_latency_ms.bits == 0,
        app.latest_runtime_metrics.p95_latency_ms.bits == 0,
        app.latest_runtime_metrics.p99_latency_ms.bits == 0,
        app.latest_runtime_metrics.max_latency_ms.bits == 0,
{
}

/// A load test of a sound draft is ordered with that request, the settings and the language as
/// they are, runs from then on, and forgets what was known of the last one and any error. Without
/// a runtime nothing is ordered, and that is told. A faulty draft changes nothing but the error
/// that is shown. The request, the settings and the windows stay as they are in any case.
pub proof fn law_what_starting_does(
    before: ApiQpsApp,
    after: ApiQpsApp,
    order: Option<StartOrder>,
    built: Result<TemplateView, ErrorView>,
    runtime_ready: bool,
)
    requires
        before.started(after, order, built, runtime_ready),
    ensures
        after.language == before.language,
        after.curl_input == before.curl_input,
        after.request_draft == before.request_draft,
        after.expanded_editor == before.expanded_editor,
        after.convert_status == before.convert_status,
        after.settings == before.settings,
        order is Some <==> built is Ok && runtime_ready,
        order matches Some(o) ==> built matches Ok(template) && o.template@ == template
            && o.settings == before.settings && o.language == before.language && after.run_state
            == RunState::Running && after.generic_error is None,
        order is None ==> after.run_state == before.run_state,
        built is Ok ==> after.has_no_results(),
        built is Ok && !runtime_ready ==> optional_text(after.generic_error) == Some(
            wording(before.language, I18nKey::GenericError) + ": "@ + wording(
                before.language,
                I18nKey::RuntimeUnavailable,
            ),
        ),
        built matches Err(e) ==> optional_text(after.generic_error) == Some(
            wording(before.language, I18nKey::GenericError) + ": "@ + error_text(e),
        ) && after.latest_runtime_metrics == before.latest_runtime_metrics && after.metric_history
            == before.metric_history && after.final_metrics == before.final_metrics
            && after.final_report_drawer_open == before.final_report_drawer_open,
{
    let label = wording(before.language, I18nKey::GenericError);
    law_label_and_text(label, wording(before.language, I18nKey::RuntimeUnavailable));
    if let Err(e) = built {
        law_label_and_text(label, error_text(e));
    }
}

/// What one more event adds to what is known. Progress becomes the latest and a sample of the
/// history; a result is kept and opens the report; a failure is shown; the latter two end the load
/// test. Nothing else changes.
pub proof fn law_what_an_event_adds(
    start: Digest,
    events: Seq<EngineEvent>,
    language: Language,
    live: RuntimeMetrics,
    result: FinalMetrics,
    failure: String,
)
    ensures
        ({
            let known = digest_after(start, events, language);
            let next = digest_after(start, events.push(EngineEvent::Progress(live)), language);
            &&& next.latest == live
            &&& next.history == with_sample(known.history, MetricHistoryPoint::of_metrics(live))
            &&& next.final_metrics == known.final_metrics
            &&& next.drawer_open == known.drawer_open
            &&& next.error == known.error
            &&& next.over == known.over
        }),
        ({
            let known = digest_after(start, events, language);
            let next = digest_after(start, events.push(EngineEvent::Completed(result)), language);
            &&& next.latest == known.latest
            &&& next.history == known.history
            &&& next.final_metrics == Some(result)
            &&& next.drawer_open
            &&& next.error == known.error
            &&& next.over
        }),
        ({
            let known = digest_after(start, events, language);
            let next = digest_after(start, events.push(EngineEvent::Failed(failure)), language);
            &&& next.latest == known.latest
            &&& next.history == known.history
            &&& next.final_metrics == known.final_metrics
            &&& next.drawer_open == known.drawer_open
            &&& next.error == Some(wording(language, I18nKey::GenericError) + ": "@ + failure@)
            &&& next.over
        }),
        digest_after(start, Seq::empty(), language) == start,
{
    assert(events.push(EngineEvent::Progress(live)).drop_last() =~= events);
    assert(events.push(EngineEvent::Completed(result)).drop_last() =~= events);
    assert(events.push(EngineEvent::Failed(failure)).drop_last() =~= events);
    law_label_and_text(wording(language, I18nKey::GenericError), failure@);
}

/// What is known before any event is what the tool shows.
pub proof fn law_what_is_known(app: ApiQpsApp)
    ensures
        app.digest().latest == app.latest_runtime_metrics,
        app.digest().history == app.metric_history@,
        app.digest().final_metrics == app.final_metrics,
        app.digest().drawer_open == app.final_report_drawer_open,
        app.digest().error == optional_text(app.generic_error),
        !app.digest().over,
{
}

/// What a frame takes in. While no load test runs, nothing. Else the events that it takes leave
/// the queue, and the others stay in it in their order; the load test is over exactly if one of
/// those that were taken is not about progress; and the request, the settings and the editors are
/// as they were.
pub proof fn law_what_a_frame_takes_in(
    before: ApiQpsApp,
    after: ApiQpsApp,
    queue: Seq<EngineEvent>,
    left: Seq<EngineEvent>,
)
    requires
        before.took_in(after, queue, left),
    ensures
        before.run_state == RunState::Idle ==> after == before && left == queue,
        before.run_state == RunState::Running ==> {
            let taken = frame_events(queue);
            let known = digest_after(before.digest(), taken, before.language);
            &&& taken + left == queue
            &&& after.run_state == RunState::Idle <==> exists|i: int|
                0 <= i < taken.len() && !((#[trigger] taken[i]) is Progress)
            &&& after.latest_runtime_metrics == known.latest
            &&& after.metric_history@ == known.history
            &&& after.final_metrics == known.final_metrics
            &&& after.final_report_drawer_open == known.drawer_open
            &&& optional_text(after.generic_error) == known.error
        },
        after.language == before.language,
        after.curl_input == before.curl_input,
        after.request_draft == before.request_draft,
        after.expanded_editor == before.expanded_editor,
        after.convert_status == before.convert_status,
        after.settings == before.settings,
{
    if before.run_state == RunState::Running {
        law_events_of_a_frame(queue);
        law_run_ends_with_its_event(before.digest(), frame_events(queue), before.language);
    }
}

/// A load test runs or the tool is idle.
pub proof fn law_when_a_load_test_runs(app: ApiQpsApp)
    ensures
        app.runs() <==> app.run_state == RunState::Running,
        !app.runs() <==> app.run_state == RunState::Idle,
{
}

/// Each wording is looked up in its own language.
pub proof fn law_wording_is_in_the_language(key: I18nKey)
    ensures
        wording(Language::EnUs, key) == english(key),
        wording(Language::ZhCn, key) == chinese(key),
{
}

/// A result of nothing has no requests, no status codes and no latencies.
pub proof fn law_result_of_nothing(result: FinalMetrics)
    requires
        result.is_zero(),
    ensures
        result.total_requests == 0,
        result.success_requests == 0,
        result.failed_requests == 0,
        result.timeout_requests == 0,
        result.status_code_counts@.len() == 0,
        result.elapsed_secs.bits == 0,
        result.qps.bits == 0,
        result.avg_latency_ms.bits == 0,
        result.p50_latency_ms.bits == 0,
        result.p95_latency_ms.bits == 0,
        result.p99_latency_ms.bits == 0,
        result.max_latency_ms.bits == 0,
{
}

/// Events are taken from the front of the queue, all of them up to 512 and never more, so that
/// with those that stay they are the queue.
pub proof fn law_events_of_a_frame(queue: Seq<EngineEvent>)
    ensures
        frame_events(queue).len() <= 512,
        queue.len() <= 512 ==> frame_events(queue) == queue,
        queue.len() > 512 ==> frame_events(queue).len() == 512,
        frame_events(queue) + queue.skip(frame_events(queue).len() as int) == queue,
{
    let taken = frame_events(queue);
    assert(taken + queue.skip(taken.len() as int) =~= queue);
    if queue.len() == 512 {
        assert(queue.take(512) =~= queue);
    }
}

} // verus!
