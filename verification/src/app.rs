//! The state behind the user interface, and everything that can happen to it.
use crate::curl_parser::{
    curl_headers, curl_outcome, parse_curl, template_result, RequestTemplate, TemplateView,
};
use crate::draft::{
    build_template_from_draft, draft_from_template, draft_headers, draft_of, draft_outcome,
    DraftView, EditableRequest,
};
use crate::error::{error_text, ErrorView, RequestError};
use crate::history::{
    in_time_order, law_history_keeps_latest, law_history_stays_in_order, push_metric_history_sample,
    with_sample, MetricHistoryPoint, MAX_TREND_POINTS,
};
use crate::i18n::{t, wording, I18nKey, Language};
use crate::loadtest::{EngineEvent, FinalMetrics, LoadTestSettings, RuntimeMetrics};
use crate::outside::HEADER_ROOM;
use crate::text::{labelled, labelled_text};
use vstd::prelude::*;
use vstd::string::*;

verus! {

/// How many events the user interface takes in before it draws the next frame.
pub const MAX_EVENTS_PER_FRAME: usize = 512;

/// How the conversion of the cURL command went.
#[derive(Debug)]
pub struct ConvertStatus {
    pub ok: bool,
    pub message: String,
}

/// The editors that can be opened in a window of their own.
#[derive(Clone, Copy, Debug, PartialEq, Eq, Structural)]
pub enum ExpandedEditor {
    Curl,
    Headers,
    Body,
}

/// Whether a load test is running.
#[derive(Clone, Copy, Debug, PartialEq, Eq, Structural)]
pub enum RunState {
    Idle,
    Running,
}

/// The state of the tool.
#[derive(Debug)]
pub struct ApiQpsApp {
    pub language: Language,
    pub curl_input: String,
    pub request_draft: EditableRequest,
    pub expanded_editor: Option<ExpandedEditor>,
    pub convert_status: Option<ConvertStatus>,
    pub generic_error: Option<String>,
    pub settings: LoadTestSettings,
    pub run_state: RunState,
    pub latest_runtime_metrics: RuntimeMetrics,
    pub metric_history: Vec<MetricHistoryPoint>,
    pub final_metrics: Option<FinalMetrics>,
    pub final_report_drawer_open: bool,
}

/// A load test that is to be started.
#[derive(Debug)]
pub struct StartOrder {
    pub template: RequestTemplate,
    pub settings: LoadTestSettings,
    pub language: Language,
}

/// The text of an optional string.
pub open spec fn optional_text(s: Option<String>) -> Option<Seq<char>> {
    match s {
        Some(text) => Some(text@),
        None => None,
    }
}

/// The error that is shown first where the asynchronous runtime did not start.
pub open spec fn startup_error(runtime_failure: Option<&str>) -> Option<Seq<char>> {
    match runtime_failure {
        Some(e) => Some(
            labelled_text(wording(Language::ZhCn, I18nKey::RuntimeInitFailed), e@),
        ),
        None => None,
    }
}

/// The draft before anything was converted.
pub open spec fn blank_draft() -> DraftView {
    DraftView {
        api_url: Seq::empty(),
        method: "GET"@,
        headers_json: "{}"@,
        body: Seq::empty(),
    }
}

/// The settings to begin with.
pub open spec fn initial_settings() -> LoadTestSettings {
    LoadTestSettings {
        concurrency: 100,
        duration_secs: 10,
        interval_ms: 1,
        timeout_secs: 5,
        keep_alive: true,
    }
}

/// The cURL command to begin with.
pub open spec fn initial_command() -> Seq<char> {
    "curl -X POST -H 'Content-Type: application/json' -d '{\"key\":\"value\"}' https://api.example.com/endpoint"@
}

/// The cURL command to begin with.
fn initial_command_text() -> (r: String)
    ensures
        r@ == initial_command(),
{
    "curl -X POST -H 'Content-Type: application/json' -d '{\"key\":\"value\"}' https://api.example.com/endpoint".to_owned()
}

fn blank_request() -> (r: EditableRequest)
    ensures
        r@ == blank_draft(),
{
    EditableRequest {
        api_url: String::new(),
        method: "GET".to_owned(),
        headers_json: "{}".to_owned(),
        body: String::new(),
    }
}

impl ConvertStatus {
    /// What the status says of the outcome of a conversion.
    pub open spec fn tells(
        self,
        language: Language,
        outcome: Result<TemplateView, ErrorView>,
    ) -> bool {
        match outcome {
            Ok(_) => self.ok && self.message@ == wording(language, I18nKey::ConvertSuccess),
            Err(e) => !self.ok && self.message@ == labelled_text(
                wording(language, I18nKey::ConvertFailed),
                error_text(e),
            ),
        }
    }
}

impl ApiQpsApp {
    /// The history is within its limit, and the drawer is open only where there is a report.
    pub open spec fn well_formed(self) -> bool {
        &&& self.metric_history@.len() <= MAX_TREND_POINTS
        &&& self.final_report_drawer_open ==> self.final_metrics is Some
    }

    /// `after` differs from `self` at most in the draft and in the status of the conversion.
    pub open spec fn same_but_conversion(self, after: ApiQpsApp) -> bool {
        &&& after.language == self.language
        &&& after.curl_input == self.curl_input
        &&& after.expanded_editor == self.expanded_editor
        &&& after.generic_error == self.generic_error
        &&& after.settings == self.settings
        &&& after.run_state == self.run_state
        &&& after.latest_runtime_metrics == self.latest_runtime_metrics
        &&& after.metric_history == self.metric_history
        &&& after.final_metrics == self.final_metrics
        &&& after.final_report_drawer_open == self.final_report_drawer_open
    }

    /// `after` is the state once the conversion of the cURL command has had this outcome: a
    /// request fills the draft, an error leaves it alone, and the status tells of either.
    pub open spec fn converted(
        self,
        after: ApiQpsApp,
        outcome: Result<TemplateView, ErrorView>,
    ) -> bool {
        &&& self.same_but_conversion(after)
        &&& after.convert_status matches Some(status) && status.tells(self.language, outcome)
        &&& match outcome {
            Ok(template) => after.request_draft@ == draft_of(template),
            Err(_) => after.request_draft == self.request_draft,
        }
    }

    /// `after` is the state once the command in the cURL editor was converted. A command that gives
    /// very many headers may be refused for that.
    pub open spec fn auto_converted(self, after: ApiQpsApp) -> bool {
        ||| self.converted(after, curl_outcome(self.curl_input@, self.language))
        ||| {
            &&& self.curl_input@.len() >= HEADER_ROOM
            &&& curl_headers(self.curl_input@).dom().len() >= HEADER_ROOM
            &&& self.converted(after, Err(ErrorView::TooManyHeaders))
        }
    }

    /// Takes over the outcome of a conversion.
    pub fn apply_conversion(&mut self, outcome: Result<RequestTemplate, RequestError>)
        ensures
            old(self).converted(*final(self), template_result(outcome)),
            old(self).well_formed() ==> final(self).well_formed(),
    {
        match outcome {
            Ok(template) => {
                self.request_draft = draft_from_template(template);
                self.convert_status =
                Some(
                    ConvertStatus {
                        ok: true,
                        message: t(self.language, I18nKey::ConvertSuccess).to_owned(),
                    },
                );
            },
            Err(e) => {
                let message = labelled(
                    t(self.language, I18nKey::ConvertFailed),
                    e.message().as_str(),
                );
                self.convert_status = Some(ConvertStatus { ok: false, message });
            },
        }
    }

    /// Converts the command in the cURL editor into the draft.
    pub fn auto_convert_from_curl(&mut self)
        ensures
            old(self).auto_converted(*final(self)),
            old(self).well_formed() ==> final(self).well_formed(),
    {
        let outcome = parse_curl(self.curl_input.as_str(), self.language);
        self.apply_conversion(outcome);
    }

    /// The state before the initial command was converted.
    pub open spec fn is_initial(self, language: Language, error: Option<Seq<char>>) -> bool {
        &&& self.language == language
        &&& self.curl_input@ == initial_command()
        &&& self.request_draft@ == blank_draft()
        &&& self.expanded_editor is None
        &&& self.convert_status is None
        &&& optional_text(self.generic_error) == error
        &&& self.settings == initial_settings()
        &&& self.run_state == RunState::Idle
        &&& self.latest_runtime_metrics.is_zero()
        &&& self.metric_history@.len() == 0
        &&& self.final_metrics is None
        &&& !self.final_report_drawer_open
    }

    fn initial(language: Language, generic_error: Option<String>) -> (r: ApiQpsApp)
        ensures
            r.is_initial(language, optional_text(generic_error)),
    {
        ApiQpsApp {
            language,
            curl_input: initial_command_text(),
            request_draft: blank_request(),
            expanded_editor: None,
            convert_status: None,
            generic_error,
            settings: LoadTestSettings {
                concurrency: 100,
                duration_secs: 10,
                interval_ms: 1,
                timeout_secs: 5,
                keep_alive: true,
            },
            run_state: RunState::Idle,
            latest_runtime_metrics: RuntimeMetrics::default(),
            metric_history: Vec::new(),
            final_metrics: None,
            final_report_drawer_open: false,
        }
    }

    /// The state in which the tool starts: in Chinese, with an example command that has been
    /// converted, and with an error if the asynchronous runtime did not start.
    pub fn new(runtime_failure: Option<&str>) -> (r: ApiQpsApp)
        ensures
            r.well_formed(),
            r.is_fresh(Language::ZhCn, startup_error(runtime_failure)),
    {
        proof {
            lemma_initial_command_is_short();
        }
        let generic_error = match runtime_failure {
            Some(e) => Some(labelled(t(Language::ZhCn, I18nKey::RuntimeInitFailed), e)),
            None => None,
        };
        let mut app = ApiQpsApp::initial(Language::ZhCn, generic_error);
        app.auto_convert_from_curl();
        app
    }

    /// Puts everything but the language back to where it was in the beginning.
    pub fn reset_state(&mut self)
        ensures
            final(self).well_formed(),
            final(self).is_fresh(old(self).language, None),
    {
        proof {
            lemma_initial_command_is_short();
        }
        let mut app = ApiQpsApp::initial(self.language, None);
        app.auto_convert_from_curl();
        *self = app;
    }

    /// A load test is running.
    pub open spec fn runs(self) -> bool {
        self.run_state == RunState::Running
    }

    /// Whether a load test is running.
    pub fn is_running(&self) -> (r: bool)
        ensures
            r == self.runs(),
            r == (self.run_state == RunState::Running),
    {
        matches!(self.run_state, RunState::Running)
    }

    /// Builds the request that the draft describes.
    pub fn build_template_from_draft(&self) -> (r: Result<RequestTemplate, RequestError>)
        ensures
            match r {
                Err(RequestError::TooManyHeaders) => self.request_draft.headers_json@.len()
                    >= HEADER_ROOM && draft_headers(
                    self.request_draft@,
                    self.language,
                ).dom().len() >= HEADER_ROOM,
                _ => template_result(r) == draft_outcome(self.request_draft@, self.language),
            },
    {
        build_template_from_draft(&self.request_draft, self.language)
    }

    /// The text of an error that keeps a load test from running.
    pub open spec fn error_line(self, text: Seq<char>) -> Seq<char> {
        labelled_text(wording(self.language, I18nKey::GenericError), text)
    }

    /// `after` differs from `self` at most in the error that is shown, in whether a load test
    /// runs, and in what is known of it.
    pub open spec fn same_but_run(self, after: ApiQpsApp) -> bool {
        &&& after.language == self.language
        &&& after.curl_input == self.curl_input
        &&& after.request_draft == self.request_draft
        &&& after.expanded_editor == self.expanded_editor
        &&& after.convert_status == self.convert_status
        &&& after.settings == self.settings
    }

    /// Nothing is known of a load test.
    pub open spec fn has_no_results(self) -> bool {
        &&& self.final_metrics is None
        &&& !self.final_report_drawer_open
        &&& self.latest_runtime_metrics.is_zero()
        &&& self.metric_history@.len() == 0
    }

    /// `after` is the state, and `order` the order to the engine, once a load test was asked for
    /// and the draft gave `built`. A faulty draft is reported and changes nothing else. Otherwise
    /// the results of the last load test are gone, and the load test runs unless there is no
    /// runtime for it, which is reported.
    pub open spec fn started(
        self,
        after: ApiQpsApp,
        order: Option<StartOrder>,
        built: Result<TemplateView, ErrorView>,
        runtime_ready: bool,
    ) -> bool {
        &&& self.same_but_run(after)
        &&& match built {
            Err(e) => {
                &&& order is None
                &&& optional_text(after.generic_error) == Some(self.error_line(error_text(e)))
                &&& after.run_state == self.run_state
                &&& after.latest_runtime_metrics == self.latest_runtime_metrics
                &&& after.metric_history == self.metric_history
                &&& after.final_metrics == self.final_metrics
                &&& after.final_report_drawer_open == self.final_report_drawer_open
            },
            Ok(template) => {
                &&& after.has_no_results()
                &&& if runtime_ready {
                    &&& after.generic_error is None
                    &&& after.run_state == RunState::Running
                    &&& order matches Some(o) && o.template@ == template && o.settings
                        == self.settings && o.language == self.language
                } else {
                    &&& optional_text(after.generic_error) == Some(
                        self.error_line(wording(self.language, I18nKey::RuntimeUnavailable)),
                    )
                    &&& after.run_state == self.run_state
                    &&& order is None
                }
            },
        }
    }

    /// Starts a load test with what the draft gave.
    pub fn begin_test(
        &mut self,
        built: Result<RequestTemplate, RequestError>,
        runtime_ready: bool,
    ) -> (order: Option<StartOrder>)
        ensures
            old(self).started(*final(self), order, template_result(built), runtime_ready),
            old(self).well_formed() ==> final(self).well_formed(),
    {
        self.generic_error = None;
        let template = match built {
            Ok(template) => template,
            Err(e) => {
                self.generic_error =
                Some(labelled(t(self.language, I18nKey::GenericError), e.message().as_str()));
                return None;
            },
        };
        self.final_metrics = None;
        self.final_report_drawer_open = false;
        self.latest_runtime_metrics = RuntimeMetrics::default();
        self.metric_history = Vec::new();
        if !runtime_ready {
            self.generic_error =
            Some(
                labelled(
                    t(self.language, I18nKey::GenericError),
                    t(self.language, I18nKey::RuntimeUnavailable),
                ),
            );
            return None;
        }
        self.run_state = RunState::Running;
        Some(StartOrder { template, settings: self.settings, language: self.language })
    }

    /// Starts a load test of the request that the draft describes.
    pub fn start_test(&mut self, runtime_ready: bool) -> (order: Option<StartOrder>)
        ensures
            ({
                ||| old(self).started(
                    *final(self),
                    order,
                    draft_outcome(old(self).request_draft@, old(self).language),
                    runtime_ready,
                )
                ||| {
                    &&& old(self).request_draft.headers_json@.len() >= HEADER_ROOM
                    &&& draft_headers(old(self).request_draft@, old(self).language).dom().len()
                        >= HEADER_ROOM
                    &&& old(self).started(
                        *final(self),
                        order,
                        Err(ErrorView::TooManyHeaders),
                        runtime_ready,
                    )
                }
            }),
            old(self).well_formed() ==> final(self).well_formed(),
    {
        let built = self.build_template_from_draft();
        self.begin_test(built, runtime_ready)
    }

    /// Whether the engine must be told to stop: a load test is running.
    pub fn stop_test(&self) -> (r: bool)
        ensures
            r == self.runs(),
            r == (self.run_state == RunState::Running),
    {
        self.is_running()
    }

    /// What is known of the load test, before any of the events that are at hand.
    pub open spec fn digest(self) -> Digest {
        Digest {
            latest: self.latest_runtime_metrics,
            history: self.metric_history@,
            final_metrics: self.final_metrics,
            drawer_open: self.final_report_drawer_open,
            error: optional_text(self.generic_error),
            over: false,
        }
    }

    /// `after` knows what `self` knew and what it has learned from the queue, of which `left` stays.
    pub open spec fn took_in(
        self,
        after: ApiQpsApp,
        queue: Seq<EngineEvent>,
        left: Seq<EngineEvent>,
    ) -> bool {
        if self.runs() {
            let taken = frame_events(queue);
            let known = digest_after(self.digest(), taken, self.language);
            &&& self.same_but_run(after)
            &&& left == queue.skip(taken.len() as int)
            &&& after.digest() == (Digest { over: false, ..known })
            &&& after.runs() == !known.over
        } else {
            after == self && left == queue
        }
    }

    /// Takes in what the engine has reported. Events are looked at only while a load test runs,
    /// in the order of the queue and no more than `MAX_EVENTS_PER_FRAME` of them at a time; the
    /// others stay in the queue. If one of them says that the load test is over, it is, once all
    /// of them were looked at.
    pub fn consume_events(&mut self, queue: &mut Vec<EngineEvent>)
        ensures
            old(self).took_in(*final(self), old(queue)@, final(queue)@),
            old(self).same_but_run(*final(self)),
            old(self).run_state == RunState::Idle ==> *final(self) == *old(self)
                && final(queue)@ == old(queue)@,
            old(self).run_state == RunState::Running ==> {
                let taken = frame_events(old(queue)@);
                let known = digest_after(old(self).digest(), taken, old(self).language);
                &&& final(queue)@ == old(queue)@.skip(taken.len() as int)
                &&& final(self).latest_runtime_metrics == known.latest
                &&& final(self).metric_history@ == known.history
                &&& final(self).final_metrics == known.final_metrics
                &&& final(self).final_report_drawer_open == known.drawer_open
                &&& optional_text(final(self).generic_error) == known.error
                &&& final(self).run_state == (if known.over {
                    RunState::Idle
                } else {
                    RunState::Running
                })
            },
            old(self).well_formed() ==> final(self).well_formed(),
    {
        if !self.is_running() {
            return;
        }
        let total: usize = queue.len();
        let count: usize = if total < MAX_EVENTS_PER_FRAME {
            total
        } else {
            MAX_EVENTS_PER_FRAME
        };
        let mut events = queue.split_off(count);
        std::mem::swap(queue, &mut events);
        let ghost start = self.digest();
        let ghost before = *self;
        let ghost all = events@;
        assert(all =~= frame_events(old(queue)@));
        assert(queue@ =~= old(queue)@.skip(all.len() as int));
        let mut over = false;
        for event in it: events
            invariant
                it.seq() == all,
                before.same_but_run(*self),
                self.run_state == before.run_state,
                self.language == before.language,
                ({
                    let known = digest_after(start, all.take(it.index() as int), before.language);
                    known == Digest { over, ..self.digest() }
                }),
                before.well_formed() ==> self.well_formed(),
        {
            proof {
                let n = it.index() as int;
                assert(all.take(n + 1).drop_last() =~= all.take(n));
                assert(all.take(n + 1).last() == event);
            }
            match event {
                EngineEvent::Progress(m) => {
                    let sample = MetricHistoryPoint::from_runtime_metrics(&m);
                    proof {
                        if before.well_formed() {
                            law_history_keeps_latest(self.metric_history@, sample);
                        }
                    }
                    push_metric_history_sample(&mut self.metric_history, sample);
                    self.latest_runtime_metrics = m;
                },
                EngineEvent::Completed(m) => {
                    self.final_metrics = Some(m);
                    self.final_report_drawer_open = true;
                    over = true;
                },
                EngineEvent::Failed(e) => {
                    self.generic_error =
                    Some(labelled(t(self.language, I18nKey::GenericError), e.as_str()));
                    over = true;
                },
            }
        }
        assert(all.take(all.len() as int) =~= all);
        if over {
            self.run_state = RunState::Idle;
        }
    }
}

/// The events of a queue that are taken in before the next frame.
pub open spec fn frame_events(queue: Seq<EngineEvent>) -> Seq<EngineEvent> {
    if queue.len() < MAX_EVENTS_PER_FRAME {
        queue
    } else {
        queue.take(MAX_EVENTS_PER_FRAME as int)
    }
}

/// What is known of a load test.
#[verifier::ext_equal]
pub struct Digest {
    pub latest: RuntimeMetrics,
    pub history: Seq<MetricHistoryPoint>,
    pub final_metrics: Option<FinalMetrics>,
    pub drawer_open: bool,
    pub error: Option<Seq<char>>,
    /// The load test has completed or failed.
    pub over: bool,
}

/// What is known of a load test after some events: a report of progress adds a sample to the
/// history, a result opens the report, and a failure is shown.
pub open spec fn digest_after(
    start: Digest,
    events: Seq<EngineEvent>,
    language: Language,
) -> Digest
    decreases events.len(),
{
    if events.len() == 0 {
        start
    } else {
        let before = digest_after(start, events.drop_last(), language);
        match events.last() {
            EngineEvent::Progress(m) => Digest {
                latest: m,
                history: with_sample(before.history, MetricHistoryPoint::of_metrics(m)),
                ..before
            },
            EngineEvent::Completed(m) => Digest {
                final_metrics: Some(m),
                drawer_open: true,
                over: true,
                ..before
            },
            EngineEvent::Failed(e) => Digest {
                error: Some(labelled_text(wording(language, I18nKey::GenericError), e@)),
                over: true,
                ..before
            },
        }
    }
}

/// A load test is over, as far as the user interface knows, exactly where one of the events
/// that were taken in says so.
pub proof fn law_run_ends_with_its_event(
    start: Digest,
    events: Seq<EngineEvent>,
    language: Language,
)
    requires
        !start.over,
    ensures
        digest_after(start, events, language).over <==> exists|i: int|
            0 <= i < events.len() && !((#[trigger] events[i]) is Progress),
    decreases events.len(),
{
    if events.len() > 0 {
        let shorter = events.drop_last();
        law_run_ends_with_its_event(start, shorter, language);
        if exists|i: int| 0 <= i < shorter.len() && !((#[trigger] shorter[i]) is Progress) {
            let k = choose|k: int| 0 <= k < shorter.len() && !((#[trigger] shorter[k]) is Progress);
            assert(!(events[k] is Progress));
        }
        if !(events.last() is Progress) {
            assert(!(events[events.len() - 1] is Progress));
        }
        if exists|i: int| 0 <= i < events.len() && !((#[trigger] events[i]) is Progress) {
            let k = choose|k: int| 0 <= k < events.len() && !((#[trigger] events[k]) is Progress);
            if k < shorter.len() {
                assert(!(shorter[k] is Progress));
            }
        }
    }
}

/// The events report progress as time goes on: each is measured, and later than the history and
/// than all reports before it.
pub open spec fn progress_in_order(
    events: Seq<EngineEvent>,
    history: Seq<MetricHistoryPoint>,
) -> bool {
    &&& forall|i: int|
        0 <= i < events.len() ==> {
            &&& (#[trigger] events[i]) is Progress
            &&& MetricHistoryPoint::of_metrics(events[i]->Progress_0).is_measured()
            &&& history.len() > 0 ==> history.last().elapsed_secs.rank()
                < events[i]->Progress_0.elapsed_secs.rank()
        }
    &&& forall|i: int, j: int|
        0 <= i < j < events.len() ==> (#[trigger] events[i])->Progress_0.elapsed_secs.rank() < (
        #[trigger] events[j])->Progress_0.elapsed_secs.rank()
}

/// However many reports of progress come in, as long as they come in the order of time the
/// history stays within its limit and in the order of time, and it ends with the last report.
pub proof fn law_progress_stays_in_order(
    start: Digest,
    events: Seq<EngineEvent>,
    language: Language,
)
    requires
        in_time_order(start.history),
        start.history.len() <= MAX_TREND_POINTS,
        progress_in_order(events, start.history),
    ensures
        ({
            let known = digest_after(start, events, language);
            &&& in_time_order(known.history)
            &&& known.history.len() <= MAX_TREND_POINTS
            &&& events.len() == 0 ==> known.history == start.history
            &&& events.len() > 0 ==> known.history.len() > 0 && known.history.last()
                == MetricHistoryPoint::of_metrics(events.last()->Progress_0)
            &&& events.len() > 0 ==> known.latest == events.last()->Progress_0
        }),
    decreases events.len(),
{
    if events.len() > 0 {
        let shorter = events.drop_last();
        assert forall|i: int| 0 <= i < shorter.len() implies {
            &&& (#[trigger] shorter[i]) is Progress
            &&& MetricHistoryPoint::of_metrics(shorter[i]->Progress_0).is_measured()
            &&& start.history.len() > 0 ==> start.history.last().elapsed_secs.rank()
                < shorter[i]->Progress_0.elapsed_secs.rank()
        } by {
            assert(shorter[i] == events[i]);
        }
        assert(progress_in_order(shorter, start.history)) by {
            assert forall|i: int, j: int| 0 <= i < j < shorter.len() implies (
            #[trigger] shorter[i])->Progress_0.elapsed_secs.rank() < (
            #[trigger] shorter[j])->Progress_0.elapsed_secs.rank() by {
                assert(shorter[i] == events[i] && shorter[j] == events[j]);
            }
        }
        law_progress_stays_in_order(start, shorter, language);
        let before = digest_after(start, shorter, language);
        let last = events[events.len() - 1];
        assert(last == events.last());
        let sample = MetricHistoryPoint::of_metrics(last->Progress_0);
        if shorter.len() > 0 {
            assert(shorter.last() == events[events.len() - 2]);
        }
        if before.history.len() > 1 {
            assert(before.history[before.history.len() - 2].elapsed_secs.rank()
                < before.history[before.history.len() - 1].elapsed_secs.rank());
        }
        law_history_stays_in_order(before.history, sample);
        law_history_keeps_latest(before.history, sample);
    }
}

/// A result that comes in is reported: the last one stays, the report opens, and the load test
/// is over.
pub proof fn law_result_is_reported(
    start: Digest,
    events: Seq<EngineEvent>,
    k: int,
    result: FinalMetrics,
    language: Language,
)
    requires
        0 <= k < events.len(),
        events[k] == EngineEvent::Completed(result),
        forall|i: int| k < i < events.len() ==> !((#[trigger] events[i]) is Completed),
    ensures
        ({
            let known = digest_after(start, events, language);
            known.final_metrics == Some(result) && known.drawer_open && known.over
        }),
    decreases events.len(),
{
    let shorter = events.drop_last();
    if k < shorter.len() {
        assert(shorter[k] == events[k]);
        assert forall|i: int| k < i < shorter.len() implies !((
        #[trigger] shorter[i]) is Completed) by {
            assert(shorter[i] == events[i]);
        }
        law_result_is_reported(start, shorter, k, result, language);
        assert(!(events[events.len() - 1] is Completed));
    }
}

/// A failure that comes in is shown, the last one of them, and the load test is over.
pub proof fn law_failure_is_shown(
    start: Digest,
    events: Seq<EngineEvent>,
    k: int,
    failure: String,
    language: Language,
)
    requires
        0 <= k < events.len(),
        events[k] == EngineEvent::Failed(failure),
        forall|i: int| k < i < events.len() ==> !((#[trigger] events[i]) is Failed),
    ensures
        ({
            let known = digest_after(start, events, language);
            known.over && known.error == Some(
                labelled_text(wording(language, I18nKey::GenericError), failure@),
            )
        }),
    decreases events.len(),
{
    let shorter = events.drop_last();
    if k < shorter.len() {
        assert(shorter[k] == events[k]);
        assert forall|i: int| k < i < shorter.len() implies !((
        #[trigger] shorter[i]) is Failed) by {
            assert(shorter[i] == events[i]);
        }
        law_failure_is_shown(start, shorter, k, failure, language);
        assert(!(events[events.len() - 1] is Failed));
    }
}

/// Without a result among the events the report stays as it was, and without a failure among
/// them so does the error.
pub proof fn law_nothing_else_is_reported(
    start: Digest,
    events: Seq<EngineEvent>,
    language: Language,
)
    ensures
        (forall|i: int| 0 <= i < events.len() ==> !((#[trigger] events[i]) is Completed)) ==> {
            let known = digest_after(start, events, language);
            known.final_metrics == start.final_metrics && known.drawer_open == start.drawer_open
        },
        (forall|i: int| 0 <= i < events.len() ==> !((#[trigger] events[i]) is Failed))
            ==> digest_after(start, events, language).error == start.error,
    decreases events.len(),
{
    if events.len() > 0 {
        let shorter = events.drop_last();
        law_nothing_else_is_reported(start, shorter, language);
        assert(forall|i: int| 0 <= i < shorter.len() ==> (#[trigger] shorter[i]) == events[i]);
        assert(events.last() == events[events.len() - 1]);
    }
}

impl ApiQpsApp {
    /// The two states show the same, and behave the same from here on.
    pub open spec fn looks_like(self, other: ApiQpsApp) -> bool {
        &&& self.language == other.language
        &&& self.curl_input@ == other.curl_input@
        &&& self.request_draft@ == other.request_draft@
        &&& self.expanded_editor == other.expanded_editor
        &&& match (self.convert_status, other.convert_status) {
            (Some(a), Some(b)) => a.ok == b.ok && a.message@ == b.message@,
            (None, None) => true,
            _ => false,
        }
        &&& optional_text(self.generic_error) == optional_text(other.generic_error)
        &&& self.settings == other.settings
        &&& self.run_state == other.run_state
        &&& self.has_no_results() && other.has_no_results()
    }

    /// The state comes of the initial one, in `language` and with `error` shown, by the conversion
    /// of its command.
    pub open spec fn is_fresh(self, language: Language, error: Option<Seq<char>>) -> bool {
        exists|initial: ApiQpsApp| #[trigger]
            initial.is_initial(language, error) && initial.converted(
                self,
                curl_outcome(initial_command(), language),
            )
    }
}

proof fn lemma_initial_command_is_short()
    ensures
        initial_command().len() < HEADER_ROOM,
{
    reveal_strlit(
        "curl -X POST -H 'Content-Type: application/json' -d '{\"key\":\"value\"}' https://api.example.com/endpoint",
    );
}

/// A reset is a fresh start: a state that was reset looks like one that has just begun in the
/// same language, with a runtime at hand.
pub proof fn law_reset_is_a_fresh_start(reset: ApiQpsApp, fresh: ApiQpsApp, language: Language)
    requires
        reset.is_fresh(language, None),
        fresh.is_fresh(language, None),
    ensures
        reset.looks_like(fresh),
        reset.settings == initial_settings(),
        reset.run_state == RunState::Idle,
        reset.generic_error is None,
        reset.expanded_editor is None,
{
}

} // verus!
