//! What the user interface shows of the state, and what its controls do to it.
use crate::app::{initial_settings, ApiQpsApp, ExpandedEditor, RunState};
use crate::draft::{method_text_supports_body, text_supports_body};
use crate::error::ErrorView;
use crate::i18n::{t, wording, I18nKey, Language};
use crate::loadtest::{plan_of, plan_outcome, LoadTestSettings, RunPlan};
use crate::outside::texts;
use crate::report::{
    latency_line, latency_text, row, row_texts, truncate_middle, truncated, LatencyNumerals,
};
use crate::text::{decimal, decimal_text, is_blank, joined, lowered, trim, trimmed};
use vstd::prelude::*;
use vstd::string::*;

verus! {

/// The least number of workers that can be set.
pub const MIN_CONCURRENCY: usize = 1;

/// The greatest number of workers that can be set.
pub const MAX_CONCURRENCY: usize = 20000;

/// The shortest duration that can be set, in seconds.
pub const MIN_DURATION_SECS: u64 = 1;

/// The longest duration that can be set, in seconds.
pub const MAX_DURATION_SECS: u64 = 86400;

/// The shortest timeout that can be set, in seconds.
pub const MIN_TIMEOUT_SECS: u64 = 1;

/// The longest timeout that can be set, in seconds.
pub const MAX_TIMEOUT_SECS: u64 = 120;

/// The shortest rest between two requests that can be set, in milliseconds.
pub const MIN_INTERVAL_MS: u64 = 0;

/// The longest rest between two requests that can be set, in milliseconds.
pub const MAX_INTERVAL_MS: u64 = 60000;

/// The settings that the controls let the user choose.
pub open spec fn within_range(settings: LoadTestSettings) -> bool {
    &&& MIN_CONCURRENCY <= settings.concurrency <= MAX_CONCURRENCY
    &&& MIN_DURATION_SECS <= settings.duration_secs <= MAX_DURATION_SECS
    &&& MIN_TIMEOUT_SECS <= settings.timeout_secs <= MAX_TIMEOUT_SECS
    &&& MIN_INTERVAL_MS <= settings.interval_ms <= MAX_INTERVAL_MS
}

/// Whatever settings the user chooses, a load test can be planned with them, in which two idle
/// connections are kept for each worker or none at all; and the tool begins with such settings.
pub proof fn law_settings_in_range_are_accepted(settings: LoadTestSettings, language: Language)
    requires
        within_range(settings),
    ensures
        plan_outcome(settings, language) == Ok::<RunPlan, ErrorView>(plan_of(settings)),
        plan_of(settings).pool_max_idle_per_host == (if settings.keep_alive {
            settings.concurrency * 2
        } else {
            0
        }),
        within_range(initial_settings()),
{
}

/// The width of the open report drawer.
pub const OPEN_DRAWER_WIDTH: u32 = 304;

/// The width of the closed report drawer.
pub const CLOSED_DRAWER_WIDTH: u32 = 40;

/// The gap between two columns.
pub const COLUMN_GAP: u32 = 14;

/// How many characters of the target fit into a banner of this width.
pub open spec fn target_room(width: u32) -> int {
    if width >= 980 {
        48
    } else if width >= 780 {
        34
    } else if width >= 620 {
        24
    } else {
        18
    }
}

/// A label, a space and a number.
pub open spec fn counted(label: Seq<char>, n: nat) -> Seq<char> {
    label.push(' ') + decimal(n)
}

/// `pills`, with `pill` at its end if `shown`.
pub open spec fn with_pill(pills: Seq<Seq<char>>, shown: bool, pill: Seq<char>) -> Seq<Seq<char>> {
    if shown {
        pills.push(pill)
    } else {
        pills
    }
}

fn add_pill(pills: &mut Vec<String>, shown: bool, pill: String)
    ensures
        texts(final(pills)@) == with_pill(texts(old(pills)@), shown, pill@),
{
    let ghost before = pills@;
    if shown {
        pills.push(pill);
        assert(texts(pills@) =~= texts(before).push(pill@));
    }
}

/// Writes a label, a space and a number.
fn counted_text(label: &str, n: u64) -> (r: String)
    ensures
        r@ == counted(label@, n as nat),
{
    let mut out = label.to_owned();
    out.push(' ');
    out.append(decimal_text(n).as_str());
    out
}

/// The width of the controls in a banner of this width.
pub open spec fn width_of_controls(total_width: u32) -> u32 {
    if total_width < 920 {
        168
    } else {
        216
    }
}

/// How wide the controls at the right of a banner of this width are.
pub fn controls_width(total_width: u32) -> (r: u32)
    ensures
        r == width_of_controls(total_width),
        r == (if total_width < 920 {
            168u32
        } else {
            216u32
        }),
{
    if total_width < 920 {
        168
    } else {
        216
    }
}

/// The first letter of a title.
pub open spec fn first_letter(title: Seq<char>) -> char {
    if title.len() > 0 {
        title[0]
    } else {
        'R'
    }
}

/// The letter that a closed report drawer shows: the first of its title.
pub fn collapsed_label(language: Language) -> (r: char)
    ensures
        r == first_letter(wording(language, I18nKey::FinalReport)),
        r == (if wording(language, I18nKey::FinalReport).len() > 0 {
            wording(language, I18nKey::FinalReport)[0]
        } else {
            'R'
        }),
{
    let title = t(language, I18nKey::FinalReport);
    if title.is_empty() {
        'R'
    } else {
        title.get_char(0)
    }
}

/// What an editor is called.
pub open spec fn title_key(editor: ExpandedEditor) -> I18nKey {
    match editor {
        ExpandedEditor::Curl => I18nKey::CurlLabel,
        ExpandedEditor::Headers => I18nKey::HeaderJson,
        ExpandedEditor::Body => I18nKey::RequestBody,
    }
}

impl ApiQpsApp {
    /// What the state of the tool is called.
    pub open spec fn status_key(self) -> I18nKey {
        if self.run_state == RunState::Running {
            I18nKey::RunningState
        } else {
            I18nKey::IdleState
        }
    }

    /// The name of the state of the tool.
    pub fn status_label(&self) -> (r: &'static str)
        ensures
            r@ == wording(self.language, self.status_key()),
    {
        if self.is_running() {
            t(self.language, I18nKey::RunningState)
        } else {
            t(self.language, I18nKey::IdleState)
        }
    }

    /// The target that the banner names.
    pub open spec fn target(self) -> Seq<char> {
        if self.request_draft.api_url@.len() == 0 {
            "http://127.0.0.1/api"@
        } else {
            self.request_draft.api_url@
        }
    }

    /// The URL of the draft, or an example of one.
    pub fn target_display(&self) -> (r: &str)
        ensures
            r@ == self.target(),
    {
        if self.request_draft.api_url.as_str().is_empty() {
            "http://127.0.0.1/api"
        } else {
            self.request_draft.api_url.as_str()
        }
    }

    /// The pills in a banner that is `width` wide: the state and the method, and as there is
    /// room for them the target, the concurrency, the duration, and that connections are reused.
    pub open spec fn banner(self, width: u32) -> Seq<Seq<char>> {
        let always = seq![wording(self.language, self.status_key()), self.request_draft.method@];
        let target = with_pill(always, width >= 320, truncated(self.target(), target_room(width)));
        let concurrency = with_pill(
            target,
            width >= 560,
            counted(
                wording(self.language, I18nKey::Concurrency),
                self.settings.concurrency as nat,
            ),
        );
        let duration = with_pill(
            concurrency,
            width >= 740,
            counted(
                wording(self.language, I18nKey::Duration),
                self.settings.duration_secs as nat,
            ) + wording(self.language, I18nKey::SecondUnit),
        );
        with_pill(
            duration,
            width >= 900 && self.settings.keep_alive,
            wording(self.language, I18nKey::KeepAlive),
        )
    }

    /// The pills in the banner.
    pub fn hero_pills(&self, width: u32) -> (r: Vec<String>)
        ensures
            texts(r@) == self.banner(width),
    {
        let room: usize = if width >= 980 {
            48
        } else if width >= 780 {
            34
        } else if width >= 620 {
            24
        } else {
            18
        };
        let mut pills: Vec<String> = Vec::new();
        pills.push(self.status_label().to_owned());
        pills.push(self.request_draft.method.clone());
        assert(texts(pills@) =~= seq![
            wording(self.language, self.status_key()),
            self.request_draft.method@,
        ]);
        add_pill(&mut pills, width >= 320, truncate_middle(self.target_display(), room));
        add_pill(
            &mut pills,
            width >= 560,
            counted_text(
                t(self.language, I18nKey::Concurrency),
                self.settings.concurrency as u64,
            ),
        );
        let duration = counted_text(
            t(self.language, I18nKey::Duration),
            self.settings.duration_secs,
        );
        add_pill(
            &mut pills,
            width >= 740,
            joined(duration.as_str(), t(self.language, I18nKey::SecondUnit)),
        );
        add_pill(
            &mut pills,
            width >= 900 && self.settings.keep_alive,
            t(self.language, I18nKey::KeepAlive).to_owned(),
        );
        pills
    }

    /// When the next frame is due, in milliseconds.
    pub open spec fn due_frame(self) -> Option<u64> {
        if self.run_state == RunState::Running {
            Some(33u64)
        } else {
            None
        }
    }

    /// When the next frame is due although nothing was touched, in milliseconds: only while a
    /// load test runs.
    pub fn repaint_after_ms(&self) -> (r: Option<u64>)
        ensures
            r == self.due_frame(),
            r == (if self.run_state == RunState::Running {
                Some(33u64)
            } else {
                None
            }),
    {
        if self.is_running() {
            Some(33)
        } else {
            None
        }
    }

    /// How many requests went wrong.
    pub open spec fn errors(self) -> int {
        self.latest_runtime_metrics.failed_requests + self.latest_runtime_metrics.timeout_requests
    }

    /// The requests of the running load test that went wrong.
    pub fn runtime_error_count(&self) -> (r: u64)
        requires
            self.latest_runtime_metrics.failed_requests
                + self.latest_runtime_metrics.timeout_requests <= u64::MAX,
        ensures
            r == self.errors(),
            r == self.latest_runtime_metrics.failed_requests
                + self.latest_runtime_metrics.timeout_requests,
    {
        self.latest_runtime_metrics.failed_requests + self.latest_runtime_metrics.timeout_requests
    }

    /// Some request has been sent.
    pub open spec fn has_latency(self) -> bool {
        self.latest_runtime_metrics.total_requests > 0
    }

    /// Whether there are latencies to show.
    pub fn runtime_has_latency(&self) -> (r: bool)
        ensures
            r == self.has_latency(),
            r == (self.latest_runtime_metrics.total_requests > 0),
    {
        self.latest_runtime_metrics.total_requests > 0
    }

    /// What is shown of a latency, given its numeral.
    pub open spec fn p95_reads(self, numeral: Seq<char>) -> Seq<char> {
        if self.latest_runtime_metrics.total_requests > 0 {
            numeral + " ms"@
        } else {
            "-"@
        }
    }

    /// The latency that 95 in 100 requests stay within, given as a numeral; a dash where there
    /// is none.
    pub fn runtime_p95_text(&self, numeral: &str) -> (r: String)
        ensures
            r@ == self.p95_reads(numeral@),
            r@ == (if self.latest_runtime_metrics.total_requests > 0 {
                numeral@ + " ms"@
            } else {
                "-"@
            }),
    {
        if self.runtime_has_latency() {
            joined(numeral, " ms")
        } else {
            "-".to_owned()
        }
    }

    /// What the latency line reads.
    pub open spec fn latency_reads(self, numerals: LatencyNumerals) -> Seq<char> {
        if self.latest_runtime_metrics.total_requests > 0 {
            latency_line(numerals)
        } else {
            wording(self.language, I18nKey::WaitingData)
        }
    }

    /// What the latency line of the live metrics reads, given the numerals of the latencies.
    pub fn latency_detail(&self, numerals: &LatencyNumerals) -> (r: String)
        ensures
            r@ == self.latency_reads(*numerals),
            r@ == (if self.latest_runtime_metrics.total_requests > 0 {
                latency_line(*numerals)
            } else {
                wording(self.language, I18nKey::WaitingData)
            }),
    {
        if self.runtime_has_latency() {
            latency_text(numerals)
        } else {
            t(self.language, I18nKey::WaitingData).to_owned()
        }
    }

    /// The rows of the live metrics, given the numerals of the rate, of the time that has passed
    /// and of the latency that 95 in 100 requests stay within.
    pub open spec fn summary(self, qps: Seq<char>, elapsed: Seq<char>, p95: Seq<char>) -> Seq<
        (Seq<char>, Seq<char>),
    > {
        let metrics = self.latest_runtime_metrics;
        seq![
            (
                wording(self.language, I18nKey::TotalRequests),
                decimal(metrics.total_requests as nat),
            ),
            (wording(self.language, I18nKey::Success), decimal(metrics.success_requests as nat)),
            (wording(self.language, I18nKey::Qps), qps),
            (wording(self.language, I18nKey::Elapsed), elapsed.push('s')),
            (
                wording(self.language, I18nKey::Errors),
                decimal((metrics.failed_requests + metrics.timeout_requests) as nat),
            ),
            (
                wording(self.language, I18nKey::P95Latency),
                if metrics.total_requests > 0 {
                    p95 + " ms"@
                } else {
                    "-"@
                },
            ),
        ]
    }

    /// Writes the rows of the live metrics.
    pub fn runtime_summary(&self, qps: &str, elapsed: &str, p95: &str) -> (r: Vec<(String, String)>)
        requires
            self.latest_runtime_metrics.failed_requests
                + self.latest_runtime_metrics.timeout_requests <= u64::MAX,
        ensures
            row_texts(r@) == self.summary(qps@, elapsed@, p95@),
    {
        let metrics = &self.latest_runtime_metrics;
        let mut elapsed_text = elapsed.to_owned();
        elapsed_text.push('s');
        let errors: u64 = self.runtime_error_count();
        let mut rows: Vec<(String, String)> = Vec::new();
        rows.push(
            row(t(self.language, I18nKey::TotalRequests), decimal_text(metrics.total_requests)),
        );
        rows.push(row(t(self.language, I18nKey::Success), decimal_text(metrics.success_requests)));
        rows.push(row(t(self.language, I18nKey::Qps), qps.to_owned()));
        rows.push(row(t(self.language, I18nKey::Elapsed), elapsed_text));
        rows.push(row(t(self.language, I18nKey::Errors), decimal_text(errors)));
        rows.push(row(t(self.language, I18nKey::P95Latency), self.runtime_p95_text(p95)));
        assert(row_texts(rows@) =~= self.summary(qps@, elapsed@, p95@));
        rows
    }

    /// How wide the report drawer is.
    pub open spec fn drawer_room(self) -> u32 {
        if self.final_metrics is None {
            0
        } else if self.final_report_drawer_open {
            OPEN_DRAWER_WIDTH
        } else {
            CLOSED_DRAWER_WIDTH
        }
    }

    /// The width of the report drawer; it has none where there is no report.
    pub fn drawer_width(&self) -> (r: u32)
        ensures
            r == self.drawer_room(),
            r == (if self.final_metrics is None {
                0
            } else if self.final_report_drawer_open {
                OPEN_DRAWER_WIDTH
            } else {
                CLOSED_DRAWER_WIDTH
            }),
    {
        if self.final_metrics.is_none() {
            0
        } else if self.final_report_drawer_open {
            OPEN_DRAWER_WIDTH
        } else {
            CLOSED_DRAWER_WIDTH
        }
    }

    /// How wide the gap before the report drawer is.
    pub open spec fn drawer_space(self) -> u32 {
        if self.final_metrics is None {
            0
        } else {
            COLUMN_GAP
        }
    }

    /// The gap before the report drawer.
    pub fn drawer_gap(&self) -> (r: u32)
        ensures
            r == self.drawer_space(),
            r == (if self.final_metrics is None {
                0
            } else {
                COLUMN_GAP
            }),
    {
        if self.final_metrics.is_none() {
            0
        } else {
            COLUMN_GAP
        }
    }

    /// Nothing but the editor window and the drawer may differ.
    pub open spec fn same_but_windows(self, after: ApiQpsApp) -> bool {
        &&& after.language == self.language
        &&& after.curl_input == self.curl_input
        &&& after.request_draft == self.request_draft
        &&& after.convert_status == self.convert_status
        &&& after.generic_error == self.generic_error
        &&& after.settings == self.settings
        &&& after.run_state == self.run_state
        &&& after.latest_runtime_metrics == self.latest_runtime_metrics
        &&& after.metric_history == self.metric_history
        &&& after.final_metrics == self.final_metrics
    }

    /// `after` is the state once the drawer was asked to open or to close.
    pub open spec fn drawer_set(self, after: ApiQpsApp, open: bool) -> bool {
        &&& self.same_but_windows(after)
        &&& after.expanded_editor == self.expanded_editor
        &&& after.final_report_drawer_open == (open && self.final_metrics is Some)
    }

    /// Opens or closes the report drawer; without a report it stays closed.
    pub fn set_report_drawer(&mut self, open: bool)
        ensures
            old(self).drawer_set(*final(self), open),
            old(self).same_but_windows(*final(self)),
            final(self).expanded_editor == old(self).expanded_editor,
            final(self).final_report_drawer_open == (open && old(self).final_metrics is Some),
            old(self).well_formed() ==> final(self).well_formed(),
    {
        self.final_report_drawer_open = open && self.final_metrics.is_some();
    }

    /// The method that was typed carries a body.
    pub open spec fn uses_body(self) -> bool {
        text_supports_body(trimmed(self.request_draft.method@))
    }

    /// Whether the body that is typed will be sent, as far as the method decides it.
    pub fn body_is_used(&self) -> (r: bool)
        ensures
            r == self.uses_body(),
            r == (lowered(trimmed(self.request_draft.method@)) != lowered("GET"@) && lowered(
                trimmed(self.request_draft.method@),
            ) != lowered("HEAD"@)),
    {
        method_text_supports_body(trim(self.request_draft.method.as_str()).as_str())
    }

    /// The text in an editor.
    pub open spec fn edited_text(self, editor: ExpandedEditor) -> Seq<char> {
        match editor {
            ExpandedEditor::Curl => self.curl_input@,
            ExpandedEditor::Headers => self.request_draft.headers_json@,
            ExpandedEditor::Body => self.request_draft.body@,
        }
    }

    /// `after` is the state once an editor was opened.
    pub open spec fn editor_opened(self, after: ApiQpsApp, editor: ExpandedEditor) -> bool {
        &&& self.same_but_windows(after)
        &&& after.expanded_editor == Some(editor)
        &&& after.final_report_drawer_open == self.final_report_drawer_open
    }

    /// Opens an editor in a window of its own.
    pub fn open_editor(&mut self, editor: ExpandedEditor)
        ensures
            old(self).editor_opened(*final(self), editor),
            old(self).same_but_windows(*final(self)),
            final(self).expanded_editor == Some(editor),
            final(self).final_report_drawer_open == old(self).final_report_drawer_open,
            old(self).well_formed() ==> final(self).well_formed(),
    {
        self.expanded_editor = Some(editor);
    }

    /// `after` is the state once an editor was clicked twice.
    pub open spec fn double_clicked(self, after: ApiQpsApp, editor: ExpandedEditor) -> bool {
        &&& self.same_but_windows(after)
        &&& after.expanded_editor == (if trimmed(self.edited_text(editor)).len() > 0 {
            Some(editor)
        } else {
            self.expanded_editor
        })
        &&& after.final_report_drawer_open == self.final_report_drawer_open
    }

    /// A double click in an editor opens it in a window of its own, unless it is blank.
    pub fn editor_double_clicked(&mut self, editor: ExpandedEditor)
        ensures
            old(self).double_clicked(*final(self), editor),
            old(self).same_but_windows(*final(self)),
            final(self).expanded_editor == (if trimmed(old(self).edited_text(editor)).len() > 0 {
                Some(editor)
            } else {
                old(self).expanded_editor
            }),
            final(self).final_report_drawer_open == old(self).final_report_drawer_open,
            old(self).well_formed() ==> final(self).well_formed(),
    {
        let blank = match editor {
            ExpandedEditor::Curl => is_blank(self.curl_input.as_str()),
            ExpandedEditor::Headers => is_blank(self.request_draft.headers_json.as_str()),
            ExpandedEditor::Body => is_blank(self.request_draft.body.as_str()),
        };
        if !blank {
            self.open_editor(editor);
        }
    }

    /// `after` is the state once the editor window was closed.
    pub open spec fn editor_closed(self, after: ApiQpsApp) -> bool {
        &&& self.same_but_windows(after)
        &&& after.expanded_editor is None
        &&& after.final_report_drawer_open == self.final_report_drawer_open
    }

    /// Closes the editor window.
    pub fn close_editor(&mut self)
        ensures
            old(self).editor_closed(*final(self)),
            old(self).same_but_windows(*final(self)),
            final(self).expanded_editor is None,
            final(self).final_report_drawer_open == old(self).final_report_drawer_open,
            old(self).well_formed() ==> final(self).well_formed(),
    {
        self.expanded_editor = None;
    }

    /// What an editor is called.
    pub fn editor_title(&self, editor: ExpandedEditor) -> (r: &'static str)
        ensures
            r@ == wording(self.language, title_key(editor)),
            r@ == wording(
                self.language,
                match editor {
                    ExpandedEditor::Curl => I18nKey::CurlLabel,
                    ExpandedEditor::Headers => I18nKey::HeaderJson,
                    ExpandedEditor::Body => I18nKey::RequestBody,
                },
            ),
    {
        let key = match editor {
            ExpandedEditor::Curl => I18nKey::CurlLabel,
            ExpandedEditor::Headers => I18nKey::HeaderJson,
            ExpandedEditor::Body => I18nKey::RequestBody,
        };
        t(self.language, key)
    }

    /// `after` is the state once the text in an editor has changed.
    pub open spec fn edited(self, after: ApiQpsApp, editor: ExpandedEditor) -> bool {
        &&& editor == ExpandedEditor::Curl ==> self.auto_converted(after)
        &&& editor != ExpandedEditor::Curl ==> after == self
    }

    /// The text in an editor has changed: a new cURL command is converted at once.
    pub fn editor_changed(&mut self, editor: ExpandedEditor)
        ensures
            old(self).edited(*final(self), editor),
            editor == ExpandedEditor::Curl ==> old(self).auto_converted(*final(self)),
            editor != ExpandedEditor::Curl ==> *final(self) == *old(self),
            old(self).well_formed() ==> final(self).well_formed(),
    {
        if matches!(editor, ExpandedEditor::Curl) {
            self.auto_convert_from_curl();
        }
    }
}

} // verus!
