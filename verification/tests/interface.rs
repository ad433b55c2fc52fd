use reqwave::app::{ApiQpsApp, ExpandedEditor, RunState, MAX_EVENTS_PER_FRAME};
use reqwave::curl_parser::parse_curl;
use reqwave::error::RequestError;
use reqwave::i18n::{t, I18nKey, Language};
use reqwave::loadtest::{
    build_final_metrics, EngineEvent, FinalMetrics, LatencySummary, RuntimeMetrics, SharedCounters,
};
use reqwave::reading::Reading;
use reqwave::report::LatencyNumerals;
use reqwave::loadtest::plan_load_test;
use reqwave::view::{
    collapsed_label, controls_width, MAX_CONCURRENCY, MAX_DURATION_SECS, MAX_INTERVAL_MS,
    MAX_TIMEOUT_SECS, MIN_CONCURRENCY, MIN_DURATION_SECS, MIN_INTERVAL_MS, MIN_TIMEOUT_SECS,
};

fn reading(x: f64) -> Reading {
    Reading { bits: x.to_bits() }
}

fn progress(elapsed: f64, total: u64) -> EngineEvent {
    EngineEvent::Progress(RuntimeMetrics {
        elapsed_secs: reading(elapsed),
        total_requests: total,
        ..RuntimeMetrics::default()
    })
}

fn result() -> FinalMetrics {
    let zero = reading(0.0);
    let latency = LatencySummary {
        avg_latency_ms: zero,
        p50_latency_ms: zero,
        p95_latency_ms: zero,
        p99_latency_ms: zero,
        max_latency_ms: zero,
    };
    build_final_metrics(&SharedCounters::default(), latency, reading(1.0), zero)
}

fn english() -> ApiQpsApp {
    let mut app = ApiQpsApp::new(None);
    app.language = Language::EnUs;
    app
}

fn running() -> ApiQpsApp {
    let mut app = english();
    assert!(app.start_test(true).is_some());
    app
}

#[test]
fn tool_starts_with_the_example_converted() {
    let app = ApiQpsApp::new(None);
    assert_eq!(app.language, Language::ZhCn);
    assert_eq!(app.request_draft.method, "POST");
    assert_eq!(app.request_draft.api_url, "https://api.example.com/endpoint");
    assert_eq!(
        app.request_draft.headers_json,
        "{\n  \"content-type\": \"application/json\",\n  \"host\": \"api.example.com\"\n}"
    );
    assert_eq!(app.request_draft.body, "{\n  \"key\": \"value\"\n}");
    let status = app.convert_status.unwrap();
    assert!(status.ok);
    assert_eq!(status.message, t(Language::ZhCn, I18nKey::ConvertSuccess));
    assert_eq!(app.settings.concurrency, 100);
    assert_eq!(app.settings.duration_secs, 10);
    assert_eq!(app.settings.interval_ms, 1);
    assert_eq!(app.settings.timeout_secs, 5);
    assert!(app.settings.keep_alive);
    assert!(app.generic_error.is_none());
    assert_eq!(app.run_state, RunState::Idle);
    assert!(app.final_metrics.is_none());
}

#[test]
fn missing_runtime_is_reported() {
    let mut app = ApiQpsApp::new(Some("no threads"));
    assert_eq!(app.generic_error.as_deref(), Some("异步运行时初始化失败: no threads"));
    app.language = Language::EnUs;
    assert!(app.start_test(false).is_none());
    assert_eq!(app.generic_error.as_deref(), Some("Error: Async runtime unavailable"));
    assert!(!app.is_running());
}

#[test]
fn new_command_is_converted_at_once() {
    let mut app = english();
    app.curl_input = "curl http://h.example/x".to_owned();
    app.editor_changed(ExpandedEditor::Body);
    assert_eq!(app.request_draft.method, "POST");
    app.editor_changed(ExpandedEditor::Curl);
    assert_eq!(app.request_draft.method, "GET");
    assert_eq!(app.request_draft.api_url, "http://h.example/x");
    assert_eq!(app.request_draft.body, "");
}

#[test]
fn faulty_command_leaves_the_draft_alone() {
    let mut app = english();
    app.curl_input = "curl nothing".to_owned();
    app.auto_convert_from_curl();
    assert_eq!(app.request_draft.method, "POST");
    let status = app.convert_status.as_ref().unwrap();
    assert!(!status.ok);
    assert_eq!(status.message, "Conversion failed: URL not found");
}

#[test]
fn outcome_of_a_conversion_is_taken_over() {
    let mut app = english();
    app.apply_conversion(parse_curl("curl -X PUT http://a.example", Language::EnUs));
    assert_eq!(app.request_draft.method, "PUT");
    app.apply_conversion(Err(RequestError::TooManyHeaders));
    assert_eq!(app.request_draft.method, "PUT");
    assert_eq!(
        app.convert_status.as_ref().unwrap().message,
        "Conversion failed: max size reached"
    );
}

#[test]
fn load_test_is_started_with_what_the_draft_describes() {
    let mut app = english();
    app.generic_error = Some("old".to_owned());
    app.settings.concurrency = 3;
    let order = app.start_test(true).unwrap();
    assert_eq!(order.template.method, "POST");
    assert_eq!(order.template.url, "https://api.example.com/endpoint");
    assert_eq!(order.template.body.as_deref(), Some("{\n  \"key\": \"value\"\n}".as_bytes()));
    assert_eq!(order.settings, app.settings);
    assert_eq!(order.language, Language::EnUs);
    assert!(app.is_running());
    assert!(app.stop_test());
    assert!(app.generic_error.is_none());
}

#[test]
fn faulty_draft_keeps_the_results() {
    let mut app = running();
    app.consume_events(&mut vec![progress(1.0, 5), EngineEvent::Completed(result())]);
    app.request_draft.api_url = " ".to_owned();
    assert!(app.start_test(true).is_none());
    assert_eq!(app.generic_error.as_deref(), Some("Error: API URL is empty"));
    assert!(app.final_metrics.is_some());
    assert_eq!(app.metric_history.len(), 1);
    assert!(!app.is_running());
    assert!(!app.stop_test());
}

#[test]
fn new_load_test_forgets_the_results() {
    let mut app = running();
    app.consume_events(&mut vec![progress(1.0, 5), EngineEvent::Completed(result())]);
    assert!(app.final_report_drawer_open);
    app.start_test(true);
    assert!(app.final_metrics.is_none());
    assert!(!app.final_report_drawer_open);
    assert!(app.metric_history.is_empty());
    assert_eq!(app.latest_runtime_metrics.total_requests, 0);
}

#[test]
fn progress_fills_the_history() {
    let mut app = running();
    app.consume_events(&mut vec![progress(1.0, 5), progress(1.0, 6), progress(2.0, 9)]);
    assert_eq!(app.latest_runtime_metrics.total_requests, 9);
    assert_eq!(app.metric_history.len(), 2);
    assert!(app.is_running());
    assert!(!app.final_report_drawer_open);
}

#[test]
fn result_ends_the_load_test_and_opens_the_report() {
    let mut app = running();
    app.consume_events(&mut vec![EngineEvent::Completed(result()), progress(2.0, 9)]);
    assert!(!app.is_running());
    assert!(app.final_report_drawer_open);
    assert_eq!(app.latest_runtime_metrics.total_requests, 9);
    app.consume_events(&mut vec![progress(3.0, 10)]);
    assert_eq!(app.latest_runtime_metrics.total_requests, 9);
}

#[test]
fn failure_ends_the_load_test_and_is_shown() {
    let mut app = running();
    app.consume_events(&mut vec![EngineEvent::Failed("refused".to_owned())]);
    assert!(!app.is_running());
    assert_eq!(app.generic_error.as_deref(), Some("Error: refused"));
    assert!(app.final_metrics.is_none());
}

#[test]
fn reset_restores_all_but_the_language() {
    let mut app = running();
    app.consume_events(&mut vec![progress(1.0, 5), EngineEvent::Completed(result())]);
    app.curl_input = "x".to_owned();
    app.settings.concurrency = 1;
    app.open_editor(ExpandedEditor::Body);
    app.reset_state();
    let fresh = ApiQpsApp::new(None);
    assert_eq!(app.language, Language::EnUs);
    assert_eq!(app.curl_input, fresh.curl_input);
    assert_eq!(app.request_draft, fresh.request_draft);
    assert_eq!(app.settings, fresh.settings);
    assert_eq!(app.convert_status.as_ref().unwrap().message, "Converted");
    assert!(app.expanded_editor.is_none());
    assert!(app.final_metrics.is_none());
    assert!(app.metric_history.is_empty());
    assert!(!app.is_running());
}

#[test]
fn double_click_opens_what_is_not_blank() {
    let mut app = english();
    app.editor_double_clicked(ExpandedEditor::Headers);
    assert_eq!(app.expanded_editor, Some(ExpandedEditor::Headers));
    assert_eq!(app.editor_title(ExpandedEditor::Headers), "Header (JSON)");
    assert_eq!(app.editor_title(ExpandedEditor::Curl), "cURL command");
    assert_eq!(app.editor_title(ExpandedEditor::Body), "Request body");
    app.close_editor();
    assert_eq!(app.expanded_editor, None);
    app.request_draft.body = " \n".to_owned();
    app.editor_double_clicked(ExpandedEditor::Body);
    assert_eq!(app.expanded_editor, None);
    app.editor_double_clicked(ExpandedEditor::Curl);
    assert_eq!(app.expanded_editor, Some(ExpandedEditor::Curl));
}

#[test]
fn drawer_opens_only_for_a_report() {
    let mut app = running();
    app.set_report_drawer(true);
    assert!(!app.final_report_drawer_open);
    assert_eq!((app.drawer_width(), app.drawer_gap()), (0, 0));
    app.consume_events(&mut vec![EngineEvent::Completed(result())]);
    assert_eq!((app.drawer_width(), app.drawer_gap()), (304, 14));
    app.set_report_drawer(false);
    assert_eq!((app.drawer_width(), app.drawer_gap()), (40, 14));
}

#[test]
fn banner_shows_what_finds_room() {
    let mut app = english();
    assert_eq!(app.hero_pills(319), vec!["Idle", "POST"]);
    assert_eq!(app.hero_pills(320), vec!["Idle", "POST", "https://api…dpoint"]);
    assert_eq!(app.hero_pills(620)[2], "https://api.exa…endpoint");
    assert_eq!(
        app.hero_pills(980),
        vec![
            "Idle",
            "POST",
            "https://api.example.com/endpoint",
            "Concurrency 100",
            "Duration 10s",
            "Keep-Alive"
        ]
    );
    app.settings.keep_alive = false;
    assert_eq!(app.hero_pills(900).len(), 5);
    assert_eq!(app.hero_pills(740).len(), 5);
    assert_eq!(app.hero_pills(739).len(), 4);
    assert_eq!(app.hero_pills(559).len(), 3);
    app.request_draft.api_url = String::new();
    assert_eq!(app.target_display(), "http://127.0.0.1/api");
    assert_eq!(controls_width(919), 168);
    assert_eq!(controls_width(920), 216);
}

#[test]
fn live_metrics_are_summed_up() {
    let mut app = running();
    let rows = |app: &ApiQpsApp| -> Vec<String> {
        app.runtime_summary("1.5", "2.00", "7.25").into_iter().map(|(_, v)| v).collect()
    };
    assert_eq!(rows(&app), vec!["0", "0", "1.5", "2.00s", "0", "-"]);
    app.consume_events(&mut vec![EngineEvent::Progress(RuntimeMetrics {
        total_requests: 9,
        success_requests: 4,
        failed_requests: 3,
        timeout_requests: 2,
        ..RuntimeMetrics::default()
    })]);
    assert_eq!(rows(&app), vec!["9", "4", "1.5", "2.00s", "5", "7.25 ms"]);
    assert_eq!(app.runtime_error_count(), 5);
    assert!(app.runtime_has_latency());
    assert_eq!(app.runtime_summary("", "", "")[4].0, "Errors");
}

#[test]
fn latency_line_waits_for_data() {
    let numerals = LatencyNumerals {
        avg: "a".to_owned(),
        p50: "b".to_owned(),
        p95: "c".to_owned(),
        p99: "d".to_owned(),
        max: "e".to_owned(),
    };
    let mut app = running();
    assert_eq!(app.latency_detail(&numerals), "Waiting for data");
    app.consume_events(&mut vec![progress(1.0, 1)]);
    assert_eq!(app.latency_detail(&numerals), "a / b / c / d / e ms");
}

#[test]
fn frames_are_due_while_a_load_test_runs() {
    assert_eq!(english().repaint_after_ms(), None);
    assert_eq!(running().repaint_after_ms(), Some(33));
    assert_eq!(running().status_label(), "Running");
    assert_eq!(english().status_label(), "Idle");
}

#[test]
fn body_is_used_unless_the_method_forbids_it() {
    let mut app = english();
    assert!(app.body_is_used());
    app.request_draft.method = " head ".to_owned();
    assert!(!app.body_is_used());
}

#[test]
fn closed_drawer_shows_one_letter() {
    assert_eq!(collapsed_label(Language::EnUs), 'F');
    assert_eq!(collapsed_label(Language::ZhCn), '最');
}

#[test]
fn limits_of_the_interface() {
    assert_eq!(MAX_EVENTS_PER_FRAME, 512);
    assert_eq!((MIN_CONCURRENCY, MAX_CONCURRENCY), (1, 20000));
    assert_eq!((MIN_DURATION_SECS, MAX_DURATION_SECS), (1, 86400));
    assert_eq!((MIN_TIMEOUT_SECS, MAX_TIMEOUT_SECS), (1, 120));
    assert_eq!((MIN_INTERVAL_MS, MAX_INTERVAL_MS), (0, 60000));
}

#[test]
fn settings_at_their_limits_are_accepted() {
    let mut settings = english().settings;
    settings.concurrency = MIN_CONCURRENCY;
    settings.duration_secs = MIN_DURATION_SECS;
    assert_eq!(plan_load_test(settings, Language::EnUs).unwrap().pool_max_idle_per_host, 2);
    settings.concurrency = MAX_CONCURRENCY;
    settings.duration_secs = MAX_DURATION_SECS;
    assert_eq!(plan_load_test(settings, Language::EnUs).unwrap().pool_max_idle_per_host, 40000);
}

#[test]
fn only_so_many_events_are_taken_at_a_time() {
    let mut app = running();
    let mut queue: Vec<EngineEvent> = (0..700).map(|i| progress(i as f64, i)).collect();
    queue.push(EngineEvent::Completed(result()));
    app.consume_events(&mut queue);
    assert_eq!(queue.len(), 189);
    assert_eq!(app.latest_runtime_metrics.total_requests, 511);
    assert_eq!(app.metric_history.len(), 512);
    assert!(app.is_running());
    app.consume_events(&mut queue);
    assert!(queue.is_empty());
    assert_eq!(app.latest_runtime_metrics.total_requests, 699);
    assert!(!app.is_running());
    let mut late = vec![progress(800.0, 1)];
    app.consume_events(&mut late);
    assert_eq!(late.len(), 1);
}

#[test]
fn draft_of_the_state_is_built_in_its_language() {
    let mut app = english();
    assert_eq!(app.build_template_from_draft().unwrap().method, "POST");
    app.request_draft.headers_json = "x".to_owned();
    assert_eq!(
        app.build_template_from_draft().unwrap_err().message(),
        "Header is not valid JSON"
    );
}
