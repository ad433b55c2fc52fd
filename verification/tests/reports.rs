use reqwave::i18n::Language;
use reqwave::loadtest::FinalMetrics;
use reqwave::reading::Reading;
use reqwave::report::{
    final_report, format_status_code_counts, label_room, label_step, latency_text, minutes_text,
    shows_counts, shows_label, status_code_bars, status_color, success_fail_timeout_text,
    tallest_bar, truncate_middle, LatencyNumerals, StatusBar, StatusCodeLabel, StatusColor,
};
use reqwave::text::{
    decimal_text, eq_ignore_ascii_case, is_blank, is_space_char, labelled, replace, same_text,
    split_once, starts_with, trim,
};

fn numerals() -> LatencyNumerals {
    LatencyNumerals {
        avg: "1.00".to_owned(),
        p50: "2.00".to_owned(),
        p95: "3.00".to_owned(),
        p99: "4.00".to_owned(),
        max: "5.00".to_owned(),
    }
}

fn metrics() -> FinalMetrics {
    let zero = Reading { bits: 0 };
    FinalMetrics {
        elapsed_secs: zero,
        total_requests: 18,
        success_requests: 12,
        failed_requests: 5,
        timeout_requests: 1,
        qps: zero,
        avg_latency_ms: zero,
        p50_latency_ms: zero,
        p95_latency_ms: zero,
        p99_latency_ms: zero,
        max_latency_ms: zero,
        status_code_counts: vec![(200, 12), (404, 5)],
    }
}

#[test]
fn status_codes_are_listed_line_by_line() {
    assert_eq!(format_status_code_counts(&[]), "-");
    assert_eq!(format_status_code_counts(&[(200, 5)]), "200: 5");
    assert_eq!(format_status_code_counts(&[(200, 5), (404, 10)]), "200: 5\n404: 10");
}

#[test]
fn report_tells_how_requests_ended() {
    assert_eq!(success_fail_timeout_text(&metrics()), "12 / 5 / 1");
    assert_eq!(latency_text(&numerals()), "1.00 / 2.00 / 3.00 / 4.00 / 5.00 ms");
}

#[test]
fn report_has_six_rows() {
    let rows = final_report(&metrics(), Language::EnUs, "10.02", "1.8", &numerals());
    let rows: Vec<(&str, &str)> = rows.iter().map(|(k, v)| (k.as_str(), v.as_str())).collect();
    assert_eq!(
        rows,
        vec![
            ("Elapsed time", "10.02s"),
            ("Total requests", "18"),
            ("Success / failed / timeout", "12 / 5 / 1"),
            ("Average QPS", "1.8"),
            ("HTTP status codes", "200: 12\n404: 5"),
            (
                "Latency avg / P50 / P95 / P99 / max",
                "1.00 / 2.00 / 3.00 / 4.00 / 5.00 ms"
            ),
        ]
    );
}

#[test]
fn minutes_have_two_digits_of_seconds() {
    assert_eq!(minutes_text(1, 5, Language::EnUs), "1m05s");
    assert_eq!(minutes_text(12, 0, Language::EnUs), "12m00s");
    assert_eq!(minutes_text(2, 60, Language::ZhCn), "2m60秒");
}

#[test]
fn long_text_loses_its_middle() {
    assert_eq!(truncate_middle("abcdefghij", 10), "abcdefghij");
    assert_eq!(truncate_middle("abcdefghijk", 10), "abcdef…ijk");
    assert_eq!(truncate_middle("abcdefghijk", 4), "ab…k");
    assert_eq!(truncate_middle("abcdefghijk", 3), "abcdefghijk");
    assert_eq!(truncate_middle("一二三四五六七八", 5), "一二…七八");
    assert_eq!(truncate_middle("", 0), "");
}

#[test]
fn cut_text_fits_and_is_not_cut_again() {
    let text: String = ('a'..='z').collect();
    for max in 4..30 {
        let cut = truncate_middle(&text, max);
        assert_eq!(cut.chars().count(), max.min(26));
        assert!(cut.starts_with('a') && cut.ends_with('z'));
        assert_eq!(truncate_middle(&cut, max), cut);
    }
}

#[test]
fn bars_are_coloured_by_class() {
    assert_eq!(status_color(199), StatusColor::Muted);
    assert_eq!(status_color(200), StatusColor::Green);
    assert_eq!(status_color(299), StatusColor::Green);
    assert_eq!(status_color(301), StatusColor::Teal);
    assert_eq!(status_color(404), StatusColor::Amber);
    assert_eq!(status_color(599), StatusColor::Coral);
    assert_eq!(status_color(600), StatusColor::Muted);
}

#[test]
fn bars_show_codes_and_then_transport_errors() {
    let bars = status_code_bars(&[(200, 5), (503, 2)], 9);
    assert_eq!(
        bars,
        vec![
            StatusBar { label: StatusCodeLabel::Code(200), count: 5, color: StatusColor::Green },
            StatusBar { label: StatusCodeLabel::Code(503), count: 2, color: StatusColor::Coral },
            StatusBar {
                label: StatusCodeLabel::TransportError,
                count: 9,
                color: StatusColor::Alert
            },
        ]
    );
    assert_eq!(bars[0].tooltip(Language::EnUs), "200: 5");
    assert_eq!(bars[2].tooltip(Language::EnUs), "ERR: 9");
    assert_eq!(bars[2].label.display_text(Language::ZhCn), "错误");
    assert_eq!(tallest_bar(&bars), 9);
    assert!(status_code_bars(&[], 0).is_empty());
    assert_eq!(tallest_bar(&Vec::new()), 1);
}

#[test]
fn labels_are_spaced_out() {
    assert_eq!(label_room(0), 1);
    assert_eq!(label_room(33), 1);
    assert_eq!(label_room(340), 10);
    assert_eq!(label_room(373), 10);
    assert_eq!(label_step(0, 10), 1);
    assert_eq!(label_step(10, 10), 1);
    assert_eq!(label_step(11, 10), 2);
    let shown: Vec<usize> = (0..8).filter(|i| shows_label(*i, 3, 8)).collect();
    assert_eq!(shown, vec![0, 3, 6, 7]);
    assert!(shows_counts(24));
    assert!(!shows_counts(25));
}

#[test]
fn white_space_is_that_of_unicode() {
    for u in 0..=0x10ffffu32 {
        if let Some(c) = char::from_u32(u) {
            assert_eq!(is_space_char(c), c.is_whitespace(), "{:x}", u);
        }
    }
}

#[test]
fn text_operations_agree_with_those_of_strings() {
    let samples = [
        "", " ", "a", " a b ", "\u{3000}x\u{85}", "a:b:c", ":", "aaa", "aXa", "\\n\\n", "héLLo", "你好",
    ];
    for s in samples {
        assert_eq!(trim(s), s.trim());
        assert_eq!(is_blank(s), s.trim().is_empty());
        assert_eq!(
            split_once(s, ':'),
            s.split_once(':').map(|(a, b)| (a.to_owned(), b.to_owned()))
        );
        for p in samples {
            assert_eq!(starts_with(s, p), s.starts_with(p));
            assert_eq!(same_text(s, p), s == p);
            assert_eq!(eq_ignore_ascii_case(s, p), s.eq_ignore_ascii_case(p));
            if !p.is_empty() {
                assert_eq!(replace(s, p, "-"), s.replace(p, "-"));
            }
        }
    }
    assert_eq!(replace("aaaa", "aa", "b"), "bb");
    assert!(eq_ignore_ascii_case("GeT", "gEt"));
    assert!(!eq_ignore_ascii_case("É", "é"));
}

#[test]
fn numerals_are_decimal() {
    for n in [0, 9, 10, 99, 100, 12345678901234567890, u64::MAX] {
        assert_eq!(decimal_text(n), n.to_string());
    }
    assert_eq!(labelled("Error", "x"), "Error: x");
}
