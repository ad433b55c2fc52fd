//! What the user reads of a load test.
use crate::app::{ApiQpsApp, ExpandedEditor, RunState};
use crate::error::{error_text, in_language, ErrorView};
use crate::history::ceil_div;
use crate::i18n::{wording, I18nKey, Language};
use crate::laws::charts::law_rounding_up;
use crate::laws::text::{law_label_and_text, law_numeral_reads_back};
use crate::loadtest::{FinalMetrics, LoadTestSettings};
use crate::outside::digits_value;
use crate::report::{
    bars_of, color_of, count_line, count_lines, counts_shown, label_shown, latency_line,
    minutes_label, report_of, room_for_labels, status_list, step_of_labels, three_counts,
    truncated, two_digits, LatencyNumerals, StatusBar, StatusCodeLabel, StatusColor,
};
use crate::text::{decimal, lower, lowered, trimmed};
use crate::view::{
    first_letter, target_room, title_key, width_of_controls, within_range, CLOSED_DRAWER_WIDTH,
    COLUMN_GAP, MAX_CONCURRENCY, MAX_DURATION_SECS, MAX_INTERVAL_MS, MAX_TIMEOUT_SECS,
    MIN_CONCURRENCY, MIN_DURATION_SECS, MIN_INTERVAL_MS, MIN_TIMEOUT_SECS, OPEN_DRAWER_WIDTH,
};
use vstd::prelude::*;
use vstd::string::*;

verus! {

/// The lines of a text: it is cut at every line end, and those go.
pub open spec fn lines_of(text: Seq<char>) -> Seq<Seq<char>>
    decreases text.len(),
{
    if text.len() == 0 {
        seq![text]
    } else {
        let before = lines_of(text.drop_last());
        if text.last() == '\n' {
            before.push(Seq::empty())
        } else {
            before.drop_last().push(before.last().push(text.last()))
        }
    }
}

proof fn lemma_some_line(text: Seq<char>)
    ensures
        lines_of(text).len() > 0,
    decreases text.len(),
{
    if text.len() > 0 {
        lemma_some_line(text.drop_last());
    }
}

/// What is written after a text without a line end in it lengthens the last line.
proof fn lemma_longer_line(text: Seq<char>, more: Seq<char>)
    requires
        !more.contains('\n'),
    ensures
        lines_of(text + more) == lines_of(text).drop_last().push(lines_of(text).last() + more),
    decreases more.len(),
{
    lemma_some_line(text);
    if more.len() == 0 {
        assert(text + more =~= text);
        assert(lines_of(text).last() + more =~= lines_of(text).last());
        assert(lines_of(text).drop_last().push(lines_of(text).last()) =~= lines_of(text));
    } else {
        let less = more.drop_last();
        if less.contains('\n') {
            let k = choose|k: int| 0 <= k < less.len() && less[k] == '\n';
            assert(more[k] == '\n');
        }
        assert(more[more.len() - 1] != '\n');
        lemma_longer_line(text, less);
        assert((text + more).drop_last() =~= text + less);
        let lines = lines_of(text + less);
        assert(lines.last() == lines_of(text).last() + less);
        assert(lines.drop_last() =~= lines_of(text).drop_last());
        assert((lines_of(text).last() + less).push(more.last()) =~= lines_of(text).last() + more);
    }
}

proof fn lemma_line_has_no_end(entry: (u16, u64))
    ensures
        !count_line(entry).contains('\n'),
{
    law_numeral_reads_back(entry.0 as nat);
    law_numeral_reads_back(entry.1 as nat);
    let (a, b) = (decimal(entry.0 as nat), decimal(entry.1 as nat));
    let line = count_line(entry);
    if line.contains('\n') {
        let k = choose|k: int| 0 <= k < line.len() && line[k] == '\n';
        if k < a.len() {
            assert(a[k] == '\n');
        } else if k >= a.len() + 2 {
            assert(b[k - a.len() - 2] == '\n');
        }
    }
}

proof fn lemma_lines_of_counts(counts: Seq<(u16, u64)>)
    requires
        counts.len() > 0,
    ensures
        lines_of(count_lines(counts)) == Seq::new(counts.len(), |i: int| count_line(counts[i])),
    decreases counts.len(),
{
    let lines = Seq::new(counts.len(), |i: int| count_line(counts[i]));
    if counts.len() == 1 {
        let line = count_line(counts[0]);
        lemma_line_has_no_end(counts[0]);
        let nothing = Seq::<char>::empty();
        lemma_longer_line(nothing, line);
        assert(nothing + line =~= line);
        assert(lines_of(nothing) =~= seq![nothing]);
        assert(lines_of(line) =~= lines);
    } else {
        let before = counts.drop_last();
        lemma_lines_of_counts(before);
        lemma_line_has_no_end(counts.last());
        let start = count_lines(before).push('\n');
        assert(start.drop_last() =~= count_lines(before));
        assert(lines_of(start) == lines_of(count_lines(before)).push(Seq::empty()));
        lemma_longer_line(start, count_line(counts.last()));
        assert(Seq::<char>::empty() + count_line(counts.last()) =~= count_line(counts.last()));
        assert(lines_of(start).drop_last() =~= lines_of(count_lines(before)));
        assert(lines_of(count_lines(counts)) =~= lines);
    }
}

/// The list of status codes has exactly one line for each, in their order: the numeral of the
/// code, a colon, a space and the numeral of its count. Without any there is a dash.
pub proof fn law_one_line_for_each_status_code(counts: Seq<(u16, u64)>)
    ensures
        counts.len() > 0 ==> lines_of(status_list(counts)).len() == counts.len(),
        forall|i: int|
            0 <= i < counts.len() ==> #[trigger] lines_of(status_list(counts))[i] == decimal(
                counts[i].0 as nat,
            ) + ": "@ + decimal(counts[i].1 as nat),
        counts.len() == 0 ==> status_list(counts) == "-"@,
{
    reveal_strlit("-");
    if counts.len() > 0 {
        lemma_lines_of_counts(counts);
        assert forall|i: int| 0 <= i < counts.len() implies #[trigger] lines_of(
            status_list(counts),
        )[i] == decimal(counts[i].0 as nat) + ": "@ + decimal(counts[i].1 as nat) by {
            law_label_and_text(decimal(counts[i].0 as nat), decimal(counts[i].1 as nat));
        }
    } else {
        assert(status_list(counts) =~= "-"@);
    }
}

/// Some texts with a separator between each two of them.
pub open spec fn joined_by(parts: Seq<Seq<char>>, separator: Seq<char>) -> Seq<char>
    decreases parts.len(),
{
    if parts.len() == 0 {
        Seq::empty()
    } else if parts.len() == 1 {
        parts[0]
    } else {
        joined_by(parts.drop_last(), separator) + separator + parts.last()
    }
}

/// The latencies come in the order mean, P50, P95, P99 and greatest, with slashes between them and
/// one unit at the end.
pub proof fn law_latencies_in_one_line(n: LatencyNumerals)
    ensures
        latency_line(n) == joined_by(
            seq![n.avg@, n.p50@, n.p95@, n.p99@, n.max@],
            " / "@,
        ) + " ms"@,
{
    reveal_with_fuel(joined_by, 6);
    let all = seq![n.avg@, n.p50@, n.p95@, n.p99@, n.max@];
    assert(all.drop_last() =~= seq![n.avg@, n.p50@, n.p95@, n.p99@]);
    assert(all.drop_last().drop_last() =~= seq![n.avg@, n.p50@, n.p95@]);
    assert(all.drop_last().drop_last().drop_last() =~= seq![n.avg@, n.p50@]);
    assert(all.drop_last().drop_last().drop_last().drop_last() =~= seq![n.avg@]);
    assert(latency_line(n) =~= joined_by(all, " / "@) + " ms"@);
}

/// Three counts come in their order, with slashes between them.
pub proof fn law_three_counts_in_one_line(a: nat, b: nat, c: nat)
    ensures
        three_counts(a, b, c) == joined_by(seq![decimal(a), decimal(b), decimal(c)], " / "@),
{
    reveal_with_fuel(joined_by, 4);
    let all = seq![decimal(a), decimal(b), decimal(c)];
    assert(all.drop_last() =~= seq![decimal(a), decimal(b)]);
    assert(all.drop_last().drop_last() =~= seq![decimal(a)]);
    assert(three_counts(a, b, c) =~= joined_by(all, " / "@));
}

/// The final report tells, in this order, the time, the total, how the requests ended, the rate,
/// the status codes and the latencies, each under its caption.
pub proof fn law_rows_of_the_report(
    metrics: FinalMetrics,
    language: Language,
    elapsed: Seq<char>,
    qps: Seq<char>,
    numerals: LatencyNumerals,
)
    ensures
        ({
            let rows = report_of(metrics, language, elapsed, qps, numerals);
            &&& rows.len() == 6
            &&& rows[0].0 == wording(language, I18nKey::ElapsedTime)
            &&& rows[0].1 == elapsed + "s"@
            &&& rows[1].0 == wording(language, I18nKey::TotalRequestsFinal)
            &&& digits_value(rows[1].1) == metrics.total_requests
            &&& rows[1].1 == decimal(metrics.total_requests as nat)
            &&& rows[2].0 == wording(language, I18nKey::SuccessFailTimeout)
            &&& rows[2].1 == joined_by(
                seq![
                    decimal(metrics.success_requests as nat),
                    decimal(metrics.failed_requests as nat),
                    decimal(metrics.timeout_requests as nat),
                ],
                " / "@,
            )
            &&& rows[3].0 == wording(language, I18nKey::AvgQps)
            &&& rows[3].1 == qps
            &&& rows[4].0 == wording(language, I18nKey::HttpStatusCodes)
            &&& rows[4].1 == status_list(metrics.status_code_counts@)
            &&& rows[5].0 == wording(language, I18nKey::LatencyDetail)
            &&& rows[5].1 == latency_line(numerals)
        }),
{
    reveal_strlit("s");
    assert(elapsed.push('s') =~= elapsed + "s"@);
    law_numeral_reads_back(metrics.total_requests as nat);
    law_three_counts_in_one_line(
        metrics.success_requests as nat,
        metrics.failed_requests as nat,
        metrics.timeout_requests as nat,
    );
}

/// A time of a minute or more is written as its minutes, the letter m, its seconds with two digits
/// at the least, and the unit.
pub proof fn law_minutes_and_seconds(minutes: nat, seconds: nat, language: Language)
    ensures
        minutes_label(minutes, seconds, language) == decimal(minutes) + "m"@ + two_digits(seconds)
            + wording(language, I18nKey::SecondUnit),
        two_digits(seconds).len() >= 2,
        seconds < 100 ==> two_digits(seconds).len() == 2,
        digits_value(two_digits(seconds)) == seconds,
        seconds >= 10 ==> two_digits(seconds) == decimal(seconds),
{
    reveal_strlit("m");
    assert(decimal(minutes).push('m') =~= decimal(minutes) + "m"@);
    law_numeral_reads_back(seconds);
    let text = two_digits(seconds);
    reveal_with_fuel(decimal, 3);
    if seconds < 10 {
        reveal_with_fuel(digits_value, 3);
        assert(text.drop_last() =~= seq!['0']);
        assert(text.drop_last().drop_last() =~= Seq::empty());
        assert(text.last() == decimal(seconds)[0]);
        assert(decimal(seconds).drop_last() =~= Seq::empty());
        assert(decimal(seconds).last() == decimal(seconds)[0]);
    } else if seconds < 100 {
        assert(seconds / 10 < 10);
    }
}

/// A text that is too long loses nothing but its middle: two thirds of the room, rounded down, go
/// to its start, one place to the ellipsis, and the rest to its end. A text that fits stays whole,
/// and so does any text where the room is three places or less.
pub proof fn law_truncation_takes_the_middle(text: Seq<char>, max_chars: int)
    ensures
        text.len() <= max_chars || max_chars <= 3 ==> truncated(text, max_chars) == text,
        3 < max_chars < text.len() ==> exists|head: int, tail: int|
            #![trigger text.take(head), text.skip(text.len() - tail)]
            head + 1 + tail == max_chars && 3 * head <= 2 * (max_chars - 1) && 2 * (max_chars - 1)
                < 3 * (head + 1) && truncated(text, max_chars) == text.take(head) + seq!['…']
                + text.skip(text.len() - tail),
{
    if 3 < max_chars < text.len() {
        let head = (max_chars - 1) * 2 / 3;
        let tail = max_chars - head - 1;
        assert(text.take(head).push('…') + text.skip(text.len() - tail) =~= text.take(head)
            + seq!['…'] + text.skip(text.len() - tail));
        assert(truncated(text, max_chars) == text.take(head) + seq!['…'] + text.skip(
            text.len() - tail,
        ));
    }
}

/// Status codes of one hundred have one colour, and the hundreds from 200 to 500 are told apart
/// by it, from each other and from all other codes.
pub proof fn law_colours_of_status_codes(code: u16)
    ensures
        color_of(code) == StatusColor::Green <==> 200 <= code <= 299,
        color_of(code) == StatusColor::Teal <==> 300 <= code <= 399,
        color_of(code) == StatusColor::Amber <==> 400 <= code <= 499,
        color_of(code) == StatusColor::Coral <==> 500 <= code <= 599,
        color_of(code) == StatusColor::Muted <==> code < 200 || code > 599,
{
}

/// The status chart has a bar for each listed code, in their order, of the height of its count,
/// and one more for transport errors if there are any.
pub proof fn law_bars_of_the_chart(counts: Seq<(u16, u64)>, transport_errors: u64, i: int)
    ensures
        ({
            let bars = bars_of(counts, transport_errors);
            &&& transport_errors == 0 ==> bars.len() == counts.len()
            &&& transport_errors > 0 ==> bars.len() == counts.len() + 1 && bars.last()
                == (StatusBar {
                label: StatusCodeLabel::TransportError,
                count: transport_errors,
                color: StatusColor::Alert,
            })
            &&& 0 <= i < counts.len() ==> bars[i].label == StatusCodeLabel::Code(counts[i].0)
                && bars[i].count == counts[i].1 && bars[i].color == color_of(counts[i].0)
        }),
{
}

/// Under a bar stands the numeral of its code, or the word for transport errors; pointed at, it
/// tells its count as well.
pub proof fn law_words_of_a_bar(bar: StatusBar, language: Language, code: u16)
    ensures
        StatusCodeLabel::Code(code).text(language) == decimal(code as nat),
        StatusCodeLabel::TransportError.text(language) == wording(
            language,
            I18nKey::TransportErrShort,
        ),
        bar.says(language) == bar.label.text(language) + ": "@ + decimal(bar.count as nat),
{
    law_label_and_text(bar.label.text(language), decimal(bar.count as nat));
}

/// There is room for a label in each 34 units of width, and for one at the least. The labels are
/// as close as the room allows, the first and the last bar have one, and no bar between two labels
/// that are a step apart has.
pub proof fn law_labels_find_room(width: int, bars: int, room: int, index: int)
    requires
        width >= 0,
        bars > 0,
        room > 0,
        0 <= index < bars,
    ensures
        room_for_labels(width) >= 1,
        width >= 34 ==> 34 * room_for_labels(width) <= width < 34 * (room_for_labels(width) + 1),
        width < 34 ==> room_for_labels(width) == 1,
        ({
            let step = step_of_labels(bars, room);
            &&& step >= 1
            &&& room * step >= bars
            &&& room * (step - 1) < bars
            &&& label_shown(0, step, bars)
            &&& label_shown(bars - 1, step, bars)
            &&& label_shown(index, step, bars) <==> index == bars - 1 || index % step == 0
        }),
        step_of_labels(0, room) == 1,
{
    law_rounding_up(bars, room);
    law_rounding_up(0, room);
    let none = ceil_div(0, room);
    assert(none <= 0) by (nonlinear_arith)
        requires
            room * (none - 1) < 0,
            room > 0,
    ;
    let q = ceil_div(bars, room);
    assert(q >= 1) by (nonlinear_arith)
        requires
            room * q >= bars,
            bars > 0,
            room > 0,
    ;
    vstd::arithmetic::div_mod::lemma_small_mod(0, q as nat);
}

/// Up to 24 bars show their counts.
pub proof fn law_few_bars_show_their_counts(bars: int)
    ensures
        bars <= 24 ==> counts_shown(bars),
        bars >= 25 ==> !counts_shown(bars),
{
}

/// An error reads as its text does, with the name of the header that it is about; in another
/// language it is the same error. Errors of the HTTP library keep their own words.
pub proof fn law_words_of_an_error(
    language: Language,
    other: Language,
    key: I18nKey,
    name: Seq<char>,
)
    ensures
        error_text(ErrorView::Fault(language, key)) == wording(language, key),
        error_text(ErrorView::HeaderFault(language, key, name)) == wording(language, key) + ": "@
            + name,
        in_language(ErrorView::Fault(language, key), other) == ErrorView::Fault(other, key),
        in_language(ErrorView::HeaderFault(language, key, name), other) == ErrorView::HeaderFault(
            other,
            key,
            name,
        ),
        error_text(ErrorView::HostHeader) == "failed to parse header value"@,
        error_text(ErrorView::TooManyHeaders) == "max size reached"@,
        in_language(ErrorView::HostHeader, other) == ErrorView::HostHeader,
        in_language(ErrorView::TooManyHeaders, other) == ErrorView::TooManyHeaders,
{
    law_label_and_text(wording(language, key), name);
}

/// The banner begins with the state and the method. As it grows wider the target, the concurrency,
/// the duration and the reuse of connections are added to it, in this order, and nothing else.
pub proof fn law_pills_of_the_banner(app: ApiQpsApp, width: u32)
    ensures
        ({
            let pills = app.banner(width);
            let keeps = app.settings.keep_alive;
            &&& pills.len() == (if width < 320 {
                2
            } else if width < 560 {
                3
            } else if width < 740 {
                4
            } else if width < 900 || !keeps {
                5
            } else {
                6int
            })
            &&& pills[0] == wording(app.language, app.status_key())
            &&& pills[1] == app.request_draft.method@
            &&& width >= 320 ==> pills[2] == truncated(app.target(), target_room(width))
            &&& width >= 560 ==> pills[3] == wording(app.language, I18nKey::Concurrency) + " "@
                + decimal(app.settings.concurrency as nat)
            &&& width >= 740 ==> pills[4] == wording(app.language, I18nKey::Duration) + " "@
                + decimal(app.settings.duration_secs as nat) + wording(
                app.language,
                I18nKey::SecondUnit,
            )
            &&& width >= 900 && keeps ==> pills[5] == wording(app.language, I18nKey::KeepAlive)
        }),
        width >= 980 ==> target_room(width) == 48,
        780 <= width < 980 ==> target_room(width) == 34,
        620 <= width < 780 ==> target_room(width) == 24,
        width < 620 ==> target_room(width) == 18,
{
    reveal_strlit(" ");
    let c = wording(app.language, I18nKey::Concurrency);
    let d = wording(app.language, I18nKey::Duration);
    assert(c.push(' ') =~= c + " "@);
    assert(d.push(' ') =~= d + " "@);
}

/// The state is called running while a load test runs and idle else; the target is the URL of the
/// draft, or an example where that is empty; only a running load test asks for the next frame.
pub proof fn law_state_that_is_shown(app: ApiQpsApp)
    ensures
        app.run_state == RunState::Running ==> app.status_key() == I18nKey::RunningState
            && app.due_frame() == Some(33u64),
        app.run_state == RunState::Idle ==> app.status_key() == I18nKey::IdleState
            && app.due_frame() is None,
        app.request_draft.api_url@.len() > 0 ==> app.target() == app.request_draft.api_url@,
        app.request_draft.api_url@.len() == 0 ==> app.target() == "http://127.0.0.1/api"@,
{
}

/// The live metrics tell, in this order, the total, the successes, the rate, the time, the errors,
/// which are failures and timeouts, and the latency that 95 in 100 stay within, as soon as there
/// is one.
pub proof fn law_rows_of_the_live_metrics(
    app: ApiQpsApp,
    qps: Seq<char>,
    elapsed: Seq<char>,
    p95: Seq<char>,
)
    ensures
        ({
            let rows = app.summary(qps, elapsed, p95);
            let m = app.latest_runtime_metrics;
            &&& rows.len() == 6
            &&& rows[0] == (
                wording(app.language, I18nKey::TotalRequests),
                decimal(m.total_requests as nat),
            )
            &&& rows[1] == (
                wording(app.language, I18nKey::Success),
                decimal(m.success_requests as nat),
            )
            &&& rows[2] == (wording(app.language, I18nKey::Qps), qps)
            &&& rows[3] == (wording(app.language, I18nKey::Elapsed), elapsed + "s"@)
            &&& rows[4].0 == wording(app.language, I18nKey::Errors)
            &&& digits_value(rows[4].1) == m.failed_requests + m.timeout_requests
            &&& rows[4].1 == decimal((m.failed_requests + m.timeout_requests) as nat)
            &&& rows[5] == (wording(app.language, I18nKey::P95Latency), app.p95_reads(p95))
            &&& app.errors() == m.failed_requests + m.timeout_requests
        }),
{
    reveal_strlit("s");
    assert(elapsed.push('s') =~= elapsed + "s"@);
    let m = app.latest_runtime_metrics;
    law_numeral_reads_back((m.failed_requests + m.timeout_requests) as nat);
}

/// Latencies are shown as soon as a request has been sent.
pub proof fn law_latencies_that_are_shown(
    app: ApiQpsApp,
    numeral: Seq<char>,
    numerals: LatencyNumerals,
)
    ensures
        app.has_latency() <==> app.latest_runtime_metrics.total_requests != 0,
        app.has_latency() ==> app.p95_reads(numeral) == numeral + " ms"@ && app.latency_reads(
            numerals,
        ) == latency_line(numerals),
        !app.has_latency() ==> app.p95_reads(numeral) == "-"@ && app.latency_reads(numerals)
            == wording(app.language, I18nKey::WaitingData),
{
}

/// The report drawer takes up room only where there is a report, and less of it while it is
/// closed; the controls take up more in a wide banner.
pub proof fn law_room_that_is_taken_up(app: ApiQpsApp, width: u32)
    ensures
        app.final_metrics is None ==> app.drawer_room() == 0 && app.drawer_space() == 0,
        app.final_metrics is Some ==> app.drawer_space() == 14,
        app.final_metrics is Some && app.final_report_drawer_open ==> app.drawer_room() == 304,
        app.final_metrics is Some && !app.final_report_drawer_open ==> app.drawer_room() == 40,
        width < 920 ==> width_of_controls(width) == 168,
        width >= 920 ==> width_of_controls(width) == 216,
        OPEN_DRAWER_WIDTH == 304 && CLOSED_DRAWER_WIDTH == 40 && COLUMN_GAP == 14,
{
}

/// The body in the editor is used unless the method, whatever its case and the spaces around it,
/// is GET or HEAD.
pub proof fn law_body_that_is_used(app: ApiQpsApp)
    ensures
        app.uses_body() <==> trimmed(app.request_draft.method@).map_values(
            |c: char| lower(c),
        ) != "get"@ && trimmed(app.request_draft.method@).map_values(|c: char| lower(c))
            != "head"@,
{
    let method = trimmed(app.request_draft.method@);
    reveal_strlit("GET");
    reveal_strlit("HEAD");
    reveal_strlit("get");
    reveal_strlit("head");
    assert(lowered(method) =~= method.map_values(|c: char| lower(c)));
    assert(lowered("GET"@) =~= "get"@);
    assert(lowered("HEAD"@) =~= "head"@);
}

/// The controls offer one to 20000 workers, a second to a day, up to two minutes of patience and up
/// to a minute of rest.
pub proof fn law_settings_that_are_offered(settings: LoadTestSettings)
    ensures
        within_range(settings) <==> 1 <= settings.concurrency <= 20000 && 1
            <= settings.duration_secs <= 86400 && 1 <= settings.timeout_secs <= 120
            && settings.interval_ms <= 60000,
        MIN_CONCURRENCY == 1 && MAX_CONCURRENCY == 20000,
        MIN_DURATION_SECS == 1 && MAX_DURATION_SECS == 24 * 60 * 60,
        MIN_TIMEOUT_SECS == 1 && MAX_TIMEOUT_SECS == 2 * 60,
        MIN_INTERVAL_MS == 0 && MAX_INTERVAL_MS == 60 * 1000,
{
}

/// The letter of a title is its first.
pub proof fn law_letter_of_a_title(title: Seq<char>)
    ensures
        title.len() > 0 ==> first_letter(title) == title.first(),
        title.len() == 0 ==> first_letter(title) == 'R',
{
}

/// The drawer and the editor windows open and close as they are asked to, the drawer only where
/// there is a report and an editor by a double click only where it is not blank; nothing else
/// changes.
pub proof fn law_windows_open_and_close(
    before: ApiQpsApp,
    after: ApiQpsApp,
    editor: ExpandedEditor,
    open: bool,
)
    ensures
        before.drawer_set(after, open) ==> after.final_report_drawer_open == (open
            && before.final_metrics is Some) && after.expanded_editor == before.expanded_editor
            && keeps_the_rest(before, after),
        before.editor_opened(after, editor) ==> after.expanded_editor == Some(editor)
            && after.final_report_drawer_open == before.final_report_drawer_open && keeps_the_rest(
            before,
            after,
        ),
        before.editor_closed(after) ==> after.expanded_editor is None
            && after.final_report_drawer_open == before.final_report_drawer_open && keeps_the_rest(
            before,
            after,
        ),
        before.double_clicked(after, editor) ==> {
            &&& trimmed(text_in(before, editor)).len() > 0 ==> after.expanded_editor == Some(editor)
            &&& trimmed(text_in(before, editor)).len() == 0 ==> after.expanded_editor
                == before.expanded_editor
            &&& after.final_report_drawer_open == before.final_report_drawer_open
            &&& keeps_the_rest(before, after)
        },
{
}

/// The text that an editor is for.
pub open spec fn text_in(app: ApiQpsApp, editor: ExpandedEditor) -> Seq<char> {
    if editor == ExpandedEditor::Curl {
        app.curl_input@
    } else if editor == ExpandedEditor::Headers {
        app.request_draft.headers_json@
    } else {
        app.request_draft.body@
    }
}

/// The request, the settings and all that is known of the load test are as they were.
pub open spec fn keeps_the_rest(before: ApiQpsApp, after: ApiQpsApp) -> bool {
    &&& after.language == before.language
    &&& after.curl_input == before.curl_input
    &&& after.request_draft == before.request_draft
    &&& after.convert_status == before.convert_status
    &&& after.generic_error == before.generic_error
    &&& after.settings == before.settings
    &&& after.run_state == before.run_state
    &&& after.latest_runtime_metrics == before.latest_runtime_metrics
    &&& after.metric_history == before.metric_history
    &&& after.final_metrics == before.final_metrics
}

/// Each editor has a title of its own, and only the cURL editor converts what is typed.
pub proof fn law_editors_are_told_apart(before: ApiQpsApp, after: ApiQpsApp)
    ensures
        title_key(ExpandedEditor::Curl) == I18nKey::CurlLabel,
        title_key(ExpandedEditor::Headers) == I18nKey::HeaderJson,
        title_key(ExpandedEditor::Body) == I18nKey::RequestBody,
        before.edited(after, ExpandedEditor::Headers) ==> after == before,
        before.edited(after, ExpandedEditor::Body) ==> after == before,
        before.edited(after, ExpandedEditor::Curl) ==> before.auto_converted(after),
{
}

} // verus!
