//! The texts and bars by which a load test is reported.
use crate::history::{ceil_div, div_up};
use crate::i18n::{t, wording, I18nKey, Language};
use crate::loadtest::FinalMetrics;
use crate::text::{chars_of, decimal, decimal_text, labelled, labelled_text, text_of};
use vstd::prelude::*;
use vstd::string::*;

verus! {

/// One line of the list of status codes.
pub open spec fn count_line(entry: (u16, u64)) -> Seq<char> {
    labelled_text(decimal(entry.0 as nat), decimal(entry.1 as nat))
}

/// The lines of the list of status codes, with line ends between them.
pub open spec fn count_lines(counts: Seq<(u16, u64)>) -> Seq<char>
    decreases counts.len(),
{
    if counts.len() == 0 {
        Seq::empty()
    } else if counts.len() == 1 {
        count_line(counts[0])
    } else {
        count_lines(counts.drop_last()).push('\n') + count_line(counts.last())
    }
}

/// The list of status codes as the final report shows it; a dash where there is none.
pub open spec fn status_list(counts: Seq<(u16, u64)>) -> Seq<char> {
    if counts.len() == 0 {
        seq!['-']
    } else {
        count_lines(counts)
    }
}

/// Writes the list of status codes.
pub fn format_status_code_counts(status_code_counts: &[(u16, u64)]) -> (r: String)
    ensures
        r@ == status_list(status_code_counts@),
{
    let ghost counts = status_code_counts@;
    let mut out = String::new();
    if status_code_counts.len() == 0 {
        out.push('-');
        assert(out@ =~= seq!['-']);
        return out;
    }
    let mut i: usize = 0;
    while i < status_code_counts.len()
        invariant
            0 <= i <= status_code_counts@.len(),
            counts == status_code_counts@,
            out@ == count_lines(counts.take(i as int)),
        decreases status_code_counts@.len() - i,
    {
        let ghost next = counts.take(i + 1);
        assert(next.drop_last() =~= counts.take(i as int));
        assert(next.last() == counts[i as int]);
        let (code, count) = status_code_counts[i];
        let line = labelled(
            decimal_text(code as u64).as_str(),
            decimal_text(count).as_str(),
        );
        if i > 0 {
            out.push('\n');
        }
        let ghost before = out@;
        out.append(line.as_str());
        if i == 0 {
            assert(before + line@ =~= line@);
        }
        i += 1;
    }
    assert(counts.take(i as int) =~= counts);
    out
}

/// The latencies of a load test as numerals, in milliseconds.
#[derive(Debug)]
pub struct LatencyNumerals {
    pub avg: String,
    pub p50: String,
    pub p95: String,
    pub p99: String,
    pub max: String,
}

/// The latencies in one line, with slashes between them.
pub open spec fn latency_line(numerals: LatencyNumerals) -> Seq<char> {
    numerals.avg@ + " / "@ + numerals.p50@ + " / "@ + numerals.p95@ + " / "@ + numerals.p99@
        + " / "@ + numerals.max@ + " ms"@
}

/// Writes the latencies in one line.
pub fn latency_text(numerals: &LatencyNumerals) -> (r: String)
    ensures
        r@ == latency_line(*numerals),
{
    let mut out = numerals.avg.clone();
    out.append(" / ");
    out.append(numerals.p50.as_str());
    out.append(" / ");
    out.append(numerals.p95.as_str());
    out.append(" / ");
    out.append(numerals.p99.as_str());
    out.append(" / ");
    out.append(numerals.max.as_str());
    out.append(" ms");
    out
}

/// Three counts, with slashes between them.
pub open spec fn three_counts(a: nat, b: nat, c: nat) -> Seq<char> {
    decimal(a) + " / "@ + decimal(b) + " / "@ + decimal(c)
}

/// Writes how many requests succeeded, failed and timed out.
pub fn success_fail_timeout_text(metrics: &FinalMetrics) -> (r: String)
    ensures
        r@ == three_counts(
            metrics.success_requests as nat,
            metrics.failed_requests as nat,
            metrics.timeout_requests as nat,
        ),
{
    let mut out = decimal_text(metrics.success_requests);
    out.append(" / ");
    out.append(decimal_text(metrics.failed_requests).as_str());
    out.append(" / ");
    out.append(decimal_text(metrics.timeout_requests).as_str());
    out
}

/// The texts of some rows: for each its caption and its value.
pub open spec fn row_texts(rows: Seq<(String, String)>) -> Seq<(Seq<char>, Seq<char>)> {
    rows.map_values(|row: (String, String)| (row.0@, row.1@))
}

/// A caption and a value.
pub(crate) fn row(caption: &str, value: String) -> (r: (String, String))
    ensures
        (r.0@, r.1@) == (caption@, value@),
{
    (caption.to_owned(), value)
}

/// The rows of the final report, given the numerals of the time, the rate and the latencies.
pub open spec fn report_of(
    metrics: FinalMetrics,
    language: Language,
    elapsed: Seq<char>,
    qps: Seq<char>,
    numerals: LatencyNumerals,
) -> Seq<(Seq<char>, Seq<char>)> {
    seq![
        (wording(language, I18nKey::ElapsedTime), elapsed.push('s')),
        (wording(language, I18nKey::TotalRequestsFinal), decimal(metrics.total_requests as nat)),
        (
            wording(language, I18nKey::SuccessFailTimeout),
            three_counts(
                metrics.success_requests as nat,
                metrics.failed_requests as nat,
                metrics.timeout_requests as nat,
            ),
        ),
        (wording(language, I18nKey::AvgQps), qps),
        (wording(language, I18nKey::HttpStatusCodes), status_list(metrics.status_code_counts@)),
        (wording(language, I18nKey::LatencyDetail), latency_line(numerals)),
    ]
}

/// Writes the rows of the final report.
pub fn final_report(
    metrics: &FinalMetrics,
    language: Language,
    elapsed: &str,
    qps: &str,
    numerals: &LatencyNumerals,
) -> (r: Vec<(String, String)>)
    ensures
        row_texts(r@) == report_of(*metrics, language, elapsed@, qps@, *numerals),
{
    let mut elapsed_text = elapsed.to_owned();
    elapsed_text.push('s');
    let mut rows: Vec<(String, String)> = Vec::new();
    rows.push(row(t(language, I18nKey::ElapsedTime), elapsed_text));
    rows.push(row(t(language, I18nKey::TotalRequestsFinal), decimal_text(metrics.total_requests)));
    rows.push(row(t(language, I18nKey::SuccessFailTimeout), success_fail_timeout_text(metrics)));
    rows.push(row(t(language, I18nKey::AvgQps), qps.to_owned()));
    rows.push(
        row(
            t(language, I18nKey::HttpStatusCodes),
            format_status_code_counts(metrics.status_code_counts.as_slice()),
        ),
    );
    rows.push(row(t(language, I18nKey::LatencyDetail), latency_text(numerals)));
    assert(row_texts(rows@) =~= report_of(*metrics, language, elapsed@, qps@, *numerals));
    rows
}

/// A number as at least two digits.
pub open spec fn two_digits(n: nat) -> Seq<char> {
    if n < 10 {
        seq!['0'] + decimal(n)
    } else {
        decimal(n)
    }
}

/// A time of a minute or more, as an axis shows it.
pub open spec fn minutes_label(minutes: nat, seconds: nat, language: Language) -> Seq<char> {
    decimal(minutes).push('m') + two_digits(seconds) + wording(language, I18nKey::SecondUnit)
}

/// Writes a time of a minute or more.
pub fn minutes_text(minutes: u64, seconds: u64, language: Language) -> (r: String)
    ensures
        r@ == minutes_label(minutes as nat, seconds as nat, language),
{
    let mut out = decimal_text(minutes);
    out.push('m');
    let ghost head = out@;
    if seconds < 10 {
        out.push('0');
    }
    out.append(decimal_text(seconds).as_str());
    assert(out@ =~= head + two_digits(seconds as nat));
    out.append(t(language, I18nKey::SecondUnit));
    out
}

/// How many characters stay at the start of a text that is cut down to `max_chars`.
pub open spec fn head_len(max_chars: int) -> int {
    (max_chars - 1) * 2 / 3
}

/// A text cut down to `max_chars` characters, an ellipsis in place of its middle. A text that is
/// short enough stays as it is, and so does any text where there is room for no more than three
/// characters.
pub open spec fn truncated(text: Seq<char>, max_chars: int) -> Seq<char> {
    if text.len() <= max_chars || max_chars <= 3 {
        text
    } else {
        let head = head_len(max_chars);
        let tail = max_chars - head - 1;
        text.take(head).push('…') + text.skip(text.len() - tail)
    }
}

/// Cuts a text down to `max_chars` characters by leaving out its middle.
pub fn truncate_middle(text: &str, max_chars: usize) -> (r: String)
    ensures
        r@ == truncated(text@, max_chars as int),
{
    let chars = chars_of(text);
    let total: usize = chars.len();
    if total <= max_chars || max_chars <= 3 {
        return text.to_owned();
    }
    let m: usize = max_chars - 1;
    let head: usize = (m / 3) * 2 + ((m % 3) * 2) / 3;
    assert(head == head_len(max_chars as int)) by {
        let (q, k) = (m as int / 3, m as int % 3);
        assert(m == 3 * q + k);
        assert(m * 2 == 3 * (2 * q) + k * 2);
    }
    let tail: usize = max_chars - head - 1;
    let mut out = text_of(&chars, 0, head);
    out.push('…');
    let end = text_of(&chars, total - tail, total);
    out.append(end.as_str());
    assert(chars@.subrange(0, head as int) =~= text@.take(head as int));
    assert(chars@.subrange(total - tail, total as int) =~= text@.skip(total - tail));
    out
}

/// A text that is cut down has exactly the allowed length, keeps its first and its last
/// character, and is not cut again.
pub proof fn law_truncation_fits(text: Seq<char>, max_chars: int)
    requires
        max_chars > 3,
    ensures
        truncated(text, max_chars).len() <= max_chars,
        text.len() > max_chars ==> truncated(text, max_chars).len() == max_chars,
        text.len() > 0 ==> truncated(text, max_chars).first() == text.first(),
        text.len() > 0 ==> truncated(text, max_chars).last() == text.last(),
        truncated(truncated(text, max_chars), max_chars) == truncated(text, max_chars),
{
}

/// What a bar of the status chart stands for.
#[derive(Clone, Copy, Debug, PartialEq, Eq, Structural)]
pub enum StatusCodeLabel {
    /// Responses with this status code.
    Code(u16),
    /// Requests without a readable response.
    TransportError,
}

impl StatusCodeLabel {
    /// The text under the bar.
    pub open spec fn text(self, language: Language) -> Seq<char> {
        match self {
            StatusCodeLabel::Code(code) => decimal(code as nat),
            StatusCodeLabel::TransportError => wording(language, I18nKey::TransportErrShort),
        }
    }

    /// Writes the text under the bar.
    pub fn display_text(&self, language: Language) -> (r: String)
        ensures
            r@ == self.text(language),
    {
        match self {
            StatusCodeLabel::Code(code) => decimal_text(*code as u64),
            StatusCodeLabel::TransportError => t(language, I18nKey::TransportErrShort).to_owned(),
        }
    }
}

/// The colours of the status chart.
#[derive(Clone, Copy, Debug, PartialEq, Eq, Structural)]
pub enum StatusColor {
    Green,
    Teal,
    Amber,
    Coral,
    Muted,
    /// For requests without a readable response.
    Alert,
}

/// The colour of a status code, by its class.
pub open spec fn color_of(code: u16) -> StatusColor {
    if code / 100 == 2 {
        StatusColor::Green
    } else if code / 100 == 3 {
        StatusColor::Teal
    } else if code / 100 == 4 {
        StatusColor::Amber
    } else if code / 100 == 5 {
        StatusColor::Coral
    } else {
        StatusColor::Muted
    }
}

/// Chooses the colour of a status code.
pub fn status_color(code: u16) -> (r: StatusColor)
    ensures
        r == color_of(code),
{
    if 200 <= code && code <= 299 {
        StatusColor::Green
    } else if 300 <= code && code <= 399 {
        StatusColor::Teal
    } else if 400 <= code && code <= 499 {
        StatusColor::Amber
    } else if 500 <= code && code <= 599 {
        StatusColor::Coral
    } else {
        StatusColor::Muted
    }
}

/// A bar of the status chart.
#[derive(Clone, Copy, Debug, PartialEq, Eq, Structural)]
pub struct StatusBar {
    pub label: StatusCodeLabel,
    pub count: u64,
    pub color: StatusColor,
}

/// The bar of a status code.
pub open spec fn code_bar(entry: (u16, u64)) -> StatusBar {
    StatusBar {
        label: StatusCodeLabel::Code(entry.0),
        count: entry.1,
        color: color_of(entry.0),
    }
}

impl StatusBar {
    /// What the bar says.
    pub open spec fn says(self, language: Language) -> Seq<char> {
        labelled_text(self.label.text(language), decimal(self.count as nat))
    }

    /// What the bar says when it is pointed at.
    pub fn tooltip(&self, language: Language) -> (r: String)
        ensures
            r@ == self.says(language),
            r@ == labelled_text(self.label.text(language), decimal(self.count as nat)),
    {
        labelled(self.label.display_text(language).as_str(), decimal_text(self.count).as_str())
    }
}

/// The bars of the status chart: one for each status code, and one more for the transport
/// errors if there are any.
pub open spec fn bars_of(counts: Seq<(u16, u64)>, transport_errors: u64) -> Seq<StatusBar> {
    let codes = counts.map_values(|entry: (u16, u64)| code_bar(entry));
    if transport_errors > 0 {
        codes.push(
            StatusBar {
                label: StatusCodeLabel::TransportError,
                count: transport_errors,
                color: StatusColor::Alert,
            },
        )
    } else {
        codes
    }
}

/// Lays out the bars of the status chart. There is none, and the chart waits for data, exactly
/// where nothing was counted.
pub fn status_code_bars(status_counts: &[(u16, u64)], transport_error_requests: u64) -> (r: Vec<
    StatusBar,
>)
    ensures
        r@ == bars_of(status_counts@, transport_error_requests),
        r@.len() == 0 <==> status_counts@.len() == 0 && transport_error_requests == 0,
{
    let ghost counts = status_counts@;
    let mut bars: Vec<StatusBar> = Vec::new();
    let mut i: usize = 0;
    while i < status_counts.len()
        invariant
            0 <= i <= status_counts@.len(),
            counts == status_counts@,
            bars@ == counts.take(i as int).map_values(|entry: (u16, u64)| code_bar(entry)),
        decreases status_counts@.len() - i,
    {
        let (code, count) = status_counts[i];
        bars.push(
            StatusBar { label: StatusCodeLabel::Code(code), count, color: status_color(code) },
        );
        i += 1;
        assert(bars@ =~= counts.take(i as int).map_values(|entry: (u16, u64)| code_bar(entry)));
    }
    assert(counts.take(i as int) =~= counts);
    if transport_error_requests > 0 {
        bars.push(
            StatusBar {
                label: StatusCodeLabel::TransportError,
                count: transport_error_requests,
                color: StatusColor::Alert,
            },
        );
    }
    bars
}

/// The count of the tallest bar, and no less than one.
pub open spec fn tallest(bars: Seq<StatusBar>) -> u64
    decreases bars.len(),
{
    if bars.len() == 0 {
        1
    } else {
        let before = tallest(bars.drop_last());
        if bars.last().count > before {
            bars.last().count
        } else {
            before
        }
    }
}

/// The count that the scale of the status chart must reach.
pub fn tallest_bar(bars: &Vec<StatusBar>) -> (r: u64)
    ensures
        r == tallest(bars@),
{
    let mut most: u64 = 1;
    let mut i: usize = 0;
    while i < bars.len()
        invariant
            0 <= i <= bars@.len(),
            most == tallest(bars@.take(i as int)),
        decreases bars@.len() - i,
    {
        assert(bars@.take(i + 1).drop_last() =~= bars@.take(i as int));
        if bars[i].count > most {
            most = bars[i].count;
        }
        i += 1;
    }
    assert(bars@.take(i as int) =~= bars@);
    most
}

/// No bar is taller than the tallest one, which is one of them or of height one.
pub proof fn law_tallest_bar(bars: Seq<StatusBar>)
    ensures
        tallest(bars) >= 1,
        forall|i: int| 0 <= i < bars.len() ==> (#[trigger] bars[i]).count <= tallest(bars),
        tallest(bars) == 1 || exists|i: int|
            0 <= i < bars.len() && (#[trigger] bars[i]).count == tallest(bars),
    decreases bars.len(),
{
    if bars.len() > 0 {
        let shorter = bars.drop_last();
        law_tallest_bar(shorter);
        assert forall|i: int| 0 <= i < bars.len() implies (#[trigger] bars[i]).count <= tallest(
            bars,
        ) by {
            if i < shorter.len() {
                assert(shorter[i].count <= tallest(shorter));
            }
        }
        if tallest(bars) != 1 {
            if tallest(shorter) == tallest(bars) {
                let k = choose|k: int|
                    0 <= k < shorter.len() && (#[trigger] shorter[k]).count == tallest(shorter);
                assert(bars[k].count == tallest(bars));
            } else {
                assert(bars[bars.len() - 1].count == tallest(bars));
            }
        }
    }
}

/// How many labels find room under a chart of this width.
pub open spec fn room_for_labels(width: int) -> int {
    if width < 34 {
        1
    } else {
        width / 34
    }
}

/// How many labels find room under a chart of this width; one always does.
pub fn label_room(width: u32) -> (r: usize)
    ensures
        r == room_for_labels(width as int),
        r == (if width < 34 {
            1
        } else {
            width / 34
        }),
        r > 0,
{
    if width < 34 {
        1
    } else {
        (width / 34) as usize
    }
}

/// The distance between two labelled bars where there is room for `room` labels.
pub open spec fn step_of_labels(bars: int, room: int) -> int {
    if ceil_div(bars, room) < 1 {
        1
    } else {
        ceil_div(bars, room)
    }
}

/// Chooses the distance between two labelled bars.
pub fn label_step(bars: usize, room: usize) -> (r: usize)
    requires
        room > 0,
    ensures
        r == step_of_labels(bars as int, room as int),
        r > 0,
{
    let step = div_up(bars, room);
    if step < 1 {
        1
    } else {
        step
    }
}

/// A bar has its label shown.
pub open spec fn label_shown(index: int, step: int, bars: int) -> bool {
    index % step == 0 || index + 1 == bars
}

/// Whether a bar has its label shown: every `step`-th one does, and the last one.
pub fn shows_label(index: usize, step: usize, bars: usize) -> (r: bool)
    requires
        step > 0,
        index < bars,
    ensures
        r == label_shown(index as int, step as int, bars as int),
        r == (index % step == 0 || index + 1 == bars),
{
    index % step == 0 || index + 1 == bars
}

/// There are few enough bars for each to show its count.
pub open spec fn counts_shown(bars: int) -> bool {
    bars <= 24
}

/// Whether there are few enough bars for each to show its count.
pub fn shows_counts(bars: usize) -> (r: bool)
    ensures
        r == counts_shown(bars as int),
        r == (bars <= 24),
{
    bars <= 24
}

} // verus!
