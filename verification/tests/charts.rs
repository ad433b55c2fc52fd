use reqwave::history::{
    compact_metric_history, div_up, push_metric_history_sample, take_strided, MetricHistoryPoint,
    MAX_TREND_POINTS,
};
use reqwave::loadtest::RuntimeMetrics;
use reqwave::reading::Reading;
use reqwave::trend::{
    locate, max_plot_points, nearest_trend_point, sample_trend_points, trend_extent, trend_points,
    CurvePosition, TrendPoint, TrendQuantity,
};

fn reading(x: f64) -> Reading {
    Reading { bits: x.to_bits() }
}

fn number(r: Reading) -> f64 {
    f64::from_bits(r.bits)
}

fn sample(elapsed: f64, qps: f64, avg: f64, p95: f64) -> MetricHistoryPoint {
    MetricHistoryPoint {
        elapsed_secs: reading(elapsed),
        qps: reading(qps),
        avg_latency_ms: reading(avg),
        p95_latency_ms: reading(p95),
    }
}

fn point(elapsed: f64, value: f64) -> TrendPoint {
    TrendPoint { elapsed: reading(elapsed), value: reading(value) }
}

fn values() -> Vec<f64> {
    vec![
        f64::NEG_INFINITY,
        f64::MIN,
        -2.5,
        -1.0,
        -f64::MIN_POSITIVE,
        -0.0,
        0.0,
        f64::MIN_POSITIVE,
        1.0,
        2.5,
        f64::MAX,
        f64::INFINITY,
        f64::NAN,
        -f64::NAN,
    ]
}

#[test]
fn metric_history_replaces_duplicate_timestamp() {
    let mut history = Vec::new();

    push_metric_history_sample(&mut history, sample(1.0, 10.0, 5.0, 8.0));
    push_metric_history_sample(&mut history, sample(1.0, 20.0, 6.0, 9.0));

    assert_eq!(history.len(), 1);
    assert_eq!(number(history[0].qps), 20.0);
}

#[test]
fn metric_history_compaction_keeps_latest_point() {
    let mut history = Vec::new();
    for idx in 0..=MAX_TREND_POINTS {
        let x = idx as f64;
        push_metric_history_sample(&mut history, sample(x, x, x, x));
    }

    assert!(history.len() <= MAX_TREND_POINTS);
    assert_eq!(
        number(history.last().unwrap().elapsed_secs),
        MAX_TREND_POINTS as f64
    );
}

#[test]
fn compaction_drops_every_other_sample() {
    let mut history: Vec<MetricHistoryPoint> =
        (0..722).map(|i| sample(i as f64, 0.0, 0.0, 0.0)).collect();
    compact_metric_history(&mut history);
    assert_eq!(history.len(), 362);
    assert_eq!(number(history[1].elapsed_secs), 2.0);
    assert_eq!(number(history[360].elapsed_secs), 720.0);
    assert_eq!(number(history[361].elapsed_secs), 721.0);
    let kept = history.clone();
    compact_metric_history(&mut history);
    assert_eq!(history, kept);
}

#[test]
fn long_history_stays_in_order_and_within_its_limit() {
    let mut history = Vec::new();
    for i in 0..5000 {
        push_metric_history_sample(&mut history, sample(i as f64 * 0.25, 1.0, 1.0, 1.0));
        assert!(history.len() <= MAX_TREND_POINTS);
    }
    for pair in history.windows(2) {
        assert!(number(pair[0].elapsed_secs) < number(pair[1].elapsed_secs));
    }
    assert_eq!(number(history.last().unwrap().elapsed_secs), 4999.0 * 0.25);
}

#[test]
fn sample_from_the_past_replaces_the_latest() {
    let mut history = vec![sample(1.0, 1.0, 1.0, 1.0), sample(2.0, 2.0, 2.0, 2.0)];
    push_metric_history_sample(&mut history, sample(0.5, 9.0, 9.0, 9.0));
    assert_eq!(history, vec![sample(1.0, 1.0, 1.0, 1.0), sample(0.5, 9.0, 9.0, 9.0)]);
    push_metric_history_sample(&mut history, sample(f64::NAN, 0.0, 0.0, 0.0));
    assert_eq!(history.len(), 3);
}

#[test]
fn sample_is_taken_of_the_metrics() {
    let metrics = RuntimeMetrics {
        elapsed_secs: reading(1.5),
        qps: reading(2.5),
        avg_latency_ms: reading(3.5),
        p95_latency_ms: reading(4.5),
        ..RuntimeMetrics::default()
    };
    assert_eq!(
        MetricHistoryPoint::from_runtime_metrics(&metrics),
        sample(1.5, 2.5, 3.5, 4.5)
    );
}

#[test]
fn samples_with_the_same_numbers_are_the_same() {
    assert!(sample(0.0, 1.0, 2.0, 3.0).same(&sample(-0.0, 1.0, 2.0, 3.0)));
    assert!(!sample(0.0, 1.0, 2.0, 3.0).same(&sample(0.0, 1.0, 2.0, 4.0)));
    assert!(!sample(f64::NAN, 1.0, 2.0, 3.0).same(&sample(f64::NAN, 1.0, 2.0, 3.0)));
}

#[test]
fn readings_compare_as_the_numbers_they_stand_for() {
    for a in values() {
        for b in values() {
            let (x, y) = (reading(a), reading(b));
            assert_eq!(x.le(y), a <= b, "{} {}", a, b);
            assert_eq!(x.same(y), a == b, "{} {}", a, b);
            assert_eq!(x.total_before(y), a.total_cmp(&b).is_lt(), "{} {}", a, b);
            let (max, min) = (number(x.max(y)), number(x.min(y)));
            assert!(max == a.max(b) || (max.is_nan() && a.max(b).is_nan()), "{} {}", a, b);
            assert!(min == a.min(b) || (min.is_nan() && a.min(b).is_nan()), "{} {}", a, b);
        }
        assert_eq!(reading(a).is_a_number(), !a.is_nan());
    }
}

#[test]
fn stride_takes_the_first_and_every_so_many() {
    let items: Vec<u32> = (0..10).collect();
    assert_eq!(take_strided(&items, 3), vec![0, 3, 6, 9]);
    assert_eq!(take_strided(&items, 4), vec![0, 4, 8]);
    assert_eq!(take_strided(&items, 100), vec![0]);
    assert_eq!(take_strided(&Vec::<u32>::new(), 2), Vec::<u32>::new());
    assert_eq!(take_strided(&items, usize::MAX), vec![0]);
}

#[test]
fn division_rounds_up() {
    assert_eq!(div_up(0, 3), 0);
    assert_eq!(div_up(6, 3), 2);
    assert_eq!(div_up(7, 3), 3);
    assert_eq!(div_up(usize::MAX, 2), usize::MAX / 2 + 1);
    assert_eq!(div_up(usize::MAX, 1), usize::MAX);
}

#[test]
fn curves_show_their_quantity() {
    let history = vec![sample(1.0, 2.0, 3.0, 4.0), sample(5.0, 6.0, 7.0, 8.0)];
    assert_eq!(
        trend_points(&history, TrendQuantity::Qps),
        vec![point(1.0, 2.0), point(5.0, 6.0)]
    );
    assert_eq!(trend_points(&history, TrendQuantity::AvgLatency)[1], point(5.0, 7.0));
    assert_eq!(trend_points(&history, TrendQuantity::P95Latency)[0], point(1.0, 4.0));
}

#[test]
fn thinned_curve_keeps_its_ends() {
    let points: Vec<TrendPoint> = (0..100).map(|i| point(i as f64, 0.5)).collect();
    let some = sample_trend_points(&points, 30);
    assert_eq!(some.len(), 26);
    assert_eq!(some[0], points[0]);
    assert_eq!(some[1], points[4]);
    assert_eq!(some[24], points[96]);
    assert_eq!(some[25], points[99]);
    assert_eq!(sample_trend_points(&points, 100), points);
    assert_eq!(sample_trend_points(&points, 1), points);
    let exact: Vec<TrendPoint> = points.iter().copied().take(97).collect();
    assert_eq!(sample_trend_points(&exact, 33).len(), 33);
}

#[test]
fn wide_chart_has_room_for_more_points() {
    assert_eq!(max_plot_points(0), 128);
    assert_eq!(max_plot_points(63), 128);
    assert_eq!(max_plot_points(64), 128);
    assert_eq!(max_plot_points(500), 1000);
}

#[test]
fn instant_is_located_on_a_curve() {
    let points = vec![point(1.0, 10.0), point(2.0, 20.0), point(4.0, 40.0)];
    assert_eq!(locate(&points, reading(0.5)), CurvePosition::BeforeFirst);
    assert_eq!(locate(&points, reading(1.0)), CurvePosition::At(0));
    assert_eq!(locate(&points, reading(1.5)), CurvePosition::Between(0));
    assert_eq!(locate(&points, reading(2.0)), CurvePosition::At(1));
    assert_eq!(locate(&points, reading(3.9)), CurvePosition::Between(1));
    assert_eq!(locate(&points, reading(4.0)), CurvePosition::At(2));
    assert_eq!(locate(&points, reading(9.0)), CurvePosition::AfterLast(2));
    assert_eq!(locate(&Vec::new(), reading(1.0)), CurvePosition::NoPoint);
}

#[test]
fn nearest_point_is_picked() {
    let points = vec![point(1.0, 10.0), point(2.0, 20.0)];
    let near = |position, left| nearest_trend_point(&points, position, left).map(|p| number(p.value));
    assert_eq!(near(CurvePosition::NoPoint, true), None);
    assert_eq!(near(CurvePosition::BeforeFirst, false), Some(10.0));
    assert_eq!(near(CurvePosition::At(1), true), Some(20.0));
    assert_eq!(near(CurvePosition::Between(0), true), Some(10.0));
    assert_eq!(near(CurvePosition::Between(0), false), Some(20.0));
    assert_eq!(near(CurvePosition::AfterLast(1), false), Some(20.0));
    assert_eq!(near(CurvePosition::At(7), false), None);
    assert_eq!(near(CurvePosition::Between(usize::MAX), false), None);
}

#[test]
fn extent_covers_all_curves() {
    let curves = vec![
        vec![point(1.0, 3.0), point(2.0, 9.0)],
        vec![],
        vec![point(0.5, 4.0), point(1.5, 1.0)],
    ];
    let extent = trend_extent(&curves).unwrap();
    assert_eq!(number(extent.first_elapsed), 0.5);
    assert_eq!(number(extent.last_elapsed), 2.0);
    assert_eq!(number(extent.greatest_value), 9.0);
    assert!(trend_extent(&vec![vec![], vec![]]).is_none());
    assert!(trend_extent(&vec![]).is_none());
    let below = trend_extent(&vec![vec![point(-2.0, -3.0)]]).unwrap();
    assert_eq!(number(below.last_elapsed), 0.0);
    assert_eq!(number(below.greatest_value), 0.0);
}

#[test]
fn picked_point_is_nearest() {
    let points: Vec<TrendPoint> =
        [0.5, 1.0, 4.0, 4.5, 9.0].iter().map(|x| point(*x, 0.0)).collect();
    for step in 0..100 {
        let elapsed = step as f64 * 0.1;
        let distance = |p: TrendPoint| (number(p.elapsed) - elapsed).abs();
        let position = locate(&points, reading(elapsed));
        let left_is_nearer = match position {
            CurvePosition::Between(i) => distance(points[i]) <= distance(points[i + 1]),
            _ => false,
        };
        let picked = nearest_trend_point(&points, position, left_is_nearer).unwrap();
        assert!(points.iter().all(|p| distance(picked) <= distance(*p)));
    }
}
