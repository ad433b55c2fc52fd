//! What the history of a load test keeps, and what the charts show of it.
use crate::history::{
    ceil_div, compacted, lemma_stride_end, strided, with_sample, MetricHistoryPoint,
    MAX_TREND_POINTS,
};
use crate::loadtest::RuntimeMetrics;
use crate::reading::Reading;
use crate::trend::{
    curve_in_order, curve_of, curve_point, extent_of, greatest_value, lies_at, measured_extent,
    nearest_at, picked_point, plot_room, sampled, some_point, CurvePosition, TrendPoint,
    TrendQuantity,
};
use vstd::prelude::*;

verus! {

/// Readings are ordered as the numbers that they stand for: those without a sign by their
/// pattern, and a sign turns the order round. The patterns beyond that of infinity are no numbers,
/// and compare with nothing.
pub proof fn law_order_of_readings(a: Reading, b: Reading)
    ensures
        a.bits < 0x8000_0000_0000_0000 ==> (a.is_number() <==> a.bits <= 0x7ff0_0000_0000_0000),
        a.bits >= 0x8000_0000_0000_0000 ==> (a.is_number() <==> a.bits <= 0xfff0_0000_0000_0000),
        a.bits <= b.bits < 0x8000_0000_0000_0000 ==> a.rank() <= b.rank(),
        a.bits < b.bits < 0x8000_0000_0000_0000 ==> a.rank() < b.rank(),
        b.bits == a.bits + 0x8000_0000_0000_0000 ==> b.rank() == -a.rank() && (b.is_number()
            <==> a.is_number()),
        a.bits == 0 ==> a.rank() == 0,
        a.at_most(b) <==> a.is_number() && b.is_number() && a.rank() <= b.rank(),
        a.same_number(b) <==> a.at_most(b) && b.at_most(a),
{
}

/// The total order tells any two patterns apart, and agrees with the order of the numbers.
pub proof fn law_total_order_of_readings(a: Reading, b: Reading)
    ensures
        a.total_rank() == b.total_rank() <==> a.bits == b.bits,
        a.rank() < b.rank() ==> a.total_rank() < b.total_rank(),
        a.bits == 0x8000_0000_0000_0000 && b.bits == 0 ==> a.total_rank() + 1 == b.total_rank(),
{
}

/// The greater of two numbers is one of them and no less than either, the lesser no more; what is
/// no number gives way to the other.
pub proof fn law_greater_and_lesser(a: Reading, b: Reading)
    ensures
        a.greater(b) == a || a.greater(b) == b,
        a.lesser(b) == a || a.lesser(b) == b,
        a.is_number() && b.is_number() ==> a.at_most(a.greater(b)) && b.at_most(a.greater(b))
            && a.lesser(b).at_most(a) && a.lesser(b).at_most(b),
        !a.is_number() ==> a.greater(b) == b && a.lesser(b) == b,
        a.is_number() && !b.is_number() ==> a.greater(b) == a && a.lesser(b) == a,
{
}

/// A quotient is rounded up: as many groups of `b` as hold `a`, and not one more.
pub proof fn law_rounding_up(a: int, b: int)
    requires
        a >= 0,
        b > 0,
    ensures
        b * ceil_div(a, b) >= a,
        b * (ceil_div(a, b) - 1) < a,
{
    vstd::arithmetic::div_mod::lemma_fundamental_div_mod(a + b - 1, b);
    let q = ceil_div(a, b);
    assert(b * (q - 1) == b * q - b) by (nonlinear_arith);
}

/// With a stride exactly the items at its multiples are picked, in their order.
pub proof fn law_stride_picks_multiples<T>(items: Seq<T>, stride: int, i: int)
    requires
        stride > 0,
        i >= 0,
    ensures
        i < strided(items, stride).len() <==> i * stride < items.len(),
        i < strided(items, stride).len() ==> strided(items, stride)[i] == items[i * stride],
{
    lemma_stride_end(items.len() as int, stride, i);
    law_rounding_up(items.len() as int, stride);
    let n = ceil_div(items.len() as int, stride);
    assert(n >= 0) by (nonlinear_arith)
        requires
            stride * n >= items.len(),
            stride > 0,
            items.len() >= 0,
    ;
}

/// A sample gives each quantity of the metrics under its own name.
pub proof fn law_sample_of_metrics(metrics: RuntimeMetrics)
    ensures
        MetricHistoryPoint::of_metrics(metrics).elapsed_secs == metrics.elapsed_secs,
        MetricHistoryPoint::of_metrics(metrics).qps == metrics.qps,
        MetricHistoryPoint::of_metrics(metrics).avg_latency_ms == metrics.avg_latency_ms,
        MetricHistoryPoint::of_metrics(metrics).p95_latency_ms == metrics.p95_latency_ms,
{
}

/// Two samples are the same only where each of their four numbers is.
pub proof fn law_same_samples(a: MetricHistoryPoint, b: MetricHistoryPoint)
    ensures
        a.same_numbers(b) <==> a.elapsed_secs.same_number(b.elapsed_secs) && a.qps.same_number(
            b.qps,
        ) && a.avg_latency_ms.same_number(b.avg_latency_ms) && a.p95_latency_ms.same_number(
            b.p95_latency_ms,
        ),
{
}

/// As long as there is room a later sample is added to those that are there, and one that is not
/// later takes the place of the latest alone.
pub proof fn law_history_keeps_all_it_has_room_for(
    history: Seq<MetricHistoryPoint>,
    sample: MetricHistoryPoint,
)
    ensures
        history.len() == 0 ==> with_sample(history, sample) == seq![sample],
        0 < history.len() && history.len() < 720 && !sample.elapsed_secs.at_most(
            history.last().elapsed_secs,
        ) ==> with_sample(history, sample) == history.push(sample),
        history.len() > 0 && sample.elapsed_secs.at_most(history.last().elapsed_secs)
            ==> with_sample(history, sample) == history.take(history.len() - 1).push(sample),
        MAX_TREND_POINTS == 720,
{
    if history.len() == 0 {
        assert(history.push(sample) =~= seq![sample]);
    } else {
        assert(history.drop_last() =~= history.take(history.len() - 1));
    }
}

/// A history that has grown too long keeps every other sample, from the first on, and the latest;
/// so of two that follow each other one is kept. One that is not too long is kept whole.
pub proof fn law_compaction_keeps_every_other(history: Seq<MetricHistoryPoint>, i: int)
    ensures
        history.len() <= 720 ==> compacted(history) == history,
        history.len() > 720 && 0 <= i && 2 * i < history.len() ==> i < compacted(history).len()
            && compacted(history)[i] == history[2 * i],
        history.len() > 720 && history.last().same_numbers(history.last()) ==> compacted(
            history,
        ).last().same_numbers(history.last()),
        history.len() > 720 ==> (history.len() + 1) / 2 <= compacted(history).len() && compacted(
            history,
        ).len() <= (history.len() + 1) / 2 + 1,
{
    if history.len() > 720 {
        if i >= 0 {
            law_stride_picks_multiples(history, 2, i);
        }
        assert(strided(history, 2).len() == (history.len() + 1) / 2);
        assert(i * 2 == 2 * i);
    }
}

/// A later sample for which there is no room is added first, and then half of the samples go. The
/// latest is there at the end: as one of those that were kept, or after them.
pub proof fn law_full_history_makes_room(
    history: Seq<MetricHistoryPoint>,
    sample: MetricHistoryPoint,
)
    requires
        history.len() >= 720,
        !sample.elapsed_secs.at_most(history.last().elapsed_secs),
    ensures
        ({
            let all = history.push(sample);
            let kept = (history.len() as int + 2) / 2;
            let after = with_sample(history, sample);
            &&& forall|i: int| 0 <= i < kept ==> #[trigger] after[i] == all[2 * i]
            &&& if all[2 * (kept - 1)].same_numbers(sample) {
                after.len() == kept
            } else {
                after.len() == kept + 1 && after.last() == sample
            }
        }),
{
    let all = history.push(sample);
    let kept = (history.len() as int + 2) / 2;
    assert forall|i: int| 0 <= i < kept implies #[trigger] with_sample(history, sample)[i] == all[2
        * i] by {
        law_compaction_keeps_every_other(all, i);
    }
    assert(strided(all, 2).len() == kept);
    law_stride_picks_multiples(all, 2, kept - 1);
    assert((kept - 1) * 2 == 2 * (kept - 1));
}

/// Each curve shows the quantity that it is named after, at the time of the sample.
pub proof fn law_curves_show_their_quantity(sample: MetricHistoryPoint)
    ensures
        curve_point(TrendQuantity::Qps, sample).value == sample.qps,
        curve_point(TrendQuantity::AvgLatency, sample).value == sample.avg_latency_ms,
        curve_point(TrendQuantity::P95Latency, sample).value == sample.p95_latency_ms,
        curve_point(TrendQuantity::Qps, sample).elapsed == sample.elapsed_secs,
        curve_point(TrendQuantity::AvgLatency, sample).elapsed == sample.elapsed_secs,
        curve_point(TrendQuantity::P95Latency, sample).elapsed == sample.elapsed_secs,
{
}

/// A curve has a point for each sample, in their order.
pub proof fn law_curve_has_every_sample(
    history: Seq<MetricHistoryPoint>,
    quantity: TrendQuantity,
    i: int,
)
    ensures
        curve_of(history, quantity).len() == history.len(),
        0 <= i < history.len() ==> curve_of(history, quantity)[i] == curve_point(
            quantity,
            history[i],
        ),
{
}

/// A curve that fits is drawn whole. Of one that does not, the points at the multiples of a stride
/// are drawn, the smallest stride by which it fits, and its end.
pub proof fn law_sampling_takes_every_so_many(points: Seq<TrendPoint>, max_points: int, i: int)
    ensures
        points.len() <= max_points || max_points < 2 ==> sampled(points, max_points) == points,
        2 <= max_points < points.len() ==> {
            let stride = ceil_div(points.len() as int, max_points);
            &&& max_points * stride >= points.len()
            &&& max_points * (stride - 1) < points.len()
            &&& 0 <= i && i * stride < points.len() ==> i < sampled(points, max_points).len()
                && sampled(points, max_points)[i] == points[i * stride]
            &&& sampled(points, max_points).len() <= ceil_div(points.len() as int, stride) + 1
        },
{
    if 2 <= max_points < points.len() {
        law_rounding_up(points.len() as int, max_points);
        let stride = ceil_div(points.len() as int, max_points);
        assert(stride > 0) by (nonlinear_arith)
            requires
                max_points * stride >= points.len(),
                points.len() > 0,
                max_points > 0,
        ;
        if i >= 0 {
            law_stride_picks_multiples(points, stride, i);
        }
        law_stride_picks_multiples(points, stride, 0);
        law_rounding_up(points.len() as int, stride);
    }
}

/// The end of a curve is added to what is drawn of it, unless the last of the points that were
/// picked has the same time and the same value.
pub proof fn law_sampling_adds_the_end(points: Seq<TrendPoint>, max_points: int)
    requires
        2 <= max_points < points.len(),
    ensures
        ({
            let stride = ceil_div(points.len() as int, max_points);
            let picked = ceil_div(points.len() as int, stride);
            let last = points[(picked - 1) * stride];
            let drawn = sampled(points, max_points);
            if last.elapsed.same_number(points.last().elapsed) && last.value.same_number(
                points.last().value,
            ) {
                drawn.len() == picked && drawn.last() == last
            } else {
                drawn.len() == picked + 1 && drawn.last() == points.last()
            }
        }),
{
    law_rounding_up(points.len() as int, max_points);
    let stride = ceil_div(points.len() as int, max_points);
    assert(stride > 0) by (nonlinear_arith)
        requires
            max_points * stride >= points.len(),
            points.len() > 0,
            max_points > 0,
    ;
    law_rounding_up(points.len() as int, stride);
    let picked = ceil_div(points.len() as int, stride);
    assert(picked > 0) by (nonlinear_arith)
        requires
            stride * picked >= points.len(),
            points.len() > 0,
            stride > 0,
    ;
    law_stride_picks_multiples(points, stride, picked - 1);
}

/// On a curve in the order of time an instant has one position: it is at a point, or it comes
/// before, after or between points, and every other point lies on the side that this says.
pub proof fn law_position_on_a_curve(
    points: Seq<TrendPoint>,
    elapsed: Reading,
    position: CurvePosition,
    j: int,
)
    requires
        curve_in_order(points),
        lies_at(points, elapsed, position),
        0 <= j < points.len(),
    ensures
        !(position is NoPoint),
        position matches CurvePosition::At(i) ==> i < points.len() && (points[j].elapsed.bits
            == elapsed.bits <==> i == j),
        position is BeforeFirst ==> elapsed.total_rank() < points[j].elapsed.total_rank(),
        position matches CurvePosition::AfterLast(i) ==> i == points.len() - 1
            && points[j].elapsed.total_rank() < elapsed.total_rank(),
        position matches CurvePosition::Between(i) ==> i + 1 < points.len() && (j <= i
            ==> points[j].elapsed.total_rank() < elapsed.total_rank()) && (j > i
            ==> elapsed.total_rank() < points[j].elapsed.total_rank()),
{
    if let CurvePosition::At(i) = position {
        law_total_order_of_readings(points[j].elapsed, elapsed);
        law_total_order_of_readings(points[i as int].elapsed, elapsed);
        if i != j {
            if i < j {
                assert(points[i as int].elapsed.total_rank() < points[j].elapsed.total_rank());
            } else {
                assert(points[j].elapsed.total_rank() < points[i as int].elapsed.total_rank());
            }
        }
    }
    if position is BeforeFirst && j > 0 {
        assert(points[0].elapsed.total_rank() < points[j].elapsed.total_rank());
    }
    if let CurvePosition::AfterLast(i) = position {
        if j < i {
            assert(points[j].elapsed.total_rank() < points[i as int].elapsed.total_rank());
        }
    }
    if let CurvePosition::Between(i) = position {
        if j < i {
            assert(points[j].elapsed.total_rank() < points[i as int].elapsed.total_rank());
        }
        if j > i + 1 {
            assert(points[i + 1].elapsed.total_rank() < points[j].elapsed.total_rank());
        }
    }
}

/// At a point that point is picked, outside the curve its end, and between two points the one that
/// the caller found nearer.
pub proof fn law_point_that_is_picked(points: Seq<TrendPoint>, i: usize, left_is_nearer: bool)
    requires
        i < points.len(),
    ensures
        picked_point(points, CurvePosition::At(i), left_is_nearer) == Some(points[i as int]),
        picked_point(points, CurvePosition::AfterLast(i), left_is_nearer) == Some(points[i as int]),
        picked_point(points, CurvePosition::BeforeFirst, left_is_nearer) == Some(points[0]),
        picked_point(points, CurvePosition::Between(i), true) == Some(points[i as int]),
        i + 1 < points.len() ==> picked_point(points, CurvePosition::Between(i), false) == Some(
            points[i + 1],
        ),
        picked_point(points, CurvePosition::NoPoint, left_is_nearer) is None,
        nearest_at(CurvePosition::At(i), left_is_nearer) == Some(i as int),
{
}

/// Where a position names a point that the curve does not have, none is picked.
pub proof fn law_no_point_is_made_up(points: Seq<TrendPoint>, i: usize, left_is_nearer: bool)
    requires
        i >= points.len(),
    ensures
        picked_point(points, CurvePosition::At(i), left_is_nearer) is None,
        picked_point(points, CurvePosition::AfterLast(i), left_is_nearer) is None,
        picked_point(points, CurvePosition::Between(i), left_is_nearer) is None,
        i == points.len() && i > 0 ==> picked_point(
            points,
            CurvePosition::Between((i - 1) as usize),
            false,
        ) is None,
        points.len() == 0 ==> picked_point(points, CurvePosition::BeforeFirst, left_is_nearer)
            is None,
{
}

/// The greatest value of a curve is no less than any of its numbers or the start, and is one of
/// its values or the start.
pub proof fn law_greatest_value(points: Seq<TrendPoint>, start: Reading)
    requires
        start.is_number(),
    ensures
        ({
            let most = greatest_value(points, start);
            &&& most.is_number()
            &&& start.at_most(most)
            &&& forall|i: int|
                0 <= i < points.len() && (#[trigger] points[i]).value.is_number()
                    ==> points[i].value.at_most(most)
            &&& most == start || exists|i: int|
                0 <= i < points.len() && (#[trigger] points[i]).value == most
        }),
    decreases points.len(),
{
    if points.len() > 0 {
        let before = points.drop_last();
        law_greatest_value(before, start);
        let most = greatest_value(points, start);
        let so_far = greatest_value(before, start);
        law_greater_and_lesser(so_far, points.last().value);
        assert forall|i: int|
            0 <= i < points.len() && (#[trigger] points[i]).value.is_number()
            implies points[i].value.at_most(
            most,
        ) by {
            if i < before.len() {
                assert(before[i].value.at_most(so_far));
            }
        }
        if most == so_far && so_far != start {
            let i = choose|i: int| 0 <= i < before.len() && (#[trigger] before[i]).value == so_far;
            assert(points[i].value == most);
        } else if most != start {
            assert(points[points.len() - 1].value == most);
        }
    }
}

/// All points of the curve are numbers.
pub open spec fn all_numbers(points: Seq<TrendPoint>) -> bool {
    forall|i: int|
        0 <= i < points.len() ==> (#[trigger] points[i]).elapsed.is_number()
            && points[i].value.is_number()
}

/// The range of some curves covers each of them, from its first point to its last and up to each
/// of its values; it begins at a first point, and ends at a last point or at zero.
pub proof fn law_extent_covers_the_curves(curves: Seq<Seq<TrendPoint>>)
    requires
        forall|i: int| 0 <= i < curves.len() ==> all_numbers(#[trigger] curves[i]),
    ensures
        ({
            let extent = extent_of(curves);
            &&& extent.first_elapsed.is_number() && extent.last_elapsed.is_number()
                && extent.greatest_value.is_number()
            &&& forall|i: int|
                0 <= i < curves.len() && (#[trigger] curves[i]).len() > 0 ==> {
                    &&& extent.first_elapsed.at_most(curves[i].first().elapsed)
                    &&& curves[i].last().elapsed.at_most(extent.last_elapsed)
                    &&& forall|j: int|
                        0 <= j < curves[i].len() ==> (#[trigger] curves[i][j]).value.at_most(
                            extent.greatest_value,
                        )
                }
            &&& some_point(curves) ==> exists|i: int|
                0 <= i < curves.len() && (#[trigger] curves[i]).len() > 0 && begins_at(
                    curves[i],
                    extent.first_elapsed,
                )
            &&& extent.last_elapsed.rank() >= 0 && extent.greatest_value.rank() >= 0
            &&& extent.last_elapsed.bits == 0 || exists|i: int|
                0 <= i < curves.len() && (#[trigger] curves[i]).len() > 0
                    && curves[i].last().elapsed == extent.last_elapsed
        }),
    decreases curves.len(),
{
    if curves.len() > 0 {
        let before = curves.drop_last();
        let curve = curves.last();
        assert(curve == curves[curves.len() - 1]);
        assert forall|i: int| 0 <= i < before.len() implies all_numbers(#[trigger] before[i]) by {
            assert(before[i] == curves[i]);
        }
        law_extent_covers_the_curves(before);
        let old_extent = extent_of(before);
        let extent = extent_of(curves);
        if curve.len() > 0 {
            assert(curve[0].elapsed.is_number() && curve[curve.len() - 1].elapsed.is_number());
            law_greater_and_lesser(old_extent.first_elapsed, curve.first().elapsed);
            law_greater_and_lesser(old_extent.last_elapsed, curve.last().elapsed);
            law_greatest_value(curve, old_extent.greatest_value);
        }
        assert forall|i: int| 0 <= i < curves.len() && (#[trigger] curves[i]).len() > 0 implies {
            &&& extent.first_elapsed.at_most(curves[i].first().elapsed)
            &&& curves[i].last().elapsed.at_most(extent.last_elapsed)
            &&& forall|j: int|
                0 <= j < curves[i].len() ==> (#[trigger] curves[i][j]).value.at_most(
                    extent.greatest_value,
                )
        } by {
            if i < before.len() {
                assert(before[i] == curves[i]);
                assert forall|j: int| 0 <= j < curves[i].len() implies (
                #[trigger] curves[i][j]).value.at_most(extent.greatest_value) by {
                    assert(before[i][j].value.at_most(old_extent.greatest_value));
                }
            }
        }
        if some_point(curves) {
            if curve.len() > 0 && extent.first_elapsed == curve.first().elapsed {
                assert(begins_at(curves[curves.len() - 1], extent.first_elapsed));
            } else if some_point(before) {
                let i = choose|i: int|
                    0 <= i < before.len() && (#[trigger] before[i]).len() > 0 && begins_at(
                        before[i],
                        old_extent.first_elapsed,
                    );
                assert(curves[i] == before[i]);
                assert(begins_at(curves[i], extent.first_elapsed));
            } else {
                let i = choose|i: int| 0 <= i < curves.len() && (#[trigger] curves[i]).len() > 0;
                if i < before.len() {
                    assert(before[i].len() > 0);
                }
                lemma_nothing_begins(before);
            }
        }
        if extent.last_elapsed.bits != 0 {
            if curve.len() > 0 && extent.last_elapsed == curve.last().elapsed {
                assert(curves[curves.len() - 1].len() > 0);
            } else {
                let i = choose|i: int|
                    0 <= i < before.len() && (#[trigger] before[i]).len() > 0
                        && before[i].last().elapsed == old_extent.last_elapsed;
                assert(curves[i] == before[i]);
            }
        }
    }
}

/// The curve begins at this time, as a number.
pub open spec fn begins_at(curve: Seq<TrendPoint>, elapsed: Reading) -> bool {
    curve.first().elapsed.same_number(elapsed)
}

/// Without a point the range has not begun.
proof fn lemma_nothing_begins(curves: Seq<Seq<TrendPoint>>)
    requires
        !some_point(curves),
    ensures
        extent_of(curves).first_elapsed.bits == 0x7ff0_0000_0000_0000,
    decreases curves.len(),
{
    if curves.len() > 0 {
        let before = curves.drop_last();
        if some_point(before) {
            let i = choose|i: int| 0 <= i < before.len() && (#[trigger] before[i]).len() > 0;
            assert(curves[i].len() > 0);
        }
        assert(curves[curves.len() - 1].len() == 0);
        lemma_nothing_begins(before);
    }
}

/// A range is measured if and only if some curve has a point.
pub proof fn law_range_needs_a_point(curves: Seq<Seq<TrendPoint>>)
    ensures
        some_point(curves) ==> measured_extent(curves) == Some(extent_of(curves)),
        (forall|i: int| 0 <= i < curves.len() ==> (#[trigger] curves[i]).len() == 0)
            ==> measured_extent(curves) is None,
{
}

/// A chart has room for two points in each unit of its width, and for 128 at the least.
pub proof fn law_room_for_points(width: int)
    requires
        width >= 0,
    ensures
        plot_room(width) >= 128,
        width >= 64 ==> plot_room(width) == 2 * width,
        width <= 64 ==> plot_room(width) == 128,
{
}

} // verus!
