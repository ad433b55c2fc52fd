//! The curves of the trend charts: which points are drawn and which one the pointer is near.
use crate::history::{
    ceil_div, div_up, in_time_order, lemma_stride_end, strided, take_strided, MetricHistoryPoint,
};
use crate::reading::{Reading, INFINITE};
use vstd::prelude::*;

verus! {

/// A point of a curve.
#[derive(Clone, Copy, Debug, PartialEq, Eq, Structural)]
pub struct TrendPoint {
    pub elapsed: Reading,
    pub value: Reading,
}

impl TrendPoint {
    /// The two points are at the same place.
    pub open spec fn same_place(self, other: TrendPoint) -> bool {
        self.elapsed.same_number(other.elapsed) && self.value.same_number(other.value)
    }
}

/// Which quantity of the samples a curve shows.
#[derive(Clone, Copy, Debug, PartialEq, Eq, Structural)]
pub enum TrendQuantity {
    Qps,
    AvgLatency,
    P95Latency,
}

/// The point of a curve that shows a sample.
pub open spec fn curve_point(quantity: TrendQuantity, sample: MetricHistoryPoint) -> TrendPoint {
    TrendPoint {
        elapsed: sample.elapsed_secs,
        value: match quantity {
            TrendQuantity::Qps => sample.qps,
            TrendQuantity::AvgLatency => sample.avg_latency_ms,
            TrendQuantity::P95Latency => sample.p95_latency_ms,
        },
    }
}

/// The curve of a quantity over the history.
pub open spec fn curve_of(
    history: Seq<MetricHistoryPoint>,
    quantity: TrendQuantity,
) -> Seq<TrendPoint> {
    history.map_values(|p: MetricHistoryPoint| curve_point(quantity, p))
}

/// Draws the curve of a quantity over the history.
pub fn trend_points(history: &Vec<MetricHistoryPoint>, quantity: TrendQuantity) -> (r: Vec<
    TrendPoint,
>)
    ensures
        r@ == curve_of(history@, quantity),
        r@ == history@.map_values(|p: MetricHistoryPoint| curve_point(quantity, p)),
{
    let mut out: Vec<TrendPoint> = Vec::new();
    let mut i: usize = 0;
    while i < history.len()
        invariant
            0 <= i <= history@.len(),
            out@ == history@.take(i as int).map_values(
                |p: MetricHistoryPoint| curve_point(quantity, p),
            ),
        decreases history@.len() - i,
    {
        let sample = history[i];
        let value = match quantity {
            TrendQuantity::Qps => sample.qps,
            TrendQuantity::AvgLatency => sample.avg_latency_ms,
            TrendQuantity::P95Latency => sample.p95_latency_ms,
        };
        out.push(TrendPoint { elapsed: sample.elapsed_secs, value });
        i += 1;
        assert(out@ =~= history@.take(i as int).map_values(
            |p: MetricHistoryPoint| curve_point(quantity, p),
        ));
    }
    assert(history@.take(i as int) =~= history@);
    out
}

/// The points of a curve that are drawn where there is room for `max_points`: all of them, or
/// else every so many of them and the last one.
pub open spec fn sampled(points: Seq<TrendPoint>, max_points: int) -> Seq<TrendPoint> {
    if points.len() <= max_points || max_points < 2 {
        points
    } else {
        let some = strided(points, ceil_div(points.len() as int, max_points));
        if some.last().same_place(points.last()) {
            some
        } else {
            some.push(points.last())
        }
    }
}

proof fn lemma_stride_of_sample(len: int, max_points: int)
    requires
        2 <= max_points < len,
    ensures
        ceil_div(len, max_points) >= 2,
        0 < ceil_div(len, ceil_div(len, max_points)) <= max_points,
{
    let stride = ceil_div(len, max_points);
    vstd::arithmetic::div_mod::lemma_fundamental_div_mod(len + max_points - 1, max_points);
    let r = (len + max_points - 1) % max_points;
    assert(max_points * stride + r == len + max_points - 1);
    assert(stride >= 2) by (nonlinear_arith)
        requires
            max_points * stride + r == len + max_points - 1,
            0 <= r < max_points,
            len > max_points,
            max_points >= 2,
    ;
    let n = ceil_div(len, stride);
    vstd::arithmetic::div_mod::lemma_fundamental_div_mod(len + stride - 1, stride);
    let q = (len + stride - 1) % stride;
    assert(stride * n + q == len + stride - 1);
    assert(n <= max_points) by (nonlinear_arith)
        requires
            stride * n + q == len + stride - 1,
            0 <= q < stride,
            max_points * stride + r == len + max_points - 1,
            0 <= r < max_points,
            stride >= 2,
    ;
    assert(n > 0) by (nonlinear_arith)
        requires
            stride * n + q == len + stride - 1,
            0 <= q < stride,
            len > 0,
            stride >= 2,
    ;
}

/// Chooses the points of a curve that are drawn.
pub fn sample_trend_points(points: &Vec<TrendPoint>, max_points: usize) -> (r: Vec<TrendPoint>)
    ensures
        r@ == sampled(points@, max_points as int),
{
    let total: usize = points.len();
    if total <= max_points || max_points < 2 {
        let all = take_strided(points, 1);
        assert(all@ =~= points@);
        return all;
    }
    proof {
        lemma_stride_of_sample(total as int, max_points as int);
    }
    let stride = div_up(total, max_points);
    let mut some = take_strided(points, stride);
    let last = points[total - 1];
    let end = some[some.len() - 1];
    if !(end.elapsed.same(last.elapsed) && end.value.same(last.value)) {
        some.push(last);
    }
    some
}

/// How many points of a curve find room on a chart of this width.
pub open spec fn plot_room(width: int) -> int {
    if width < 64 {
        128
    } else {
        width * 2
    }
}

/// How many points of a curve are drawn on a chart of this width: two for each unit of it, and
/// no fewer than on a chart of width 64.
pub fn max_plot_points(width: usize) -> (r: usize)
    requires
        width * 2 <= usize::MAX,
    ensures
        r == plot_room(width as int),
        r == (if width < 64 {
            128
        } else {
            width * 2
        }),
{
    if width < 64 {
        128
    } else {
        width * 2
    }
}

/// A curve that is thinned out keeps its first point, ends where it ended, and has at most one
/// point more than there is room for.
pub proof fn law_sampling_keeps_ends(points: Seq<TrendPoint>, max_points: int)
    requires
        points.len() > 0,
        max_points >= 2,
    ensures
        sampled(points, max_points).len() > 0,
        sampled(points, max_points).len() <= max_points + 1,
        sampled(points, max_points).first() == points.first(),
        sampled(points, max_points).last() == points.last() || sampled(
            points,
            max_points,
        ).last().same_place(points.last()),
{
    if points.len() > max_points {
        lemma_stride_of_sample(points.len() as int, max_points);
        let stride = ceil_div(points.len() as int, max_points);
        assert(strided(points, stride)[0] == points[0 * stride]);
        assert(0 * stride == 0) by (nonlinear_arith);
    }
}

/// The points are in the order of time, no two at the same instant.
pub open spec fn curve_in_order(points: Seq<TrendPoint>) -> bool {
    forall|i: int, j: int|
        0 <= i < j < points.len() ==> (#[trigger] points[i]).elapsed.total_rank() < (
        #[trigger] points[j]).elapsed.total_rank()
}

/// A history in the order of time gives curves in the order of time.
pub proof fn law_history_gives_ordered_curve(
    history: Seq<MetricHistoryPoint>,
    quantity: TrendQuantity,
)
    requires
        in_time_order(history),
    ensures
        curve_in_order(history.map_values(|p: MetricHistoryPoint| curve_point(quantity, p))),
{
    let curve = history.map_values(|p: MetricHistoryPoint| curve_point(quantity, p));
    assert forall|i: int, j: int| 0 <= i < j < curve.len() implies (
    #[trigger] curve[i]).elapsed.total_rank() < (#[trigger] curve[j]).elapsed.total_rank() by {
        assert(history[i].elapsed_secs.rank() < history[j].elapsed_secs.rank());
    }
}

/// A curve in the order of time stays so when it is thinned out, if its last point is a pair of
/// numbers.
pub proof fn law_sampling_keeps_order(points: Seq<TrendPoint>, max_points: int)
    requires
        curve_in_order(points),
        points.len() > 0 ==> points.last().elapsed.is_number() && points.last().value.is_number(),
    ensures
        curve_in_order(sampled(points, max_points)),
{
    if points.len() > max_points && max_points >= 2 {
        let n = points.len() as int;
        lemma_stride_of_sample(n, max_points);
        let stride = ceil_div(n, max_points);
        let some = strided(points, stride);
        assert forall|i: int| 0 <= i < some.len() implies 0 <= #[trigger] (i * stride) < n
            && some[i] == points[i * stride] by {
            lemma_stride_end(n, stride, i);
            assert(0 <= i * stride) by (nonlinear_arith)
                requires
                    0 <= i,
                    0 < stride,
            ;
        }
        assert forall|i: int, j: int| 0 <= i < j < some.len() implies (
        #[trigger] some[i]).elapsed.total_rank() < (#[trigger] some[j]).elapsed.total_rank() by {
            assert(i * stride < j * stride) by (nonlinear_arith)
                requires
                    i < j,
                    0 < stride,
            ;
            assert(some[i] == points[i * stride] && some[j] == points[j * stride]);
        }
        if !some.last().same_place(points.last()) {
            let longer = some.push(points.last());
            assert forall|i: int| 0 <= i < some.len() implies (
            #[trigger] some[i]).elapsed.total_rank() < points.last().elapsed.total_rank() by {
                assert(some[i] == points[i * stride]);
                if i * stride == n - 1 {
                    if i < some.len() - 1 {
                        assert(i * stride < (some.len() - 1) * stride) by (nonlinear_arith)
                            requires
                                i < some.len() - 1,
                                0 < stride,
                        ;
                        assert(some[some.len() - 1] == points[(some.len() - 1) * stride]);
                    }
                }
            }
        }
    }
}

/// Where an instant lies on a curve.
#[derive(Clone, Copy, Debug, PartialEq, Eq, Structural)]
pub enum CurvePosition {
    /// The curve has no point.
    NoPoint,
    /// At the point with this index.
    At(usize),
    /// Before the first point.
    BeforeFirst,
    /// After the point with this index and before the next one.
    Between(usize),
    /// After the last point, which has this index.
    AfterLast(usize),
}

/// `position` is where `elapsed` lies on the curve.
pub open spec fn lies_at(
    points: Seq<TrendPoint>,
    elapsed: Reading,
    position: CurvePosition,
) -> bool {
    match position {
        CurvePosition::NoPoint => points.len() == 0,
        CurvePosition::At(i) => i < points.len() && points[i as int].elapsed.total_rank()
            == elapsed.total_rank(),
        CurvePosition::BeforeFirst => points.len() > 0 && elapsed.total_rank()
            < points[0].elapsed.total_rank(),
        CurvePosition::Between(i) => i + 1 < points.len() && points[i as int].elapsed.total_rank()
            < elapsed.total_rank() < points[i + 1].elapsed.total_rank(),
        CurvePosition::AfterLast(i) => i + 1 == points.len()
            && points[i as int].elapsed.total_rank() < elapsed.total_rank(),
    }
}

/// Finds where an instant lies on a curve whose points are in the order of time.
pub fn locate(points: &Vec<TrendPoint>, elapsed: Reading) -> (r: CurvePosition)
    ensures
        curve_in_order(points@) ==> lies_at(points@, elapsed, r),
        match r {
            CurvePosition::NoPoint => points@.len() == 0,
            CurvePosition::At(i) => i < points@.len(),
            CurvePosition::BeforeFirst => points@.len() > 0,
            CurvePosition::Between(i) => i + 1 < points@.len(),
            CurvePosition::AfterLast(i) => i + 1 == points@.len(),
        },
{
    let total: usize = points.len();
    let mut low: usize = 0;
    let mut high: usize = total;
    while low < high
        invariant
            total == points@.len(),
            0 <= low <= high <= total,
            curve_in_order(points@) ==> {
                &&& forall|i: int|
                    0 <= i < low ==> (#[trigger] points@[i]).elapsed.total_rank()
                        < elapsed.total_rank()
                &&& forall|i: int|
                    high <= i < total ==> elapsed.total_rank() < (
                    #[trigger] points@[i]).elapsed.total_rank()
            },
        decreases high - low,
    {
        let mid: usize = low + (high - low) / 2;
        let here = points[mid].elapsed;
        if here.total_before(elapsed) {
            low = mid + 1;
        } else if elapsed.total_before(here) {
            high = mid;
        } else {
            return CurvePosition::At(mid);
        }
    }
    if total == 0 {
        CurvePosition::NoPoint
    } else if low == 0 {
        CurvePosition::BeforeFirst
    } else if low == total {
        CurvePosition::AfterLast(low - 1)
    } else {
        CurvePosition::Between(low - 1)
    }
}

/// The index of the point that is nearest to a position; `left_is_nearer` decides between two
/// neighbours.
pub open spec fn nearest_at(position: CurvePosition, left_is_nearer: bool) -> Option<int> {
    match position {
        CurvePosition::NoPoint => None,
        CurvePosition::At(i) => Some(i as int),
        CurvePosition::BeforeFirst => Some(0),
        CurvePosition::Between(i) => if left_is_nearer {
            Some(i as int)
        } else {
            Some(i + 1)
        },
        CurvePosition::AfterLast(i) => Some(i as int),
    }
}

/// The point of the curve that is picked at a position.
pub open spec fn picked_point(
    points: Seq<TrendPoint>,
    position: CurvePosition,
    left_is_nearer: bool,
) -> Option<TrendPoint> {
    match nearest_at(position, left_is_nearer) {
        Some(i) => if i < points.len() {
            Some(points[i])
        } else {
            None
        },
        None => None,
    }
}

/// Picks the point of the curve that is nearest to a position on it. Between two points the
/// caller, who can measure the distances, says which of them is nearer.
pub fn nearest_trend_point(
    points: &Vec<TrendPoint>,
    position: CurvePosition,
    left_is_nearer: bool,
) -> (r: Option<TrendPoint>)
    ensures
        r == picked_point(points@, position, left_is_nearer),
        match nearest_at(position, left_is_nearer) {
            Some(i) => if i < points@.len() {
                r == Some(points@[i])
            } else {
                r is None
            },
            None => r is None,
        },
{
    let total: usize = points.len();
    let index: usize = match position {
        CurvePosition::NoPoint => {
            return None;
        },
        CurvePosition::At(i) => i,
        CurvePosition::BeforeFirst => 0,
        CurvePosition::Between(i) => {
            if left_is_nearer {
                i
            } else if i < total {
                i + 1
            } else {
                return None;
            }
        },
        CurvePosition::AfterLast(i) => i,
    };
    if index < total {
        Some(points[index])
    } else {
        None
    }
}

/// `distance` measures how far the points of the curve are from an instant: on either side of it
/// a point that lies nearer in time is not farther away.
pub open spec fn measures(
    distance: spec_fn(Reading) -> int,
    points: Seq<TrendPoint>,
    elapsed: Reading,
) -> bool {
    forall|i: int, j: int|
        0 <= i < j < points.len() ==> {
            let (a, b) = ((#[trigger] points[i]).elapsed, (#[trigger] points[j]).elapsed);
            &&& b.total_rank() <= elapsed.total_rank() ==> distance(b) <= distance(a)
            &&& elapsed.total_rank() <= a.total_rank() ==> distance(a) <= distance(b)
        }
}

/// The caller has compared the two neighbours of a position by `distance`.
pub open spec fn decided_by(
    distance: spec_fn(Reading) -> int,
    points: Seq<TrendPoint>,
    position: CurvePosition,
    left_is_nearer: bool,
) -> bool {
    position matches CurvePosition::Between(i) ==> left_is_nearer == (distance(
        points[i as int].elapsed,
    ) <= distance(points[i + 1].elapsed))
}

/// On a curve in the order of time there is a nearest point wherever there is a point, and the
/// one that is picked is no farther from the instant than any other, by whatever distance the two
/// neighbours were compared.
pub proof fn law_picked_point_is_nearest(
    points: Seq<TrendPoint>,
    elapsed: Reading,
    position: CurvePosition,
    left_is_nearer: bool,
    distance: spec_fn(Reading) -> int,
)
    requires
        points.len() > 0,
        curve_in_order(points),
        lies_at(points, elapsed, position),
        measures(distance, points, elapsed),
        decided_by(distance, points, position, left_is_nearer),
    ensures
        nearest_at(position, left_is_nearer) matches Some(k) && 0 <= k < points.len() && forall|
            i: int,
        |
            0 <= i < points.len() ==> distance(points[k].elapsed) <= distance(
                (#[trigger] points[i]).elapsed,
            ),
{
    let k = nearest_at(position, left_is_nearer)->0;
    assert forall|i: int| 0 <= i < points.len() implies distance(points[k].elapsed) <= distance(
        (#[trigger] points[i]).elapsed,
    ) by {
        if let CurvePosition::Between(left) = position {
            let (a, b) = (points[left as int], points[left + 1]);
            if i < left {
                assert(distance(a.elapsed) <= distance(points[i].elapsed));
            }
            if i > left + 1 {
                assert(distance(b.elapsed) <= distance(points[i].elapsed));
            }
        }
    }
}

/// The range that some curves cover.
#[derive(Clone, Copy, Debug, PartialEq, Eq, Structural)]
pub struct TrendExtent {
    pub first_elapsed: Reading,
    pub last_elapsed: Reading,
    pub greatest_value: Reading,
}

/// The greatest value of a curve, or `start` where that is greater.
pub open spec fn greatest_value(points: Seq<TrendPoint>, start: Reading) -> Reading
    decreases points.len(),
{
    if points.len() == 0 {
        start
    } else {
        greatest_value(points.drop_last(), start).greater(points.last().value)
    }
}

/// The range that the curves cover: from the earliest first point to the latest last point, and
/// up to the greatest value, none of them below zero but the first.
pub open spec fn extent_of(curves: Seq<Seq<TrendPoint>>) -> TrendExtent
    decreases curves.len(),
{
    if curves.len() == 0 {
        TrendExtent {
            first_elapsed: Reading { bits: INFINITE },
            last_elapsed: Reading { bits: 0 },
            greatest_value: Reading { bits: 0 },
        }
    } else {
        let before = extent_of(curves.drop_last());
        let curve = curves.last();
        if curve.len() == 0 {
            before
        } else {
            TrendExtent {
                first_elapsed: before.first_elapsed.lesser(curve.first().elapsed),
                last_elapsed: before.last_elapsed.greater(curve.last().elapsed),
                greatest_value: greatest_value(curve, before.greatest_value),
            }
        }
    }
}

/// The points of some curves.
pub open spec fn curve_points(curves: Seq<Vec<TrendPoint>>) -> Seq<Seq<TrendPoint>> {
    curves.map_values(|c: Vec<TrendPoint>| c@)
}

/// Some curve has a point.
pub open spec fn some_point(curves: Seq<Seq<TrendPoint>>) -> bool {
    exists|i: int| 0 <= i < curves.len() && (#[trigger] curves[i]).len() > 0
}

/// The range that the curves cover; nothing where no curve has a point.
pub open spec fn measured_extent(curves: Seq<Seq<TrendPoint>>) -> Option<TrendExtent> {
    if some_point(curves) {
        Some(extent_of(curves))
    } else {
        None
    }
}

/// Measures the range that the curves cover.
pub fn trend_extent(curves: &Vec<Vec<TrendPoint>>) -> (r: Option<TrendExtent>)
    ensures
        r == measured_extent(curve_points(curves@)),
        match r {
            Some(extent) => extent == extent_of(curve_points(curves@)) && exists|i: int|
                0 <= i < curves@.len() && (#[trigger] curves@[i])@.len() > 0,
            None => forall|i: int| 0 <= i < curves@.len() ==> (#[trigger] curves@[i])@.len() == 0,
        },
{
    let ghost all = curve_points(curves@);
    let mut found = false;
    let mut extent = TrendExtent {
        first_elapsed: Reading { bits: INFINITE },
        last_elapsed: Reading { bits: 0 },
        greatest_value: Reading { bits: 0 },
    };
    let mut i: usize = 0;
    while i < curves.len()
        invariant
            0 <= i <= curves@.len(),
            all == curve_points(curves@),
            extent == extent_of(all.take(i as int)),
            found ==> exists|k: int| 0 <= k < curves@.len() && (#[trigger] curves@[k])@.len() > 0,
            !found ==> forall|k: int| 0 <= k < i ==> (#[trigger] curves@[k])@.len() == 0,
        decreases curves@.len() - i,
    {
        assert(all.take(i + 1).drop_last() =~= all.take(i as int));
        let curve = &curves[i];
        assert(curve@ == all[i as int]);
        let total: usize = curve.len();
        if total > 0 {
            found = true;
            let mut value = extent.greatest_value;
            let mut k: usize = 0;
            while k < total
                invariant
                    0 <= k <= total == curve@.len(),
                    value == greatest_value(curve@.take(k as int), extent.greatest_value),
                decreases total - k,
            {
                assert(curve@.take(k + 1).drop_last() =~= curve@.take(k as int));
                value = value.max(curve[k].value);
                k += 1;
            }
            assert(curve@.take(k as int) =~= curve@);
            extent = TrendExtent {
                first_elapsed: extent.first_elapsed.min(curve[0].elapsed),
                last_elapsed: extent.last_elapsed.max(curve[total - 1].elapsed),
                greatest_value: value,
            };
        }
        i += 1;
    }
    assert(all.take(i as int) =~= all);
    proof {
        assert forall|k: int| 0 <= k < curves@.len() implies (#[trigger] all[k])
            == curves@[k]@ by {}
        if found {
            let k = choose|k: int| 0 <= k < curves@.len() && (#[trigger] curves@[k])@.len() > 0;
            assert(all[k].len() > 0);
        }
        if some_point(all) {
            let k = choose|k: int| 0 <= k < all.len() && (#[trigger] all[k]).len() > 0;
            assert(curves@[k]@.len() > 0);
        }
    }
    if found {
        Some(extent)
    } else {
        None
    }
}

} // verus!
