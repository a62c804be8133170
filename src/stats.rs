//! Distance statistics over a trace: its centroid, the sample nearest to a
//! point, distances from a reference point, and the extremes over all pairs.
use vstd::prelude::*;

use crate::geometry::{
    Vector2D, dist, dist_xy, distance_xy, in_probe_range, lemma_dist_positive, trunc_div,
    div_toward_zero,
};
use crate::shape::Shape;

verus! {

/// The placeholder sample reported where no sample qualifies.
pub open spec fn origin() -> Vector2D {
    Vector2D { x: 0, y: 0 }
}

/// The sum of the x coordinates of the samples.
pub open spec fn sum_x(s: Seq<Vector2D>) -> int
    decreases s.len(),
{
    if s.len() == 0 {
        0
    } else {
        sum_x(s.drop_last()) + s.last().x
    }
}

/// The sum of the y coordinates of the samples.
pub open spec fn sum_y(s: Seq<Vector2D>) -> int
    decreases s.len(),
{
    if s.len() == 0 {
        0
    } else {
        sum_y(s.drop_last()) + s.last().y
    }
}

/// The mean position of the samples, each coordinate rounded toward zero.
pub open spec fn centroid(s: Seq<Vector2D>) -> Vector2D {
    Vector2D {
        x: trunc_div(sum_x(s), s.len() as int) as i32,
        y: trunc_div(sum_y(s), s.len() as int) as i32,
    }
}

/// The mean of `n` values of `i32`, rounded toward zero, is an `i32`.
pub(crate) proof fn lemma_mean_in_range(sum: int, n: int)
    requires
        n > 0,
        -n * 0x8000_0000 <= sum <= n * 0x7fff_ffff,
    ensures
        i32::MIN <= trunc_div(sum, n) <= i32::MAX,
{
    if sum >= 0 {
        assert(sum / n <= 0x7fff_ffff) by (nonlinear_arith)
            requires
                n > 0,
                0 <= sum <= n * 0x7fff_ffff,
        {
            vstd::arithmetic::div_mod::lemma_div_is_ordered(sum, n * 0x7fff_ffff, n);
            vstd::arithmetic::div_mod::lemma_div_multiples_vanish(0x7fff_ffff, n);
        }
    } else {
        assert((-sum) / n <= 0x8000_0000) by (nonlinear_arith)
            requires
                n > 0,
                0 <= -sum <= n * 0x8000_0000,
        {
            vstd::arithmetic::div_mod::lemma_div_is_ordered(-sum, n * 0x8000_0000, n);
            vstd::arithmetic::div_mod::lemma_div_multiples_vanish(0x8000_0000, n);
        }
    }
}

/// `q` is not the point `(px, py)`.
pub open spec fn differs(q: Vector2D, px: int, py: int) -> bool {
    q.x != px || q.y != py
}

/// The distance from `(px, py)` to the sample at index `j`.
pub open spec fn dist_from(s: Seq<Vector2D>, px: int, py: int, j: int) -> int {
    dist_xy(px, py, s[j].x as int, s[j].y as int)
}

/// Some sample among the first `i` differs from `(px, py)`.
pub open spec fn has_other(s: Seq<Vector2D>, px: int, py: int, i: int) -> bool {
    exists|j: int| 0 <= j < i && #[trigger] differs(s[j], px, py)
}

/// Among the first `i` samples that differ from `(px, py)`, `k` is the first
/// one nearest to it.
pub open spec fn first_nearest_other_in(s: Seq<Vector2D>, px: int, py: int, i: int, k: int) -> bool {
    &&& 0 <= k < i <= s.len()
    &&& differs(s[k], px, py)
    &&& forall|j: int|
        0 <= j < i && differs(s[j], px, py) ==> #[trigger] dist_from(s, px, py, j) >= dist_from(
            s,
            px,
            py,
            k,
        )
    &&& forall|j: int|
        0 <= j < k && differs(s[j], px, py) ==> #[trigger] dist_from(s, px, py, j) > dist_from(
            s,
            px,
            py,
            k,
        )
}

/// Among the first `i` samples that differ from `(px, py)`, `k` is the first
/// one farthest from it.
pub open spec fn first_farthest_in(s: Seq<Vector2D>, px: int, py: int, i: int, k: int) -> bool {
    &&& 0 <= k < i <= s.len()
    &&& differs(s[k], px, py)
    &&& forall|j: int|
        0 <= j < i && differs(s[j], px, py) ==> #[trigger] dist_from(s, px, py, j) <= dist_from(
            s,
            px,
            py,
            k,
        )
    &&& forall|j: int|
        0 <= j < k && differs(s[j], px, py) ==> #[trigger] dist_from(s, px, py, j) < dist_from(
            s,
            px,
            py,
            k,
        )
}

/// The index of the first sample nearest to `(px, py)` among those that
/// differ from it.
pub open spec fn nearest_other_index(s: Seq<Vector2D>, px: int, py: int) -> int {
    choose|k: int| first_nearest_other_in(s, px, py, s.len() as int, k)
}

/// The index of the first sample farthest from `(px, py)` among those that
/// differ from it.
pub open spec fn farthest_index(s: Seq<Vector2D>, px: int, py: int) -> int {
    choose|k: int| first_farthest_in(s, px, py, s.len() as int, k)
}

/// The first sample nearest to `(px, py)` among those that differ from it,
/// or the origin when there is none.
pub open spec fn nearest_other_point(s: Seq<Vector2D>, px: int, py: int) -> Vector2D {
    if has_other(s, px, py, s.len() as int) {
        s[nearest_other_index(s, px, py)]
    } else {
        origin()
    }
}

/// The distance from `(px, py)` to `nearest_other_point`, or `i64::MAX` when no
/// sample differs from it.
pub open spec fn nearest_other_dist(s: Seq<Vector2D>, px: int, py: int) -> int {
    if has_other(s, px, py, s.len() as int) {
        dist_from(s, px, py, nearest_other_index(s, px, py))
    } else {
        i64::MAX as int
    }
}

/// Only one index is the first nearest.
pub proof fn lemma_nearest_other_unique(s: Seq<Vector2D>, px: int, py: int, k: int)
    requires
        first_nearest_other_in(s, px, py, s.len() as int, k),
    ensures
        nearest_other_index(s, px, py) == k,
        has_other(s, px, py, s.len() as int),
{
    let c = nearest_other_index(s, px, py);
    assert(first_nearest_other_in(s, px, py, s.len() as int, c));
    assert(dist_from(s, px, py, c) >= dist_from(s, px, py, k));
    assert(dist_from(s, px, py, k) >= dist_from(s, px, py, c));
    assert(differs(s[k], px, py));
}

/// Only one index is the first farthest.
pub proof fn lemma_farthest_unique(s: Seq<Vector2D>, px: int, py: int, k: int)
    requires
        first_farthest_in(s, px, py, s.len() as int, k),
    ensures
        farthest_index(s, px, py) == k,
        has_other(s, px, py, s.len() as int),
{
    let c = farthest_index(s, px, py);
    assert(first_farthest_in(s, px, py, s.len() as int, c));
    assert(dist_from(s, px, py, c) <= dist_from(s, px, py, k));
    assert(dist_from(s, px, py, k) <= dist_from(s, px, py, c));
    assert(differs(s[k], px, py));
}

/// The sample nearest to `(px, py)` among those that differ from it, with
/// its distance; the origin and `i64::MAX` when there is none.
fn closest_other_to(coordinates: &Vec<Vector2D>, px: i64, py: i64) -> (r: (Vector2D, i64))
    requires
        in_probe_range(px as int),
        in_probe_range(py as int),
    ensures
        r.0 == nearest_other_point(coordinates@, px as int, py as int),
        r.1 == nearest_other_dist(coordinates@, px as int, py as int),
{
    let ghost s = coordinates@;
    let mut min_distance: i64 = i64::MAX;
    let mut min_point: Vector2D = Vector2D { x: 0, y: 0 };
    let ghost mut k: int = -1;
    let mut i: usize = 0;
    while i < coordinates.len()
        invariant
            s == coordinates@,
            in_probe_range(px as int),
            in_probe_range(py as int),
            0 <= i <= s.len(),
            k == -1 ==> !has_other(s, px as int, py as int, i as int) && min_distance == i64::MAX
                && min_point == origin(),
            k != -1 ==> first_nearest_other_in(s, px as int, py as int, i as int, k) && min_point == s[k]
                && min_distance == dist_from(s, px as int, py as int, k) && min_distance
                < 0x20_0000_0000,
        decreases s.len() - i,
    {
        let other = coordinates[i];
        if other.x as i64 != px || other.y as i64 != py {
            let d = distance_xy(px, py, other.x as i64, other.y as i64);
            assert(dist_from(s, px as int, py as int, i as int) == d);
            if d < min_distance {
                min_distance = d;
                min_point = other;
                proof {
                    k = i as int;
                }
            }
        }
        assert(has_other(s, px as int, py as int, i + 1) ==> has_other(s, px as int, py as int, i as int)
            || differs(s[i as int], px as int, py as int));
        i = i + 1;
    }
    proof {
        if k != -1 {
            lemma_nearest_other_unique(s, px as int, py as int, k);
        }
    }
    (min_point, min_distance)
}

/// Among the first `i` samples, `k` is the first one nearest to `(px, py)`.
/// A sample at `(px, py)` itself is at distance 0, and so nearest.
pub open spec fn first_nearest_in(s: Seq<Vector2D>, px: int, py: int, i: int, k: int) -> bool {
    &&& 0 <= k < i <= s.len()
    &&& forall|j: int| 0 <= j < i ==> #[trigger] dist_from(s, px, py, j) >= dist_from(s, px, py, k)
    &&& forall|j: int| 0 <= j < k ==> #[trigger] dist_from(s, px, py, j) > dist_from(s, px, py, k)
}

/// The index of the first sample nearest to `(px, py)`.
pub open spec fn nearest_index(s: Seq<Vector2D>, px: int, py: int) -> int {
    choose|k: int| first_nearest_in(s, px, py, s.len() as int, k)
}

/// The first sample nearest to `(px, py)`, or the origin for an empty trace.
pub open spec fn nearest_point(s: Seq<Vector2D>, px: int, py: int) -> Vector2D {
    if s.len() > 0 {
        s[nearest_index(s, px, py)]
    } else {
        origin()
    }
}

/// The distance from `(px, py)` to `nearest_point`, or `i64::MAX` for an
/// empty trace.
pub open spec fn nearest_dist(s: Seq<Vector2D>, px: int, py: int) -> int {
    if s.len() > 0 {
        dist_from(s, px, py, nearest_index(s, px, py))
    } else {
        i64::MAX as int
    }
}

/// Only one index is the first nearest.
pub proof fn lemma_nearest_unique(s: Seq<Vector2D>, px: int, py: int, k: int)
    requires
        first_nearest_in(s, px, py, s.len() as int, k),
    ensures
        nearest_index(s, px, py) == k,
{
    let c = nearest_index(s, px, py);
    assert(first_nearest_in(s, px, py, s.len() as int, c));
    assert(dist_from(s, px, py, c) >= dist_from(s, px, py, k));
    assert(dist_from(s, px, py, k) >= dist_from(s, px, py, c));
}

/// The first sample nearest to `(px, py)`, with its distance; the origin and
/// `i64::MAX` for an empty trace.
pub fn closest_to(coordinates: &Vec<Vector2D>, px: i64, py: i64) -> (r: (Vector2D, i64))
    requires
        in_probe_range(px as int),
        in_probe_range(py as int),
    ensures
        r.0 == nearest_point(coordinates@, px as int, py as int),
        r.1 == nearest_dist(coordinates@, px as int, py as int),
{
    let ghost s = coordinates@;
    let mut min_distance: i64 = i64::MAX;
    let mut min_point: Vector2D = Vector2D { x: 0, y: 0 };
    let ghost mut k: int = -1;
    let mut i: usize = 0;
    while i < coordinates.len()
        invariant
            s == coordinates@,
            in_probe_range(px as int),
            in_probe_range(py as int),
            0 <= i <= s.len(),
            k == -1 ==> i == 0 && min_distance == i64::MAX && min_point == origin(),
            k != -1 ==> first_nearest_in(s, px as int, py as int, i as int, k) && min_point == s[k]
                && min_distance == dist_from(s, px as int, py as int, k) && min_distance
                < 0x20_0000_0000,
        decreases s.len() - i,
    {
        let other = coordinates[i];
        let d = distance_xy(px, py, other.x as i64, other.y as i64);
        assert(dist_from(s, px as int, py as int, i as int) == d);
        if d < min_distance {
            min_distance = d;
            min_point = other;
            proof {
                k = i as int;
            }
        }
        i = i + 1;
    }
    proof {
        if k != -1 {
            lemma_nearest_unique(s, px as int, py as int, k);
        }
    }
    (min_point, min_distance)
}

/// The standard width of the tolerance band around the average distance from
/// a reference point, in percent of that average.
pub const CIRCLE_TOLERANCE_PERCENT: u32 = 25;

/// Distances from a reference point to samples of a trace.
pub struct PointDistanceSet {
    /// The smallest distance, or `i64::MAX` when no sample differs from the reference.
    pub min: i64,
    /// The greatest distance, or 0 when no sample differs from the reference.
    pub max: i64,
    /// The sum of the distances divided by the number of samples.
    pub avg: i64,
    /// How many distances exceed the average by more than the tolerance band.
    pub above: usize,
    /// How many distances fall short of the average by more than the tolerance band.
    pub below: usize,
    /// The number of samples.
    pub values: usize,
    /// The share of samples in neither `above` nor `below`, in percent, rounded down.
    pub passes_percent: u32,
    /// The reference and the first farthest sample.
    pub max_pair: [Vector2D; 2],
    /// The reference and the first nearest sample.
    pub min_pair: [Vector2D; 2],
}

/// The distances from `p` to the samples that differ from it, in trace order.
pub open spec fn ref_dists(s: Seq<Vector2D>, p: Vector2D) -> Seq<int>
    decreases s.len(),
{
    if s.len() == 0 {
        seq![]
    } else if s.last() == p {
        ref_dists(s.drop_last(), p)
    } else {
        ref_dists(s.drop_last(), p).push(dist(p, s.last()))
    }
}

/// The sum of the values.
pub open spec fn sum_of(d: Seq<int>) -> int
    decreases d.len(),
{
    if d.len() == 0 {
        0
    } else {
        sum_of(d.drop_last()) + d.last()
    }
}

/// How many values exceed `avg` by more than `tol`.
pub open spec fn count_above(d: Seq<int>, avg: int, tol: int) -> nat
    decreases d.len(),
{
    if d.len() == 0 {
        0
    } else {
        count_above(d.drop_last(), avg, tol) + if d.last() - tol > avg {
            1nat
        } else {
            0nat
        }
    }
}

/// How many values fall short of `avg` by more than `tol`.
pub open spec fn count_below(d: Seq<int>, avg: int, tol: int) -> nat
    decreases d.len(),
{
    if d.len() == 0 {
        0
    } else {
        count_below(d.drop_last(), avg, tol) + if d.last() + tol < avg {
            1nat
        } else {
            0nat
        }
    }
}

/// The sum of the distances from `p`, divided by the number of all samples.
pub open spec fn ref_avg(s: Seq<Vector2D>, p: Vector2D) -> int {
    sum_of(ref_dists(s, p)) / s.len() as int
}

/// The half-width of the tolerance band: `band` percent of the average,
/// rounded down.
pub open spec fn ref_tolerance(s: Seq<Vector2D>, p: Vector2D, band: int) -> int {
    ref_avg(s, p) * band / 100
}

pub open spec fn ref_above(s: Seq<Vector2D>, p: Vector2D, band: int) -> nat {
    count_above(ref_dists(s, p), ref_avg(s, p), ref_tolerance(s, p, band))
}

pub open spec fn ref_below(s: Seq<Vector2D>, p: Vector2D, band: int) -> nat {
    count_below(ref_dists(s, p), ref_avg(s, p), ref_tolerance(s, p, band))
}

/// The share of samples whose distance from `p` lies within the tolerance
/// band around the average, in percent, rounded down. Samples equal to `p`
/// count as within.
pub open spec fn passes_percent(s: Seq<Vector2D>, p: Vector2D, band: int) -> int {
    100 * (s.len() - ref_above(s, p, band) - ref_below(s, p, band)) / s.len() as int
}

proof fn lemma_ref_dists_len(s: Seq<Vector2D>, p: Vector2D)
    ensures
        ref_dists(s, p).len() <= s.len(),
    decreases s.len(),
{
    if s.len() > 0 {
        lemma_ref_dists_len(s.drop_last(), p);
    }
}

proof fn lemma_counts_bounded(d: Seq<int>, avg: int, tol: int)
    requires
        tol >= 0,
    ensures
        count_above(d, avg, tol) + count_below(d, avg, tol) <= d.len(),
    decreases d.len(),
{
    if d.len() > 0 {
        lemma_counts_bounded(d.drop_last(), avg, tol);
    }
}

proof fn lemma_percent_bounded(passed: int, n: int)
    requires
        0 <= passed <= n,
        n > 0,
    ensures
        0 <= 100 * passed / n <= 100,
{
    vstd::arithmetic::div_mod::lemma_div_is_ordered(100 * passed, 100 * n, n);
    vstd::arithmetic::div_mod::lemma_div_multiples_vanish(100, n);
    vstd::arithmetic::div_mod::lemma_div_pos_is_pos(100 * passed, n);
}

proof fn lemma_avg_bounded(sum: int, n: int, m: int, b: int)
    requires
        0 <= sum <= m * b,
        0 <= m <= n,
        n > 0,
        b >= 0,
    ensures
        0 <= sum / n <= b,
{
    assert(m * b <= n * b) by (nonlinear_arith)
        requires
            0 <= m <= n,
            b >= 0,
    ;
    vstd::arithmetic::div_mod::lemma_div_is_ordered(sum, n * b, n);
    vstd::arithmetic::div_mod::lemma_div_multiples_vanish(b, n);
    vstd::arithmetic::div_mod::lemma_div_pos_is_pos(sum, n);
}

/// The distances from `point` to every sample that differs from it, in
/// trace order.
fn reference_distances(coordinates: &Vec<Vector2D>, point: Vector2D) -> (r: (Vec<i64>, u128))
    ensures
        r.0@.len() == ref_dists(coordinates@, point).len(),
        forall|j: int| 0 <= j < r.0@.len() ==> r.0@[j] == ref_dists(coordinates@, point)[j],
        forall|j: int| 0 <= j < r.0@.len() ==> 0 <= #[trigger] r.0@[j] < 0x20_0000_0000,
        r.1 == sum_of(ref_dists(coordinates@, point)),
        r.1 <= r.0@.len() * 0x20_0000_0000,
{
    let ghost s = coordinates@;
    let mut distances: Vec<i64> = Vec::new();
    let mut sum: u128 = 0;
    let mut i: usize = 0;
    while i < coordinates.len()
        invariant
            s == coordinates@,
            0 <= i <= s.len(),
            distances@.len() == ref_dists(s.subrange(0, i as int), point).len(),
            distances@.len() <= i,
            forall|j: int|
                0 <= j < distances@.len() ==> distances@[j] == ref_dists(
                    s.subrange(0, i as int),
                    point,
                )[j],
            forall|j: int| 0 <= j < distances@.len() ==> 0 <= #[trigger] distances@[j] < 0x20_0000_0000,
            sum == sum_of(ref_dists(s.subrange(0, i as int), point)),
            sum <= distances@.len() * 0x20_0000_0000,
        decreases s.len() - i,
    {
        let other = coordinates[i];
        assert(s.subrange(0, i + 1).drop_last() =~= s.subrange(0, i as int));
        assert(s.subrange(0, i + 1).last() == other);
        if point != other {
            let d = point.distance(&other);
            let ghost before = ref_dists(s.subrange(0, i as int), point);
            assert(ref_dists(s.subrange(0, i + 1), point) == before.push(d as int));
            assert(before.push(d as int).drop_last() =~= before);
            distances.push(d);
            sum = sum + d as u128;
        }
        i = i + 1;
    }
    assert(s.subrange(0, s.len() as int) =~= s);
    (distances, sum)
}

/// The extremes of the distances between pairs of distinct samples.
pub struct DistanceSet {
    /// The smallest distance, or `i64::MAX` when all samples are equal.
    pub min: i64,
    /// The greatest distance, or 0 when all samples are equal.
    pub max: i64,
    /// The first pair, in trace order, at the greatest distance.
    pub max_pair: [Vector2D; 2],
    /// The first pair, in trace order, at the smallest distance.
    pub min_pair: [Vector2D; 2],
}

/// Indices `a` and `b` hold two different samples.
pub open spec fn distinct_pair(s: Seq<Vector2D>, a: int, b: int) -> bool {
    0 <= a < s.len() && 0 <= b < s.len() && s[a] != s[b]
}

/// The distance between the samples at `a` and `b`.
pub open spec fn pair_dist(s: Seq<Vector2D>, a: int, b: int) -> int {
    dist(s[a], s[b])
}

/// The ordered pair `(a, b)` comes before `(i, j)` when pairs are visited row
/// by row: every `b` for each `a` in turn.
pub open spec fn pair_before(a: int, b: int, i: int, j: int) -> bool {
    a < i || (a == i && b < j)
}

/// Some pair before `(ei, ej)` holds two different samples.
pub open spec fn has_pair_before(s: Seq<Vector2D>, ei: int, ej: int) -> bool {
    exists|a: int, b: int| #[trigger] distinct_pair(s, a, b) && pair_before(a, b, ei, ej)
}

/// Among the distinct pairs before `(ei, ej)`, `(i, j)` is the first one at the
/// greatest distance.
pub open spec fn first_max_pair_before(s: Seq<Vector2D>, ei: int, ej: int, i: int, j: int) -> bool {
    &&& distinct_pair(s, i, j)
    &&& pair_before(i, j, ei, ej)
    &&& forall|a: int, b: int|
        distinct_pair(s, a, b) && pair_before(a, b, ei, ej) ==> #[trigger] pair_dist(s, a, b)
            <= pair_dist(s, i, j)
    &&& forall|a: int, b: int|
        distinct_pair(s, a, b) && pair_before(a, b, i, j) ==> #[trigger] pair_dist(s, a, b)
            < pair_dist(s, i, j)
}

/// Among the distinct pairs before `(ei, ej)`, `(i, j)` is the first one at the
/// smallest distance.
pub open spec fn first_min_pair_before(s: Seq<Vector2D>, ei: int, ej: int, i: int, j: int) -> bool {
    &&& distinct_pair(s, i, j)
    &&& pair_before(i, j, ei, ej)
    &&& forall|a: int, b: int|
        distinct_pair(s, a, b) && pair_before(a, b, ei, ej) ==> #[trigger] pair_dist(s, a, b)
            >= pair_dist(s, i, j)
    &&& forall|a: int, b: int|
        distinct_pair(s, a, b) && pair_before(a, b, i, j) ==> #[trigger] pair_dist(s, a, b)
            > pair_dist(s, i, j)
}

/// The trace holds two different samples.
pub open spec fn has_distinct_pair(s: Seq<Vector2D>) -> bool {
    has_pair_before(s, s.len() as int, 0)
}

/// The indices of the first pair at the greatest distance.
pub open spec fn max_pair_index(s: Seq<Vector2D>) -> (int, int) {
    choose|i: int, j: int| #[trigger] first_max_pair_before(s, s.len() as int, 0, i, j)
}

/// The indices of the first pair at the smallest distance.
pub open spec fn min_pair_index(s: Seq<Vector2D>) -> (int, int) {
    choose|i: int, j: int| first_min_pair_before(s, s.len() as int, 0, i, j)
}

/// The first pair of samples, in trace order, at the greatest distance: the
/// diameter of the trace. Two origins when all samples are equal.
pub open spec fn max_pair(s: Seq<Vector2D>) -> (Vector2D, Vector2D) {
    if has_distinct_pair(s) {
        (s[max_pair_index(s).0], s[max_pair_index(s).1])
    } else {
        (origin(), origin())
    }
}

/// The greatest distance between two samples.
pub open spec fn max_pair_dist(s: Seq<Vector2D>) -> int {
    if has_distinct_pair(s) {
        pair_dist(s, max_pair_index(s).0, max_pair_index(s).1)
    } else {
        0
    }
}

/// The first pair of samples, in trace order, at the smallest distance.
pub open spec fn min_pair(s: Seq<Vector2D>) -> (Vector2D, Vector2D) {
    if has_distinct_pair(s) {
        (s[min_pair_index(s).0], s[min_pair_index(s).1])
    } else {
        (origin(), origin())
    }
}

/// The smallest distance between two different samples.
pub open spec fn min_pair_dist(s: Seq<Vector2D>) -> int {
    if has_distinct_pair(s) {
        pair_dist(s, min_pair_index(s).0, min_pair_index(s).1)
    } else {
        i64::MAX as int
    }
}

/// Whenever some distinct pair comes before `(ei, ej)`, a first one at the
/// greatest distance among them exists.
proof fn lemma_first_max_pair_exists(s: Seq<Vector2D>, ei: int, ej: int)
    requires
        0 <= ei <= s.len(),
        0 <= ej <= s.len(),
        has_pair_before(s, ei, ej),
    ensures
        exists|i: int, j: int| #[trigger] first_max_pair_before(s, ei, ej, i, j),
    decreases ei, ej,
{
    let n = s.len() as int;
    let (a0, b0) = choose|a: int, b: int| #[trigger] distinct_pair(s, a, b) && pair_before(a, b, ei, ej);
    if ej == 0 {
        assert(ei > 0);
        assert(pair_before(a0, b0, ei - 1, n));
        lemma_first_max_pair_exists(s, ei - 1, n);
        let (i, j) = choose|i: int, j: int| #[trigger] first_max_pair_before(s, ei - 1, n, i, j);
        assert forall|a: int, b: int| #[trigger] distinct_pair(s, a, b) && pair_before(a, b, ei, ej)
            implies pair_before(a, b, ei - 1, n) by {}
        assert(first_max_pair_before(s, ei, ej, i, j));
    } else {
        let pi = ei;
        let pj = ej - 1;
        let fresh = distinct_pair(s, pi, pj);
        if !has_pair_before(s, pi, pj) {
            assert forall|a: int, b: int| #[trigger] distinct_pair(s, a, b) && pair_before(a, b, ei, ej)
                implies a == pi && b == pj by {
                if !(a == pi && b == pj) {
                    assert(pair_before(a, b, pi, pj));
                }
            }
            assert(first_max_pair_before(s, ei, ej, pi, pj));
        } else {
            lemma_first_max_pair_exists(s, pi, pj);
            let (i, j) = choose|i: int, j: int| #[trigger] first_max_pair_before(s, pi, pj, i, j);
            if fresh && pair_dist(s, pi, pj) > pair_dist(s, i, j) {
                assert(first_max_pair_before(s, ei, ej, pi, pj));
            } else {
                assert(first_max_pair_before(s, ei, ej, i, j));
            }
        }
    }
}

/// A trace with two different samples has a diameter: its first pair at the
/// greatest distance.
pub proof fn lemma_max_pair_exists(s: Seq<Vector2D>)
    requires
        has_distinct_pair(s),
    ensures
        first_max_pair_before(s, s.len() as int, 0, max_pair_index(s).0, max_pair_index(s).1),
{
    lemma_first_max_pair_exists(s, s.len() as int, 0);
}

proof fn lemma_max_pair_unique(s: Seq<Vector2D>, i: int, j: int)
    requires
        first_max_pair_before(s, s.len() as int, 0, i, j),
    ensures
        max_pair_index(s) == (i, j),
        has_distinct_pair(s),
{
    let c = max_pair_index(s);
    assert(first_max_pair_before(s, s.len() as int, 0, c.0, c.1));
    assert(pair_dist(s, c.0, c.1) <= pair_dist(s, i, j));
    assert(pair_dist(s, i, j) <= pair_dist(s, c.0, c.1));
    assert(distinct_pair(s, i, j) && pair_before(i, j, s.len() as int, 0));
}

proof fn lemma_min_pair_unique(s: Seq<Vector2D>, i: int, j: int)
    requires
        first_min_pair_before(s, s.len() as int, 0, i, j),
    ensures
        min_pair_index(s) == (i, j),
        has_distinct_pair(s),
{
    let c = min_pair_index(s);
    assert(first_min_pair_before(s, s.len() as int, 0, c.0, c.1));
    assert(pair_dist(s, c.0, c.1) >= pair_dist(s, i, j));
    assert(pair_dist(s, i, j) >= pair_dist(s, c.0, c.1));
    assert(distinct_pair(s, i, j) && pair_before(i, j, s.len() as int, 0));
}

/// `r` holds the distances from `point` to the samples of `s` that differ
/// from it, tallied against a band of `band` percent around their average:
/// the extremes with the first samples that reach them (or the placeholders
/// when no sample differs), the average over all samples, and the counts.
pub open spec fn point_distances_of(r: PointDistanceSet, s: Seq<Vector2D>, point: Vector2D, band: int) -> bool {
    let (px, py) = (point.x as int, point.y as int);
    &&& r.avg == ref_avg(s, point)
    &&& r.above == ref_above(s, point, band)
    &&& r.below == ref_below(s, point, band)
    &&& r.values == s.len()
    &&& r.passes_percent == passes_percent(s, point, band)
    &&& r.min == nearest_other_dist(s, px, py)
    &&& has_other(s, px, py, s.len() as int) ==> {
        let k = farthest_index(s, px, py);
        &&& r.max == dist_from(s, px, py, k)
        &&& r.max_pair@ == seq![point, s[k]]
        &&& r.min_pair@ == seq![point, nearest_other_point(s, px, py)]
    }
    &&& !has_other(s, px, py, s.len() as int) ==> {
        &&& r.max == 0
        &&& r.max_pair@ == seq![origin(), origin()]
        &&& r.min_pair@ == seq![origin(), origin()]
    }
}

impl Shape {
    /// The centroid of the trace: the mean of the samples' coordinates,
    /// rounded toward zero.
    pub fn find_center(&self) -> (r: Vector2D)
        requires
            self.coordinates.len() >= 1,
        ensures
            r == centroid(self.coordinates@),
    {
        let ghost s = self.coordinates@;
        let n = self.coordinates.len();
        let mut sx: i128 = 0;
        let mut sy: i128 = 0;
        let mut i: usize = 0;
        while i < n
            invariant
                s == self.coordinates@,
                n == s.len(),
                0 <= i <= n,
                sx == sum_x(s.subrange(0, i as int)),
                sy == sum_y(s.subrange(0, i as int)),
                -i * 0x8000_0000 <= sx <= i * 0x7fff_ffff,
                -i * 0x8000_0000 <= sy <= i * 0x7fff_ffff,
            decreases n - i,
        {
            let p = self.coordinates[i];
            assert(s.subrange(0, i + 1).drop_last() =~= s.subrange(0, i as int));
            sx = sx + p.x as i128;
            sy = sy + p.y as i128;
            i = i + 1;
        }
        assert(s.subrange(0, n as int) =~= s);
        proof {
            lemma_mean_in_range(sx as int, n as int);
            lemma_mean_in_range(sy as int, n as int);
        }
        let cx = div_toward_zero(sx, n as i128);
        let cy = div_toward_zero(sy, n as i128);
        Vector2D { x: cx as i32, y: cy as i32 }
    }

    /// The first sample nearest to `point`, with its distance: a sample at
    /// `point` itself, at distance 0, when there is one. The origin and
    /// `i64::MAX` for an empty trace.
    pub fn get_closest_to_point(&self, point: Vector2D) -> (r: (Vector2D, i64))
        ensures
            r.0 == nearest_point(self.coordinates@, point.x as int, point.y as int),
            r.1 == nearest_dist(self.coordinates@, point.x as int, point.y as int),
    {
        closest_to(&self.coordinates, point.x as i64, point.y as i64)
    }

    /// The greatest and the smallest distance between two different samples,
    /// each with the first ordered pair of samples that reaches it.
    pub fn get_distances(&self) -> (r: DistanceSet)
        ensures
            r.max == max_pair_dist(self.coordinates@),
            r.max_pair@ == seq![max_pair(self.coordinates@).0, max_pair(self.coordinates@).1],
            r.min == min_pair_dist(self.coordinates@),
            r.min_pair@ == seq![min_pair(self.coordinates@).0, min_pair(self.coordinates@).1],
            has_distinct_pair(self.coordinates@) ==> 1 <= r.min <= r.max,
    {
        let ghost s = self.coordinates@;
        let n = self.coordinates.len();
        let mut max_distance: i64 = 0;
        let mut min_distance: i64 = i64::MAX;
        let mut max_a = Vector2D { x: 0, y: 0 };
        let mut max_b = Vector2D { x: 0, y: 0 };
        let mut min_a = Vector2D { x: 0, y: 0 };
        let mut min_b = Vector2D { x: 0, y: 0 };
        let ghost mut mi: int = -1;
        let ghost mut mj: int = -1;
        let ghost mut ni: int = -1;
        let ghost mut nj: int = -1;
        let mut i: usize = 0;
        while i < n
            invariant
                s == self.coordinates@,
                n == s.len(),
                0 <= i <= n,
                mi == -1 <==> ni == -1,
                mi == -1 ==> !has_pair_before(s, i as int, 0) && max_distance == 0
                    && min_distance == i64::MAX && max_a == origin() && max_b == origin()
                    && min_a == origin() && min_b == origin(),
                mi != -1 ==> first_max_pair_before(s, i as int, 0, mi, mj) && max_a == s[mi]
                    && max_b == s[mj] && max_distance == pair_dist(s, mi, mj),
                ni != -1 ==> first_min_pair_before(s, i as int, 0, ni, nj) && min_a == s[ni]
                    && min_b == s[nj] && min_distance == pair_dist(s, ni, nj),
            decreases n - i,
        {
            let point = self.coordinates[i];
            let mut j: usize = 0;
            while j < n
                invariant
                    s == self.coordinates@,
                    n == s.len(),
                    0 <= i < n,
                    0 <= j <= n,
                    point == s[i as int],
                    mi == -1 <==> ni == -1,
                    mi == -1 ==> !has_pair_before(s, i as int, j as int) && max_distance == 0
                        && min_distance == i64::MAX && max_a == origin() && max_b == origin()
                        && min_a == origin() && min_b == origin(),
                    mi != -1 ==> first_max_pair_before(s, i as int, j as int, mi, mj) && max_a
                        == s[mi] && max_b == s[mj] && max_distance == pair_dist(s, mi, mj),
                    ni != -1 ==> first_min_pair_before(s, i as int, j as int, ni, nj) && min_a
                        == s[ni] && min_b == s[nj] && min_distance == pair_dist(s, ni, nj),
                decreases n - j,
            {
                let other = self.coordinates[j];
                if point != other {
                    let d = point.distance(&other);
                    assert(pair_dist(s, i as int, j as int) == d);
                    proof {
                        lemma_dist_positive(point.x as int, point.y as int, other.x as int, other.y as int);
                    }
                    if d > max_distance {
                        max_distance = d;
                        max_a = point;
                        max_b = other;
                        proof {
                            mi = i as int;
                            mj = j as int;
                        }
                    }
                    if d < min_distance {
                        min_distance = d;
                        min_a = point;
                        min_b = other;
                        proof {
                            ni = i as int;
                            nj = j as int;
                        }
                    }
                }
                assert forall|a: int, b: int| #[trigger] distinct_pair(s, a, b) && pair_before(a, b, i as int, j + 1)
                    implies pair_before(a, b, i as int, j as int) || (a == i && b == j) by {}
                j = j + 1;
            }
            assert forall|a: int, b: int| #[trigger] distinct_pair(s, a, b) && pair_before(a, b, i + 1, 0)
                implies pair_before(a, b, i as int, n as int) by {}
            i = i + 1;
        }
        proof {
            if mi != -1 {
                lemma_max_pair_unique(s, mi, mj);
                lemma_min_pair_unique(s, ni, nj);
                assert(pair_dist(s, ni, nj) <= pair_dist(s, mi, mj));
                lemma_dist_positive(s[ni].x as int, s[ni].y as int, s[nj].x as int, s[nj].y as int);
            }
        }
        let max_pair = [max_a, max_b];
        let min_pair = [min_a, min_b];
        assert(max_pair@ =~= seq![max_a, max_b]);
        assert(min_pair@ =~= seq![min_a, min_b]);
        DistanceSet { min: min_distance, max: max_distance, max_pair, min_pair }
    }

    /// Distances from `point` to every sample that differs from it, tallied
    /// against the standard tolerance band, `CIRCLE_TOLERANCE_PERCENT`.
    pub fn get_point_distances(&self, point: Vector2D) -> (r: PointDistanceSet)
        requires
            self.coordinates.len() >= 1,
        ensures
            point_distances_of(r, self.coordinates@, point, CIRCLE_TOLERANCE_PERCENT as int),
    {
        self.get_point_distances_within(point, CIRCLE_TOLERANCE_PERCENT)
    }

    /// Distances from `point` to every sample that differs from it: their
    /// extremes with the first samples that reach them, their average over
    /// all samples, and the tally against a band of `band_percent` percent
    /// of that average on either side of it.
    pub fn get_point_distances_within(&self, point: Vector2D, band_percent: u32) -> (r: PointDistanceSet)
        requires
            self.coordinates.len() >= 1,
        ensures
            point_distances_of(r, self.coordinates@, point, band_percent as int),
    {
        let ghost s = self.coordinates@;
        let ghost px = point.x as int;
        let ghost py = point.y as int;
        let n = self.coordinates.len();
        let (distances, sum) = reference_distances(&self.coordinates, point);
        let ghost d = ref_dists(s, point);
        proof {
            lemma_ref_dists_len(s, point);
            lemma_avg_bounded(sum as int, n as int, distances@.len() as int, 0x20_0000_0000);
        }
        let average: i64 = (sum / (n as u128)) as i64;
        assert(0 <= average * band_percent <= 0x20_0000_0000 * 0x1_0000_0000) by (nonlinear_arith)
            requires
                0 <= average <= 0x20_0000_0000,
                band_percent <= 0xffff_ffff,
        ;
        let tolerance: i128 = (average as i128) * (band_percent as i128) / 100;
        let mut above: usize = 0;
        let mut below: usize = 0;
        let mut j: usize = 0;
        while j < distances.len()
            invariant
                d == ref_dists(s, point),
                distances@.len() == d.len(),
                d.len() <= n,
                forall|t: int| 0 <= t < distances@.len() ==> distances@[t] == d[t],
                forall|t: int| 0 <= t < distances@.len() ==> 0 <= #[trigger] distances@[t] < 0x20_0000_0000,
                0 <= average <= 0x20_0000_0000,
                0 <= tolerance <= 0x20_0000_0000 * 0x1_0000_0000,
                0 <= j <= distances@.len(),
                above == count_above(d.subrange(0, j as int), average as int, tolerance as int),
                below == count_below(d.subrange(0, j as int), average as int, tolerance as int),
                above + below <= j,
            decreases distances@.len() - j,
        {
            let v = distances[j];
            assert(d.subrange(0, j + 1).drop_last() =~= d.subrange(0, j as int));
            assert(d.subrange(0, j + 1).last() == v);
            if v as i128 - tolerance > average as i128 {
                above = above + 1;
            }
            if v as i128 + tolerance < average as i128 {
                below = below + 1;
            }
            j = j + 1;
        }
        assert(d.subrange(0, d.len() as int) =~= d);
        let passed: usize = n - (above + below);
        proof {
            lemma_percent_bounded(passed as int, n as int);
        }
        let percent: u128 = 100 * (passed as u128) / (n as u128);
        let (near, min_distance) = closest_other_to(&self.coordinates, point.x as i64, point.y as i64);
        let (far, max_distance) = farthest_from(&self.coordinates, point);
        assert(average == ref_avg(s, point));
        assert(above == ref_above(s, point, band_percent as int));
        assert(below == ref_below(s, point, band_percent as int));
        assert(percent == passes_percent(s, point, band_percent as int));
        let origin_point = Vector2D { x: 0, y: 0 };
        let found = max_distance > 0;
        let max_pair = if found {
            [point, far]
        } else {
            [origin_point, origin_point]
        };
        let min_pair = if found {
            [point, near]
        } else {
            [origin_point, origin_point]
        };
        assert(found ==> max_pair@ =~= seq![point, far]);
        assert(found ==> min_pair@ =~= seq![point, near]);
        assert(!found ==> max_pair@ =~= seq![origin(), origin()]);
        assert(!found ==> min_pair@ =~= seq![origin(), origin()]);
        PointDistanceSet {
            min: min_distance,
            max: max_distance,
            avg: average,
            above,
            below,
            values: n,
            passes_percent: percent as u32,
            max_pair,
            min_pair,
        }
    }
}

/// The first sample farthest from `point` among those that differ from it,
/// with its distance; the origin and 0 when there is none.
fn farthest_from(coordinates: &Vec<Vector2D>, point: Vector2D) -> (r: (Vector2D, i64))
    ensures
        ({
            let s = coordinates@;
            let (px, py) = (point.x as int, point.y as int);
            &&& has_other(s, px, py, s.len() as int) ==> {
                let k = farthest_index(s, px, py);
                r.1 == dist_from(s, px, py, k) && r.0 == s[k] && r.1 >= 1
            }
            &&& !has_other(s, px, py, s.len() as int) ==> r.1 == 0 && r.0 == origin()
        }),
{
    let ghost s = coordinates@;
    let ghost px = point.x as int;
    let ghost py = point.y as int;
    let mut max_distance: i64 = 0;
    let mut max_point: Vector2D = Vector2D { x: 0, y: 0 };
    let ghost mut k: int = -1;
    let mut i: usize = 0;
    while i < coordinates.len()
        invariant
            s == coordinates@,
            px == point.x,
            py == point.y,
            0 <= i <= s.len(),
            k == -1 ==> !has_other(s, px, py, i as int) && max_distance == 0 && max_point == origin(),
            k != -1 ==> first_farthest_in(s, px, py, i as int, k) && max_point == s[k]
                && max_distance == dist_from(s, px, py, k),
        decreases s.len() - i,
    {
        let other = coordinates[i];
        if point != other {
            let d = point.distance(&other);
            assert(dist_from(s, px, py, i as int) == d);
            proof {
                lemma_dist_positive(px, py, other.x as int, other.y as int);
            }
            if d > max_distance {
                max_distance = d;
                max_point = other;
                proof {
                    k = i as int;
                }
            }
        }
        assert(has_other(s, px, py, i + 1) ==> has_other(s, px, py, i as int) || differs(
            s[i as int],
            px,
            py,
        ));
        i = i + 1;
    }
    proof {
        if k != -1 {
            lemma_farthest_unique(s, px, py, k);
            lemma_dist_positive(px, py, s[k].x as int, s[k].y as int);
        }
    }
    (max_point, max_distance)
}


} // verus!
