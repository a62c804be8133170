//! The classifier: from a finished trace to a shape label and a confidence.
use vstd::prelude::*;

use crate::geometry::{
    Vector2D, abs_of, dist, div_toward_zero, in_probe_range, line_offset, near_line, trunc_div,
};
use crate::stats::{
    CIRCLE_TOLERANCE_PERCENT, centroid, closest_to, max_pair, max_pair_dist, nearest_point,
    passes_percent,
};

verus! {

/// The label of a trace. `Undefined` marks a trace that was not classified yet.
#[derive(Clone, Copy, Debug, PartialEq, Eq, Structural)]
pub enum ShapeName {
    Circle,
    Ellipse,
    Line,
    Unknown,
    Undefined,
}

/// A recorded trace and its label.
pub struct Shape {
    pub coordinates: Vec<Vector2D>,
    pub shape_type: ShapeName,
}

/// A label with its confidence in percent.
#[derive(Clone, Copy, Debug, PartialEq, Eq, Structural)]
pub struct Classification {
    pub shape: ShapeName,
    pub confidence: u32,
}

/// Why a trace cannot be classified.
#[derive(Clone, Copy, Debug, PartialEq, Eq, Structural)]
pub enum ClassifyError {
    /// The trace holds fewer than two samples.
    InsufficientSamples,
}

/// The standard share of a test that may fail, in percent, for a shape to be
/// accepted.
pub const TOLERANCE_GENERAL_PERCENT: u32 = 25;

/// The standard distance, in pixels, that a sample may lie from a line and
/// still be on it.
pub const LINE_TOLERANCE_PX: u16 = 10;

/// The standard distance, in pixels, that the centroid may lie from the
/// middle of the diameter for the ellipse test to run.
pub const ELLIPSE_CENTRUM_TOLERANCE_PX: u32 = 100;

/// The standard amount, in percent, by which a mirrored probe's offset from
/// the major axis may differ from the probe's own.
pub const ELLIPSE_TOLERANCE_PERCENT: u32 = 50;

/// The tolerances that the classifier's tests apply.
#[derive(Clone, Copy, Debug, PartialEq, Eq, Structural)]
pub struct Tolerances {
    /// The share of a test that may fail, in percent, for its shape to be accepted.
    pub general_percent: u32,
    /// The half-width of the band around the average distance from the
    /// centroid, in percent of that average.
    pub circle_percent: u32,
    /// How far, in pixels, a sample may lie from a line and still be on it.
    pub line_px: u16,
    /// How far, in pixels, the centroid may lie from the middle of the
    /// diameter for the ellipse test to run.
    pub ellipse_centrum_px: u32,
    /// How far, in percent, a mirrored probe's offset from the major axis may
    /// differ from the probe's own.
    pub ellipse_percent: u32,
}

impl Tolerances {
    /// The standard tolerances.
    pub fn standard() -> (r: Tolerances)
        ensures
            r == (Tolerances {
                general_percent: TOLERANCE_GENERAL_PERCENT,
                circle_percent: CIRCLE_TOLERANCE_PERCENT,
                line_px: LINE_TOLERANCE_PX,
                ellipse_centrum_px: ELLIPSE_CENTRUM_TOLERANCE_PX,
                ellipse_percent: ELLIPSE_TOLERANCE_PERCENT,
            }),
    {
        Tolerances {
            general_percent: TOLERANCE_GENERAL_PERCENT,
            circle_percent: CIRCLE_TOLERANCE_PERCENT,
            line_px: LINE_TOLERANCE_PX,
            ellipse_centrum_px: ELLIPSE_CENTRUM_TOLERANCE_PX,
            ellipse_percent: ELLIPSE_TOLERANCE_PERCENT,
        }
    }
}

/// The standard tolerances, as a specification value.
pub open spec fn standard_tolerances() -> Tolerances {
    Tolerances {
        general_percent: TOLERANCE_GENERAL_PERCENT,
        circle_percent: CIRCLE_TOLERANCE_PERCENT,
        line_px: LINE_TOLERANCE_PX,
        ellipse_centrum_px: ELLIPSE_CENTRUM_TOLERANCE_PX,
        ellipse_percent: ELLIPSE_TOLERANCE_PERCENT,
    }
}

/// The lowest confidence, in percent, at which a shape is accepted.
pub open spec fn acceptance(t: Tolerances) -> int {
    100 - t.general_percent
}

/// How many samples lie within `px` pixels of the line through `b` and `c`.
pub open spec fn count_near_line(s: Seq<Vector2D>, b: Vector2D, c: Vector2D, px: int) -> nat
    decreases s.len(),
{
    if s.len() == 0 {
        0
    } else {
        count_near_line(s.drop_last(), b, c, px) + if near_line(s.last(), b, c, px) {
            1nat
        } else {
            0nat
        }
    }
}

/// The share of samples within `px` pixels of the line through the first
/// and the last sample, in percent, rounded down.
pub open spec fn line_percent(s: Seq<Vector2D>, px: int) -> int {
    (100 * count_near_line(s, s[0], s.last(), px)) as int / s.len() as int
}

/// The confidence of the circle test: the share of samples whose distance
/// from the centroid lies within a band of `band` percent around the average.
pub open spec fn circle_percent(s: Seq<Vector2D>, band: int) -> int {
    passes_percent(s, centroid(s), band)
}

/// The diameter's length equals the distance from the first to the last sample.
pub open spec fn ends_are_diameter(s: Seq<Vector2D>) -> bool {
    max_pair_dist(s) == dist(s[0], s.last())
}

/// The middle of the diameter, each coordinate rounded toward zero.
pub open spec fn axis_mid(s: Seq<Vector2D>) -> Vector2D {
    Vector2D {
        x: trunc_div(max_pair(s).0.x + max_pair(s).1.x, 2) as i32,
        y: trunc_div(max_pair(s).0.y + max_pair(s).1.y, 2) as i32,
    }
}

/// The frame of the ellipse symmetry probe: the major axis `p0`-`p1`, its
/// middle, and the step from one probe to the next.
#[derive(Clone, Copy)]
pub struct ProbeAxis {
    pub p0: Vector2D,
    pub p1: Vector2D,
    pub mid: Vector2D,
    pub step_x: i64,
    pub step_y: i64,
}

/// The probe frame of a trace: the step is `(centroid - p1) / (len / 2)`,
/// rounded toward zero.
pub open spec fn probe_axis(s: Seq<Vector2D>) -> ProbeAxis {
    let c = centroid(s);
    let p1 = max_pair(s).1;
    let k = (s.len() / 2) as int;
    ProbeAxis {
        p0: max_pair(s).0,
        p1,
        mid: axis_mid(s),
        step_x: trunc_div(c.x - p1.x, k) as i64,
        step_y: trunc_div(c.y - p1.y, k) as i64,
    }
}

/// The `i`th probe: `mid + step * i`.
pub open spec fn probe_at(a: ProbeAxis, i: int) -> (int, int) {
    (a.mid.x + a.step_x * i, a.mid.y + a.step_y * i)
}

/// The sample nearest to the `i`th probe.
pub open spec fn probe_nearest(s: Seq<Vector2D>, a: ProbeAxis, i: int) -> Vector2D {
    nearest_point(s, probe_at(a, i).0, probe_at(a, i).1)
}

/// The offset of `probe_nearest` from the major axis.
pub open spec fn probe_offset(s: Seq<Vector2D>, a: ProbeAxis, i: int) -> int {
    line_offset(probe_nearest(s, a, i), a.p0, a.p1)
}

/// The `i`th probe reflected across its nearest sample:
/// `probe + (probe - nearest) * 2`.
pub open spec fn mirror_at(s: Seq<Vector2D>, a: ProbeAxis, i: int) -> (int, int) {
    let p = probe_at(a, i);
    let q = probe_nearest(s, a, i);
    (p.0 + (p.0 - q.x) * 2, p.1 + (p.1 - q.y) * 2)
}

/// The offset from the major axis of the sample nearest to the mirrored probe.
pub open spec fn mirror_offset(s: Seq<Vector2D>, a: ProbeAxis, i: int) -> int {
    line_offset(nearest_point(s, mirror_at(s, a, i).0, mirror_at(s, a, i).1), a.p0, a.p1)
}

/// The mirrored offset lies outside `offset * (1 ± e / 100)`.
pub open spec fn asymmetric_at(s: Seq<Vector2D>, a: ProbeAxis, e: int, i: int) -> bool {
    let d = probe_offset(s, a, i);
    let m = mirror_offset(s, a, i);
    100 * m > (100 + e) * d || 100 * m < (100 - e) * d
}

/// The offset grew from the previous probe; the first probe never grows.
pub open spec fn grows_at(s: Seq<Vector2D>, a: ProbeAxis, i: int) -> bool {
    i >= 2 && probe_offset(s, a, i) > probe_offset(s, a, i - 1)
}

/// How many of the probes `1..m` grow.
pub open spec fn grow_count(s: Seq<Vector2D>, a: ProbeAxis, m: int) -> nat
    decreases m,
{
    if m <= 1 {
        0
    } else {
        grow_count(s, a, m - 1) + if grows_at(s, a, m - 1) {
            1nat
        } else {
            0nat
        }
    }
}

/// How many of the probes `1..m` are asymmetric at tolerance `e`.
pub open spec fn error_count(s: Seq<Vector2D>, a: ProbeAxis, e: int, m: int) -> nat
    decreases m,
{
    if m <= 1 {
        0
    } else {
        error_count(s, a, e, m - 1) + if asymmetric_at(s, a, e, m - 1) {
            1nat
        } else {
            0nat
        }
    }
}

/// The label and confidence of a trace with at least two samples.
///
/// The tests run in order: circle (the samples' distances from the centroid
/// agree), line (the ends are the diameter and the samples lie near the line
/// through them), ellipse (the centroid lies near the middle of the diameter
/// and the probes along the minor axis are symmetric and shrinking).
pub open spec fn classification(s: Seq<Vector2D>, t: Tolerances) -> (ShapeName, int) {
    let c = centroid(s);
    let circle = passes_percent(s, c, t.circle_percent as int);
    if circle >= acceptance(t) {
        (ShapeName::Circle, circle)
    } else if ends_are_diameter(s) {
        if s[0] == s.last() {
            (ShapeName::Unknown, 0)
        } else {
            let line = line_percent(s, t.line_px as int);
            if line >= acceptance(t) {
                (ShapeName::Line, line)
            } else {
                (ShapeName::Unknown, line)
            }
        }
    } else if dist(c, axis_mid(s)) > t.ellipse_centrum_px {
        (ShapeName::Unknown, circle)
    } else if s.len() / 2 <= 1 {
        (ShapeName::Unknown, 0)
    } else {
        let k = (s.len() / 2) as int;
        let a = probe_axis(s);
        let bad = grow_count(s, a, k) + error_count(s, a, t.ellipse_percent as int, k);
        let confidence = (200 * (k - 1) - 100 * bad) / (2 * (k - 1));
        if 100 * bad <= 2 * t.general_percent * (k - 1) {
            (ShapeName::Ellipse, confidence)
        } else {
            (ShapeName::Unknown, confidence)
        }
    }
}

proof fn lemma_share_bounded(x: int, m: int)
    requires
        0 <= x <= 100 * m,
        m > 0,
    ensures
        0 <= x / m <= 100,
{
    vstd::arithmetic::div_mod::lemma_div_is_ordered(x, 100 * m, m);
    vstd::arithmetic::div_mod::lemma_div_multiples_vanish(100, m);
    vstd::arithmetic::div_mod::lemma_div_pos_is_pos(x, m);
}

/// `|trunc_div(a, k)| * k <= |a|`.
proof fn lemma_step_bound(a: int, k: int)
    requires
        k > 0,
    ensures
        abs_of(trunc_div(a, k)) * k <= abs_of(a),
        abs_of(trunc_div(a, k)) <= abs_of(a),
{
    let m = abs_of(a);
    vstd::arithmetic::div_mod::lemma_fundamental_div_mod(m, k);
    vstd::arithmetic::div_mod::lemma_div_pos_is_pos(m, k);
    assert(abs_of(trunc_div(a, k)) == m / k);
    assert(m / k * k <= m) by (nonlinear_arith)
        requires
            m == k * (m / k) + m % k,
            m % k >= 0,
    ;
    assert(m / k <= m / k * k) by (nonlinear_arith)
        requires
            m / k >= 0,
            k >= 1,
    ;
}

proof fn lemma_scaled_step(step: int, k: int, i: int)
    requires
        abs_of(step) * k <= 0x1_0000_0000,
        0 <= i < k,
    ensures
        -0x1_0000_0000 <= step * i <= 0x1_0000_0000,
{
    assert(abs_of(step) * i <= abs_of(step) * k) by (nonlinear_arith)
        requires
            0 <= i < k,
            abs_of(step) >= 0,
    ;
    assert(abs_of(step * i) == abs_of(step) * i) by (nonlinear_arith)
        requires
            i >= 0,
    ;
}

/// Runs the probes `1..k` and counts those that grow and those that are
/// asymmetric.
fn ellipse_tally(coordinates: &Vec<Vector2D>, axis: ProbeAxis, k: usize, e: u32) -> (r: (usize, usize))
    requires
        1 <= k < 0x8000_0000_0000_0000,
        abs_of(axis.step_x as int) * k <= 0x1_0000_0000,
        abs_of(axis.step_y as int) * k <= 0x1_0000_0000,
    ensures
        r.0 == grow_count(coordinates@, axis, k as int),
        r.1 == error_count(coordinates@, axis, e as int, k as int),
        r.0 + r.1 <= 2 * (k - 1),
{
    let ghost s = coordinates@;
    let mut grow: usize = 0;
    let mut errors: usize = 0;
    let mut last: u128 = 0;
    let mut i: usize = 1;
    while i < k
        invariant
            s == coordinates@,
            1 <= i <= k,
            k < 0x8000_0000_0000_0000,
            abs_of(axis.step_x as int) * k <= 0x1_0000_0000,
            abs_of(axis.step_y as int) * k <= 0x1_0000_0000,
            grow == grow_count(s, axis, i as int),
            errors == error_count(s, axis, e as int, i as int),
            grow <= i - 1,
            errors <= i - 1,
            i >= 2 ==> last == probe_offset(s, axis, i - 1),
        decreases k - i,
    {
        proof {
            lemma_scaled_step(axis.step_x as int, k as int, i as int);
            lemma_scaled_step(axis.step_y as int, k as int, i as int);
        }
        let px: i64 = axis.mid.x as i64 + axis.step_x * (i as i64);
        let py: i64 = axis.mid.y as i64 + axis.step_y * (i as i64);
        let (near, _) = closest_to(coordinates, px, py);
        let offset: u128 = near.line_offset(axis.p0, axis.p1);
        let mx: i64 = px + (px - near.x as i64) * 2;
        let my: i64 = py + (py - near.y as i64) * 2;
        let (mirrored, _) = closest_to(coordinates, mx, my);
        let mirrored_offset: u128 = mirrored.line_offset(axis.p0, axis.p1);
        assert(offset == probe_offset(s, axis, i as int));
        assert(mirrored_offset == mirror_offset(s, axis, i as int));
        let e_wide: u128 = e as u128;
        assert(e_wide * offset <= 0x1_0000_0000 * 0x4_0000_0000_0000_0000) by (nonlinear_arith)
            requires
                e_wide <= 0x1_0000_0000,
                offset <= 0x4_0000_0000_0000_0000,
        ;
        let spread: u128 = e_wide * offset;
        assert((100 + e) * offset == 100 * offset + spread && (100 - e) * offset == 100 * offset
            - spread) by (nonlinear_arith)
            requires
                spread == e * offset,
        ;
        if 100 * mirrored_offset > 100 * offset + spread || 100 * mirrored_offset + spread < 100
            * offset {
            errors = errors + 1;
        }
        if i >= 2 && offset > last {
            grow = grow + 1;
        }
        last = offset;
        i = i + 1;
    }
    (grow, errors)
}

impl Shape {
    /// Classifies a trace of at least two samples.
    fn classify_trace(&self, t: Tolerances) -> (r: Classification)
        requires
            self.coordinates.len() >= 2,
        ensures
            r.shape == classification(self.coordinates@, t).0,
            r.confidence == classification(self.coordinates@, t).1,
    {
        let ghost s = self.coordinates@;
        let n = self.coordinates.len();
        let center = self.find_center();
        let circle: u32 = self.get_point_distances_within(center, t.circle_percent).passes_percent;
        if circle as u64 + t.general_percent as u64 >= 100 {
            return Classification { shape: ShapeName::Circle, confidence: circle };
        }
        let distances = self.get_distances();
        let first = self.coordinates[0];
        let last = self.coordinates[n - 1];
        if distances.max == first.distance(&last) {
            if first == last {
                return Classification { shape: ShapeName::Unknown, confidence: 0 };
            }
            let mut near: usize = 0;
            let mut i: usize = 0;
            while i < n
                invariant
                    s == self.coordinates@,
                    n == s.len(),
                    first == s[0],
                    last == s.last(),
                    0 <= i <= n,
                    near == count_near_line(s.subrange(0, i as int), first, last, t.line_px as int),
                    near <= i,
                decreases n - i,
            {
                let p = self.coordinates[i];
                assert(s.subrange(0, i + 1).drop_last() =~= s.subrange(0, i as int));
                if p.within_line_distance(first, last, t.line_px) {
                    near = near + 1;
                }
                i = i + 1;
            }
            assert(s.subrange(0, n as int) =~= s);
            proof {
                lemma_share_bounded(100 * near, n as int);
            }
            let percent: u32 = (100 * (near as u128) / (n as u128)) as u32;
            if percent as u64 + t.general_percent as u64 >= 100 {
                return Classification { shape: ShapeName::Line, confidence: percent };
            }
            return Classification { shape: ShapeName::Unknown, confidence: percent };
        }
        let p0 = distances.max_pair[0];
        let p1 = distances.max_pair[1];
        proof {
            crate::stats::lemma_mean_in_range(p0.x + p1.x, 2);
            crate::stats::lemma_mean_in_range(p0.y + p1.y, 2);
        }
        let mid = Vector2D {
            x: div_toward_zero(p0.x as i128 + p1.x as i128, 2) as i32,
            y: div_toward_zero(p0.y as i128 + p1.y as i128, 2) as i32,
        };
        assert(mid == axis_mid(s));
        if center.distance(&mid) > t.ellipse_centrum_px as i64 {
            return Classification { shape: ShapeName::Unknown, confidence: circle };
        }
        let k: usize = n / 2;
        if k <= 1 {
            return Classification { shape: ShapeName::Unknown, confidence: 0 };
        }
        proof {
            lemma_step_bound(center.x - p1.x, k as int);
            lemma_step_bound(center.y - p1.y, k as int);
        }
        let step_x = div_toward_zero(center.x as i128 - p1.x as i128, k as i128) as i64;
        let step_y = div_toward_zero(center.y as i128 - p1.y as i128, k as i128) as i64;
        let axis = ProbeAxis { p0, p1, mid, step_x, step_y };
        assert(axis == probe_axis(s));
        let (grow, errors) = ellipse_tally(&self.coordinates, axis, k, t.ellipse_percent);
        let probes: u128 = (k - 1) as u128;
        let bad: u128 = grow as u128 + errors as u128;
        proof {
            lemma_share_bounded(200 * probes - 100 * bad, 2 * probes);
        }
        let confidence: u32 = ((200 * probes - 100 * bad) / (2 * probes)) as u32;
        let general: u128 = t.general_percent as u128;
        assert(2 * general * probes <= 2 * 0x1_0000_0000 * 0x1_0000_0000_0000_0000) by (nonlinear_arith)
            requires
                general <= 0x1_0000_0000,
                probes <= 0x1_0000_0000_0000_0000,
        ;
        if 100 * bad <= 2 * general * probes {
            Classification { shape: ShapeName::Ellipse, confidence }
        } else {
            Classification { shape: ShapeName::Unknown, confidence }
        }
    }

    /// Classifies the trace under the given tolerances, or fails when it
    /// holds fewer than two samples.
    pub fn classify_with(&self, tolerances: Tolerances) -> (r: Result<Classification, ClassifyError>)
        ensures
            self.coordinates.len() < 2 ==> r == Err::<Classification, ClassifyError>(
                ClassifyError::InsufficientSamples,
            ),
            self.coordinates.len() >= 2 ==> r == Ok::<Classification, ClassifyError>(
                Classification {
                    shape: classification(self.coordinates@, tolerances).0,
                    confidence: classification(self.coordinates@, tolerances).1 as u32,
                },
            ),
    {
        if self.coordinates.len() < 2 {
            Err(ClassifyError::InsufficientSamples)
        } else {
            Ok(self.classify_trace(tolerances))
        }
    }

    /// Classifies the trace under the standard tolerances, or fails when it
    /// holds fewer than two samples.
    pub fn classify(&self) -> (r: Result<Classification, ClassifyError>)
        ensures
            self.coordinates.len() < 2 ==> r == Err::<Classification, ClassifyError>(
                ClassifyError::InsufficientSamples,
            ),
            self.coordinates.len() >= 2 ==> r == Ok::<Classification, ClassifyError>(
                Classification {
                    shape: classification(self.coordinates@, standard_tolerances()).0,
                    confidence: classification(self.coordinates@, standard_tolerances()).1 as u32,
                },
            ),
    {
        self.classify_with(Tolerances::standard())
    }

    /// The label of a trace of at least two samples, under the standard
    /// tolerances.
    pub fn get_shape_name(&self) -> (r: ShapeName)
        requires
            self.coordinates.len() >= 2,
        ensures
            r == classification(self.coordinates@, standard_tolerances()).0,
    {
        self.classify_trace(Tolerances::standard()).shape
    }
}

} // verus!
