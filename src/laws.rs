//! Properties of the measurements and of the classifier, stated over the
//! specification functions that the executable code is proved against.
use vstd::prelude::*;

use crate::geometry::{
    Vector2D, abs_of, dist, is_floor_sqrt, lemma_floor_sqrt_exists, lemma_floor_sqrt_unique,
    line_offset, near_line, sq, sq_len,
};
use crate::shape::{
    ShapeName, Tolerances, acceptance, circle_percent, classification, count_near_line,
    ends_are_diameter, line_percent,
};
use crate::stats::{
    distinct_pair, has_distinct_pair, lemma_max_pair_exists, max_pair_dist, max_pair_index,
    pair_before, pair_dist,
};

verus! {

/// Classification is a function of the samples and the tolerances alone:
/// equal traces get the same label and the same confidence, on every call.
pub proof fn classification_is_deterministic(a: Seq<Vector2D>, b: Seq<Vector2D>, t: Tolerances)
    requires
        a == b,
    ensures
        classification(a, t) == classification(b, t),
{
}

/// Every distance is the square root of the squared length rounded down,
/// whichever pair it is taken between: pairs whose exact lengths are equal
/// get equal distances, and a distance does not depend on the direction.
pub proof fn distance_truncation_is_consistent(a: Vector2D, b: Vector2D, c: Vector2D, d: Vector2D)
    requires
        sq_len(a, b) == sq_len(c, d),
    ensures
        dist(a, b) == dist(c, d),
        dist(a, b) == dist(b, a),
        is_floor_sqrt(dist(a, b), sq_len(a, b)),
{
    assert(sq_len(a, b) >= 0) by (nonlinear_arith)
        requires
            sq_len(a, b) == (a.x - b.x) * (a.x - b.x) + (a.y - b.y) * (a.y - b.y),
    ;
    assert(sq(a.x - b.x) == sq(b.x - a.x) && sq(a.y - b.y) == sq(b.y - a.y)) by (nonlinear_arith);
    lemma_floor_sqrt_exists(sq_len(a, b));
}

/// Between two samples on one row the distance is the difference of their x.
proof fn lemma_row_distance(a: Vector2D, b: Vector2D)
    requires
        a.y == b.y,
    ensures
        dist(a, b) == abs_of(a.x - b.x),
{
    let d = a.x - b.x;
    let m = abs_of(d);
    assert(m * m <= sq(d) + sq(0int) < (m + 1) * (m + 1)) by (nonlinear_arith)
        requires
            m == abs_of(d),
    ;
    lemma_floor_sqrt_unique(m, sq(d) + sq(0int));
}

/// Samples on the row of `b` and `c` lie on the line through them.
proof fn lemma_row_near_line(t: Seq<Vector2D>, b: Vector2D, c: Vector2D, px: int)
    requires
        b.y == c.y,
        forall|i: int| 0 <= i < t.len() ==> #[trigger] t[i].y == b.y,
    ensures
        count_near_line(t, b, c, px) == t.len(),
    decreases t.len(),
{
    if t.len() > 0 {
        let q = t.last();
        assert(t.drop_last().len() == t.len() - 1);
        assert forall|i: int| 0 <= i < t.drop_last().len() implies #[trigger] t.drop_last()[i].y == b.y by {
            assert(t.drop_last()[i] == t[i]);
        }
        lemma_row_near_line(t.drop_last(), b, c, px);
        assert(q.y == b.y);
        assert(line_offset(q, b, c) == 0) by (nonlinear_arith)
            requires
                q.y == b.y,
                b.y == c.y,
        ;
        assert(0 <= sq(px) * sq_len(b, c)) by (nonlinear_arith);
        assert(near_line(q, b, c, px));
    }
}

/// A stroke along one row, whose x never increases and whose ends differ,
/// is a line with full confidence, unless its samples already pass the
/// circle test, which runs first.
pub proof fn horizontal_stroke_is_line(s: Seq<Vector2D>, t: Tolerances)
    requires
        s.len() >= 2,
        forall|i: int| 0 <= i < s.len() ==> #[trigger] s[i].y == s[0].y,
        forall|i: int, j: int| 0 <= i <= j < s.len() ==> #[trigger] s[j].x <= #[trigger] s[i].x,
        s[0].x > s.last().x,
        circle_percent(s, t.circle_percent as int) < acceptance(t),
    ensures
        classification(s, t) == (ShapeName::Line, 100int),
{
    let n = s.len() as int;
    let span = s[0].x - s.last().x;
    assert forall|a: int, b: int| distinct_pair(s, a, b) implies #[trigger] pair_dist(s, a, b) <= span by {
        assert(s[a].x <= s[0].x && s.last().x <= s[a].x);
        assert(s[b].x <= s[0].x && s.last().x <= s[b].x);
        lemma_row_distance(s[a], s[b]);
    }
    assert(distinct_pair(s, 0, n - 1) && pair_before(0, n - 1, n, 0));
    assert(has_distinct_pair(s));
    lemma_max_pair_exists(s);
    let (i, j) = max_pair_index(s);
    lemma_row_distance(s[0], s.last());
    assert(pair_dist(s, 0, n - 1) <= pair_dist(s, i, j));
    assert(max_pair_dist(s) == span);
    assert(ends_are_diameter(s));
    lemma_row_near_line(s, s[0], s.last(), t.line_px as int);
    vstd::arithmetic::div_mod::lemma_div_multiples_vanish(100, n);
    assert(line_percent(s, t.line_px as int) == 100);
}

/// A trace whose circle test lands exactly on the acceptance threshold is a
/// circle: the threshold is inclusive.
pub proof fn circle_threshold_is_inclusive(s: Seq<Vector2D>, t: Tolerances)
    requires
        s.len() >= 2,
        circle_percent(s, t.circle_percent as int) == acceptance(t),
    ensures
        classification(s, t) == (ShapeName::Circle, acceptance(t)),
{
}

/// A trace that reaches the line test and lands exactly on the acceptance
/// threshold is a line: the threshold is inclusive.
pub proof fn line_threshold_is_inclusive(s: Seq<Vector2D>, t: Tolerances)
    requires
        s.len() >= 2,
        circle_percent(s, t.circle_percent as int) < acceptance(t),
        ends_are_diameter(s),
        s[0] != s.last(),
        line_percent(s, t.line_px as int) == acceptance(t),
    ensures
        classification(s, t) == (ShapeName::Line, acceptance(t)),
{
}

} // verus!
