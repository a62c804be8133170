//! Integer points and the exact measurements taken on them.
use vstd::prelude::*;

verus! {

/// A pointer sample: a screen position in whole pixels.
#[derive(Clone, Copy, Debug, PartialEq, Eq, Structural)]
pub struct Vector2D {
    pub x: i32,
    pub y: i32,
}

/// The largest coordinate magnitude of a point that distances are measured
/// from: the samples themselves, and the probe points of the ellipse test,
/// which may lie a few screen widths away.
pub const PROBE_BOUND: i64 = 0x8_0000_0000;

/// `v` squared.
pub open spec fn sq(v: int) -> int {
    v * v
}

/// The absolute value of `v`.
pub open spec fn abs_of(v: int) -> int {
    if v < 0 {
        -v
    } else {
        v
    }
}

/// `r` is the square root of `n`, rounded down.
pub open spec fn is_floor_sqrt(r: int, n: int) -> bool {
    0 <= r && r * r <= n < (r + 1) * (r + 1)
}

/// The square root of `n`, rounded down (see `lemma_floor_sqrt_exists`).
pub open spec fn floor_sqrt(n: int) -> int {
    choose|r: int| is_floor_sqrt(r, n)
}

/// Division that rounds toward zero, as Rust's integer `/` does.
pub open spec fn trunc_div(a: int, k: int) -> int {
    if k > 0 {
        if a >= 0 {
            a / k
        } else {
            -((-a) / k)
        }
    } else if a >= 0 {
        -(a / (-k))
    } else {
        (-a) / (-k)
    }
}

/// The Euclidean distance between `(ax, ay)` and `(bx, by)`, rounded down.
pub open spec fn dist_xy(ax: int, ay: int, bx: int, by: int) -> int {
    floor_sqrt(sq(ax - bx) + sq(ay - by))
}

/// The Euclidean distance between two samples, rounded down.
pub open spec fn dist(a: Vector2D, b: Vector2D) -> int {
    dist_xy(a.x as int, a.y as int, b.x as int, b.y as int)
}

/// `v` is a coordinate that distances may be measured from.
pub open spec fn in_probe_range(v: int) -> bool {
    -PROBE_BOUND <= v <= PROBE_BOUND
}

/// The rounded-down square root is unique.
pub proof fn lemma_floor_sqrt_unique(r: int, n: int)
    requires
        is_floor_sqrt(r, n),
    ensures
        floor_sqrt(n) == r,
{
    let c = floor_sqrt(n);
    assert(is_floor_sqrt(c, n));
    if c < r {
        assert((c + 1) * (c + 1) <= r * r) by (nonlinear_arith)
            requires
                0 <= c < r,
        ;
    } else if r < c {
        assert((r + 1) * (r + 1) <= c * c) by (nonlinear_arith)
            requires
                0 <= r < c,
        ;
    }
}

/// The square root of `n`, rounded down, by bisection.
fn floor_sqrt_u128(n: u128) -> (r: u64)
    requires
        n < 0x400_0000_0000_0000_0000,
    ensures
        is_floor_sqrt(r as int, n as int),
        r < 0x20_0000_0000,
{
    let mut lo: u128 = 0;
    let mut hi: u128 = 0x20_0000_0000;
    assert(hi * hi == 0x400_0000_0000_0000_0000);
    while lo + 1 < hi
        invariant
            lo < hi <= 0x20_0000_0000,
            lo * lo <= n < hi * hi,
        decreases hi - lo,
    {
        let mid: u128 = lo + (hi - lo) / 2;
        assert(mid * mid <= 0x400_0000_0000_0000_0000) by (nonlinear_arith)
            requires
                mid <= 0x20_0000_0000,
        ;
        if mid * mid <= n {
            lo = mid;
        } else {
            hi = mid;
        }
    }
    lo as u64
}

/// The distance between two points given by coordinates within `PROBE_BOUND`.
pub fn distance_xy(ax: i64, ay: i64, bx: i64, by: i64) -> (r: i64)
    requires
        in_probe_range(ax as int),
        in_probe_range(ay as int),
        in_probe_range(bx as int),
        in_probe_range(by as int),
    ensures
        r == dist_xy(ax as int, ay as int, bx as int, by as int),
        0 <= r < 0x20_0000_0000,
{
    let dx: i128 = (ax - bx) as i128;
    let dy: i128 = (ay - by) as i128;
    assert(dx * dx <= 0x100_0000_0000_0000_0000) by (nonlinear_arith)
        requires
            -0x10_0000_0000 <= dx <= 0x10_0000_0000,
    ;
    assert(dy * dy <= 0x100_0000_0000_0000_0000) by (nonlinear_arith)
        requires
            -0x10_0000_0000 <= dy <= 0x10_0000_0000,
    ;
    assert(0 <= dx * dx && 0 <= dy * dy) by (nonlinear_arith);
    let n: u128 = (dx * dx + dy * dy) as u128;
    let r = floor_sqrt_u128(n);
    proof {
        lemma_floor_sqrt_unique(r as int, n as int);
    }
    r as i64
}

/// Two distinct points are at least one pixel apart.
pub proof fn lemma_dist_positive(ax: int, ay: int, bx: int, by: int)
    requires
        ax != bx || ay != by,
    ensures
        dist_xy(ax, ay, bx, by) >= 1,
{
    let n = sq(ax - bx) + sq(ay - by);
    assert(n >= 1) by (nonlinear_arith)
        requires
            ax != bx || ay != by,
            n == (ax - bx) * (ax - bx) + (ay - by) * (ay - by),
    ;
    lemma_floor_sqrt_exists(n);
}

/// Every non-negative number has a square root rounded down.
pub proof fn lemma_floor_sqrt_exists(n: int)
    requires
        n >= 0,
    ensures
        is_floor_sqrt(floor_sqrt(n), n),
    decreases n,
{
    if n == 0 {
        lemma_floor_sqrt_unique(0, 0);
    } else {
        lemma_floor_sqrt_exists(n - 1);
        let r = floor_sqrt(n - 1);
        if (r + 1) * (r + 1) <= n {
            assert((r + 1) * (r + 1) == n);
            assert(n < (r + 2) * (r + 2)) by (nonlinear_arith)
                requires
                    (r + 1) * (r + 1) == n,
                    r >= 0,
            ;
            lemma_floor_sqrt_unique(r + 1, n);
        } else {
            lemma_floor_sqrt_unique(r, n);
        }
    }
}

/// The offset of `q` from the line through `b` and `c`:
/// `|cross(q - b, q - c)|`, which is the perpendicular distance from `q`
/// to that line multiplied by `|b - c|`.
pub open spec fn line_offset(q: Vector2D, b: Vector2D, c: Vector2D) -> int {
    abs_of((q.x - b.x) * (q.y - c.y) - (q.y - b.y) * (q.x - c.x))
}

/// The squared length of `b - c`.
pub open spec fn sq_len(b: Vector2D, c: Vector2D) -> int {
    sq(b.x - c.x) + sq(b.y - c.y)
}

/// The perpendicular distance from `q` to the line through `b` and `c` is at
/// most `tolerance`: `line_offset / |b - c| <= tolerance`, squared on both sides.
pub open spec fn near_line(q: Vector2D, b: Vector2D, c: Vector2D, tolerance: int) -> bool {
    sq(line_offset(q, b, c)) <= sq(tolerance) * sq_len(b, c)
}

impl Vector2D {
    /// The exact component-wise sum.
    pub open spec fn plus(self, other: Vector2D) -> (int, int) {
        (self.x + other.x, self.y + other.y)
    }

    /// The exact component-wise difference.
    pub open spec fn minus(self, other: Vector2D) -> (int, int) {
        (self.x - other.x, self.y - other.y)
    }

    /// Both coordinates fit in an `i32`.
    pub open spec fn fits(v: (int, int)) -> bool {
        i32::MIN <= v.0 <= i32::MAX && i32::MIN <= v.1 <= i32::MAX
    }

    /// Component-wise sum.
    pub fn add(self, other: Vector2D) -> (r: Vector2D)
        requires
            Vector2D::fits(self.plus(other)),
        ensures
            (r.x as int, r.y as int) == self.plus(other),
    {
        Vector2D { x: self.x + other.x, y: self.y + other.y }
    }

    /// Component-wise difference.
    pub fn sub(self, other: Vector2D) -> (r: Vector2D)
        requires
            Vector2D::fits(self.minus(other)),
        ensures
            (r.x as int, r.y as int) == self.minus(other),
    {
        Vector2D { x: self.x - other.x, y: self.y - other.y }
    }

    /// Both coordinates multiplied by `k`.
    pub fn scale(self, k: i32) -> (r: Vector2D)
        requires
            Vector2D::fits((self.x * k, self.y * k)),
        ensures
            r.x == self.x * k,
            r.y == self.y * k,
    {
        Vector2D { x: self.x * k, y: self.y * k }
    }

    /// Both coordinates divided by a non-zero `k`, rounding toward zero.
    /// Dividing `i32::MIN` by -1 would leave the range of `i32`.
    pub fn divide(self, k: i32) -> (r: Vector2D)
        requires
            k != 0,
            k == -1 ==> self.x != i32::MIN && self.y != i32::MIN,
        ensures
            r.x == trunc_div(self.x as int, k as int),
            r.y == trunc_div(self.y as int, k as int),
    {
        let d: i128 = if k > 0 {
            k as i128
        } else {
            -(k as i128)
        };
        let a: i128 = if k > 0 {
            self.x as i128
        } else {
            -(self.x as i128)
        };
        let b: i128 = if k > 0 {
            self.y as i128
        } else {
            -(self.y as i128)
        };
        assert(trunc_div(a as int, d as int) == trunc_div(self.x as int, k as int));
        assert(trunc_div(b as int, d as int) == trunc_div(self.y as int, k as int));
        proof {
            lemma_quotient_bound(a as int, d as int);
            lemma_quotient_bound(b as int, d as int);
        }
        let qx = div_toward_zero(a, d);
        let qy = div_toward_zero(b, d);
        Vector2D { x: qx as i32, y: qy as i32 }
    }

    /// The dot product.
    pub fn dot(self, other: Vector2D) -> (r: i128)
        ensures
            r == self.x * other.x + self.y * other.y,
    {
        assert(-0x4000_0000_0000_0000 <= self.x * other.x <= 0x4000_0000_0000_0000) by (nonlinear_arith);
        assert(-0x4000_0000_0000_0000 <= self.y * other.y <= 0x4000_0000_0000_0000) by (nonlinear_arith);
        (self.x as i128) * (other.x as i128) + (self.y as i128) * (other.y as i128)
    }

    /// The 2D cross product: the z component of the 3D cross product.
    pub fn cross(self, other: Vector2D) -> (r: i64)
        ensures
            r == self.x * other.y - self.y * other.x,
    {
        assert(-0x3fff_ffff_8000_0000 <= self.x * other.y <= 0x4000_0000_0000_0000) by (nonlinear_arith);
        assert(-0x3fff_ffff_8000_0000 <= self.y * other.x <= 0x4000_0000_0000_0000) by (nonlinear_arith);
        (self.x as i64) * (other.y as i64) - (self.y as i64) * (other.x as i64)
    }

    /// The Euclidean distance to `other`, rounded down to whole pixels.
    pub fn distance(&self, other: &Vector2D) -> (r: i64)
        ensures
            r == dist(*self, *other),
            0 <= r < 0x20_0000_0000,
    {
        distance_xy(self.x as i64, self.y as i64, other.x as i64, other.y as i64)
    }

    /// `|cross(self - b, self - c)|`: the perpendicular distance from this
    /// point to the line through `b` and `c`, multiplied by `|b - c|`.
    pub fn line_offset(self, b: Vector2D, c: Vector2D) -> (r: u128)
        ensures
            r == line_offset(self, b, c),
            r < 0x4_0000_0000_0000_0000,
    {
        let ux: i128 = self.x as i128 - b.x as i128;
        let uy: i128 = self.y as i128 - b.y as i128;
        let vx: i128 = self.x as i128 - c.x as i128;
        let vy: i128 = self.y as i128 - c.y as i128;
        assert(-0x1_0000_0000_0000_0000 < ux * vy < 0x1_0000_0000_0000_0000) by (nonlinear_arith)
            requires
                -0x1_0000_0000 < ux < 0x1_0000_0000,
                -0x1_0000_0000 < vy < 0x1_0000_0000,
        ;
        assert(-0x1_0000_0000_0000_0000 < uy * vx < 0x1_0000_0000_0000_0000) by (nonlinear_arith)
            requires
                -0x1_0000_0000 < uy < 0x1_0000_0000,
                -0x1_0000_0000 < vx < 0x1_0000_0000,
        ;
        let z: i128 = ux * vy - uy * vx;
        if z < 0 {
            (-z) as u128
        } else {
            z as u128
        }
    }

    /// Whether the perpendicular distance from this point to the line through
    /// `b` and `c` is at most `tolerance` pixels. When `b == c` every point
    /// is within any tolerance.
    pub fn within_line_distance(self, b: Vector2D, c: Vector2D, tolerance: u16) -> (r: bool)
        ensures
            r == near_line(self, b, c, tolerance as int),
    {
        let offset: u128 = self.line_offset(b, c);
        let bx: i128 = b.x as i128 - c.x as i128;
        let by: i128 = b.y as i128 - c.y as i128;
        assert(0 <= bx * bx <= 0x1_0000_0000_0000_0000 && 0 <= by * by <= 0x1_0000_0000_0000_0000) by (nonlinear_arith)
            requires
                -0x1_0000_0000 < bx < 0x1_0000_0000,
                -0x1_0000_0000 < by < 0x1_0000_0000,
        ;
        let len2: u128 = (bx * bx + by * by) as u128;
        let t: u128 = tolerance as u128;
        assert(t * t < 0x1_0000_0000) by (nonlinear_arith)
            requires
                t < 0x1_0000,
        ;
        let t2: u128 = t * t;
        assert(t2 * len2 < 0x1_0000_0000 * 0x2_0000_0000_0000_0000) by (nonlinear_arith)
            requires
                t2 < 0x1_0000_0000,
                len2 <= 0x2_0000_0000_0000_0000,
        ;
        if offset >= 0x1_0000_0000_0000_0000 {
            assert(offset * offset >= 0x1_0000_0000_0000_0000 * 0x1_0000_0000_0000_0000) by (nonlinear_arith)
                requires
                    offset >= 0x1_0000_0000_0000_0000,
            ;
            false
        } else {
            assert(offset * offset < 0x1_0000_0000_0000_0000 * 0x1_0000_0000_0000_0000) by (nonlinear_arith)
                requires
                    offset < 0x1_0000_0000_0000_0000,
            ;
            offset * offset <= t2 * len2
        }
    }
}

/// A quotient rounded toward zero is no larger in magnitude than the
/// dividend, and equals it for a divisor of 1.
proof fn lemma_quotient_bound(a: int, k: int)
    requires
        k > 0,
    ensures
        abs_of(trunc_div(a, k)) <= abs_of(a),
        k >= 2 ==> abs_of(trunc_div(a, k)) <= abs_of(a) / 2,
        a >= 0 ==> trunc_div(a, k) >= 0,
        a < 0 ==> trunc_div(a, k) <= 0,
        k == 1 ==> trunc_div(a, k) == a,
{
    let m = abs_of(a);
    vstd::arithmetic::div_mod::lemma_div_is_ordered_by_denominator(m, 1, k);
    if k >= 2 {
        vstd::arithmetic::div_mod::lemma_div_is_ordered_by_denominator(m, 2, k);
    }
    vstd::arithmetic::div_mod::lemma_div_pos_is_pos(m, k);
}

/// `a / k` rounded toward zero, for a positive `k`.
pub fn div_toward_zero(a: i128, k: i128) -> (r: i128)
    requires
        k > 0,
        a > i128::MIN,
    ensures
        r == trunc_div(a as int, k as int),
{
    if a >= 0 {
        a / k
    } else {
        -((-a) / k)
    }
}

} // verus!
