//! Exact half-plane, point-in-triangle and circle intersection tests on
//! integer points.
use vstd::prelude::*;

verus! {

/// The largest magnitude of a coordinate that the tests take; every product
/// they form then fits in an `i128`.
pub const COORD_LIMIT: i64 = 268_435_456;

/// A point, or a vector, of the plane.
#[derive(Clone, Copy, Debug, PartialEq, Eq, Structural)]
pub struct Vector2 {
    pub x: i64,
    pub y: i64,
}

impl Vector2 {
    pub fn new(x: i64, y: i64) -> (r: Vector2)
        ensures
            r.x == x,
            r.y == y,
    {
        Vector2 { x, y }
    }

    /// Both coordinates lie within `COORD_LIMIT` of zero.
    pub open spec fn in_range(self) -> bool {
        -COORD_LIMIT <= self.x <= COORD_LIMIT && -COORD_LIMIT <= self.y <= COORD_LIMIT
    }
}

/// Twice the signed area of the triangle `a b p`: positive when `p` lies to the
/// left of the directed line from `a` to `b`, zero when it lies on the line.
pub open spec fn cross(a: Vector2, b: Vector2, p: Vector2) -> int {
    (b.x - a.x) * (p.y - a.y) - (b.y - a.y) * (p.x - a.x)
}

/// The square of the distance between `p` and `q`.
pub open spec fn dist_sq(p: Vector2, q: Vector2) -> int {
    (p.x - q.x) * (p.x - q.x) + (p.y - q.y) * (p.y - q.y)
}

/// `p` lies strictly above the line through `a` and `b`, or strictly to its
/// right when that line is vertical.
pub open spec fn right_of(p: Vector2, a: Vector2, b: Vector2) -> bool {
    if a.x == b.x {
        p.x > a.x
    } else if a.x < b.x {
        cross(a, b, p) > 0
    } else {
        cross(a, b, p) < 0
    }
}

/// The same-side test: for each edge, `p` lies on the side of the edge's line
/// where the opposite vertex lies.
pub open spec fn in_triangle(p: Vector2, v1: Vector2, v2: Vector2, v3: Vector2) -> bool {
    &&& right_of(p, v1, v2) == right_of(v3, v1, v2)
    &&& right_of(p, v1, v3) == right_of(v2, v1, v3)
    &&& right_of(p, v2, v3) == right_of(v1, v2, v3)
}

/// The circle of center `c` and radius `r` reaches the segment from `a` to `b`:
/// the point of the segment closest to `c` is at distance at most `r`. With `t`
/// the projection of `c - a` on `b - a`, scaled by `|b - a|`, the closest point
/// is `a` when `t <= 0`, `b` when `t >= |b - a|^2`, and otherwise the foot of the
/// perpendicular, whose squared distance times `|b - a|^2` is `cross^2`.
pub open spec fn circle_meets_segment(c: Vector2, r: int, a: Vector2, b: Vector2) -> bool {
    let t = (c.x - a.x) * (b.x - a.x) + (c.y - a.y) * (b.y - a.y);
    let l = dist_sq(a, b);
    let k = cross(a, b, c);
    &&& r >= 0
    &&& if t <= 0 {
        dist_sq(c, a) <= r * r
    } else if t >= l {
        dist_sq(c, b) <= r * r
    } else {
        k * k <= r * r * l
    }
}

/// The circle reaches the triangle: its center is inside, or it reaches an edge.
pub open spec fn circle_meets_triangle(
    c: Vector2,
    r: int,
    v1: Vector2,
    v2: Vector2,
    v3: Vector2,
) -> bool {
    in_triangle(c, v1, v2, v3) || circle_meets_segment(c, r, v1, v2) || circle_meets_segment(
        c,
        r,
        v1,
        v3,
    ) || circle_meets_segment(c, r, v2, v3)
}

proof fn lemma_mul_bound(a: int, b: int, m: int, n: int)
    requires
        -m <= a <= m,
        -n <= b <= n,
    ensures
        -(m * n) <= a * b <= m * n,
{
    assert(-(m * n) <= a * b <= m * n) by (nonlinear_arith)
        requires
            -m <= a <= m,
            -n <= b <= n,
    ;
}

/// Whether `p` lies strictly above the line through `a` and `b` (strictly to
/// its right when the line is vertical).
fn is_right(p: Vector2, a: Vector2, b: Vector2) -> (r: bool)
    requires
        p.in_range(),
        a.in_range(),
        b.in_range(),
    ensures
        r == right_of(p, a, b),
{
    if a.x == b.x {
        return p.x > a.x;
    }
    if a.y == b.y {
        proof {
            let dx = b.x - a.x;
            let dy = p.y - a.y;
            assert(cross(a, b, p) == dx * dy);
            assert(dx > 0 ==> (dx * dy > 0 <==> dy > 0)) by (nonlinear_arith);
            assert(dx < 0 ==> (dx * dy < 0 <==> dy > 0)) by (nonlinear_arith);
        }
        return p.y > a.y;
    }
    let dx: i128 = (b.x - a.x) as i128;
    let dy: i128 = (b.y - a.y) as i128;
    proof {
        lemma_mul_bound(p.y - a.y, dx as int, 2 * COORD_LIMIT, 2 * COORD_LIMIT);
        lemma_mul_bound(dy as int, p.x - a.x, 2 * COORD_LIMIT, 2 * COORD_LIMIT);
    }
    let lhs: i128 = ((p.y - a.y) as i128) * dx;
    let rhs: i128 = dy * ((p.x - a.x) as i128);
    if dx > 0 {
        lhs > rhs
    } else {
        lhs < rhs
    }
}

/// Whether `p` lies inside the triangle `v1 v2 v3`, of either winding.
pub fn triangle_contains(p: Vector2, v1: Vector2, v2: Vector2, v3: Vector2) -> (r: bool)
    requires
        p.in_range(),
        v1.in_range(),
        v2.in_range(),
        v3.in_range(),
    ensures
        r == in_triangle(p, v1, v2, v3),
{
    let s1 = is_right(p, v1, v2) != is_right(v3, v1, v2);
    let s2 = is_right(p, v1, v3) != is_right(v2, v1, v3);
    let s3 = is_right(p, v2, v3) != is_right(v1, v2, v3);
    !s1 && !s2 && !s3
}

/// Whether the circle of center `c` and radius `r` reaches the segment from
/// `a` to `b`. A segment of length zero is the point `a`.
pub fn circle_intersects_line_segment(c: Vector2, r: i64, a: Vector2, b: Vector2) -> (res: bool)
    requires
        c.in_range(),
        a.in_range(),
        b.in_range(),
        -COORD_LIMIT <= r <= COORD_LIMIT,
    ensures
        res == circle_meets_segment(c, r as int, a, b),
{
    if r < 0 {
        return false;
    }
    let ghost lim = 2 * COORD_LIMIT as int;
    let dx: i128 = (b.x - a.x) as i128;
    let dy: i128 = (b.y - a.y) as i128;
    let wx: i128 = (c.x - a.x) as i128;
    let wy: i128 = (c.y - a.y) as i128;
    let ex: i128 = (c.x - b.x) as i128;
    let ey: i128 = (c.y - b.y) as i128;
    proof {
        lemma_mul_bound(wx as int, dx as int, lim, lim);
        lemma_mul_bound(wy as int, dy as int, lim, lim);
        lemma_mul_bound(dx as int, dx as int, lim, lim);
        lemma_mul_bound(dy as int, dy as int, lim, lim);
        lemma_mul_bound(wx as int, wx as int, lim, lim);
        lemma_mul_bound(wy as int, wy as int, lim, lim);
        lemma_mul_bound(ex as int, ex as int, lim, lim);
        lemma_mul_bound(ey as int, ey as int, lim, lim);
        lemma_mul_bound(dx as int, wy as int, lim, lim);
        lemma_mul_bound(dy as int, wx as int, lim, lim);
        lemma_mul_bound(r as int, r as int, lim, lim);
    }
    let rr: i128 = (r as i128) * (r as i128);
    let t: i128 = wx * dx + wy * dy;
    let l: i128 = dx * dx + dy * dy;
    assert(t == (c.x - a.x) * (b.x - a.x) + (c.y - a.y) * (b.y - a.y));
    assert(l == dist_sq(a, b)) by (nonlinear_arith)
        requires
            dx == b.x - a.x,
            dy == b.y - a.y,
            l == dx * dx + dy * dy,
    ;
    assert(rr == r * r);
    assert(wx * wx + wy * wy == dist_sq(c, a));
    assert(ex * ex + ey * ey == dist_sq(c, b));
    if t <= 0 {
        wx * wx + wy * wy <= rr
    } else if t >= l {
        ex * ex + ey * ey <= rr
    } else {
        let k: i128 = dx * wy - dy * wx;
        proof {
            assert(lim * lim == 0x400_0000_0000_0000);
            lemma_mul_bound(k as int, k as int, 0x800_0000_0000_0000, 0x800_0000_0000_0000);
            lemma_mul_bound(rr as int, l as int, 0x400_0000_0000_0000, 0x800_0000_0000_0000);
        }
        assert(k == cross(a, b, c));
        k * k <= rr * l
    }
}

/// Whether the circle of center `c` and radius `r` reaches the triangle
/// `v1 v2 v3`: its center lies inside, or it reaches one of the edges.
pub fn circle_intersects_triangle(
    c: Vector2,
    r: i64,
    v1: Vector2,
    v2: Vector2,
    v3: Vector2,
) -> (res: bool)
    requires
        c.in_range(),
        v1.in_range(),
        v2.in_range(),
        v3.in_range(),
        -COORD_LIMIT <= r <= COORD_LIMIT,
    ensures
        res == circle_meets_triangle(c, r as int, v1, v2, v3),
{
    let inside = triangle_contains(c, v1, v2, v3);
    let e1 = circle_intersects_line_segment(c, r, v1, v2);
    let e2 = circle_intersects_line_segment(c, r, v1, v3);
    let e3 = circle_intersects_line_segment(c, r, v2, v3);
    inside || e1 || e2 || e3
}

/// `p` lies strictly inside the triangle: for each edge, strictly on the side
/// of the edge's line where the opposite vertex lies, which is off that line.
pub open spec fn strictly_inside(p: Vector2, v1: Vector2, v2: Vector2, v3: Vector2) -> bool {
    &&& cross(v1, v2, p) * cross(v1, v2, v3) > 0
    &&& cross(v1, v3, p) * cross(v1, v3, v2) > 0
    &&& cross(v2, v3, p) * cross(v2, v3, v1) > 0
}

/// The triangle `v1 v2 v3` has nonzero area.
pub open spec fn non_degenerate(v1: Vector2, v2: Vector2, v3: Vector2) -> bool {
    cross(v1, v2, v3) != 0
}

proof fn lemma_same_side(p: Vector2, o: Vector2, a: Vector2, b: Vector2)
    requires
        cross(a, b, p) * cross(a, b, o) > 0,
    ensures
        right_of(p, a, b) == right_of(o, a, b),
{
    let cp = cross(a, b, p);
    let co = cross(a, b, o);
    if a.x == b.x {
        let dy = b.y - a.y;
        let u = p.x - a.x;
        let w = o.x - a.x;
        assert(cp == -(dy * u) && co == -(dy * w)) by (nonlinear_arith)
            requires
                a.x == b.x,
                dy == b.y - a.y,
                u == p.x - a.x,
                w == o.x - a.x,
                cp == (b.x - a.x) * (p.y - a.y) - (b.y - a.y) * (p.x - a.x),
                co == (b.x - a.x) * (o.y - a.y) - (b.y - a.y) * (o.x - a.x),
        ;
        assert(u * w > 0) by (nonlinear_arith)
            requires
                cp == -(dy * u),
                co == -(dy * w),
                cp * co > 0,
        ;
        assert((u > 0) == (w > 0)) by (nonlinear_arith)
            requires
                u * w > 0,
        ;
    } else {
        assert((cp > 0) == (co > 0) && (cp < 0) == (co < 0)) by (nonlinear_arith)
            requires
                cp * co > 0,
        ;
    }
}

proof fn lemma_strictly_inside_contains(p: Vector2, v1: Vector2, v2: Vector2, v3: Vector2)
    requires
        strictly_inside(p, v1, v2, v3),
    ensures
        in_triangle(p, v1, v2, v3),
{
    lemma_same_side(p, v3, v1, v2);
    lemma_same_side(p, v2, v1, v3);
    lemma_same_side(p, v1, v2, v3);
}

proof fn lemma_centroid_side(a: Vector2, b: Vector2, o: Vector2, c: Vector2)
    requires
        3 * c.x == a.x + b.x + o.x,
        3 * c.y == a.y + b.y + o.y,
        cross(a, b, o) != 0,
    ensures
        cross(a, b, c) * cross(a, b, o) > 0,
{
    let k = cross(a, b, c);
    let m = cross(a, b, o);
    assert(3 * k == m) by (nonlinear_arith)
        requires
            3 * c.x == a.x + b.x + o.x,
            3 * c.y == a.y + b.y + o.y,
            k == (b.x - a.x) * (c.y - a.y) - (b.y - a.y) * (c.x - a.x),
            m == (b.x - a.x) * (o.y - a.y) - (b.y - a.y) * (o.x - a.x),
    ;
    assert(k * m > 0) by (nonlinear_arith)
        requires
            3 * k == m,
            m != 0,
    ;
}

/// The centroid of a triangle of nonzero area lies inside it. The centroid
/// `c` is given by `3 c == v1 + v2 + v3`, so the law speaks of triangles whose
/// centroid has integer coordinates.
pub proof fn lemma_centroid_inside(c: Vector2, v1: Vector2, v2: Vector2, v3: Vector2)
    requires
        non_degenerate(v1, v2, v3),
        3 * c.x == v1.x + v2.x + v3.x,
        3 * c.y == v1.y + v2.y + v3.y,
    ensures
        strictly_inside(c, v1, v2, v3),
        in_triangle(c, v1, v2, v3),
{
    assert(cross(v1, v3, v2) == -cross(v1, v2, v3)) by (nonlinear_arith);
    assert(cross(v2, v3, v1) == cross(v1, v2, v3)) by (nonlinear_arith);
    lemma_centroid_side(v1, v2, v3, c);
    lemma_centroid_side(v1, v3, v2, c);
    lemma_centroid_side(v2, v3, v1, c);
    lemma_strictly_inside_contains(c, v1, v2, v3);
}

/// A segment of length zero is reached exactly when its point lies within
/// the radius of the center: `|c - a| <= r`, that is `r >= 0` and
/// `|c - a|^2 <= r^2`.
pub proof fn lemma_point_segment(c: Vector2, r: int, a: Vector2)
    ensures
        circle_meets_segment(c, r, a, a) == (r >= 0 && dist_sq(c, a) <= r * r),
{
}

/// A circle whose center lies strictly inside a triangle reaches the triangle,
/// whatever its radius, zero included.
pub proof fn lemma_center_inside_meets(c: Vector2, r: int, v1: Vector2, v2: Vector2, v3: Vector2)
    requires
        strictly_inside(c, v1, v2, v3),
    ensures
        circle_meets_triangle(c, r, v1, v2, v3),
{
    lemma_strictly_inside_contains(c, v1, v2, v3);
}

} // verus!
