//! The things on the field: the zone where the ball is lost, the ball, and the
//! paddle, with the shapes they draw and the collision queries on them.
use crate::fixed::{
    cos_fixed, cosine, div_i64, div_toward_zero, lemma_unit_pair, sin_fixed, sine, UNIT,
};
use crate::geometry::{circle_intersects_triangle, circle_meets_triangle, Vector2};
use crate::mesh::{fits_after, rebased, Color, MeshBuilder, Vertex};
use vstd::prelude::*;

verus! {

/// How far the paddle's center, and the ball, may go left or right of zero.
pub const TRACK_LIMIT: i64 = 5_500_000;

/// How far the ball may go above or below zero: a range guard, a hundred times
/// the field's height, that keeps every coordinate within the range where the
/// geometry is exact. Play never comes near it: gravity brings a ball down
/// well before, and a lost ball is put back at its spawn point.
pub const FIELD_LIMIT: i64 = 100_000_000;

/// The height of the band, at the bottom of the field, where the ball is lost.
pub const LOSE_ZONE_HEIGHT: i64 = 100_000;

/// The ball is lost below this height.
pub const LOSE_LINE: i64 = -UNIT + LOSE_ZONE_HEIGHT;

/// How far the lose zone is drawn to either side.
pub const LOSE_ZONE_HALF_WIDTH: i64 = 10_000_000;

pub const BALL_RADIUS: i64 = 50_000;

/// The number of triangles that draw the ball.
pub const BALL_SEGMENTS: usize = 20;

/// The angle between two neighbouring points of the ball's rim.
pub const BALL_STEP_ANGLE: i64 = 1_600_000;

pub const PADDLE_HALF_WIDTH: i64 = 200_000;

pub const PADDLE_HALF_HEIGHT: i64 = 100_000;

/// The height of the paddle's center.
pub const PADDLE_Y: i64 = -700_000;

pub open spec fn white() -> Color {
    Color { r: 255, g: 255, b: 255 }
}

pub open spec fn orange() -> Color {
    Color { r: 255, g: 153, b: 0 }
}

fn white_exec() -> (r: Color)
    ensures
        r == white(),
{
    Color { r: 255, g: 255, b: 255 }
}

/// The two triangles of a quad `0 1 2 3`.
pub open spec fn quad_indices() -> Seq<u16> {
    seq![0u16, 1, 2, 0, 2, 3]
}

fn quad_indices_exec() -> (r: Vec<u16>)
    ensures
        r@ == quad_indices(),
{
    let r: Vec<u16> = vec![0, 1, 2, 0, 2, 3];
    assert(r@ =~= quad_indices());
    r
}

/// The band at the bottom of the field: a ball below its top is lost.
#[derive(Clone, Copy, Debug)]
pub struct LoseZone;

impl LoseZone {
    pub open spec fn vertex_list(self) -> Seq<Vertex> {
        let w = LOSE_ZONE_HALF_WIDTH;
        let left = (-w) as i64;
        let bottom = (-UNIT) as i64;
        seq![
            Vertex { position: Vector2 { x: left, y: bottom }, color: orange() },
            Vertex { position: Vector2 { x: w, y: bottom }, color: orange() },
            Vertex { position: Vector2 { x: w, y: LOSE_LINE }, color: orange() },
            Vertex { position: Vector2 { x: left, y: LOSE_LINE }, color: orange() },
        ]
    }

    /// Appends the band's quad to `mesh`.
    pub fn push(&self, mesh: &mut MeshBuilder)
        requires
            old(mesh).vertex_list().len() + 3 <= u16::MAX,
        ensures
            final(mesh).vertex_list() == old(mesh).vertex_list() + self.vertex_list(),
            final(mesh).index_list().len() == old(mesh).index_list().len() + 6,
            final(mesh).index_list().subrange(0, old(mesh).index_list().len() as int)
                == old(mesh).index_list(),
            forall|j: int|
                0 <= j < 6 ==> final(mesh).index_list()[old(mesh).index_list().len() + j]
                    == rebased(quad_indices(), old(mesh).vertex_list().len() as int)[j],
    {
        let w = LOSE_ZONE_HALF_WIDTH;
        let left = -w;
        let bottom = -UNIT;
        let orange = Color { r: 255, g: 153, b: 0 };
        let vertices: Vec<Vertex> = vec![
            Vertex { position: Vector2 { x: left, y: bottom }, color: orange },
            Vertex { position: Vector2 { x: w, y: bottom }, color: orange },
            Vertex { position: Vector2 { x: w, y: LOSE_LINE }, color: orange },
            Vertex { position: Vector2 { x: left, y: LOSE_LINE }, color: orange },
        ];
        assert(vertices@ =~= self.vertex_list());
        let indices = quad_indices_exec();
        mesh.push(vertices, indices);
    }

    /// Whether `point` lies below the top of the band.
    pub fn contains(&self, point: Vector2) -> (r: bool)
        ensures
            r == (point.y < LOSE_LINE),
    {
        point.y < LOSE_LINE
    }
}

/// The puck: where it is and how far it moves in one tick.
#[derive(Clone, Copy, Debug)]
pub struct Ball {
    pub position: Vector2,
    pub velocity: Vector2,
}

/// The point of the rim of a ball at `center` reached after `i` steps.
pub open spec fn rim_point(center: Vector2, i: int) -> Vector2 {
    let t = i * BALL_STEP_ANGLE;
    Vector2 {
        x: (center.x + div_toward_zero(sine(t) * BALL_RADIUS, UNIT as int)) as i64,
        y: (center.y + div_toward_zero(cosine(t) * BALL_RADIUS, UNIT as int)) as i64,
    }
}

/// The `j`-th index of the ball's fan: triangle `i` (counted from 1) is
/// `0, i + 1, i`.
pub open spec fn fan_index(j: int) -> int {
    let i = j / 3 + 1;
    if j % 3 == 0 {
        0
    } else if j % 3 == 1 {
        i + 1
    } else {
        i
    }
}

impl Ball {
    /// The ball's position lies where the geometry can take it.
    pub open spec fn placed(self) -> bool {
        -TRACK_LIMIT <= self.position.x <= TRACK_LIMIT && -FIELD_LIMIT <= self.position.y
            <= FIELD_LIMIT
    }

    /// The center, then the rim from the top going clockwise, closed by the
    /// top point once more.
    pub open spec fn vertex_list(self) -> Seq<Vertex> {
        seq![Vertex { position: self.position, color: white() }] + Seq::new(
            (BALL_SEGMENTS + 1) as nat,
            |i: int| Vertex { position: rim_point(self.position, i), color: white() },
        )
    }

    pub open spec fn index_list(self) -> Seq<u16> {
        Seq::new((3 * BALL_SEGMENTS) as nat, |j: int| fan_index(j) as u16)
    }

    fn rim_point_exec(&self, i: i64) -> (r: Vector2)
        requires
            self.placed(),
            0 <= i <= BALL_SEGMENTS,
        ensures
            r == rim_point(self.position, i as int),
    {
        let t = i * BALL_STEP_ANGLE;
        let s = sin_fixed(t);
        let c = cos_fixed(t);
        let dx = div_i64(s * BALL_RADIUS, UNIT);
        let dy = div_i64(c * BALL_RADIUS, UNIT);
        Vector2 { x: self.position.x + dx, y: self.position.y + dy }
    }

    /// Appends the ball's fan of triangles to `mesh`.
    pub fn push(&self, mesh: &mut MeshBuilder)
        requires
            self.placed(),
            old(mesh).vertex_list().len() + BALL_SEGMENTS + 1 <= u16::MAX,
        ensures
            final(mesh).vertex_list() == old(mesh).vertex_list() + self.vertex_list(),
            final(mesh).index_list().len() == old(mesh).index_list().len() + 3 * BALL_SEGMENTS,
            final(mesh).index_list().subrange(0, old(mesh).index_list().len() as int)
                == old(mesh).index_list(),
            forall|j: int|
                0 <= j < 3 * BALL_SEGMENTS ==> final(mesh).index_list()[old(
                    mesh,
                ).index_list().len() + j] == rebased(
                    self.index_list(),
                    old(mesh).vertex_list().len() as int,
                )[j],
    {
        let mut vertices: Vec<Vertex> = Vec::new();
        vertices.push(Vertex { position: self.position, color: white_exec() });
        let mut i: usize = 0;
        while i <= BALL_SEGMENTS
            invariant
                self.placed(),
                i <= BALL_SEGMENTS + 1,
                vertices@ =~= self.vertex_list().subrange(0, i + 1),
            decreases BALL_SEGMENTS + 1 - i,
        {
            let p = self.rim_point_exec(i as i64);
            vertices.push(Vertex { position: p, color: white_exec() });
            i = i + 1;
        }
        assert(vertices@ =~= self.vertex_list());
        let mut indices: Vec<u16> = Vec::new();
        let mut k: usize = 0;
        while k < BALL_SEGMENTS
            invariant
                k <= BALL_SEGMENTS,
                indices@.len() == 3 * k,
                forall|j: int| 0 <= j < 3 * k ==> indices@[j] == fan_index(j),
            decreases BALL_SEGMENTS - k,
        {
            let n: u16 = k as u16 + 1;
            indices.push(0);
            indices.push(n + 1);
            indices.push(n);
            assert(fan_index(3 * k) == 0 && fan_index(3 * k + 1) == k + 2 && fan_index(3 * k + 2)
                == k + 1) by {
                assert((3 * k as int) / 3 == k && (3 * k as int) % 3 == 0);
                assert((3 * k as int + 1) / 3 == k && (3 * k as int + 1) % 3 == 1);
                assert((3 * k as int + 2) / 3 == k && (3 * k as int + 2) % 3 == 2);
            }
            k = k + 1;
        }
        assert(indices@ =~= self.index_list());
        assert(fits_after(indices@, mesh.vertex_list().len() as int)) by {
            assert forall|j: int| 0 <= j < indices@.len() implies indices@[j] <= BALL_SEGMENTS
                + 1 by {
                assert(j / 3 + 1 <= BALL_SEGMENTS);
            }
        }
        mesh.push(vertices, indices);
    }
}

proof fn lemma_sum_square(p: int, q: int)
    ensures
        (p + q) * (p + q) <= 2 * (p * p) + 2 * (q * q),
{
    assert((p + q) * (p + q) <= 2 * (p * p) + 2 * (q * q)) by (nonlinear_arith);
}

proof fn lemma_half_square(a: int)
    ensures
        4 * (div_toward_zero(a, 2) * div_toward_zero(a, 2)) <= a * a,
{
    let d = div_toward_zero(a, 2);
    if a >= 0 {
        vstd::arithmetic::div_mod::lemma_fundamental_div_mod(a, 2);
        assert(0 <= 2 * d <= a);
    } else {
        vstd::arithmetic::div_mod::lemma_fundamental_div_mod(-a, 2);
        assert(a <= 2 * d <= 0);
    }
    assert(4 * (d * d) <= a * a) by (nonlinear_arith)
        requires
            (0 <= 2 * d <= a) || (a <= 2 * d <= 0),
    ;
}

/// The player's bar: where its center stands on the track, and its steering,
/// from `-UNIT` (full left) to `UNIT` (full right).
#[derive(Clone, Copy, Debug, PartialEq, Eq, Structural)]
pub struct Paddle {
    pub x: i64,
    pub velocity: i64,
}

impl Paddle {
    /// The center lies on the track and the steering within its bounds.
    pub open spec fn wf(self) -> bool {
        -TRACK_LIMIT <= self.x <= TRACK_LIMIT && -UNIT <= self.velocity <= UNIT
    }

    /// The point at offset `(hx, hy)` from the center of the level paddle,
    /// turned with it by its tilt (the angle `2 * velocity`, an eighth of a half
    /// turn at full steering), then moved to `(x, PADDLE_Y)`.
    pub open spec fn corner(self, hx: int, hy: int) -> Vector2 {
        let s = sine(2 * self.velocity);
        let c = cosine(2 * self.velocity);
        Vector2 {
            x: (self.x + div_toward_zero(hx * c - hy * s, UNIT as int)) as i64,
            y: (PADDLE_Y + div_toward_zero(hx * s + hy * c, UNIT as int)) as i64,
        }
    }

    /// The four corners, counterclockwise from the bottom left when level.
    pub open spec fn corners(self) -> Seq<Vector2> {
        let w = PADDLE_HALF_WIDTH as int;
        let h = PADDLE_HALF_HEIGHT as int;
        seq![self.corner(-w, -h), self.corner(w, -h), self.corner(w, h), self.corner(-w, h)]
    }

    pub open spec fn vertex_list(self) -> Seq<Vertex> {
        Seq::new(4, |i: int| Vertex { position: self.corners()[i], color: white() })
    }

    fn corner_exec(&self, s: i64, c: i64, hx: i64, hy: i64) -> (r: Vector2)
        requires
            self.wf(),
            s == sine(2 * self.velocity),
            c == cosine(2 * self.velocity),
            -UNIT <= s <= UNIT,
            -UNIT <= c <= UNIT,
            -PADDLE_HALF_WIDTH <= hx <= PADDLE_HALF_WIDTH,
            -PADDLE_HALF_HEIGHT <= hy <= PADDLE_HALF_HEIGHT,
        ensures
            r == self.corner(hx as int, hy as int),
            r.in_range(),
    {
        proof {
            assert(-200_000_000_000 <= hx * c <= 200_000_000_000) by (nonlinear_arith)
                requires
                    -200_000 <= hx <= 200_000,
                    -1_000_000 <= c <= 1_000_000,
            ;
            assert(-200_000_000_000 <= hx * s <= 200_000_000_000) by (nonlinear_arith)
                requires
                    -200_000 <= hx <= 200_000,
                    -1_000_000 <= s <= 1_000_000,
            ;
            assert(-100_000_000_000 <= hy * c <= 100_000_000_000) by (nonlinear_arith)
                requires
                    -100_000 <= hy <= 100_000,
                    -1_000_000 <= c <= 1_000_000,
            ;
            assert(-100_000_000_000 <= hy * s <= 100_000_000_000) by (nonlinear_arith)
                requires
                    -100_000 <= hy <= 100_000,
                    -1_000_000 <= s <= 1_000_000,
            ;
        }
        let rx = div_i64(hx * c - hy * s, UNIT);
        let ry = div_i64(hx * s + hy * c, UNIT);
        proof {
            vstd::arithmetic::div_mod::lemma_div_is_ordered(
                (hx * c - hy * s) as int,
                300_000_000_000,
                UNIT as int,
            );
            vstd::arithmetic::div_mod::lemma_div_is_ordered(
                (hx * s + hy * c) as int,
                300_000_000_000,
                UNIT as int,
            );
            vstd::arithmetic::div_mod::lemma_div_is_ordered(
                -(hx * c - hy * s),
                300_000_000_000,
                UNIT as int,
            );
            vstd::arithmetic::div_mod::lemma_div_is_ordered(
                -(hx * s + hy * c),
                300_000_000_000,
                UNIT as int,
            );
            assert(300_000_000_000int / (UNIT as int) == 300_000);
        }
        Vector2 { x: self.x + rx, y: PADDLE_Y + ry }
    }

    /// The four corners of the tilted paddle.
    pub fn points(&self) -> (r: [Vector2; 4])
        requires
            self.wf(),
        ensures
            r@ == self.corners(),
            forall|i: int| 0 <= i < 4 ==> (#[trigger] r@[i]).in_range(),
    {
        let t = 2 * self.velocity;
        let s = sin_fixed(t);
        let c = cos_fixed(t);
        let w = PADDLE_HALF_WIDTH;
        let h = PADDLE_HALF_HEIGHT;
        let nw = -w;
        let nh = -h;
        let r = [
            self.corner_exec(s, c, nw, nh),
            self.corner_exec(s, c, w, nh),
            self.corner_exec(s, c, w, h),
            self.corner_exec(s, c, nw, h),
        ];
        assert(r@ =~= self.corners());
        r
    }

    /// Appends the paddle's quad to `mesh`.
    pub fn push(&self, mesh: &mut MeshBuilder)
        requires
            self.wf(),
            old(mesh).vertex_list().len() + 3 <= u16::MAX,
        ensures
            final(mesh).vertex_list() == old(mesh).vertex_list() + self.vertex_list(),
            final(mesh).index_list().len() == old(mesh).index_list().len() + 6,
            final(mesh).index_list().subrange(0, old(mesh).index_list().len() as int)
                == old(mesh).index_list(),
            forall|j: int|
                0 <= j < 6 ==> final(mesh).index_list()[old(mesh).index_list().len() + j]
                    == rebased(quad_indices(), old(mesh).vertex_list().len() as int)[j],
    {
        let p = self.points();
        let white = white_exec();
        let vertices: Vec<Vertex> = vec![
            Vertex { position: p[0], color: white },
            Vertex { position: p[1], color: white },
            Vertex { position: p[2], color: white },
            Vertex { position: p[3], color: white },
        ];
        assert(vertices@ =~= self.vertex_list());
        let indices = quad_indices_exec();
        mesh.push(vertices, indices);
    }

    /// The ball's circle reaches one of the two triangles that the paddle is
    /// cut into along its diagonal from the first corner to the third.
    pub open spec fn touches(self, ball: Ball) -> bool {
        circle_meets_triangle(
            ball.position,
            BALL_RADIUS as int,
            self.corners()[0],
            self.corners()[1],
            self.corners()[2],
        ) || circle_meets_triangle(
            ball.position,
            BALL_RADIUS as int,
            self.corners()[0],
            self.corners()[2],
            self.corners()[3],
        )
    }

    /// Whether the ball reaches the paddle: the paddle is cut along a
    /// diagonal into two triangles, and the ball's circle reaches one of them.
    pub fn contains(&self, ball: &Ball) -> (r: bool)
        requires
            self.wf(),
            ball.placed(),
        ensures
            r == self.touches(*ball),
    {
        let p = self.points();
        assert(p@[0].in_range() && p@[1].in_range() && p@[2].in_range() && p@[3].in_range());
        let first = circle_intersects_triangle(ball.position, BALL_RADIUS, p[0], p[1], p[2]);
        let second = circle_intersects_triangle(ball.position, BALL_RADIUS, p[0], p[2], p[3]);
        first || second
    }

    /// The direction given to a ball that the paddle hits: the mean of the
    /// unit up vector turned by the steering (the angle `velocity`) and the
    /// unit up vector turned by the position (the angle `x`). Turning `(0, 1)`
    /// by `t` gives `(-sin t, cos t)`.
    pub open spec fn bounce(self) -> Vector2 {
        Vector2 {
            x: div_toward_zero(-sine(self.velocity as int) - sine(self.x as int), 2) as i64,
            y: div_toward_zero(cosine(self.velocity as int) + cosine(self.x as int), 2) as i64,
        }
    }

    /// The bounce direction: it points upward and is at most `UNIT` long.
    pub fn normal(&self) -> (r: Vector2)
        requires
            self.wf(),
        ensures
            r == self.bounce(),
            -UNIT <= r.x <= UNIT,
            -UNIT <= r.y <= UNIT,
            r.y > 0,
            r.x * r.x + r.y * r.y <= UNIT * UNIT,
    {
        let s1 = sin_fixed(self.velocity);
        let c1 = cos_fixed(self.velocity);
        let s2 = sin_fixed(self.x);
        let c2 = cos_fixed(self.x);
        let nx = div_i64(-s1 - s2, 2);
        let ny = div_i64(c1 + c2, 2);
        proof {
            vstd::arithmetic::div_mod::lemma_div_is_ordered((-s1 - s2) as int, 2 * UNIT, 2);
            vstd::arithmetic::div_mod::lemma_div_is_ordered((s1 + s2) as int, 2 * UNIT, 2);
            vstd::arithmetic::div_mod::lemma_div_is_ordered((c1 + c2) as int, 2 * UNIT, 2);
            vstd::arithmetic::div_mod::lemma_div_is_ordered(-(c1 + c2), 2 * UNIT, 2);
            lemma_unit_pair(self.velocity as int);
            lemma_unit_pair(self.x as int);
            vstd::arithmetic::div_mod::lemma_div_is_ordered(2, (c1 + c2) as int, 2);
            lemma_half_square((-s1 - s2) as int);
            lemma_half_square((c1 + c2) as int);
            let a = -s1 - s2;
            let b = c1 + c2;
            lemma_sum_square(s1 as int, s2 as int);
            lemma_sum_square(c1 as int, c2 as int);
            assert(a * a == (s1 + s2) * (s1 + s2)) by (nonlinear_arith)
                requires
                    a == -s1 - s2,
            ;
        }
        Vector2 { x: nx, y: ny }
    }
}

} // verus!
