//! One tick of the game: the input events are applied, the paddle steers, the
//! ball falls, bounces, slows and moves, and a new scene is built.
use crate::entities::{
    quad_indices, Ball, LoseZone, Paddle, FIELD_LIMIT, LOSE_LINE, TRACK_LIMIT,
};
use crate::fixed::{clamp, clamp_i64, div_i64, div_toward_zero, UNIT};
use crate::geometry::Vector2;
use crate::mesh::{rebased, Mesh, Vertex};
use vstd::prelude::*;

verus! {

/// Where a new ball appears.
pub const SPAWN_Y: i64 = 700_000;

/// How much one tick of a held arrow key changes the paddle's steering.
pub const STEER_STEP: i64 = 50_000;

/// Steering and the ball's velocity keep `DECAY_NUM / DECAY_DEN` of themselves
/// each tick.
pub const DECAY_NUM: i64 = 95;

pub const DECAY_DEN: i64 = 100;

/// The paddle moves by its steering divided by this each tick.
pub const TRACK_SPEED_DIV: i64 = 20;

/// Gravity adds the downward velocity, held within `GRAVITY_LOW..=GRAVITY_HIGH`,
/// divided by `GRAVITY_DIV`.
pub const GRAVITY_LOW: i64 = -500_000;

pub const GRAVITY_HIGH: i64 = -100_000;

pub const GRAVITY_DIV: i64 = 100;

/// Each coordinate of the ball's velocity stays within this of zero.
pub const BALL_SPEED_LIMIT: i64 = 100_000;

/// A hit adds to the ball's horizontal velocity a random value drawn from
/// `JITTER_LOW..JITTER_HIGH`.
pub const JITTER_LOW: i64 = -5_000;

pub const JITTER_HIGH: i64 = 15_000;

/// The camera follows the paddle: it moves to `(camera * CAMERA_WEIGHT + x) /
/// (CAMERA_WEIGHT + 1)`, held within `CAMERA_LIMIT` of zero.
pub const CAMERA_WEIGHT: i64 = 10;

pub const CAMERA_LIMIT: i64 = 5_000_000;

/// Whether a key is held down.
#[derive(Clone, Copy, Debug, PartialEq, Eq, Structural)]
pub enum KeyState {
    Pressed,
    Released,
}

/// A message to the simulation: an arrow key went down or up, or the ball is
/// to be put back at its spawn point.
#[derive(Clone, Copy, Debug, PartialEq, Eq, Structural)]
pub enum Event {
    Left(KeyState),
    Right(KeyState),
    Reset,
}

/// The latest state of the two arrow keys.
#[derive(Clone, Copy, Debug, PartialEq, Eq, Structural)]
pub struct Controls {
    pub left: KeyState,
    pub right: KeyState,
}

/// What a frame draws: the field's triangles and the camera's offset.
#[derive(Clone, Debug)]
pub struct Scene {
    pub mesh: Mesh,
    pub camera_x: i64,
}

/// What one tick hands back: whether the ball was lost, so that a `Reset` is
/// to be sent for the next tick, and the new scene.
#[derive(Clone, Debug)]
pub struct TickOutcome {
    pub lost: bool,
    pub scene: Scene,
}

/// The simulation's whole state.
#[derive(Clone, Copy, Debug)]
pub struct World {
    pub lose_zone: LoseZone,
    pub paddle: Paddle,
    pub ball: Ball,
    pub controls: Controls,
    pub camera_x: i64,
}

/// The keys after the event `e`.
pub open spec fn controls_after(c: Controls, e: Event) -> Controls {
    match e {
        Event::Left(s) => Controls { left: s, ..c },
        Event::Right(s) => Controls { right: s, ..c },
        Event::Reset => c,
    }
}

/// The keys after the events `es`, in order.
pub open spec fn controls_after_all(c: Controls, es: Seq<Event>) -> Controls
    decreases es.len(),
{
    if es.len() == 0 {
        c
    } else {
        controls_after(controls_after_all(c, es.drop_last()), es.last())
    }
}

/// `es` holds a `Reset`.
pub open spec fn has_reset(es: Seq<Event>) -> bool {
    exists|i: int| 0 <= i < es.len() && es[i] == Event::Reset
}

/// Where the ball is put back by a `Reset`.
pub open spec fn spawn_point() -> Vector2 {
    Vector2 { x: 0, y: SPAWN_Y }
}

impl Paddle {
    /// The steering after one tick: a step left when only left is held, a step
    /// right when only right is held, bounded by `UNIT`; otherwise it decays.
    pub open spec fn steering(self, c: Controls) -> int {
        if c.left == KeyState::Pressed && c.right == KeyState::Released {
            if self.velocity - STEER_STEP < -UNIT {
                -UNIT
            } else {
                self.velocity - STEER_STEP
            }
        } else if c.left == KeyState::Released && c.right == KeyState::Pressed {
            if self.velocity + STEER_STEP > UNIT {
                UNIT as int
            } else {
                self.velocity + STEER_STEP
            }
        } else {
            div_toward_zero(self.velocity * DECAY_NUM, DECAY_DEN as int)
        }
    }

    /// The paddle after one tick: new steering, then a move by it, held on the
    /// track.
    pub open spec fn steered(self, c: Controls) -> Paddle {
        let v = self.steering(c);
        Paddle {
            x: clamp(
                self.x + div_toward_zero(v, TRACK_SPEED_DIV as int),
                -TRACK_LIMIT,
                TRACK_LIMIT as int,
            ) as i64,
            velocity: v as i64,
        }
    }

    /// Steers and moves the paddle for one tick.
    pub fn steer(&mut self, c: Controls)
        requires
            old(self).wf(),
        ensures
            *final(self) == old(self).steered(c),
            final(self).wf(),
    {
        let v: i64 = if c.left == KeyState::Pressed && c.right == KeyState::Released {
            if self.velocity - STEER_STEP < -UNIT {
                -UNIT
            } else {
                self.velocity - STEER_STEP
            }
        } else if c.left == KeyState::Released && c.right == KeyState::Pressed {
            if self.velocity + STEER_STEP > UNIT {
                UNIT
            } else {
                self.velocity + STEER_STEP
            }
        } else {
            let d = div_i64(self.velocity * DECAY_NUM, DECAY_DEN);
            proof {
                vstd::arithmetic::div_mod::lemma_div_is_ordered(
                    (self.velocity * DECAY_NUM) as int,
                    100 * UNIT,
                    100,
                );
                vstd::arithmetic::div_mod::lemma_div_is_ordered(
                    -(self.velocity * DECAY_NUM),
                    100 * UNIT,
                    100,
                );
            }
            d
        };
        let step = div_i64(v, TRACK_SPEED_DIV);
        self.x = clamp_i64(self.x + step, -TRACK_LIMIT, TRACK_LIMIT);
        self.velocity = v;
    }
}

/// `v * DECAY_NUM / DECAY_DEN`, held within `BALL_SPEED_LIMIT` of zero.
pub open spec fn damp(v: int) -> int {
    clamp(
        div_toward_zero(v * DECAY_NUM, DECAY_DEN as int),
        -BALL_SPEED_LIMIT,
        BALL_SPEED_LIMIT as int,
    )
}

impl Ball {
    /// Each coordinate of the velocity lies within `BALL_SPEED_LIMIT` of zero.
    pub open spec fn bounded(self) -> bool {
        -BALL_SPEED_LIMIT <= self.velocity.x <= BALL_SPEED_LIMIT && -BALL_SPEED_LIMIT
            <= self.velocity.y <= BALL_SPEED_LIMIT
    }

    /// The ball after gravity: its vertical velocity gains the part of itself
    /// held within `GRAVITY_LOW..=GRAVITY_HIGH`, divided by `GRAVITY_DIV`.
    pub open spec fn fallen(self) -> Ball {
        let vy = self.velocity.y;
        Ball {
            velocity: Vector2 {
                y: (vy + div_toward_zero(
                    clamp(vy as int, GRAVITY_LOW as int, GRAVITY_HIGH as int),
                    GRAVITY_DIV as int,
                )) as i64,
                ..self.velocity
            },
            ..self
        }
    }

    /// The ball after a hit: the paddle's bounce direction is added to the
    /// velocity, and `jitter` to its horizontal part.
    pub open spec fn hit(self, bounce: Vector2, jitter: int) -> Ball {
        Ball {
            velocity: Vector2 {
                x: (self.velocity.x + bounce.x + jitter) as i64,
                y: (self.velocity.y + bounce.y) as i64,
            },
            ..self
        }
    }

    /// The ball after damping: each coordinate of the velocity decays, then is
    /// held within `BALL_SPEED_LIMIT` of zero.
    pub open spec fn damped(self) -> Ball {
        Ball {
            velocity: Vector2 {
                x: damp(self.velocity.x as int) as i64,
                y: damp(self.velocity.y as int) as i64,
            },
            ..self
        }
    }

    /// The ball after it moves by its velocity, held on the track, and within
    /// `FIELD_LIMIT` of zero in height (a range guard that play does not reach).
    pub open spec fn moved(self) -> Ball {
        Ball {
            position: Vector2 {
                x: clamp(
                    self.position.x + self.velocity.x,
                    -TRACK_LIMIT,
                    TRACK_LIMIT as int,
                ) as i64,
                y: clamp(
                    self.position.y + self.velocity.y,
                    -FIELD_LIMIT,
                    FIELD_LIMIT as int,
                ) as i64,
            },
            ..self
        }
    }
}

/// Relies on `rand::Rng::gen_range` on `rand::thread_rng()`: a value of
/// `low..high` drawn from the thread's generator. It panics on an empty range,
/// which `requires` leaves out, and when the system cannot seed the generator.
#[verifier::external_body]
fn random_in(low: i64, high: i64) -> (r: i64)
    requires
        low < high,
    ensures
        low <= r < high,
{
    rand::Rng::gen_range(&mut rand::thread_rng(), low..high)
}

impl World {
    /// Every quantity lies within the bounds that the simulation keeps.
    pub open spec fn wf(self) -> bool {
        &&& self.paddle.wf()
        &&& self.ball.placed()
        &&& self.ball.bounded()
        &&& -CAMERA_LIMIT <= self.camera_x <= CAMERA_LIMIT
    }

    /// The state after the events `es`: the keys follow them, and a `Reset`
    /// among them puts the ball back at its spawn point.
    pub open spec fn after_events(self, es: Seq<Event>) -> World {
        World {
            controls: controls_after_all(self.controls, es),
            ball: if has_reset(es) {
                Ball { position: spawn_point(), ..self.ball }
            } else {
                self.ball
            },
            ..self
        }
    }

    /// The camera after one tick, following the paddle at `x`.
    pub open spec fn camera_after(camera: int, x: int) -> int {
        clamp(
            div_toward_zero(camera * CAMERA_WEIGHT + x, CAMERA_WEIGHT + 1),
            -CAMERA_LIMIT,
            CAMERA_LIMIT as int,
        )
    }

    /// The state after one tick's motion, `jitter` being the random part of a hit.
    pub open spec fn advanced(self, jitter: int) -> World {
        let paddle = self.paddle.steered(self.controls);
        let fallen = self.ball.fallen();
        let struck = if paddle.touches(fallen) {
            fallen.hit(paddle.bounce(), jitter)
        } else {
            fallen
        };
        World {
            paddle,
            ball: struck.damped().moved(),
            camera_x: Self::camera_after(self.camera_x as int, paddle.x as int) as i64,
            ..self
        }
    }

    /// The state after a whole tick.
    pub open spec fn next(self, es: Seq<Event>, jitter: int) -> World {
        self.after_events(es).advanced(jitter)
    }

    /// The state after a run of ticks, each with its events and its jitter.
    pub open spec fn run(self, steps: Seq<(Seq<Event>, int)>) -> World
        decreases steps.len(),
    {
        if steps.len() == 0 {
            self
        } else {
            self.run(steps.drop_last()).next(steps.last().0, steps.last().1)
        }
    }

    /// The vertices of the scene: the lose zone, the paddle, then the ball.
    pub open spec fn scene_vertices(self) -> Seq<Vertex> {
        self.lose_zone.vertex_list() + self.paddle.vertex_list() + self.ball.vertex_list()
    }

    /// The indices of the scene, each shape's counted from its first vertex.
    pub open spec fn scene_indices(self) -> Seq<int> {
        rebased(quad_indices(), 0) + rebased(quad_indices(), 4) + rebased(
            self.ball.index_list(),
            8,
        )
    }

    /// `scene` draws this state, with the camera of this state.
    pub open spec fn draws(self, scene: Scene) -> bool {
        &&& scene.mesh.vertices@ == self.scene_vertices()
        &&& scene.mesh.indices@.len() == self.scene_indices().len()
        &&& forall|j: int|
            0 <= j < scene.mesh.indices@.len() ==> scene.mesh.indices@[j]
                == self.scene_indices()[j]
        &&& scene.camera_x == self.camera_x
    }

    /// The state at start: the paddle level and still at the middle, the ball
    /// still at its spawn point, no key held, the camera at zero.
    pub fn new() -> (r: World)
        ensures
            r.wf(),
            r.paddle == (Paddle { x: 0, velocity: 0 }),
            r.ball.position == spawn_point(),
            r.ball.velocity == (Vector2 { x: 0, y: 0 }),
            r.controls == (Controls { left: KeyState::Released, right: KeyState::Released }),
            r.camera_x == 0,
    {
        World {
            lose_zone: LoseZone,
            paddle: Paddle { x: 0, velocity: 0 },
            ball: Ball { position: Vector2 { x: 0, y: SPAWN_Y }, velocity: Vector2 { x: 0, y: 0 } },
            controls: Controls { left: KeyState::Released, right: KeyState::Released },
            camera_x: 0,
        }
    }

    /// Applies one event: a key's new state, or the ball put back at its spawn
    /// point.
    pub fn apply_event(&mut self, e: Event)
        ensures
            final(self).controls == controls_after(old(self).controls, e),
            final(self).ball == (if e == Event::Reset {
                Ball { position: spawn_point(), ..old(self).ball }
            } else {
                old(self).ball
            }),
            final(self).paddle == old(self).paddle,
            final(self).camera_x == old(self).camera_x,
    {
        match e {
            Event::Left(s) => self.controls.left = s,
            Event::Right(s) => self.controls.right = s,
            Event::Reset => self.ball.position = Vector2 { x: 0, y: SPAWN_Y },
        }
    }

    /// Applies the events in order. Once a `Reset` is among them, the ball
    /// stands at its spawn point.
    pub fn apply_events(&mut self, events: &Vec<Event>)
        ensures
            *final(self) == old(self).after_events(events@),
            has_reset(events@) ==> final(self).ball.position == spawn_point(),
    {
        let mut i: usize = 0;
        while i < events.len()
            invariant
                i <= events@.len(),
                *self == old(self).after_events(events@.subrange(0, i as int)),
            decreases events@.len() - i,
        {
            let e = events[i];
            self.apply_event(e);
            proof {
                let before = events@.subrange(0, i as int);
                let after = events@.subrange(0, i + 1);
                assert(after.drop_last() =~= before);
                assert(after.last() == e);
                if e == Event::Reset {
                    assert(after[i as int] == Event::Reset);
                }
                if has_reset(before) {
                    let k = choose|k: int| 0 <= k < before.len() && before[k] == Event::Reset;
                    assert(after[k] == Event::Reset);
                }
                if has_reset(after) && e != Event::Reset {
                    let k = choose|k: int| 0 <= k < after.len() && after[k] == Event::Reset;
                    assert(before[k] == Event::Reset);
                }
            }
            i = i + 1;
        }
        assert(events@.subrange(0, events@.len() as int) =~= events@);
    }

    /// One tick's motion: the paddle steers and moves, gravity acts on the
    /// ball, a ball that touches the paddle takes its bounce direction plus
    /// `jitter` sideways, the ball's velocity decays and is bounded, the ball
    /// moves, and the camera follows the paddle. Returns whether the ball now
    /// lies in the lose zone.
    pub fn advance(&mut self, jitter: i64) -> (lost: bool)
        requires
            old(self).wf(),
            JITTER_LOW <= jitter < JITTER_HIGH,
        ensures
            *final(self) == old(self).advanced(jitter as int),
            final(self).wf(),
            lost == (final(self).ball.position.y < LOSE_LINE),
    {
        let controls = self.controls;
        self.paddle.steer(controls);
        let vy = self.ball.velocity.y;
        let g = div_i64(clamp_i64(vy, GRAVITY_LOW, GRAVITY_HIGH), GRAVITY_DIV);
        proof {
            vstd::arithmetic::div_mod::lemma_div_is_ordered(
                -clamp(vy as int, GRAVITY_LOW as int, GRAVITY_HIGH as int),
                500_000,
                100,
            );
        }
        self.ball.velocity.y = vy + g;
        if self.paddle.contains(&self.ball) {
            let n = self.paddle.normal();
            self.ball.velocity.x = self.ball.velocity.x + n.x + jitter;
            self.ball.velocity.y = self.ball.velocity.y + n.y;
        }
        let vx = self.ball.velocity.x;
        let vy = self.ball.velocity.y;
        let dx = clamp_i64(div_i64(vx * DECAY_NUM, DECAY_DEN), -BALL_SPEED_LIMIT, BALL_SPEED_LIMIT);
        let dy = clamp_i64(div_i64(vy * DECAY_NUM, DECAY_DEN), -BALL_SPEED_LIMIT, BALL_SPEED_LIMIT);
        self.ball.velocity = Vector2 { x: dx, y: dy };
        let px = clamp_i64(self.ball.position.x + dx, -TRACK_LIMIT, TRACK_LIMIT);
        let py = clamp_i64(self.ball.position.y + dy, -FIELD_LIMIT, FIELD_LIMIT);
        self.ball.position = Vector2 { x: px, y: py };
        self.camera_x = clamp_i64(
            div_i64(self.camera_x * CAMERA_WEIGHT + self.paddle.x, CAMERA_WEIGHT + 1),
            -CAMERA_LIMIT,
            CAMERA_LIMIT,
        );
        self.lose_zone.contains(self.ball.position)
    }

    /// The scene of this state: the lose zone, the paddle and the ball drawn
    /// into one new mesh, and the camera.
    pub fn scene(&self) -> (r: Scene)
        requires
            self.wf(),
        ensures
            self.draws(r),
    {
        let mut mesh = Mesh::builder();
        self.lose_zone.push(&mut mesh);
        let ghost first = mesh.index_list();
        self.paddle.push(&mut mesh);
        let ghost second = mesh.index_list();
        self.ball.push(&mut mesh);
        let ghost third = mesh.index_list();
        let r = Scene { mesh: mesh.build(), camera_x: self.camera_x };
        proof {
            assert(r.mesh.vertices@ =~= self.scene_vertices());
            assert forall|j: int| 0 <= j < third.len() implies third[j] == self.scene_indices()[j] by {
                if j < 6 {
                    assert(third[j] == third.subrange(0, 12)[j]);
                    assert(second[j] == second.subrange(0, 6)[j]);
                } else if j < 12 {
                    assert(third[j] == third.subrange(0, 12)[j]);
                    assert(second[6 + (j - 6)] == rebased(quad_indices(), 4)[j - 6]);
                } else {
                    assert(third[12 + (j - 12)] == rebased(self.ball.index_list(), 8)[j - 12]);
                }
            }
        }
        r
    }

    /// One whole tick: the events, in order, then the motion, then the new
    /// scene, built from the state that the tick leaves.
    pub fn tick(&mut self, events: &Vec<Event>, jitter: i64) -> (r: TickOutcome)
        requires
            old(self).wf(),
            JITTER_LOW <= jitter < JITTER_HIGH,
        ensures
            *final(self) == old(self).next(events@, jitter as int),
            final(self).wf(),
            final(self).ball.bounded(),
            r.lost == (final(self).ball.position.y < LOSE_LINE),
            final(self).draws(r.scene),
    {
        self.apply_events(events);
        let lost = self.advance(jitter);
        let scene = self.scene();
        TickOutcome { lost, scene }
    }

    /// One whole tick, with the jitter of a hit drawn at random from
    /// `JITTER_LOW..JITTER_HIGH`.
    pub fn tick_random(&mut self, events: &Vec<Event>) -> (r: TickOutcome)
        requires
            old(self).wf(),
        ensures
            exists|j: int|
                JITTER_LOW <= j < JITTER_HIGH && *final(self) == old(self).next(events@, j),
            final(self).wf(),
            r.lost == (final(self).ball.position.y < LOSE_LINE),
            final(self).draws(r.scene),
    {
        let jitter = random_in(JITTER_LOW, JITTER_HIGH);
        self.tick(events, jitter)
    }
}

/// Damping leaves each coordinate of any ball's velocity within
/// `BALL_SPEED_LIMIT` of zero.
pub proof fn lemma_damping_bounds_velocity(b: Ball)
    ensures
        b.damped().bounded(),
{
}

/// A `Reset` among a tick's events puts the ball at its spawn point before the
/// tick's motion, wherever it was and however it moved.
pub proof fn lemma_reset_spawns(w: World, es: Seq<Event>)
    requires
        has_reset(es),
    ensures
        w.after_events(es).ball.position == spawn_point(),
{
}

proof fn lemma_steering_bounded(p: Paddle, c: Controls)
    requires
        p.wf(),
    ensures
        -UNIT <= p.steering(c) <= UNIT,
{
    vstd::arithmetic::div_mod::lemma_div_is_ordered((p.velocity * DECAY_NUM) as int, 100 * UNIT, 100);
    vstd::arithmetic::div_mod::lemma_div_is_ordered(-(p.velocity * DECAY_NUM), 100 * UNIT, 100);
}

proof fn lemma_next_wf(w: World, es: Seq<Event>, jitter: int)
    requires
        w.wf(),
    ensures
        w.next(es, jitter).wf(),
{
    let v = w.after_events(es);
    lemma_steering_bounded(v.paddle, v.controls);
}

/// From a state within bounds, every run of ticks, whatever its events and
/// its jitters, keeps the paddle's center on its track, each coordinate of
/// the ball's velocity within `BALL_SPEED_LIMIT`, and the rest of the state
/// within bounds.
pub proof fn lemma_run_keeps_bounds(w: World, steps: Seq<(Seq<Event>, int)>)
    requires
        w.wf(),
    ensures
        w.run(steps).wf(),
        -TRACK_LIMIT <= w.run(steps).paddle.x <= TRACK_LIMIT,
        w.run(steps).ball.bounded(),
    decreases steps.len(),
{
    if steps.len() > 0 {
        lemma_run_keeps_bounds(w, steps.drop_last());
        lemma_next_wf(w.run(steps.drop_last()), steps.last().0, steps.last().1);
    }
}

} // verus!
