use paddleball::entities::{Ball, Paddle, BALL_SEGMENTS, PADDLE_Y, TRACK_LIMIT};
use paddleball::fixed::UNIT;
use paddleball::geometry::Vector2;
use paddleball::simulation::{
    Controls, Event, KeyState, World, BALL_SPEED_LIMIT, JITTER_HIGH, JITTER_LOW, SPAWN_Y,
};

fn still_ball_at(x: i64, y: i64) -> Ball {
    Ball { position: Vector2::new(x, y), velocity: Vector2::new(0, 0) }
}

#[test]
fn reset_puts_ball_at_spawn_point() {
    let mut world = World::new();
    world.ball = Ball { position: Vector2::new(3 * UNIT, -UNIT / 2), velocity: Vector2::new(70_000, -90_000) };
    world.apply_events(&vec![Event::Left(KeyState::Pressed), Event::Reset, Event::Left(KeyState::Released)]);
    assert_eq!(world.ball.position, Vector2::new(0, SPAWN_Y));
    assert_eq!(world.controls.left, KeyState::Released);
}

#[test]
fn events_latch_keys_in_order() {
    let mut world = World::new();
    world.apply_events(&vec![Event::Right(KeyState::Pressed), Event::Left(KeyState::Pressed), Event::Right(KeyState::Released)]);
    assert_eq!(world.controls, Controls { left: KeyState::Pressed, right: KeyState::Released });
}

#[test]
fn first_tick_from_rest_is_gravity_only() {
    let mut world = World::new();
    let out = world.tick(&vec![], 0);
    // gravity adds -100_000 / 100, damping keeps 95 of each 100
    assert_eq!(world.ball.velocity, Vector2::new(0, -950));
    assert_eq!(world.ball.position, Vector2::new(0, SPAWN_Y - 950));
    assert!(!out.lost);
    assert_eq!(world.paddle, Paddle { x: 0, velocity: 0 });
}

#[test]
fn gravity_only_acts_within_its_band() {
    let mut world = World::new();
    world.ball.velocity = Vector2::new(0, -BALL_SPEED_LIMIT);
    world.tick(&vec![], 0);
    // -100_000 - 1_000, then damped
    assert_eq!(world.ball.velocity.y, -95_950);
}

#[test]
fn steering_steps_and_decays() {
    let mut world = World::new();
    world.tick(&vec![Event::Right(KeyState::Pressed)], 0);
    assert_eq!(world.paddle, Paddle { x: 2_500, velocity: 50_000 });
    world.tick(&vec![Event::Right(KeyState::Released)], 0);
    assert_eq!(world.paddle, Paddle { x: 4_875, velocity: 47_500 });
    world.tick(&vec![Event::Left(KeyState::Pressed)], 0);
    assert_eq!(world.paddle.velocity, -2_500);
    // both keys held: decay
    world.tick(&vec![Event::Right(KeyState::Pressed)], 0);
    assert_eq!(world.paddle.velocity, -2_375);
}

#[test]
fn steering_saturates() {
    let mut world = World::new();
    world.paddle.velocity = -980_000;
    world.tick(&vec![Event::Left(KeyState::Pressed)], 0);
    assert_eq!(world.paddle.velocity, -UNIT);
}

#[test]
fn paddle_stays_on_track_under_held_key() {
    let mut world = World::new();
    for _ in 0..400 {
        world.tick(&vec![Event::Right(KeyState::Pressed)], 0);
        assert!(world.paddle.x <= TRACK_LIMIT);
    }
    assert_eq!(world.paddle.x, TRACK_LIMIT);
    for _ in 0..800 {
        world.tick(&vec![Event::Left(KeyState::Pressed), Event::Right(KeyState::Released)], 0);
        assert!(world.paddle.x >= -TRACK_LIMIT);
    }
    assert_eq!(world.paddle.x, -TRACK_LIMIT);
}

#[test]
fn camera_follows_paddle() {
    let mut world = World::new();
    world.paddle = Paddle { x: 1_100_000, velocity: 0 };
    world.tick(&vec![], 0);
    assert_eq!(world.camera_x, 100_000);
    world.tick(&vec![], 0);
    assert_eq!(world.camera_x, 190_909);
}

#[test]
fn hit_bounces_ball_up_and_velocity_stays_bounded() {
    let mut world = World::new();
    world.ball = Ball { position: Vector2::new(0, PADDLE_Y + 100_000 + 40_000), velocity: Vector2::new(0, -BALL_SPEED_LIMIT) };
    world.tick(&vec![], 10_000);
    // a still, centered paddle bounces straight up: only the jitter moves the ball sideways
    assert_eq!(world.ball.velocity, Vector2::new(9_500, BALL_SPEED_LIMIT));
    for _ in 0..50 {
        world.tick(&vec![], JITTER_LOW);
        assert!(world.ball.velocity.x.abs() <= BALL_SPEED_LIMIT);
        assert!(world.ball.velocity.y.abs() <= BALL_SPEED_LIMIT);
    }
}

#[test]
fn ball_below_lose_line_is_lost_then_reset() {
    let mut world = World::new();
    world.ball = still_ball_at(3 * UNIT, -895_000);
    world.ball.velocity = Vector2::new(0, -20_000);
    let out = world.tick(&vec![], 0);
    assert!(out.lost);
    let out = world.tick(&vec![Event::Reset], 0);
    assert!(!out.lost);
    assert_eq!(world.ball.position.x, 0);
    assert!(world.ball.position.y > SPAWN_Y - 20_000);
}

#[test]
fn ball_stays_on_track() {
    let mut world = World::new();
    world.ball = Ball { position: Vector2::new(TRACK_LIMIT - 10, 0), velocity: Vector2::new(BALL_SPEED_LIMIT, 0) };
    world.tick(&vec![], 0);
    assert_eq!(world.ball.position.x, TRACK_LIMIT);
}

#[test]
fn tick_scene_draws_the_new_state() {
    let mut world = World::new();
    let out = world.tick(&vec![Event::Right(KeyState::Pressed)], 0);
    let again = world.scene();
    assert_eq!(out.scene.mesh.vertices, again.mesh.vertices);
    assert_eq!(out.scene.mesh.indices, again.mesh.indices);
    assert_eq!(out.scene.camera_x, world.camera_x);
    assert_eq!(out.scene.mesh.vertices.len(), 4 + 4 + BALL_SEGMENTS + 2);
    assert_eq!(out.scene.mesh.vertices[8].position, world.ball.position);
    assert_eq!(out.scene.mesh.vertices[4].position, world.paddle.points()[0]);
    assert_eq!(out.scene.mesh.indices[6..12].to_vec(), vec![4, 5, 6, 4, 6, 7]);
    assert_eq!(out.scene.mesh.indices[12..15].to_vec(), vec![8, 10, 9]);
}

#[test]
fn random_jitter_stays_in_its_range() {
    for _ in 0..20 {
        let mut world = World::new();
        world.ball = Ball { position: Vector2::new(0, PADDLE_Y + 140_000), velocity: Vector2::new(0, 0) };
        world.tick_random(&vec![]);
        // bounce x is zero for a still, centered paddle: only the jitter is left, damped
        let vx = world.ball.velocity.x;
        assert!(vx >= JITTER_LOW * 95 / 100 && vx < JITTER_HIGH * 95 / 100 + 1);
        assert_eq!(world.ball.velocity.y, BALL_SPEED_LIMIT);
    }
}
