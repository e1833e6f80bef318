use paddleball::entities::{Ball, LoseZone, Paddle, BALL_RADIUS, BALL_SEGMENTS, PADDLE_Y};
use paddleball::fixed::UNIT;
use paddleball::geometry::Vector2;
use paddleball::mesh::{Color, MeshBuilder};

#[test]
fn lose_zone_contains_points_below_its_top() {
    let zone = LoseZone;
    assert!(zone.contains(Vector2::new(0, -950_000)));
    assert!(!zone.contains(Vector2::new(0, -900_000)));
    assert!(!zone.contains(Vector2::new(3 * UNIT, 0)));
}

#[test]
fn lose_zone_draws_an_orange_quad() {
    let mut mesh = MeshBuilder::new();
    LoseZone.push(&mut mesh);
    let mesh = mesh.build();
    assert_eq!(mesh.vertices.len(), 4);
    assert_eq!(mesh.vertices[0].position, Vector2::new(-10 * UNIT, -UNIT));
    assert_eq!(mesh.vertices[2].position, Vector2::new(10 * UNIT, -900_000));
    assert_eq!(mesh.vertices[1].color, Color { r: 255, g: 153, b: 0 });
    assert_eq!(mesh.indices, vec![0, 1, 2, 0, 2, 3]);
}

#[test]
fn level_paddle_points() {
    let paddle = Paddle { x: UNIT, velocity: 0 };
    let p = paddle.points();
    assert_eq!(p[0], Vector2::new(800_000, -800_000));
    assert_eq!(p[1], Vector2::new(1_200_000, -800_000));
    assert_eq!(p[2], Vector2::new(1_200_000, -600_000));
    assert_eq!(p[3], Vector2::new(800_000, -600_000));
}

#[test]
fn steering_paddle_tilts() {
    // full right steering tilts by an eighth of a half turn
    let p = Paddle { x: 0, velocity: UNIT }.points();
    // the bottom right corner rises and the bottom left one sinks
    assert!(p[1].y > PADDLE_Y - 100_000);
    assert!(p[0].y < PADDLE_Y - 100_000);
    assert_eq!(p[0].x, -p[2].x);
    assert_eq!(p[0].y - PADDLE_Y, -(p[2].y - PADDLE_Y));
}

#[test]
fn paddle_contains_ball_touching_its_top() {
    let paddle = Paddle { x: 0, velocity: 0 };
    let touching = Ball {
        position: Vector2::new(0, PADDLE_Y + 100_000 + BALL_RADIUS),
        velocity: Vector2::new(0, 0),
    };
    let above = Ball {
        position: Vector2::new(0, PADDLE_Y + 100_000 + BALL_RADIUS + 1),
        velocity: Vector2::new(0, 0),
    };
    let inside = Ball { position: Vector2::new(150_000, PADDLE_Y), velocity: Vector2::new(0, 0) };
    assert!(paddle.contains(&touching));
    assert!(!paddle.contains(&above));
    assert!(paddle.contains(&inside));
}

#[test]
fn normal_of_still_centered_paddle_points_up() {
    assert_eq!(Paddle { x: 0, velocity: 0 }.normal(), Vector2::new(0, UNIT));
}

#[test]
fn normal_leans_with_steering_and_position() {
    // the steering angle equals the steering: a sixteenth of a half turn at full right
    let n = Paddle { x: 0, velocity: UNIT }.normal();
    assert!(n.x < 0);
    assert!(n.y < UNIT && n.y > 0);
    let m = Paddle { x: -2 * UNIT, velocity: 0 }.normal();
    assert!(m.x > 0);
}

#[test]
fn ball_draws_a_fan() {
    let ball = Ball { position: Vector2::new(UNIT, 0), velocity: Vector2::new(0, 0) };
    let mut mesh = MeshBuilder::new();
    ball.push(&mut mesh);
    let mesh = mesh.build();
    assert_eq!(mesh.vertices.len(), BALL_SEGMENTS + 2);
    assert_eq!(mesh.indices.len(), 3 * BALL_SEGMENTS);
    assert_eq!(mesh.vertices[0].position, Vector2::new(UNIT, 0));
    // the rim starts at the top and closes at the top
    assert_eq!(mesh.vertices[1].position, Vector2::new(UNIT, BALL_RADIUS));
    assert_eq!(mesh.vertices[BALL_SEGMENTS + 1].position, Vector2::new(UNIT, BALL_RADIUS));
    // a quarter of the way round it is at the right
    assert_eq!(mesh.vertices[6].position, Vector2::new(UNIT + BALL_RADIUS, 0));
    assert_eq!(mesh.indices[0..6].to_vec(), vec![0, 2, 1, 0, 3, 2]);
    assert_eq!(mesh.indices[57..60].to_vec(), vec![0, 21, 20]);
}

fn builder_with(n: usize) -> MeshBuilder {
    let mut mesh = MeshBuilder::new();
    let v = paddleball::mesh::Vertex { position: Vector2::new(0, 0), color: Color { r: 0, g: 0, b: 0 } };
    mesh.push(vec![v; n], vec![]);
    mesh
}

#[test]
fn quads_fit_up_to_the_last_index() {
    let mut mesh = builder_with(65_532);
    LoseZone.push(&mut mesh);
    let built = mesh.build();
    assert_eq!(built.indices, vec![65_532, 65_533, 65_534, 65_532, 65_534, 65_535]);
    let mut mesh = builder_with(65_532);
    Paddle { x: 0, velocity: 0 }.push(&mut mesh);
    assert_eq!(*mesh.build().indices.last().unwrap(), 65_535);
}

#[test]
fn ball_fan_fits_up_to_the_last_index() {
    let n = 65_535 - (BALL_SEGMENTS + 1);
    let mut mesh = builder_with(n);
    Ball { position: Vector2::new(0, 0), velocity: Vector2::new(0, 0) }.push(&mut mesh);
    let built = mesh.build();
    assert_eq!(built.indices.iter().copied().max(), Some(65_535));
    assert_eq!(built.vertices.len(), 65_536);
}

#[test]
fn reset_ball_is_clear_of_any_paddle() {
    let ball = Ball { position: Vector2::new(0, 700_000), velocity: Vector2::new(0, 0) };
    for x in [-5_500_000, -UNIT, 0, UNIT, 5_500_000] {
        for velocity in [-UNIT, -UNIT / 2, 0, UNIT / 2, UNIT] {
            assert!(!Paddle { x, velocity }.contains(&ball));
        }
    }
}

#[test]
fn normal_is_at_most_unit_length_and_points_up() {
    assert_eq!(Paddle { x: 800_000, velocity: 800_000 }.normal(), Vector2::new(-158_004, 987_438));
    assert_eq!(Paddle { x: 5_500_000, velocity: -UNIT }.normal(), Vector2::new(-342_058, 726_938));
    for x in [-5_500_000, -2 * UNIT, 0, 800_000, 5_500_000] {
        for velocity in [-UNIT, -300_000, 0, 800_000, UNIT] {
            let n = Paddle { x, velocity }.normal();
            assert!(n.y > 0);
            assert!(n.x * n.x + n.y * n.y <= UNIT * UNIT);
        }
    }
}
