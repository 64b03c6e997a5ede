//! Per-entity physics: the inertial ramp, ball motion and reflection, paddle
//! clipping, and collision resolution.

use rpong::components::physics::{ramp_velocity, BallPhysics, PlayerPhysics};
use rpong::entities::{Dimensions, Entity, EntityID, Position};
use rpong::systems::physics::PhysicsSystem;

fn field() -> Dimensions {
    Dimensions { width: 800_000, height: 600_000 }
}

fn ball_at(x: i64, y: i64, orientation: i64) -> Entity {
    Entity::new(
        Position { x, y },
        Dimensions { width: 10_000, height: 10_000 },
        orientation,
        4_000,
        EntityID(0),
    )
}

fn paddle_at(x: i64, y: i64) -> Entity {
    Entity::new(
        Position { x, y },
        Dimensions { width: 15_000, height: 100_000 },
        0,
        0,
        EntityID(1),
    )
}

#[test]
fn ramp_starts_at_rest_and_reaches_the_maximum() {
    assert_eq!(ramp_velocity(0), 0);
    assert_eq!(ramp_velocity(1), 147);
    assert_eq!(ramp_velocity(2), 287);
    assert_eq!(ramp_velocity(3), 420);
    assert_eq!(ramp_velocity(100), 2_988);
    assert_eq!(ramp_velocity(112), 3_000);
    assert_eq!(ramp_velocity(200), 3_000);
    assert_eq!(ramp_velocity(3_000), 3_000);
}

#[test]
fn ramp_climbs_strictly_until_the_maximum() {
    let mut last = ramp_velocity(0);
    for t in 1..150u64 {
        let v = ramp_velocity(t);
        if last < 3_000 {
            assert!(v > last);
        } else {
            assert_eq!(v, 3_000);
        }
        assert!(v <= 3_000);
        last = v;
    }
}

#[test]
fn ball_travels_straight_right_at_orientation_zero() {
    // Field center, nothing in reach: x climbs by the speed, nothing else moves.
    let mut entity = ball_at(400_000, 300_000, 0);
    let mut ball = BallPhysics::new(entity.id());
    for tick in 1..=10i64 {
        ball.update(&mut entity, field());
        assert_eq!(entity.position.x, 400_000 + 4_000 * tick);
        assert_eq!(entity.position.y, 300_000);
        assert_eq!(entity.orientation, 0);
        assert_eq!(entity.velocity, 4_000);
    }
}

#[test]
fn ball_reflects_off_the_top_edge() {
    // Moving straight up into the top edge: orientation comes back flipped.
    let mut entity = ball_at(400_000, 8_000, -90_000);
    let mut ball = BallPhysics::new(entity.id());
    ball.update(&mut entity, field());
    assert_eq!(entity.position.y, 4_000);
    // The moved box pokes past the edge: reflected to normalize(90_000).
    assert_eq!(entity.orientation, 90_000);
}

#[test]
fn ball_reflects_off_the_bottom_edge() {
    let mut entity = ball_at(400_000, 592_000, 90_000);
    let mut ball = BallPhysics::new(entity.id());
    ball.update(&mut entity, field());
    assert_eq!(entity.position.y, 596_000);
    assert_eq!(entity.orientation, -90_000);
}

#[test]
fn ball_comes_back_from_the_left_wall() {
    // Moving straight left into the wall: flipped and turned half around,
    // normalize(-180_000 + 180_000) = 0 — the ball comes back rightward.
    let mut entity = ball_at(8_000, 300_000, 180_000);
    let mut ball = BallPhysics::new(entity.id());
    ball.update(&mut entity, field());
    assert_eq!(entity.position.x, 4_000);
    assert_eq!(entity.orientation, 0);
}

#[test]
fn ball_comes_back_from_the_right_wall() {
    let mut entity = ball_at(792_000, 300_000, 0);
    let mut ball = BallPhysics::new(entity.id());
    ball.update(&mut entity, field());
    assert_eq!(entity.position.x, 796_000);
    // Flipped (still zero), then turned half around, and the half-turn
    // normalization folds the half turn back to zero.
    assert_eq!(entity.orientation, 0);
}

#[test]
fn paddle_is_clipped_to_the_field() {
    // Start far below the field: one tick pulls the center back to the band.
    let mut entity = paddle_at(50_000, 700_000);
    let mut player = PlayerPhysics::new(entity.id());
    player.update(&mut entity, field());
    assert_eq!(entity.position.y, 550_000);

    // Start far above: clipped to half the height less one unit.
    let mut entity = paddle_at(50_000, -100);
    let mut player = PlayerPhysics::new(entity.id());
    player.update(&mut entity, field());
    assert_eq!(entity.position.y, 49_000);

    // And it stays in the band over many ticks, whatever the motion.
    let mut entity = paddle_at(50_000, 300_000);
    entity.velocity = 3_000;
    entity.orientation = 90_000;
    let mut player = PlayerPhysics::new(entity.id());
    for _ in 0..500 {
        player.update(&mut entity, field());
        assert!(49_000 <= entity.position.y && entity.position.y <= 550_000);
    }
}

#[test]
fn paddle_ramps_up_and_resets_on_turning() {
    let mut entity = paddle_at(50_000, 100_000);
    entity.velocity = 3_000;
    entity.orientation = 90_000;  // moving down
    let mut player = PlayerPhysics::new(entity.id());

    // First tick: the orientation differs from the recorded one, so the ramp
    // restarts from rest and the paddle does not move yet.
    let y0 = entity.position.y;
    player.update(&mut entity, field());
    assert_eq!(entity.position.y, y0);

    // From then on, consecutive same-direction ticks move it ever faster.
    let mut last_step = 0i64;
    for _ in 0..10 {
        let before = entity.position.y;
        player.update(&mut entity, field());
        let step = entity.position.y - before;
        assert!(step > last_step);
        last_step = step;
    }

    // Turning around resets the ramp: the next tick moves it nowhere.
    entity.orientation = -90_000;
    let before = entity.position.y;
    player.update(&mut entity, field());
    assert_eq!(entity.position.y, before);
}

#[test]
fn ball_above_the_paddle_is_a_top_hit() {
    let system = PhysicsSystem::new();
    let player = paddle_at(50_000, 300_000);
    // Ball bottom edge (355_000) strictly above the paddle top (350_000).
    let mut ball = ball_at(52_000, 360_000, 45_000);
    system.handle_collision(&player, &mut ball);
    assert_eq!(ball.orientation, -45_000);
    assert_eq!(ball.velocity, 4_000);
    assert_eq!(ball.position.y, 360_000);
}

#[test]
fn ball_below_the_paddle_is_a_bottom_hit() {
    let system = PhysicsSystem::new();
    let player = paddle_at(50_000, 300_000);
    // Ball top edge (235_000) strictly below the paddle bottom (250_000).
    let mut ball = ball_at(52_000, 240_000, -30_000);
    system.handle_collision(&player, &mut ball);
    assert_eq!(ball.orientation, 30_000);
}

#[test]
fn ball_overlapping_the_span_is_a_face_hit() {
    let system = PhysicsSystem::new();
    let player = paddle_at(50_000, 300_000);

    // Dead center, moving rightward: the return angle is zero, mirrored to a
    // flat leftward half turn.
    let mut ball = ball_at(56_000, 300_000, 0);
    system.handle_collision(&player, &mut ball);
    assert_eq!(ball.orientation, 180_000);

    // Dead center, moving leftward: plain zero.
    let mut ball = ball_at(56_000, 300_000, 120_000);
    system.handle_collision(&player, &mut ball);
    assert_eq!(ball.orientation, 0);

    // Struck below the center: scaled by distance over half height.
    let mut ball = ball_at(56_000, 325_000, 0);
    system.handle_collision(&player, &mut ball);
    assert_eq!(ball.orientation, 212_500);
}

#[test]
fn face_hit_at_center_keeps_return_angle_within_the_maximum() {
    // End to end: ball overlapping the paddle face at paddle-center height;
    // after a whole tick its orientation magnitude is at most the configured
    // maximum return angle.
    let mut world = rpong::entities::EntityStore::new();
    let paddle_id = world.spawn(
        Position { x: 50_000, y: 300_000 },
        Dimensions { width: 15_000, height: 100_000 },
        0,
        0,
    );
    let ball_id = world.spawn(
        Position { x: 56_000, y: 300_000 },
        Dimensions { width: 10_000, height: 10_000 },
        0,
        4_000,
    );
    let mut system = PhysicsSystem::new();
    system.register_component(
        paddle_id,
        rpong::components::physics::PhysicsComponent::Player(PlayerPhysics::new(paddle_id)),
    );
    system.register_component(
        ball_id,
        rpong::components::physics::PhysicsComponent::Ball(BallPhysics::new(ball_id)),
    );
    system.update(&mut world, field());
    let ball = world.get(ball_id);
    assert!(ball.orientation.abs() <= 65_000);
    assert_eq!(ball.orientation, 0);
    // The face hit turned the ball around; integration moved it back left.
    assert_eq!(ball.position.x, 52_000);
}
