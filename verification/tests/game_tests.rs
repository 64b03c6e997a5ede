//! The orchestrator: world setup, input routing, and the independence of the
//! three registries.

use rpong::components::graphics::ShapeKind;
use rpong::components::input::{InputType, Key};
use rpong::entities::{Dimensions, EntityID};
use rpong::game::App;
use rpong::systems::input::InputSystem;

const UP1: Key = Key(87);
const DOWN1: Key = Key(83);
const UP2: Key = Key(265);
const DOWN2: Key = Key(264);

fn new_app() -> App {
    App::new(
        Dimensions { width: 800_000, height: 600_000 },
        45_000,
        UP1,
        DOWN1,
        UP2,
        DOWN2,
    )
}

#[test]
fn setup_places_ball_and_paddles() {
    let app = new_app();
    assert_eq!(app.world.len(), 3);

    let ball = app.world.get(EntityID(0));
    assert_eq!(ball.position.x, 395_000);
    assert_eq!(ball.position.y, 295_000);
    assert_eq!(ball.dimensions.width, 10_000);
    assert_eq!(ball.orientation, 45_000);
    assert_eq!(ball.velocity, 4_000);

    let player1 = app.world.get(EntityID(1));
    assert_eq!(player1.position.x, 50_000);
    assert_eq!(player1.position.y, 300_000);
    assert_eq!(player1.dimensions.width, 15_000);
    assert_eq!(player1.dimensions.height, 100_000);
    assert_eq!(player1.velocity, 0);

    let player2 = app.world.get(EntityID(2));
    assert_eq!(player2.position.x, 750_000);
    assert_eq!(player2.position.y, 300_000);
}

#[test]
fn pressed_and_released_keys_drive_the_paddle() {
    let mut app = new_app();

    // Pressing the up key sets the configured speed, aimed up.
    app.input(UP1, InputType::Pressed);
    {
        let player1 = app.world.get(EntityID(1));
        assert_eq!(player1.velocity, 3_000);
        assert_eq!(player1.orientation, -90_000);
    }
    // The other paddle heard nothing.
    assert_eq!(app.world.get(EntityID(2)).velocity, 0);

    // Releasing it stops the paddle.
    app.input(UP1, InputType::Released);
    assert_eq!(app.world.get(EntityID(1)).velocity, 0);
    assert_eq!(app.world.get(EntityID(1)).orientation, -90_000);

    // The down key aims the other way.
    app.input(DOWN1, InputType::Pressed);
    assert_eq!(app.world.get(EntityID(1)).velocity, 3_000);
    assert_eq!(app.world.get(EntityID(1)).orientation, 90_000);

    // A key bound to nothing changes nothing.
    app.input(Key(999), InputType::Pressed);
    assert_eq!(app.world.get(EntityID(1)).velocity, 3_000);
    assert_eq!(app.world.get(EntityID(2)).velocity, 0);
}

#[test]
fn second_paddle_has_its_own_keys() {
    let mut app = new_app();
    app.input(UP2, InputType::Pressed);
    assert_eq!(app.world.get(EntityID(2)).velocity, 3_000);
    assert_eq!(app.world.get(EntityID(2)).orientation, -90_000);
    assert_eq!(app.world.get(EntityID(1)).velocity, 0);
}

#[test]
fn update_moves_the_ball_and_nothing_else() {
    let mut app = new_app();
    app.update();
    let ball = app.world.get(EntityID(0));
    // Orientation 45_000: both deflections are half scale, so 2_000 each way.
    assert_eq!(ball.position.x, 397_000);
    assert_eq!(ball.position.y, 297_000);
    assert_eq!(ball.orientation, 45_000);
    assert_eq!(app.world.get(EntityID(1)).position.y, 300_000);
    assert_eq!(app.world.get(EntityID(2)).position.y, 300_000);
}

#[test]
fn render_emits_one_command_per_renderable() {
    let app = new_app();
    let commands = app.render();
    assert_eq!(commands.len(), 3);
    assert!(matches!(commands[0].shape, ShapeKind::DiscWithBorder));
    assert!(matches!(commands[1].shape, ShapeKind::RectWithBorder));
    assert!(matches!(commands[2].shape, ShapeKind::RectWithBorder));
    // The ball's box: its extent centered on its position.
    assert_eq!(commands[0].bounds.x, 390_000);
    assert_eq!(commands[0].bounds.y, 290_000);
    assert_eq!(commands[0].bounds.width, 10_000);
    assert_eq!(commands[0].bounds.height, 10_000);
    // A paddle's box.
    assert_eq!(commands[1].bounds.x, 42_500);
    assert_eq!(commands[1].bounds.y, 250_000);
    assert_eq!(commands[1].bounds.width, 15_000);
    assert_eq!(commands[1].bounds.height, 100_000);
}

#[test]
fn registries_are_independent() {
    // Two games, one with its input registry emptied: physics and rendering
    // behave identically for every id.
    let mut with_input = new_app();
    let mut without_input = new_app();
    without_input.input = InputSystem::new();

    with_input.update();
    without_input.update();
    for k in 0..3i64 {
        let a = with_input.world.get(EntityID(k));
        let b = without_input.world.get(EntityID(k));
        assert_eq!(a.position, b.position);
        assert_eq!(a.orientation, b.orientation);
        assert_eq!(a.velocity, b.velocity);
    }

    let ra = with_input.render();
    let rb = without_input.render();
    assert_eq!(ra.len(), rb.len());
    for k in 0..ra.len() {
        assert_eq!(ra[k], rb[k]);
    }

    // Only the input registry's own concern differs: the emptied game ignores
    // the key its twin reacts to.
    with_input.input(UP1, InputType::Pressed);
    without_input.input(UP1, InputType::Pressed);
    assert_eq!(with_input.world.get(EntityID(1)).velocity, 3_000);
    assert_eq!(without_input.world.get(EntityID(1)).velocity, 0);
}

#[test]
fn entity_ids_are_sequential_and_stable() {
    let mut store = rpong::entities::EntityStore::new();
    let a = store.spawn(
        rpong::entities::Position { x: 0, y: 0 },
        Dimensions { width: 10, height: 10 },
        0,
        0,
    );
    let b = store.spawn(
        rpong::entities::Position { x: 5, y: 5 },
        Dimensions { width: 10, height: 10 },
        0,
        0,
    );
    assert_eq!(a, EntityID(0));
    assert_eq!(b, EntityID(1));
    assert_eq!(store.get(a).position.x, 0);
    assert_eq!(store.get(b).position.x, 5);
    assert_eq!(store.len(), 2);
}
