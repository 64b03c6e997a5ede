//! The orchestrator: the world, the three subsystems, and the per-event
//! entry points — one tick per update event, one batch of drawing requests
//! per render event, one routing pass per key event.

use vstd::prelude::*;

use crate::components::graphics::{BallGraphics, GraphicsComponent, RenderCommand, StickGraphics};
use crate::components::input::{InputType, Key, PlayerInput};
use crate::components::physics::{BallPhysics, PhysicsComponent, PlayerPhysics};
use crate::consts::{
    BALL_RADIUS, BALL_VELOCITY, MAX_ORIENT, PLAYER_HEIGHT, PLAYER_VELOCITY, PLAYER_WALL_DISTANCE,
    PLAYER_WIDTH, SCALE,
};
use crate::entities::{has_id, Dimensions, Entity, EntityID, EntityStore, Position};
use crate::systems::graphics::{render_spec, GraphicsSystem};
use crate::systems::input::{route_spec, InputSystem};
use crate::systems::physics::{pairs_legal, player_heights_ok, tick_spec, PhysicsSystem};
use crate::systems::registry::keys_unique;

verus! {

/// The whole game: the entity store, the three registries, and the field.
pub struct App {
    pub world: EntityStore,
    pub graphics: GraphicsSystem,
    pub input: InputSystem,
    pub physics: PhysicsSystem,
    pub field: Dimensions,
}

impl App {
    /// Every registry key resolves to an entity in the store.
    pub open spec fn keys_resolve(self) -> bool {
        &&& forall|k: int|
            0 <= k < self.physics@.len() ==> has_id(self.world@, (#[trigger] self.physics@[k]).0)
        &&& forall|k: int|
            0 <= k < self.graphics@.len() ==> has_id(self.world@, (#[trigger] self.graphics@[k]).0)
        &&& forall|k: int|
            0 <= k < self.input@.len() ==> has_id(self.world@, (#[trigger] self.input@[k]).0)
    }

    /// Everything one tick relies on: well-formed store, registries and
    /// field, resolvable keys, in-range entities, only player-ball pairs in
    /// collision reach, and paddles tall enough to divide by.
    pub open spec fn wf(self) -> bool {
        &&& self.world.wf()
        &&& self.physics.wf()
        &&& self.graphics.wf()
        &&& self.input.wf()
        &&& self.field.wf()
        &&& self.keys_resolve()
        &&& forall|i: int| 0 <= i < self.world@.len() ==> (#[trigger] self.world@[i]).wf()
        &&& pairs_legal(self.world@, self.physics@)
        &&& player_heights_ok(self.world@, self.physics@)
    }

    /// Build the world the game starts from: the ball at the field's center
    /// moving at `initial_angle` (handed in by the caller, who may draw it at
    /// random), and one paddle at each wall, keyed as given, at rest.
    pub fn new(
        field: Dimensions,
        initial_angle: i64,
        player1_up: Key,
        player1_down: Key,
        player2_up: Key,
        player2_down: Key,
    ) -> (app: App)
        requires
            field.wf(),
            field.width >= 120 * SCALE,
            -MAX_ORIENT <= initial_angle <= MAX_ORIENT,
        ensures
            app.wf(),
            app.field == field,
            app.world@.len() == 3,
            app.world@[0] == (Entity {
                position: Position {
                    x: (field.width as int / 2 - BALL_RADIUS as int / 2) as i64,
                    y: (field.height as int / 2 - BALL_RADIUS as int / 2) as i64,
                },
                dimensions: Dimensions { width: BALL_RADIUS, height: BALL_RADIUS },
                orientation: initial_angle,
                velocity: BALL_VELOCITY,
                id: EntityID(0),
            }),
            app.world@[1] == (Entity {
                position: Position {
                    x: PLAYER_WALL_DISTANCE,
                    y: (field.height as int / 2) as i64,
                },
                dimensions: Dimensions { width: PLAYER_WIDTH, height: PLAYER_HEIGHT },
                orientation: 0,
                velocity: 0,
                id: EntityID(1),
            }),
            app.world@[2] == (Entity {
                position: Position {
                    x: (field.width - PLAYER_WALL_DISTANCE as int) as i64,
                    y: (field.height as int / 2) as i64,
                },
                dimensions: Dimensions { width: PLAYER_WIDTH, height: PLAYER_HEIGHT },
                orientation: 0,
                velocity: 0,
                id: EntityID(2),
            }),
            app.physics@ =~= seq![
                (EntityID(0), PhysicsComponent::Ball(BallPhysics { id: EntityID(0) })),
                (
                    EntityID(1),
                    PhysicsComponent::Player(
                        PlayerPhysics { id: EntityID(1), t: 0, last_orientation: 0 },
                    ),
                ),
                (
                    EntityID(2),
                    PhysicsComponent::Player(
                        PlayerPhysics { id: EntityID(2), t: 0, last_orientation: 0 },
                    ),
                ),
            ],
            app.graphics@ =~= seq![
                (EntityID(0), GraphicsComponent::Ball(BallGraphics)),
                (EntityID(1), GraphicsComponent::Stick(StickGraphics)),
                (EntityID(2), GraphicsComponent::Stick(StickGraphics)),
            ],
            app.input@ =~= seq![
                (
                    EntityID(1),
                    PlayerInput {
                        up_key: player1_up,
                        down_key: player1_down,
                        velocity: PLAYER_VELOCITY,
                    },
                ),
                (
                    EntityID(2),
                    PlayerInput {
                        up_key: player2_up,
                        down_key: player2_down,
                        velocity: PLAYER_VELOCITY,
                    },
                ),
            ],
    {
        let mut graphics = GraphicsSystem::new();
        let mut input = InputSystem::new();
        let mut physics = PhysicsSystem::new();
        let mut world = EntityStore::new();

        // The ball, at the field's center.
        let ball_x = field.width / 2 - BALL_RADIUS / 2;
        let ball_y = field.height / 2 - BALL_RADIUS / 2;
        let ball_id = world.spawn(
            Position { x: ball_x, y: ball_y },
            Dimensions { width: BALL_RADIUS, height: BALL_RADIUS },
            initial_angle,
            BALL_VELOCITY,
        );
        physics.register_component(ball_id, PhysicsComponent::Ball(BallPhysics::new(ball_id)));
        graphics.register_component(ball_id, GraphicsComponent::Ball(BallGraphics));

        // Player 1, at the left wall.
        let player1_id = world.spawn(
            Position { x: PLAYER_WALL_DISTANCE, y: field.height / 2 },
            Dimensions { width: PLAYER_WIDTH, height: PLAYER_HEIGHT },
            0,
            0,
        );
        graphics.register_component(player1_id, GraphicsComponent::Stick(StickGraphics));
        physics.register_component(
            player1_id,
            PhysicsComponent::Player(PlayerPhysics::new(player1_id)),
        );
        input.register_component(
            player1_id,
            PlayerInput::new(player1_up, player1_down, PLAYER_VELOCITY),
        );

        // Player 2, at the right wall.
        let player2_id = world.spawn(
            Position { x: field.width - PLAYER_WALL_DISTANCE, y: field.height / 2 },
            Dimensions { width: PLAYER_WIDTH, height: PLAYER_HEIGHT },
            0,
            0,
        );
        graphics.register_component(player2_id, GraphicsComponent::Stick(StickGraphics));
        physics.register_component(
            player2_id,
            PhysicsComponent::Player(PlayerPhysics::new(player2_id)),
        );
        input.register_component(
            player2_id,
            PlayerInput::new(player2_up, player2_down, PLAYER_VELOCITY),
        );

        let app = App { world, graphics, input, physics, field };
        proof {
            assert(app.physics@ =~= seq![
                (EntityID(0), PhysicsComponent::Ball(BallPhysics { id: EntityID(0) })),
                (
                    EntityID(1),
                    PhysicsComponent::Player(
                        PlayerPhysics { id: EntityID(1), t: 0, last_orientation: 0 },
                    ),
                ),
                (
                    EntityID(2),
                    PhysicsComponent::Player(
                        PlayerPhysics { id: EntityID(2), t: 0, last_orientation: 0 },
                    ),
                ),
            ]);
            assert forall|k: int| 0 <= k < app.physics@.len() implies has_id(
                app.world@,
                (#[trigger] app.physics@[k]).0,
            ) by {
                assert(app.world@[k].spec_id() == app.physics@[k].0);
            }
            assert forall|k: int| 0 <= k < app.graphics@.len() implies has_id(
                app.world@,
                (#[trigger] app.graphics@[k]).0,
            ) by {
                assert(app.world@[k].spec_id() == app.graphics@[k].0);
            }
            assert forall|k: int| 0 <= k < app.input@.len() implies has_id(
                app.world@,
                (#[trigger] app.input@[k]).0,
            ) by {
                assert(app.world@[k + 1].spec_id() == app.input@[k].0);
            }
            app.lemma_initial_pairs_legal();
        }
        app
    }

    /// In the freshly built world the two paddles stand a field's width
    /// apart, so only player-ball pairs are in collision reach, and both
    /// paddles are tall enough to resolve against.
    proof fn lemma_initial_pairs_legal(self)
        requires
            self.world.wf(),
            self.field.width >= 120 * SCALE,
            self.world@.len() == 3,
            self.physics@.len() == 3,
            forall|k: int| 0 <= k < 3 ==> (#[trigger] self.physics@[k]).0 == EntityID(k as i64),
            forall|k: int| 0 <= k < 3 ==> (#[trigger] self.world@[k]).spec_id() == EntityID(
                k as i64,
            ),
            self.physics@[0].1.spec_type() == crate::components::physics::ComponentType::Ball,
            self.physics@[1].1.spec_type()
                == crate::components::physics::ComponentType::Player,
            self.physics@[2].1.spec_type()
                == crate::components::physics::ComponentType::Player,
            self.world@[1].position.x == PLAYER_WALL_DISTANCE,
            self.world@[1].dimensions.width == PLAYER_WIDTH,
            self.world@[1].dimensions.height == PLAYER_HEIGHT,
            self.world@[2].position.x == self.field.width - PLAYER_WALL_DISTANCE as int,
            self.world@[2].dimensions.width == PLAYER_WIDTH,
            self.world@[2].dimensions.height == PLAYER_HEIGHT,
        ensures
            pairs_legal(self.world@, self.physics@),
            player_heights_ok(self.world@, self.physics@),
    {
        assert forall|k: int| 0 <= k < 3 implies crate::entities::index_of_id(
            self.world@,
            (#[trigger] self.physics@[k]).0,
        ) == k by {
            crate::entities::lemma_index_of_id(self.world@, EntityID(k as i64), k);
        }
        assert forall|i: int, j: int|
            0 <= i < j < self.physics@.len() && crate::systems::physics::pair_hit(
                self.world@,
                #[trigger] self.physics@[i],
                #[trigger] self.physics@[j],
            ) implies crate::systems::physics::legal_pair(
            self.physics@[i].1,
            self.physics@[j].1,
        ) by {
            if i == 1 && j == 2 {
                let e1 = self.world@[1];
                let e2 = self.world@[2];
                assert(e1.position.x + PLAYER_WIDTH as int / 2 + BALL_VELOCITY < e2.position.x
                    - PLAYER_WIDTH as int / 2);
                assert(!crate::systems::physics::pair_hit(
                    self.world@,
                    self.physics@[1],
                    self.physics@[2],
                ));
            }
        }
    }

    /// One tick: the physics engine resolves collisions and integrates every
    /// physics-bearing entity; nothing else moves.
    pub fn update(&mut self)
        requires
            old(self).wf(),
        ensures
            final(self).world@ == tick_spec(old(self).world@, old(self).physics@, old(self).field).0,
            final(self).physics@ == tick_spec(
                old(self).world@,
                old(self).physics@,
                old(self).field,
            ).1,
            final(self).graphics == old(self).graphics,
            final(self).input == old(self).input,
            final(self).field == old(self).field,
            final(self).world.wf(),
            final(self).world@.len() == old(self).world@.len(),
            keys_unique(final(self).physics@),
            final(self).keys_resolve(),
            forall|i: int|
                0 <= i < final(self).world@.len() ==> (#[trigger] final(self).world@[i]).wf_stepped(),
            forall|i: int|
                0 <= i < final(self).world@.len() ==> (#[trigger] final(self).world@[i]).spec_id()
                    == old(self).world@[i].spec_id(),
    {
        let field = self.field;
        self.physics.update(&mut self.world, field);
        proof {
            assert forall|k: int| 0 <= k < self.physics@.len() implies has_id(
                self.world@,
                (#[trigger] self.physics@[k]).0,
            ) by {
                assert(self.physics@[k].0 == old(self).physics@[k].0);
                assert(has_id(old(self).world@, old(self).physics@[k].0));
                let q = choose|q: int|
                    0 <= q < old(self).world@.len() && old(self).world@[q].spec_id()
                        == old(self).physics@[k].0;
                assert(self.world@[q].spec_id() == self.physics@[k].0);
            }
            assert forall|k: int| 0 <= k < self.graphics@.len() implies has_id(
                self.world@,
                (#[trigger] self.graphics@[k]).0,
            ) by {
                let q = choose|q: int|
                    0 <= q < old(self).world@.len() && old(self).world@[q].spec_id()
                        == old(self).graphics@[k].0;
                assert(self.world@[q].spec_id() == self.graphics@[k].0);
            }
            assert forall|k: int| 0 <= k < self.input@.len() implies has_id(
                self.world@,
                (#[trigger] self.input@[k]).0,
            ) by {
                let q = choose|q: int|
                    0 <= q < old(self).world@.len() && old(self).world@[q].spec_id()
                        == old(self).input@[k].0;
                assert(self.world@[q].spec_id() == self.input@[k].0);
            }
        }
    }

    /// One frame: the drawing requests for every renderable entity.
    pub fn render(&self) -> (r: Vec<RenderCommand>)
        requires
            self.world.wf(),
            self.graphics.wf(),
            forall|k: int|
                0 <= k < self.graphics@.len() ==> has_id(self.world@, (#[trigger] self.graphics@[k]).0),
            forall|i: int| 0 <= i < self.world@.len() ==> (#[trigger] self.world@[i]).wf_stepped(),
        ensures
            r@ == render_spec(self.world@, self.graphics@),
    {
        self.graphics.render(&self.world)
    }

    /// One key event, routed to every input-capable entity.
    pub fn input(&mut self, key: Key, dir: InputType)
        requires
            old(self).input.wf(),
            old(self).world.wf(),
            forall|k: int|
                0 <= k < old(self).input@.len() ==> has_id(
                    old(self).world@,
                    (#[trigger] old(self).input@[k]).0,
                ),
            forall|i: int|
                0 <= i < old(self).world@.len() ==> (#[trigger] old(self).world@[i]).wf_stepped(),
        ensures
            final(self).world@ == route_spec(old(self).world@, old(self).input@, key, dir),
            final(self).world.wf(),
            final(self).graphics == old(self).graphics,
            final(self).input == old(self).input,
            final(self).physics == old(self).physics,
            final(self).field == old(self).field,
            forall|i: int|
                0 <= i < final(self).world@.len() ==> (#[trigger] final(self).world@[i]).wf_stepped(),
    {
        self.input.update(&mut self.world, key, dir);
    }
}

/// The registries are independent: what one tick does to the world is a
/// function of the world, the physics registry and the field alone, and what
/// one frame draws is a function of the world and the graphics registry
/// alone. Two game states that differ only in their input registries — one
/// may lack entries the other has — tick and render identically.
pub proof fn lemma_registries_independent(a: App, b: App)
    requires
        a.world@ == b.world@,
        a.physics@ == b.physics@,
        a.graphics@ == b.graphics@,
        a.field == b.field,
    ensures
        tick_spec(a.world@, a.physics@, a.field) == tick_spec(b.world@, b.physics@, b.field),
        render_spec(a.world@, a.graphics@) == render_spec(b.world@, b.graphics@),
{
}

} // verus!
