//! The physics engine: per-tick collision detection across all
//! physics-bearing entities, collision resolution, and kinematic integration.
//!
//! One tick is two phases. The collision phase walks every unordered pair of
//! registered behaviors in registry order, tests their bounding volumes (one
//! loosened by the ball's nominal speed, against tunneling) and resolves each
//! hit: the player is immutable context, the ball the sole mutable party.
//! Collision resolution changes only the ball's orientation (and, were the
//! speed-up feature on, its speed), so bounding volumes stay put for the
//! whole phase. The integration phase then advances every registered entity
//! exactly once.

use vstd::prelude::*;

use crate::components::physics::{
    boxes_intersect, box_loosened, comp_step, ComponentType, PhysicsComponent,
};
use crate::consts::{
    BALL_MAX_SPEEDUP, BALL_SPEEDUP_ENABLED, BALL_VELOCITY, HALF_TURN, MAX_RETURN_ANGLE,
    QUARTER_TURN, SCALE,
};
use crate::entities::{
    has_id, index_of_id, lemma_index_of_id, Dimensions, Entity, EntityID, EntityStore,
};
use crate::num::{div_trunc, div_trunc_i64, lemma_div_trunc_bounds};
use crate::systems::registry::{has_key_before, keys_unique, register, register_spec};

verus! {

/// How a ball met a paddle.
#[derive(Clone, Copy, Debug, PartialEq, Eq, Structural)]
pub enum HitKind {
    Top,
    Bottom,
    Face,
}

/// Which side of the paddle the ball met: wholly above the paddle's vertical
/// span is a top hit, wholly below a bottom hit, anything overlapping it a
/// face hit.
pub open spec fn collision_kind(player: Entity, ball: Entity) -> HitKind {
    let r = ball.dimensions.width as int / 2;
    let hh = player.dimensions.height as int / 2;
    if ball.position.y - r > player.position.y + hh {
        HitKind::Top
    } else if ball.position.y + r < player.position.y - hh {
        HitKind::Bottom
    } else {
        HitKind::Face
    }
}

/// What resolving a player-ball hit leaves of the ball. A top or bottom hit
/// flips the ball's orientation. A face hit returns the ball at an angle
/// scaled by how far from the paddle's center it struck, up to
/// `MAX_RETURN_ANGLE`, mirrored left or right against the ball's direction of
/// travel; with the speed-up feature on it would also reset the ball's speed
/// from the paddle's.
pub open spec fn resolve_spec(player: Entity, ball: Entity) -> Entity {
    if collision_kind(player, ball) == HitKind::Face {
        let hh = player.dimensions.height as int / 2;
        let na = div_trunc((player.position.y - ball.position.y) * MAX_RETURN_ANGLE, hh);
        let o = if -(QUARTER_TURN as int) < ball.orientation < QUARTER_TURN {
            HALF_TURN - na
        } else {
            -na
        };
        let v = if BALL_SPEEDUP_ENABLED {
            BALL_VELOCITY + div_trunc(player.velocity * BALL_MAX_SPEEDUP, SCALE as int)
        } else {
            ball.velocity as int
        };
        Entity { orientation: o as i64, velocity: v as i64, ..ball }
    } else {
        Entity { orientation: (-(ball.orientation as int)) as i64, ..ball }
    }
}

/// Collision classification: a ball wholly above or below the paddle's
/// vertical span is never a face hit — it only flips its orientation — and a
/// ball overlapping the span is always a face hit.
pub proof fn lemma_collision_classification(player: Entity, ball: Entity)
    requires
        player.wf(),
        ball.wf(),
    ensures
        ball.position.y - ball.dimensions.width as int / 2 > player.position.y
            + player.dimensions.height as int / 2 ==> collision_kind(player, ball) == HitKind::Top
            && resolve_spec(player, ball).orientation == -(ball.orientation as int),
        ball.position.y + ball.dimensions.width as int / 2 < player.position.y
            - player.dimensions.height as int / 2 ==> collision_kind(player, ball)
            == HitKind::Bottom && resolve_spec(player, ball).orientation == -(ball.orientation
            as int),
        ball.position.y - ball.dimensions.width as int / 2 <= player.position.y
            + player.dimensions.height as int / 2 && ball.position.y + ball.dimensions.width
            as int / 2 >= player.position.y - player.dimensions.height as int / 2
            ==> collision_kind(player, ball) == HitKind::Face,
{
}

/// Whether the two behaviors' volumes, the first loosened by the ball's
/// nominal speed, touch.
pub open spec fn pair_boxes_intersect(
    c1: PhysicsComponent,
    e1: Entity,
    c2: PhysicsComponent,
    e2: Entity,
) -> bool {
    boxes_intersect(box_loosened(c1.bv_spec(e1), BALL_VELOCITY as int), c2.bv_spec(e2))
}

/// Whether two registry rows' entities touch in `world`.
pub open spec fn pair_hit(
    world: Seq<Entity>,
    c1: (EntityID, PhysicsComponent),
    c2: (EntityID, PhysicsComponent),
) -> bool {
    pair_boxes_intersect(
        c1.1,
        world[index_of_id(world, c1.0)],
        c2.1,
        world[index_of_id(world, c2.0)],
    )
}

/// One behavior of each kind: the only legal colliding pair.
pub open spec fn legal_pair(a: PhysicsComponent, b: PhysicsComponent) -> bool {
    ||| a.spec_type() == ComponentType::Player && b.spec_type() == ComponentType::Ball
    ||| a.spec_type() == ComponentType::Ball && b.spec_type() == ComponentType::Player
}

/// Every touching pair of registered behaviors is one player and one ball.
/// Anything else is impossible by construction of the world.
pub open spec fn pairs_legal(world: Seq<Entity>, comps: Seq<(EntityID, PhysicsComponent)>) -> bool {
    forall|i: int, j: int|
        0 <= i < j < comps.len() && pair_hit(world, #[trigger] comps[i], #[trigger] comps[j])
            ==> legal_pair(comps[i].1, comps[j].1)
}

/// Every registered player behavior drives an entity at least two units tall
/// (a face hit divides by the half height).
pub open spec fn player_heights_ok(
    world: Seq<Entity>,
    comps: Seq<(EntityID, PhysicsComponent)>,
) -> bool {
    forall|k: int|
        0 <= k < comps.len() && (#[trigger] comps[k]).1.spec_type() == ComponentType::Player
            ==> world[index_of_id(world, comps[k].0)].dimensions.height >= 2
}

/// What resolving one ordered pair leaves of the world: nothing if the two
/// volumes are apart, otherwise the ball of the pair is resolved against the
/// player and written back.
pub open spec fn resolve_pair(
    world: Seq<Entity>,
    c1: (EntityID, PhysicsComponent),
    c2: (EntityID, PhysicsComponent),
) -> Seq<Entity> {
    let i1 = index_of_id(world, c1.0);
    let i2 = index_of_id(world, c2.0);
    if pair_boxes_intersect(c1.1, world[i1], c2.1, world[i2]) {
        if c1.1.spec_type() == ComponentType::Player && c2.1.spec_type() == ComponentType::Ball {
            world.update(i2, resolve_spec(world[i1], world[i2]))
        } else if c1.1.spec_type() == ComponentType::Ball && c2.1.spec_type()
            == ComponentType::Player {
            world.update(i1, resolve_spec(world[i2], world[i1]))
        } else {
            world
        }
    } else {
        world
    }
}

/// The collision phase's inner walk: row `i` against every later row from `j`
/// on, in order.
pub open spec fn collide_row(
    world: Seq<Entity>,
    comps: Seq<(EntityID, PhysicsComponent)>,
    i: int,
    j: int,
) -> Seq<Entity>
    decreases comps.len() - j,
{
    if j < 0 || j >= comps.len() || !(0 <= i < comps.len()) {
        world
    } else {
        collide_row(resolve_pair(world, comps[i], comps[j]), comps, i, j + 1)
    }
}

/// The collision phase from row `i` on: each unordered pair once, in order.
pub open spec fn collide_all(
    world: Seq<Entity>,
    comps: Seq<(EntityID, PhysicsComponent)>,
    i: int,
) -> Seq<Entity>
    decreases comps.len() - i,
{
    if i < 0 || i >= comps.len() {
        world
    } else {
        collide_all(collide_row(world, comps, i, i + 1), comps, i + 1)
    }
}

/// The integration phase from row `k` on: every behavior advances its own
/// entity exactly once, and keeps its own next state.
pub open spec fn integrate_from(
    world: Seq<Entity>,
    comps: Seq<(EntityID, PhysicsComponent)>,
    k: int,
    field: Dimensions,
) -> (Seq<Entity>, Seq<(EntityID, PhysicsComponent)>)
    decreases comps.len() - k,
{
    if k < 0 || k >= comps.len() {
        (world, comps)
    } else {
        let idx = index_of_id(world, comps[k].0);
        let stepped = comp_step(comps[k].1, world[idx], field);
        integrate_from(
            world.update(idx, stepped.1),
            comps.update(k, (comps[k].0, stepped.0)),
            k + 1,
            field,
        )
    }
}

/// One whole tick: resolve every collision, then integrate every entity.
pub open spec fn tick_spec(
    world: Seq<Entity>,
    comps: Seq<(EntityID, PhysicsComponent)>,
    field: Dimensions,
) -> (Seq<Entity>, Seq<(EntityID, PhysicsComponent)>) {
    integrate_from(collide_all(world, comps, 0), comps, 0, field)
}

/// The registry of physics behaviors, and the tick that drives them.
pub struct PhysicsSystem {
    components: Vec<(EntityID, PhysicsComponent)>,
}

impl View for PhysicsSystem {
    type V = Seq<(EntityID, PhysicsComponent)>;

    closed spec fn view(&self) -> Seq<(EntityID, PhysicsComponent)> {
        self.components@
    }
}

impl PhysicsSystem {
    /// Each identity is registered at most once, with in-range behavior state.
    pub open spec fn wf(&self) -> bool {
        &&& keys_unique(self@)
        &&& forall|k: int| 0 <= k < self@.len() ==> (#[trigger] self@[k]).1.wf()
    }

    /// An empty registry.
    pub fn new() -> (s: PhysicsSystem)
        ensures
            s@.len() == 0,
            s.wf(),
    {
        PhysicsSystem { components: Vec::new() }
    }

    /// Insert or replace the physics behavior for `id`.
    pub fn register_component(&mut self, id: EntityID, component: PhysicsComponent)
        requires
            old(self).wf(),
            component.wf(),
        ensures
            final(self).wf(),
            final(self)@ == register_spec(old(self)@, id, component),
    {
        register(&mut self.components, id, component);
        proof {
            assert forall|k: int| 0 <= k < self@.len() implies (#[trigger] self@[k]).1.wf() by {
                if crate::systems::registry::has_key(old(self)@, id) {
                    if k != crate::systems::registry::index_of_key(old(self)@, id) {
                        assert(self@[k] == old(self)@[k]);
                    }
                } else {
                    if k < old(self)@.len() {
                        assert(self@[k] == old(self)@[k]);
                    }
                }
            }
        }
    }

    /// Whether the two entities' volumes touch, the first loosened by the
    /// ball's nominal speed against tunneling.
    pub fn components_intersect(
        &self,
        entity1: &Entity,
        component1: &PhysicsComponent,
        entity2: &Entity,
        component2: &PhysicsComponent,
    ) -> (r: bool)
        requires
            entity1.wf(),
            entity2.wf(),
        ensures
            r == pair_boxes_intersect(*component1, *entity1, *component2, *entity2),
    {
        let b1 = component1.bounding_volume(entity1);
        let b2 = component2.bounding_volume(entity2);
        b1.min_x - BALL_VELOCITY <= b2.max_x && b2.min_x <= b1.max_x + BALL_VELOCITY && b1.min_y
            - BALL_VELOCITY <= b2.max_y && b2.min_y <= b1.max_y + BALL_VELOCITY
    }

    /// Resolve one player-ball hit; see [`resolve_spec`].
    pub fn handle_collision(&self, player: &Entity, ball: &mut Entity)
        requires
            player.wf(),
            old(ball).wf(),
            player.spec_id() != old(ball).spec_id(),
            player.dimensions.height >= 2,
        ensures
            *final(ball) == resolve_spec(*player, *old(ball)),
            final(ball).wf(),
            final(ball).spec_id() == old(ball).spec_id(),
            final(ball).position == old(ball).position,
            final(ball).dimensions == old(ball).dimensions,
            final(ball).velocity == old(ball).velocity,
    {
        let ball_radius = ball.dimensions.width / 2;
        let half_height = player.dimensions.height / 2;

        if ball.position.y - ball_radius > player.position.y + half_height {
            // Ball hits the top of the paddle.
            ball.orientation = -ball.orientation;
        } else if ball.position.y + ball_radius < player.position.y - half_height {
            // Ball hits the bottom of the paddle.
            ball.orientation = -ball.orientation;
        } else {
            // Ball hits the paddle's face.
            proof {
                lemma_div_trunc_bounds(
                    (player.position.y - ball.position.y) * (MAX_RETURN_ANGLE as int),
                    half_height as int,
                );
            }
            let diff = player.position.y - ball.position.y;
            let new_angle = div_trunc_i64(diff * MAX_RETURN_ANGLE, half_height);

            if -QUARTER_TURN < ball.orientation && ball.orientation < QUARTER_TURN {
                // Reverse the ball's direction of travel.
                ball.orientation = HALF_TURN - new_angle;
            } else {
                ball.orientation = -new_angle;
            }

            if BALL_SPEEDUP_ENABLED {
                ball.velocity = BALL_VELOCITY + div_trunc_i64(
                    player.velocity * BALL_MAX_SPEEDUP,
                    SCALE,
                );
            }
        }
    }

    /// One tick: resolve every collision among registered entities, then
    /// integrate each one exactly once; see [`tick_spec`].
    pub fn update(&mut self, world: &mut EntityStore, field: Dimensions)
        requires
            old(self).wf(),
            old(world).wf(),
            field.wf(),
            forall|k: int|
                0 <= k < old(self)@.len() ==> has_id(old(world)@, (#[trigger] old(self)@[k]).0),
            forall|i: int| 0 <= i < old(world)@.len() ==> (#[trigger] old(world)@[i]).wf(),
            pairs_legal(old(world)@, old(self)@),
            player_heights_ok(old(world)@, old(self)@),
        ensures
            final(world).wf(),
            final(world)@ == tick_spec(old(world)@, old(self)@, field).0,
            final(self)@ == tick_spec(old(world)@, old(self)@, field).1,
            final(world)@.len() == old(world)@.len(),
            forall|i: int| 0 <= i < final(world)@.len() ==> (#[trigger] final(world)@[i]).spec_id()
                == old(world)@[i].spec_id(),
            forall|i: int|
                0 <= i < final(world)@.len() ==> (#[trigger] final(world)@[i]).wf_stepped(),
            keys_unique(final(self)@),
            final(self)@.len() == old(self)@.len(),
            forall|k: int|
                0 <= k < final(self)@.len() ==> (#[trigger] final(self)@[k]).0 == old(self)@[k].0,
    {
        let ghost w0 = world@;
        let ghost comps0 = self@;
        proof {
            assert(crate::entities::ids_unique(w0));
            assert(keys_unique(comps0));
        }
        let n = self.components.len();

        // Collision phase: every unordered pair once, in registry order.
        let mut i: usize = 0;
        while i < n
            invariant
                n == self@.len(),
                i <= n,
                *self == *old(self),
                self.wf(),
                world.wf(),
                field.wf(),
                world@.len() == w0.len(),
                crate::entities::ids_unique(w0),
                forall|j: int| 0 <= j < self@.len() ==> has_id(w0, (#[trigger] self@[j]).0),
                pairs_legal(w0, self@),
                player_heights_ok(w0, self@),
                forall|p: int| 0 <= p < w0.len() ==> (#[trigger] world@[p]).spec_id()
                    == w0[p].spec_id(),
                forall|p: int| 0 <= p < w0.len() ==> (#[trigger] world@[p]).position
                    == w0[p].position,
                forall|p: int| 0 <= p < w0.len() ==> (#[trigger] world@[p]).dimensions
                    == w0[p].dimensions,
                forall|p: int| 0 <= p < w0.len() ==> (#[trigger] world@[p]).wf(),
                collide_all(world@, self@, i as int) == collide_all(w0, self@, 0),
            decreases n - i,
        {
            let mut j: usize = i + 1;
            while j < n
                invariant
                    n == self@.len(),
                    i < n,
                    i < j <= n,
                    *self == *old(self),
                    self.wf(),
                    world.wf(),
                    field.wf(),
                    world@.len() == w0.len(),
                    crate::entities::ids_unique(w0),
                    forall|jj: int| 0 <= jj < self@.len() ==> has_id(w0, (#[trigger] self@[jj]).0),
                    pairs_legal(w0, self@),
                    player_heights_ok(w0, self@),
                    forall|p: int| 0 <= p < w0.len() ==> (#[trigger] world@[p]).spec_id()
                        == w0[p].spec_id(),
                    forall|p: int| 0 <= p < w0.len() ==> (#[trigger] world@[p]).position
                        == w0[p].position,
                    forall|p: int| 0 <= p < w0.len() ==> (#[trigger] world@[p]).dimensions
                        == w0[p].dimensions,
                    forall|p: int| 0 <= p < w0.len() ==> (#[trigger] world@[p]).wf(),
                    collide_all(collide_row(world@, self@, i as int, j as int), self@, i as int + 1)
                        == collide_all(w0, self@, 0),
                decreases n - j,
            {
                let (id1, component1) = self.components[i];
                let (id2, component2) = self.components[j];
                proof {
                    self.lemma_pair_lookup(world@, w0, id1, i as int);
                    self.lemma_pair_lookup(world@, w0, id2, j as int);
                }
                let ghost w_enter = world@;
                let entity1 = *world.get(id1);
                let entity2 = *world.get(id2);
                let hit = self.components_intersect(&entity1, &component1, &entity2, &component2);
                proof {
                    // Positions and dimensions have not moved this phase, so a
                    // hit now is a hit in the phase-entry world, which the
                    // caller promised is one player and one ball.
                    assert(component1.bv_spec(entity1) == component1.bv_spec(
                        w0[index_of_id(w0, id1)],
                    ));
                    assert(component2.bv_spec(entity2) == component2.bv_spec(
                        w0[index_of_id(w0, id2)],
                    ));
                    assert(hit == pair_hit(w0, self@[i as int], self@[j as int]));
                }
                if hit {
                    proof {
                        assert(legal_pair(component1, component2));
                    }
                    match (component1.component_type(), component2.component_type()) {
                        (ComponentType::Player, ComponentType::Ball) => {
                            let player = *world.get(id1);
                            let mut ball = *world.get(id2);
                            self.handle_collision(&player, &mut ball);
                            world.put(id2, ball);
                        },
                        (ComponentType::Ball, ComponentType::Player) => {
                            let player = *world.get(id2);
                            let mut ball = *world.get(id1);
                            self.handle_collision(&player, &mut ball);
                            world.put(id1, ball);
                        },
                        _ => {
                            proof {
                                assert(false);
                            }
                        },
                    }
                }
                proof {
                    assert(world@ == resolve_pair(w_enter, self@[i as int], self@[j as int]));
                    assert(collide_row(w_enter, self@, i as int, j as int) == collide_row(
                        world@,
                        self@,
                        i as int,
                        j as int + 1,
                    ));
                }
                j = j + 1;
            }
            i = i + 1;
        }

        let ghost resolved = world@;
        proof {
            assert(resolved == collide_all(w0, comps0, 0));
        }

        // Integration phase: each behavior advances its own entity once.
        let mut k: usize = 0;
        while k < n
            invariant
                n == self@.len(),
                n == comps0.len(),
                k <= n,
                world.wf(),
                field.wf(),
                world@.len() == w0.len(),
                resolved.len() == w0.len(),
                crate::entities::ids_unique(w0),
                keys_unique(self@),
                keys_unique(comps0),
                forall|kk: int| k <= kk < n ==> self@[kk] == comps0[kk],
                forall|kk: int| 0 <= kk < n ==> (#[trigger] self@[kk]).0 == comps0[kk].0,
                forall|kk: int| 0 <= kk < n ==> (#[trigger] comps0[kk]).1.wf(),
                forall|jj: int| 0 <= jj < comps0.len() ==> has_id(w0, (#[trigger] comps0[jj]).0),
                forall|p: int| 0 <= p < w0.len() ==> (#[trigger] world@[p]).spec_id()
                    == w0[p].spec_id(),
                forall|p: int| 0 <= p < w0.len() ==> (#[trigger] resolved[p]).spec_id()
                    == w0[p].spec_id(),
                forall|p: int| 0 <= p < w0.len() ==> (#[trigger] resolved[p]).wf(),
                forall|p: int|
                    0 <= p < w0.len() && !has_key_before(comps0, w0[p].spec_id(), k as int)
                        ==> #[trigger] world@[p] == resolved[p],
                forall|p: int| 0 <= p < w0.len() ==> (#[trigger] world@[p]).wf_stepped(),
                integrate_from(world@, self@, k as int, field) == integrate_from(
                    resolved,
                    comps0,
                    0,
                    field,
                ),
            decreases n - k,
        {
            let (id, c) = self.components[k];
            proof {
                assert(self@[k as int] == comps0[k as int]);
                assert(has_id(w0, id));
                let q = choose|q: int| 0 <= q < w0.len() && w0[q].spec_id() == id;
                assert(world@[q].spec_id() == id);
                assert(has_id(world@, id));
                let p = index_of_id(world@, id);
                lemma_index_of_id(world@, id, p);
                assert(!has_key_before(comps0, w0[p].spec_id(), k as int)) by {
                    if has_key_before(comps0, w0[p].spec_id(), k as int) {
                        let jx = choose|jx: int|
                            0 <= jx < k && jx < comps0.len() && comps0[jx].0 == w0[p].spec_id();
                        assert(self@[jx].0 != self@[k as int].0);
                    }
                }
                assert(world@[p] == resolved[p]);
            }
            let ghost w_enter = world@;
            let ghost c_enter = self@;
            let mut component = c;
            let mut entity = *world.get(id);
            component.update(&mut entity, field);
            world.put(id, entity);
            self.components.set(k, (id, component));
            proof {
                assert(self@ =~= c_enter.update(k as int, (id, component)));
                assert(integrate_from(w_enter, c_enter, k as int, field) == integrate_from(
                    world@,
                    self@,
                    k as int + 1,
                    field,
                ));
                assert forall|p: int|
                    0 <= p < w0.len() && !has_key_before(comps0, w0[p].spec_id(), k as int + 1)
                        implies #[trigger] world@[p] == resolved[p] by {
                    assert(!has_key_before(comps0, w0[p].spec_id(), k as int));
                    assert(w0[p].spec_id() != id);
                }
            }
            k = k + 1;
        }
        proof {
            assert(integrate_from(world@, self@, n as int, field) == (world@, self@));
            assert(world@ == tick_spec(w0, comps0, field).0);
            assert(self@ == tick_spec(w0, comps0, field).1);
        }
    }

    /// In a world whose identities and geometry match the phase-entry world,
    /// a registered row's entity sits at the same index in both.
    proof fn lemma_pair_lookup(
        &self,
        cur: Seq<Entity>,
        w0: Seq<Entity>,
        id: EntityID,
        row: int,
    )
        requires
            0 <= row < self@.len(),
            self@[row].0 == id,
            cur.len() == w0.len(),
            crate::entities::ids_unique(w0),
            forall|j: int| 0 <= j < self@.len() ==> has_id(w0, (#[trigger] self@[j]).0),
            forall|p: int| 0 <= p < w0.len() ==> (#[trigger] cur[p]).spec_id() == w0[p].spec_id(),
        ensures
            has_id(cur, id),
            has_id(w0, id),
            index_of_id(cur, id) == index_of_id(w0, id),
    {
        assert(has_id(w0, id));
        let q = choose|q: int| 0 <= q < w0.len() && w0[q].spec_id() == id;
        assert(cur[q].spec_id() == id);
        assert(has_id(cur, id));
        let p = index_of_id(cur, id);
        assert(0 <= p < cur.len() && cur[p].spec_id() == id);
        assert(w0[p].spec_id() == id);
        let p0 = index_of_id(w0, id);
        assert(0 <= p0 < w0.len() && w0[p0].spec_id() == id);
        if p != p0 {
            if p < p0 {
                assert(w0[p].spec_id() != w0[p0].spec_id());
            } else {
                assert(w0[p0].spec_id() != w0[p].spec_id());
            }
        }
    }
}

} // verus!
