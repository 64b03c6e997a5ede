//! The physics behaviors: per-tick motion of the ball and of a paddle.
//!
//! The ball integrates its position along its orientation, reflects off the
//! field's edges and renormalizes its orientation. A paddle ramps its speed
//! up from rest along a geometric decay (the fixed-point form of exponential
//! ramp-up), moves up or down by it, and is clipped to the field.

use vstd::prelude::*;

use crate::angle::{
    cos_mil, cos_pl, lemma_cos_pl_range, lemma_norm_range, lemma_sin_pl_range, norm_spec,
    normalize_orientation, sin_mil, sin_pl,
};
use crate::consts::{
    FULL_TURN, HALF_TURN, INERTIA_DECAY_DEN, INERTIA_DECAY_NUM, MAX_ORIENT, PLAYER_VELOCITY,
    QUARTER_TURN, SCALE,
};
use crate::entities::{Dimensions, Entity, EntityID, Position};
use crate::num::{div_trunc, div_trunc_i64, lemma_div_trunc_scaled};

verus! {

/// The tag a collision pair is disambiguated by.
#[derive(Clone, Copy, Debug, PartialEq, Eq, Structural)]
pub enum ComponentType {
    Player,
    Ball,
}

/// The ball's physics behavior; it keeps no per-tick state of its own.
#[derive(Clone, Copy, Debug, PartialEq, Eq, Structural)]
pub struct BallPhysics {
    pub id: EntityID,
}

/// A paddle's physics behavior: the tick counter feeding the inertial ramp,
/// and the orientation seen on the previous tick.
#[derive(Clone, Copy, Debug, PartialEq, Eq, Structural)]
pub struct PlayerPhysics {
    pub id: EntityID,
    pub t: u64,
    pub last_orientation: i64,
}

/// The closed set of physics behaviors.
#[derive(Clone, Copy, Debug, PartialEq, Eq, Structural)]
pub enum PhysicsComponent {
    Ball(BallPhysics),
    Player(PlayerPhysics),
}

/// An axis-aligned bounding box in field coordinates.
#[derive(Clone, Copy, Debug, PartialEq, Eq, Structural)]
pub struct Aabb {
    pub min_x: i64,
    pub min_y: i64,
    pub max_x: i64,
    pub max_y: i64,
}

/// A box as a specification value: (min x, min y, max x, max y).
pub open spec fn box_of(min_x: int, min_y: int, max_x: int, max_y: int) -> (int, int, int, int) {
    (min_x, min_y, max_x, max_y)
}

/// The field's own box: anchored at the origin, as large as the field.
pub open spec fn field_box(field: Dimensions) -> (int, int, int, int) {
    (0, 0, field.width as int, field.height as int)
}

/// Whether `outer` contains all of `inner`.
pub open spec fn box_contains(outer: (int, int, int, int), inner: (int, int, int, int)) -> bool {
    outer.0 <= inner.0 && outer.1 <= inner.1 && inner.2 <= outer.2 && inner.3 <= outer.3
}

/// Whether the two boxes touch or overlap.
pub open spec fn boxes_intersect(a: (int, int, int, int), b: (int, int, int, int)) -> bool {
    a.0 <= b.2 && b.0 <= a.2 && a.1 <= b.3 && b.1 <= a.3
}

/// `a` grown by `m` on every side.
pub open spec fn box_loosened(a: (int, int, int, int), m: int) -> (int, int, int, int) {
    (a.0 - m, a.1 - m, a.2 + m, a.3 + m)
}

impl PhysicsComponent {
    /// The identity of the entity this behavior drives.
    pub open spec fn spec_entity_id(self) -> EntityID {
        match self {
            PhysicsComponent::Ball(b) => b.id,
            PhysicsComponent::Player(p) => p.id,
        }
    }

    /// The behavior's collision tag.
    pub open spec fn spec_type(self) -> ComponentType {
        match self {
            PhysicsComponent::Ball(_) => ComponentType::Ball,
            PhysicsComponent::Player(_) => ComponentType::Player,
        }
    }

    /// The behavior's own per-tick state is within range.
    pub open spec fn wf(self) -> bool {
        match self {
            PhysicsComponent::Ball(_) => true,
            PhysicsComponent::Player(p) => p.t < u64::MAX && -MAX_ORIENT <= p.last_orientation
                <= MAX_ORIENT,
        }
    }

    /// The box this behavior's entity occupies: a disc's square for the ball
    /// (side = the entity's width), the paddle's full rectangle for a player.
    pub open spec fn bv_spec(self, e: Entity) -> (int, int, int, int) {
        match self {
            PhysicsComponent::Ball(_) => {
                let r = e.dimensions.width as int / 2;
                box_of(
                    e.position.x - r,
                    e.position.y - r,
                    e.position.x + r,
                    e.position.y + r,
                )
            },
            PhysicsComponent::Player(_) => {
                let hw = e.dimensions.width as int / 2;
                let hh = e.dimensions.height as int / 2;
                box_of(
                    e.position.x - hw,
                    e.position.y - hh,
                    e.position.x + hw,
                    e.position.y + hh,
                )
            },
        }
    }

    /// The identity of the entity this behavior drives.
    pub fn entity_id(&self) -> (r: EntityID)
        ensures
            r == self.spec_entity_id(),
    {
        match self {
            PhysicsComponent::Ball(b) => b.id,
            PhysicsComponent::Player(p) => p.id,
        }
    }

    /// The behavior's collision tag.
    pub fn component_type(&self) -> (r: ComponentType)
        ensures
            r == self.spec_type(),
    {
        match self {
            PhysicsComponent::Ball(_) => ComponentType::Ball,
            PhysicsComponent::Player(_) => ComponentType::Player,
        }
    }

    /// The bounding volume of this behavior's entity in its current state.
    pub fn bounding_volume(&self, entity: &Entity) -> (r: Aabb)
        requires
            entity.wf(),
        ensures
            (r.min_x as int, r.min_y as int, r.max_x as int, r.max_y as int) == self.bv_spec(
                *entity,
            ),
    {
        match self {
            PhysicsComponent::Ball(_) => {
                let r = entity.dimensions.width / 2;
                Aabb {
                    min_x: entity.position.x - r,
                    min_y: entity.position.y - r,
                    max_x: entity.position.x + r,
                    max_y: entity.position.y + r,
                }
            },
            PhysicsComponent::Player(_) => {
                let hw = entity.dimensions.width / 2;
                let hh = entity.dimensions.height / 2;
                Aabb {
                    min_x: entity.position.x - hw,
                    min_y: entity.position.y - hh,
                    max_x: entity.position.x + hw,
                    max_y: entity.position.y + hh,
                }
            },
        }
    }

    /// Advance this behavior's entity by one tick.
    pub fn update(&mut self, entity: &mut Entity, field: Dimensions)
        requires
            old(entity).wf(),
            old(self).wf(),
            field.wf(),
        ensures
            *final(self) == comp_step(*old(self), *old(entity), field).0,
            *final(entity) == comp_step(*old(self), *old(entity), field).1,
            final(entity).wf_stepped(),
            final(entity).spec_id() == old(entity).spec_id(),
            final(entity).dimensions == old(entity).dimensions,
            final(self).spec_entity_id() == old(self).spec_entity_id(),
            final(self).spec_type() == old(self).spec_type(),
    {
        let c = *self;
        match c {
            PhysicsComponent::Ball(mut b) => {
                b.update(entity, field);
                *self = PhysicsComponent::Ball(b);
            },
            PhysicsComponent::Player(mut p) => {
                p.update(entity, field);
                *self = PhysicsComponent::Player(p);
            },
        }
    }
}

/// Where the ball's center lands after integrating one tick of motion along
/// its orientation.
pub open spec fn ball_moved(e: Entity) -> (int, int) {
    (
        e.position.x + div_trunc(e.velocity * cos_pl(e.orientation as int), SCALE as int),
        e.position.y + div_trunc(e.velocity * sin_pl(e.orientation as int), SCALE as int),
    )
}

/// Whether the moved ball's box is no longer wholly inside the field's box.
pub open spec fn ball_exits_field(e: Entity, field: Dimensions) -> bool {
    let x1 = ball_moved(e).0;
    let y1 = ball_moved(e).1;
    let r = e.dimensions.width as int / 2;
    !box_contains(field_box(field), box_of(x1 - r, y1 - r, x1 + r, y1 + r))
}

/// Whether the moved ball has crossed the field's left or right edge.
pub open spec fn ball_crosses_side(e: Entity, field: Dimensions) -> bool {
    let x1 = ball_moved(e).0;
    let r = e.dimensions.width as int / 2;
    x1 - r <= 0 || x1 + r >= field.width
}

/// Where one tick takes the ball: integrate the position along the
/// orientation, reflect vertically if the ball's box has left the field (and
/// horizontally too if it crossed the field's left or right edge), then
/// normalize the orientation.
pub open spec fn ball_step(e: Entity, field: Dimensions) -> Entity {
    let x1 = ball_moved(e).0;
    let y1 = ball_moved(e).1;
    let o1 = if ball_exits_field(e, field) {
        -(e.orientation as int)
    } else {
        e.orientation as int
    };
    let o2 = if ball_exits_field(e, field) && ball_crosses_side(e, field) {
        o1 + HALF_TURN
    } else {
        o1
    };
    Entity {
        position: Position { x: x1 as i64, y: y1 as i64 },
        dimensions: e.dimensions,
        orientation: norm_spec(o2) as i64,
        velocity: e.velocity,
        id: e.spec_id(),
    }
}

/// Ball reflection at the field's edges: a ball whose moved box leaves the
/// field through the top or bottom alone comes away at the canonical form of
/// its flipped orientation; one that crossed the left or right edge comes
/// away at the canonical form of the flipped orientation plus half a turn;
/// one staying inside only has its orientation put in canonical form.
pub proof fn lemma_ball_reflection(e: Entity, field: Dimensions)
    requires
        e.wf(),
    ensures
        ball_exits_field(e, field) && !ball_crosses_side(e, field) ==> ball_step(
            e,
            field,
        ).orientation == norm_spec(-(e.orientation as int)),
        ball_exits_field(e, field) && ball_crosses_side(e, field) ==> ball_step(
            e,
            field,
        ).orientation == norm_spec(-(e.orientation as int) + HALF_TURN),
        !ball_exits_field(e, field) ==> ball_step(e, field).orientation == norm_spec(
            e.orientation as int,
        ),
{
    lemma_norm_range(-(e.orientation as int));
    lemma_norm_range(-(e.orientation as int) + HALF_TURN);
    lemma_norm_range(e.orientation as int);
}

/// A ball at orientation zero with the field's edges out of reach travels
/// straight right: its horizontal position advances by its speed, and its
/// vertical position, orientation, speed and size stay as they were.
pub proof fn lemma_ball_straight_right(e: Entity, field: Dimensions)
    requires
        e.wf(),
        e.orientation == 0,
        !ball_exits_field(e, field),
    ensures
        ball_step(e, field).position.x == e.position.x + e.velocity,
        ball_step(e, field).position.y == e.position.y,
        ball_step(e, field).orientation == 0,
        ball_step(e, field).velocity == e.velocity,
        ball_step(e, field).dimensions == e.dimensions,
        ball_step(e, field).spec_id() == e.spec_id(),
{
    lemma_trig_at_zero();
    vstd::arithmetic::div_mod::lemma_div_multiples_vanish(e.velocity as int, SCALE as int);
    assert(e.velocity * (SCALE as int) == (SCALE as int) * e.velocity) by (nonlinear_arith);
    assert(e.velocity * 0 == 0) by (nonlinear_arith);
    vstd::arithmetic::div_mod::lemma_div_basics(SCALE as int);
    assert(ball_moved(e).0 == e.position.x + e.velocity);
    assert(ball_moved(e).1 == e.position.y);
    crate::angle::lemma_norm_fixes_canonical(0);
}

/// At orientation zero the deflection is fully horizontal.
pub proof fn lemma_trig_at_zero()
    ensures
        cos_pl(0) == SCALE,
        sin_pl(0) == 0,
{
    vstd::arithmetic::div_mod::lemma_small_mod(0nat, FULL_TURN as nat);
    vstd::arithmetic::div_mod::lemma_div_basics(90int);
    assert(cos_pl(0) == SCALE - 0int / 90);
    vstd::arithmetic::div_mod::lemma_fundamental_div_mod_converse(
        -(QUARTER_TURN as int),
        FULL_TURN as int,
        -1,
        3 * (QUARTER_TURN as int),
    );
    assert(crate::angle::turn_of(-(QUARTER_TURN as int)) == 3 * (QUARTER_TURN as int));
    vstd::arithmetic::div_mod::lemma_fundamental_div_mod_converse(
        QUARTER_TURN as int,
        90,
        SCALE as int,
        0,
    );
    assert(sin_pl(0) == cos_pl(0 - QUARTER_TURN));
}

impl BallPhysics {
    /// A ball behavior for the entity carrying `id`.
    pub fn new(id: EntityID) -> (r: BallPhysics)
        ensures
            r == (BallPhysics { id }),
    {
        BallPhysics { id }
    }

    /// One tick of ball motion; see [`ball_step`].
    #[verifier::rlimit(50)]
    pub fn update(&mut self, entity: &mut Entity, field: Dimensions)
        requires
            old(entity).wf(),
            field.wf(),
        ensures
            *final(self) == *old(self),
            *final(entity) == ball_step(*old(entity), field),
            final(entity).wf_stepped(),
            final(entity).spec_id() == old(entity).spec_id(),
    {
        proof {
            lemma_cos_pl_range(entity.orientation as int);
            lemma_sin_pl_range(entity.orientation as int);
            lemma_div_trunc_scaled(
                entity.velocity as int,
                cos_pl(entity.orientation as int),
                SCALE as int,
            );
            lemma_div_trunc_scaled(
                entity.velocity as int,
                sin_pl(entity.orientation as int),
                SCALE as int,
            );
        }
        let c = cos_mil(entity.orientation);
        let s = sin_mil(entity.orientation);
        let dx = div_trunc_i64(entity.velocity * c, SCALE);
        let dy = div_trunc_i64(entity.velocity * s, SCALE);
        entity.position.x = entity.position.x + dx;
        entity.position.y = entity.position.y + dy;

        let radius = entity.dimensions.width / 2;
        let in_field = 0 <= entity.position.x - radius && 0 <= entity.position.y - radius
            && entity.position.x + radius <= field.width && entity.position.y + radius
            <= field.height;
        if !in_field {
            entity.orientation = -entity.orientation;
            if entity.position.x - radius <= 0 || entity.position.x + radius >= field.width {
                entity.orientation = entity.orientation + HALF_TURN;
            }
        }
        entity.orientation = normalize_orientation(entity.orientation);
        proof {
            lemma_norm_range(entity.orientation as int);
        }
    }
}

/// The paddle's remaining speed deficit after `t` consecutive same-direction
/// ticks: the full speed at rest, decayed geometrically each tick.
pub open spec fn decay(t: nat) -> int
    decreases t,
{
    if t == 0 {
        PLAYER_VELOCITY as int
    } else {
        (decay((t - 1) as nat) * INERTIA_DECAY_NUM) / (INERTIA_DECAY_DEN as int)
    }
}

/// The paddle's inertial speed after `t` consecutive same-direction ticks.
pub open spec fn ramp(t: nat) -> int {
    PLAYER_VELOCITY - decay(t)
}

/// The deficit stays within [0, PLAYER_VELOCITY].
pub proof fn lemma_decay_bounds(t: nat)
    ensures
        0 <= decay(t) <= PLAYER_VELOCITY,
    decreases t,
{
    if t > 0 {
        lemma_decay_bounds((t - 1) as nat);
        let d = decay((t - 1) as nat);
        vstd::arithmetic::mul::lemma_mul_inequality(0, d, INERTIA_DECAY_NUM as int);
        vstd::arithmetic::mul::lemma_mul_inequality(
            INERTIA_DECAY_NUM as int,
            INERTIA_DECAY_DEN as int,
            d,
        );
        vstd::arithmetic::div_mod::lemma_div_pos_is_pos(d * INERTIA_DECAY_NUM, INERTIA_DECAY_DEN as int);
        vstd::arithmetic::div_mod::lemma_div_is_ordered(
            d * INERTIA_DECAY_NUM,
            d * INERTIA_DECAY_DEN,
            INERTIA_DECAY_DEN as int,
        );
        vstd::arithmetic::div_mod::lemma_div_multiples_vanish(d, INERTIA_DECAY_DEN as int);
    }
}

/// A positive deficit shrinks by at least one each tick.
pub proof fn lemma_decay_step(t: nat)
    ensures
        decay(t) > 0 ==> decay(t + 1) <= decay(t) - 1,
        decay(t) == 0 ==> decay(t + 1) == 0,
        0 <= decay(t + 1) <= decay(t),
{
    lemma_decay_bounds(t);
    lemma_decay_bounds(t + 1);
    let d = decay(t);
    assert(decay(t + 1) == (d * INERTIA_DECAY_NUM) / (INERTIA_DECAY_DEN as int));
    if d > 0 {
        vstd::arithmetic::mul::lemma_mul_inequality(
            INERTIA_DECAY_NUM as int,
            INERTIA_DECAY_DEN - 1,
            d,
        );
        assert(d * (INERTIA_DECAY_DEN - 1) == d * INERTIA_DECAY_DEN - d) by (nonlinear_arith);
        vstd::arithmetic::div_mod::lemma_div_is_ordered(
            d * INERTIA_DECAY_NUM,
            d * INERTIA_DECAY_DEN - d,
            INERTIA_DECAY_DEN as int,
        );
        assert(d * INERTIA_DECAY_DEN - d == (d - 1) * INERTIA_DECAY_DEN + (INERTIA_DECAY_DEN - d))
            by (nonlinear_arith);
        vstd::arithmetic::div_mod::lemma_fundamental_div_mod_converse(
            d * INERTIA_DECAY_DEN - d,
            INERTIA_DECAY_DEN as int,
            d - 1,
            INERTIA_DECAY_DEN - d,
        );
    } else {
        assert(d == 0);
        vstd::arithmetic::div_mod::lemma_div_basics(INERTIA_DECAY_DEN as int);
    }
}

/// A deficit once gone never comes back.
pub proof fn lemma_decay_zero_forever(s: nat, t: nat)
    requires
        s <= t,
        decay(s) == 0,
    ensures
        decay(t) == 0,
    decreases t - s,
{
    if s < t {
        lemma_decay_step(s);
        lemma_decay_zero_forever(s + 1, t);
    }
}

/// While positive, the deficit is bounded by how many ticks are left of the
/// full speed's worth.
pub proof fn lemma_decay_progress(t: nat)
    ensures
        decay(t) == 0 || decay(t) + t <= PLAYER_VELOCITY,
    decreases t,
{
    if t > 0 {
        lemma_decay_progress((t - 1) as nat);
        lemma_decay_step((t - 1) as nat);
    }
}

/// Inertial ramp-up: from rest the speed is zero, climbs strictly every tick
/// until it reaches the configured maximum, and stays there; it reaches the
/// maximum after at most `PLAYER_VELOCITY` ticks.
pub proof fn lemma_inertial_ramp(t: nat)
    ensures
        ramp(0) == 0,
        0 <= ramp(t) <= PLAYER_VELOCITY,
        ramp(t) < PLAYER_VELOCITY ==> ramp(t) < ramp(t + 1),
        ramp(t) <= ramp(t + 1),
        t >= PLAYER_VELOCITY ==> ramp(t) == PLAYER_VELOCITY,
{
    lemma_decay_bounds(t);
    lemma_decay_step(t);
    lemma_decay_progress(t);
}

/// The paddle's inertial speed after `t` consecutive same-direction ticks.
pub fn ramp_velocity(t: u64) -> (r: i64)
    ensures
        r == ramp(t as nat),
        0 <= r <= PLAYER_VELOCITY,
{
    proof {
        lemma_decay_bounds(t as nat);
    }
    let mut d: i64 = PLAYER_VELOCITY;
    let mut i: u64 = 0;
    while i < t && d > 0
        invariant
            i <= t,
            0 <= d <= PLAYER_VELOCITY,
            d == decay(i as nat),
        decreases t - i,
    {
        proof {
            lemma_decay_step(i as nat);
        }
        d = (d * INERTIA_DECAY_NUM) / INERTIA_DECAY_DEN;
        i = i + 1;
    }
    proof {
        if d == 0 {
            lemma_decay_zero_forever(i as nat, t as nat);
        }
        lemma_decay_bounds(t as nat);
    }
    PLAYER_VELOCITY - d
}

/// Where one tick takes a paddle, and the behavior state after it: restart
/// the ramp if the paddle is stopped or has turned since the last tick, move
/// up or down by the inertial speed, and clip the center to the field.
pub open spec fn player_step(p: PlayerPhysics, e: Entity, field: Dimensions) -> (
    PlayerPhysics,
    Entity,
) {
    let t0 = if e.velocity == 0 || e.orientation != p.last_orientation {
        0nat
    } else {
        p.t as nat
    };
    let iv = ramp(t0);
    let dy = if e.orientation == QUARTER_TURN {
        iv
    } else {
        -iv
    };
    let lo = e.dimensions.height as int / 2 - SCALE;
    let hi = field.height - e.dimensions.height as int / 2;
    let yu = e.position.y + dy;
    let ymax = if yu >= lo {
        yu
    } else {
        lo
    };
    let yclip = if ymax <= hi {
        ymax
    } else {
        hi
    };
    (
        PlayerPhysics { id: p.id, t: (t0 + 1) as u64, last_orientation: e.orientation },
        Entity {
            position: Position { x: e.position.x, y: yclip as i64 },
            dimensions: e.dimensions,
            orientation: e.orientation,
            velocity: e.velocity,
            id: e.spec_id(),
        },
    )
}

/// A turn or a stop restarts the ramp: when the paddle's orientation differs
/// from the one recorded last tick, or its speed is zero, the next tick moves
/// it at speed zero (only clipping can change its height) and its counter
/// starts over from one.
pub proof fn lemma_ramp_resets_on_turn(p: PlayerPhysics, e: Entity, field: Dimensions)
    requires
        e.wf(),
        field.wf(),
        e.velocity == 0 || e.orientation != p.last_orientation,
    ensures
        player_step(p, e, field).0.t == 1,
        player_step(p, e, field).1.position.y == ({
            let lo = e.dimensions.height as int / 2 - SCALE;
            let hi = field.height - e.dimensions.height as int / 2;
            let ym = if e.position.y >= lo {
                e.position.y as int
            } else {
                lo
            };
            if ym <= hi {
                ym
            } else {
                hi
            }
        }),
{
}

/// Paddle clipping: wherever the paddle starts and however many ticks have
/// passed, a tick leaves its center between half its height less one unit and
/// the field's height less half its height, provided the paddle fits in the
/// field; since every tick ends this way, any number of ticks does too.
pub proof fn lemma_player_clipped(p: PlayerPhysics, e: Entity, field: Dimensions)
    requires
        e.wf(),
        field.wf(),
        e.dimensions.height as int / 2 - SCALE <= field.height - e.dimensions.height as int / 2,
    ensures
        e.dimensions.height as int / 2 - SCALE <= player_step(p, e, field).1.position.y,
        player_step(p, e, field).1.position.y <= field.height - e.dimensions.height as int / 2,
{
}

impl PlayerPhysics {
    /// A paddle behavior at rest for the entity carrying `id`.
    pub fn new(id: EntityID) -> (r: PlayerPhysics)
        ensures
            r == (PlayerPhysics { id, t: 0, last_orientation: 0 }),
    {
        PlayerPhysics { id, t: 0, last_orientation: 0 }
    }

    /// One tick of paddle motion; see [`player_step`].
    pub fn update(&mut self, entity: &mut Entity, field: Dimensions)
        requires
            old(entity).wf(),
            old(self).t < u64::MAX,
            field.wf(),
        ensures
            *final(self) == player_step(*old(self), *old(entity), field).0,
            *final(entity) == player_step(*old(self), *old(entity), field).1,
            final(entity).wf(),
            final(entity).spec_id() == old(entity).spec_id(),
    {
        if entity.velocity == 0 || entity.orientation != self.last_orientation {
            self.t = 0;
        }
        let inertial_velocity = ramp_velocity(self.t);
        self.t = self.t + 1;
        self.last_orientation = entity.orientation;

        let dy = if entity.orientation == QUARTER_TURN {
            inertial_velocity
        } else {
            -inertial_velocity
        };

        let lo = entity.dimensions.height / 2 - SCALE;
        let hi = field.height - entity.dimensions.height / 2;
        let mut y = entity.position.y + dy;
        if y < lo {
            y = lo;
        }
        if y > hi {
            y = hi;
        }
        entity.position.y = y;
    }
}

/// Dispatch one tick to the entity's behavior: the ball moves by
/// [`ball_step`], a paddle by [`player_step`].
pub open spec fn comp_step(c: PhysicsComponent, e: Entity, field: Dimensions) -> (
    PhysicsComponent,
    Entity,
) {
    match c {
        PhysicsComponent::Ball(_) => (c, ball_step(e, field)),
        PhysicsComponent::Player(p) => (
            PhysicsComponent::Player(player_step(p, e, field).0),
            player_step(p, e, field).1,
        ),
    }
}

} // verus!
