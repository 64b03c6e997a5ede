//! The input behavior: how one key event moves one paddle.

use vstd::prelude::*;

use crate::consts::{MAX_VEL, QUARTER_TURN};
use crate::entities::Entity;

verus! {

/// Whether a key event is a press or a release.
#[derive(Clone, Copy, Debug, PartialEq, Eq, Structural)]
pub enum InputType {
    Pressed,
    Released,
}

/// A logical key code. Which raw keyboard event it stands for is the input
/// source's business; the router only compares codes.
#[derive(Clone, Copy, Debug, Hash, PartialEq, Eq, Structural)]
pub struct Key(pub u32);

/// One paddle's key bindings and configured speed.
#[derive(Clone, Copy, Debug, PartialEq, Eq, Structural)]
pub struct PlayerInput {
    pub up_key: Key,
    pub down_key: Key,
    pub velocity: i64,
}

impl PlayerInput {
    /// The configured speed is a usable per-tick speed.
    pub open spec fn wf(self) -> bool {
        0 <= self.velocity <= MAX_VEL
    }

    /// What one key event does to the entity this component drives: a release
    /// of either bound key stops it; otherwise the up key sends it up (a
    /// negative quarter turn) and the down key down (a positive quarter turn)
    /// at the configured speed, and any other key leaves it alone.
    pub open spec fn apply_spec(self, e: Entity, key: Key, dir: InputType) -> Entity {
        if dir == InputType::Released && (key == self.up_key || key == self.down_key) {
            Entity { velocity: 0, ..e }
        } else if key == self.up_key {
            Entity { velocity: self.velocity, orientation: ((-(QUARTER_TURN as int)) as i64), ..e }
        } else if key == self.down_key {
            Entity { velocity: self.velocity, orientation: QUARTER_TURN, ..e }
        } else {
            e
        }
    }

    /// Bind a paddle's keys and speed.
    pub fn new(up_key: Key, down_key: Key, velocity: i64) -> (r: PlayerInput)
        ensures
            r == (PlayerInput { up_key, down_key, velocity }),
    {
        PlayerInput { up_key, down_key, velocity }
    }

    /// Route one key event to the entity.
    pub fn update(&self, entity: &mut Entity, key: Key, dir: InputType)
        requires
            old(entity).wf_stepped(),
            self.wf(),
        ensures
            *final(entity) == self.apply_spec(*old(entity), key, dir),
            final(entity).wf_stepped(),
            final(entity).spec_id() == old(entity).spec_id(),
            final(entity).position == old(entity).position,
            final(entity).dimensions == old(entity).dimensions,
    {
        if dir == InputType::Released && (key == self.up_key || key == self.down_key) {
            entity.velocity = 0;
        } else if key == self.up_key {
            entity.velocity = self.velocity;
            entity.orientation = -QUARTER_TURN;
        } else if key == self.down_key {
            entity.velocity = self.velocity;
            entity.orientation = QUARTER_TURN;
        }
    }
}

} // verus!
