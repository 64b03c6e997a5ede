//! Simulated objects and the store that owns them.
//!
//! Every object — the ball and the two paddles — is an [`Entity`]: a center
//! position, a width and height, an orientation (milli-degrees) and a scalar
//! speed per tick, all in fixed-point milli-units, plus a stable identity.
//! The [`EntityStore`] owns one entity per identity and hands identities out
//! from a monotone counter, so an identity is never reused.

use vstd::prelude::*;

use crate::consts::{MAX_COORD, MAX_DIM, MAX_ORIENT, MAX_VEL};

verus! {

/// A stable identity: the join key between the store and every registry.
#[derive(Clone, Copy, Debug, Hash, PartialEq, Eq, Structural)]
pub struct EntityID(pub i64);

/// A point in field coordinates, in milli-units.
#[derive(Clone, Copy, Debug, PartialEq, Eq, Structural)]
pub struct Position {
    pub x: i64,
    pub y: i64,
}

/// An axis-aligned extent, in milli-units.
#[derive(Clone, Copy, Debug, PartialEq, Eq, Structural)]
pub struct Dimensions {
    pub width: i64,
    pub height: i64,
}

impl Dimensions {
    /// Both extents are nonnegative and within the fixed-point working range.
    pub open spec fn wf(self) -> bool {
        &&& 0 <= self.width <= MAX_DIM
        &&& 0 <= self.height <= MAX_DIM
    }
}

/// One simulated object. `position` is the object's geometric center.
#[derive(Clone, Copy, Debug, PartialEq, Eq, Structural)]
pub struct Entity {
    pub position: Position,
    pub dimensions: Dimensions,
    pub orientation: i64,
    pub velocity: i64,
    pub id: EntityID,
}

impl Entity {
    /// The identity this entity was constructed with; no verified function
    /// ever changes it.
    pub open spec fn spec_id(self) -> EntityID {
        self.id
    }

    /// All scalar fields lie within the fixed-point working range.
    pub open spec fn wf(self) -> bool {
        &&& -MAX_COORD <= self.position.x <= MAX_COORD
        &&& -MAX_COORD <= self.position.y <= MAX_COORD
        &&& 0 <= self.dimensions.width <= MAX_DIM
        &&& 0 <= self.dimensions.height <= MAX_DIM
        &&& -MAX_ORIENT <= self.orientation <= MAX_ORIENT
        &&& 0 <= self.velocity <= MAX_VEL
    }

    /// Like well-formed, but the position may have drifted by one tick's
    /// motion.
    pub open spec fn wf_stepped(self) -> bool {
        &&& -MAX_COORD - MAX_VEL <= self.position.x <= MAX_COORD + MAX_VEL
        &&& -MAX_COORD - MAX_VEL <= self.position.y <= MAX_COORD + MAX_VEL
        &&& 0 <= self.dimensions.width <= MAX_DIM
        &&& 0 <= self.dimensions.height <= MAX_DIM
        &&& -MAX_ORIENT <= self.orientation <= MAX_ORIENT
        &&& 0 <= self.velocity <= MAX_VEL
    }

    /// Build an entity from its parts. Identities come from an
    /// [`EntityStore`]; building an entity directly is for values that never
    /// enter a store.
    pub fn new(
        position: Position,
        dimensions: Dimensions,
        orientation: i64,
        velocity: i64,
        id: EntityID,
    ) -> (e: Entity)
        ensures
            e.position == position,
            e.dimensions == dimensions,
            e.orientation == orientation,
            e.velocity == velocity,
            e.spec_id() == id,
    {
        Entity { position, dimensions, orientation, velocity, id }
    }

    /// The entity's identity.
    pub fn id(&self) -> (r: EntityID)
        ensures
            r == self.spec_id(),
    {
        self.id
    }
}

/// Whether some entity in `s` carries the identity `id`.
pub open spec fn has_id(s: Seq<Entity>, id: EntityID) -> bool {
    exists|i: int| 0 <= i < s.len() && s[i].spec_id() == id
}

/// The index of the entity carrying `id` (meaningful when ids are unique).
pub open spec fn index_of_id(s: Seq<Entity>, id: EntityID) -> int {
    choose|i: int| 0 <= i < s.len() && s[i].spec_id() == id
}

/// No two entities in `s` share an identity.
pub open spec fn ids_unique(s: Seq<Entity>) -> bool {
    forall|i: int, j: int|
        0 <= i < j < s.len() ==> s[i].spec_id() != s[j].spec_id()
}

/// With unique ids, the index found for `id` is the only one that carries it.
pub proof fn lemma_index_of_id(s: Seq<Entity>, id: EntityID, i: int)
    requires
        ids_unique(s),
        0 <= i < s.len(),
        s[i].spec_id() == id,
    ensures
        has_id(s, id),
        index_of_id(s, id) == i,
{
    assert(has_id(s, id));
    let j = index_of_id(s, id);
    if j != i {
        if i < j {
            assert(s[i].spec_id() != s[j].spec_id());
        } else {
            assert(s[j].spec_id() != s[i].spec_id());
        }
    }
}

/// The mapping from identity to entity, plus the identity counter.
pub struct EntityStore {
    entities: Vec<Entity>,
    next_id: i64,
}

impl View for EntityStore {
    type V = Seq<Entity>;

    closed spec fn view(&self) -> Seq<Entity> {
        self.entities@
    }
}

impl EntityStore {
    /// The next identity the store will hand out.
    pub closed spec fn spec_next_id(&self) -> i64 {
        self.next_id
    }

    /// Ids are unique, and every id held is older than the counter.
    pub open spec fn wf(&self) -> bool {
        &&& ids_unique(self@)
        &&& forall|i: int| 0 <= i < self@.len() ==> self@[i].spec_id().0 < self.spec_next_id()
    }

    /// An empty store whose counter starts at zero.
    pub fn new() -> (s: EntityStore)
        ensures
            s@.len() == 0,
            s.spec_next_id() == 0,
            s.wf(),
    {
        EntityStore { entities: Vec::new(), next_id: 0 }
    }

    /// Create an entity under a fresh identity and keep it.
    pub fn spawn(
        &mut self,
        position: Position,
        dimensions: Dimensions,
        orientation: i64,
        velocity: i64,
    ) -> (id: EntityID)
        requires
            old(self).wf(),
            old(self).spec_next_id() < i64::MAX,
        ensures
            final(self).wf(),
            id == EntityID(old(self).spec_next_id()),
            !has_id(old(self)@, id),
            final(self).spec_next_id() == old(self).spec_next_id() + 1,
            final(self)@.len() == old(self)@.len() + 1,
            forall|i: int| 0 <= i < old(self)@.len() ==> final(self)@[i] == old(self)@[i],
            final(self)@.last() == (Entity {
                position,
                dimensions,
                orientation,
                velocity,
                id,
            }),
            has_id(final(self)@, id),
    {
        let id = EntityID(self.next_id);
        let entity = Entity { position, dimensions, orientation, velocity, id };
        self.entities.push(entity);
        self.next_id = self.next_id + 1;
        proof {
            assert(self@[self@.len() - 1].spec_id() == id);
        }
        id
    }

    /// How many entities the store holds.
    pub fn len(&self) -> (n: usize)
        ensures
            n == self@.len(),
    {
        self.entities.len()
    }

    /// The entity at a raw position, for full iteration.
    pub fn entity_at(&self, i: usize) -> (e: &Entity)
        requires
            i < self@.len(),
        ensures
            *e == self@[i as int],
    {
        &self.entities[i]
    }

    /// Read the entity carrying `id`. The caller must hold a valid id.
    pub fn get(&self, id: EntityID) -> (e: &Entity)
        requires
            self.wf(),
            has_id(self@, id),
        ensures
            *e == self@[index_of_id(self@, id)],
            e.spec_id() == id,
            0 <= index_of_id(self@, id) < self@.len(),
    {
        let n = self.entities.len();
        let mut i: usize = 0;
        while i < n
            invariant
                n == self@.len(),
                i <= n,
                self.wf(),
                has_id(self@, id),
                forall|k: int| 0 <= k < i ==> self@[k].spec_id() != id,
            decreases n - i,
        {
            if self.entities[i].id == id {
                proof {
                    lemma_index_of_id(self@, id, i as int);
                }
                return &self.entities[i];
            }
            i = i + 1;
        }
        proof {
            let w = choose|k: int| 0 <= k < self@.len() && self@[k].spec_id() == id;
            assert(self@[w].spec_id() != id);
        }
        &self.entities[0]
    }

    /// Replace the entity carrying `id` with `e`, which must carry it too.
    pub fn put(&mut self, id: EntityID, e: Entity)
        requires
            old(self).wf(),
            has_id(old(self)@, id),
            e.spec_id() == id,
        ensures
            final(self).wf(),
            final(self)@ == old(self)@.update(index_of_id(old(self)@, id), e),
            final(self)@.len() == old(self)@.len(),
            final(self).spec_next_id() == old(self).spec_next_id(),
    {
        let n = self.entities.len();
        let mut i: usize = 0;
        while i < n
            invariant
                n == self@.len(),
                i <= n,
                self.wf(),
                has_id(self@, id),
                e.spec_id() == id,
                *self == *old(self),
                forall|k: int| 0 <= k < i ==> self@[k].spec_id() != id,
            decreases n - i,
        {
            if self.entities[i].id == id {
                proof {
                    lemma_index_of_id(self@, id, i as int);
                }
                self.entities.set(i, e);
                proof {
                    assert(self@ =~= old(self)@.update(index_of_id(old(self)@, id), e));
                    assert forall|k: int|
                        0 <= k < self@.len() implies self@[k].spec_id() == old(self)@[k].spec_id() by {
                        if k == i as int {
                            assert(self@[k] == e);
                        } else {
                            assert(self@[k] == old(self)@[k]);
                        }
                    }
                }
                return ;
            }
            i = i + 1;
        }
        proof {
            let w = choose|k: int| 0 <= k < self@.len() && self@[k].spec_id() == id;
            assert(self@[w].spec_id() != id);
        }
    }
}

} // verus!
