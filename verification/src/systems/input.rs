//! The input router: one key event, delivered to every input-capable entity.

use vstd::prelude::*;

use crate::components::input::{InputType, Key, PlayerInput};
use crate::entities::{has_id, index_of_id, lemma_index_of_id, Entity, EntityID, EntityStore};
use crate::systems::registry::{
    has_key, has_key_before, index_of_key, keys_unique, lemma_index_of_key, register,
    register_spec,
};

verus! {

/// What one key event does to one entity: its input behavior routes it, and
/// an entity with no input behavior is left alone.
pub open spec fn route_one(
    comps: Seq<(EntityID, PlayerInput)>,
    e: Entity,
    key: Key,
    dir: InputType,
) -> Entity {
    if has_key(comps, e.spec_id()) {
        comps[index_of_key(comps, e.spec_id())].1.apply_spec(e, key, dir)
    } else {
        e
    }
}

/// What one key event does to the whole world, entity by entity.
pub open spec fn route_spec(
    world: Seq<Entity>,
    comps: Seq<(EntityID, PlayerInput)>,
    key: Key,
    dir: InputType,
) -> Seq<Entity> {
    Seq::new(world.len(), |i: int| route_one(comps, world[i], key, dir))
}

/// The registry of input behaviors.
pub struct InputSystem {
    components: Vec<(EntityID, PlayerInput)>,
}

impl View for InputSystem {
    type V = Seq<(EntityID, PlayerInput)>;

    closed spec fn view(&self) -> Seq<(EntityID, PlayerInput)> {
        self.components@
    }
}

impl InputSystem {
    /// Each identity is registered at most once, with a usable speed.
    pub open spec fn wf(&self) -> bool {
        &&& keys_unique(self@)
        &&& forall|k: int| 0 <= k < self@.len() ==> (#[trigger] self@[k]).1.wf()
    }

    /// An empty registry.
    pub fn new() -> (s: InputSystem)
        ensures
            s@.len() == 0,
            s.wf(),
    {
        InputSystem { components: Vec::new() }
    }

    /// Insert or replace the input behavior for `id`.
    pub fn register_component(&mut self, id: EntityID, component: PlayerInput)
        requires
            old(self).wf(),
            component.wf(),
        ensures
            final(self).wf(),
            final(self)@ == register_spec(old(self)@, id, component),
    {
        register(&mut self.components, id, component);
        proof {
            assert forall|k: int| 0 <= k < self@.len() implies (#[trigger] self@[k]).1.wf() by {
                if has_key(old(self)@, id) {
                    if k != index_of_key(old(self)@, id) {
                        assert(self@[k] == old(self)@[k]);
                    }
                } else {
                    if k < old(self)@.len() {
                        assert(self@[k] == old(self)@[k]);
                    }
                }
            }
        }
    }

    /// Deliver one key event: every entity with a registered input behavior
    /// is routed through it, every other entity is untouched.
    pub fn update(&mut self, world: &mut EntityStore, key: Key, dir: InputType)
        requires
            old(self).wf(),
            old(world).wf(),
            forall|k: int|
                0 <= k < old(self)@.len() ==> has_id(old(world)@, (#[trigger] old(self)@[k]).0),
            forall|i: int| 0 <= i < old(world)@.len() ==> (#[trigger] old(world)@[i]).wf_stepped(),
        ensures
            *final(self) == *old(self),
            final(world).wf(),
            final(world)@ == route_spec(old(world)@, old(self)@, key, dir),
            forall|i: int|
                0 <= i < final(world)@.len() ==> (#[trigger] final(world)@[i]).wf_stepped(),
    {
        let ghost w0 = world@;
        let n = self.components.len();
        let mut k: usize = 0;
        while k < n
            invariant
                n == self@.len(),
                k <= n,
                *self == *old(self),
                self.wf(),
                world.wf(),
                world@.len() == w0.len(),
                forall|j: int| 0 <= j < self@.len() ==> has_id(w0, (#[trigger] self@[j]).0),
                forall|p: int| 0 <= p < w0.len() ==> (#[trigger] world@[p]).spec_id()
                    == w0[p].spec_id(),
                forall|p: int| 0 <= p < w0.len() ==> (#[trigger] world@[p]).wf_stepped(),
                forall|p: int|
                    0 <= p < w0.len() ==> #[trigger] world@[p] == if has_key_before(
                        self@,
                        w0[p].spec_id(),
                        k as int,
                    ) {
                        self@[index_of_key(self@, w0[p].spec_id())].1.apply_spec(w0[p], key, dir)
                    } else {
                        w0[p]
                    },
            decreases n - k,
        {
            let (id, component) = self.components[k];
            proof {
                let p = index_of_id(world@, id);
                assert(has_id(w0, id));
                let q = choose|q: int| 0 <= q < w0.len() && w0[q].spec_id() == id;
                assert(world@[q].spec_id() == id);
                assert(has_id(world@, id));
                assert(!has_key_before(self@, id, k as int)) by {
                    if has_key_before(self@, id, k as int) {
                        let j = choose|j: int|
                            0 <= j < k && j < self@.len() && self@[j].0 == id;
                        assert(self@[j].0 != self@[k as int].0);
                    }
                }
            }
            let mut entity = *world.get(id);
            proof {
                lemma_index_of_id(world@, id, index_of_id(world@, id));
                assert(entity == w0[index_of_id(world@, id)]);
            }
            component.update(&mut entity, key, dir);
            world.put(id, entity);
            k = k + 1;
            proof {
                lemma_index_of_key(self@, id, k as int - 1);
                assert forall|p: int| 0 <= p < w0.len() implies #[trigger] world@[p]
                    == if has_key_before(self@, w0[p].spec_id(), k as int) {
                    self@[index_of_key(self@, w0[p].spec_id())].1.apply_spec(w0[p], key, dir)
                } else {
                    w0[p]
                } by {
                    if w0[p].spec_id() == id {
                        assert(has_key_before(self@, w0[p].spec_id(), k as int));
                    } else {
                        assert(has_key_before(self@, w0[p].spec_id(), k as int)
                            == has_key_before(self@, w0[p].spec_id(), k as int - 1));
                    }
                }
            }
        }
        proof {
            assert forall|p: int| 0 <= p < w0.len() implies has_key_before(
                self@,
                w0[p].spec_id(),
                n as int,
            ) == has_key(self@, w0[p].spec_id()) by {}
            assert(world@ =~= route_spec(w0, self@, key, dir));
        }
    }
}

} // verus!
