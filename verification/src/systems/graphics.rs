//! Render dispatch: one drawing request per renderable entity, no simulation
//! state or logic of its own.

use vstd::prelude::*;

use crate::components::graphics::{box_x, box_y, BoundingBox, GraphicsComponent, RenderCommand};
use crate::entities::{has_id, index_of_id, Entity, EntityID, EntityStore};
use crate::systems::registry::{keys_unique, register, register_spec};

verus! {

/// The drawing requests one frame makes: for each registered behavior, in
/// registry order, its shape variant in the box its entity occupies.
pub open spec fn render_spec(
    world: Seq<Entity>,
    comps: Seq<(EntityID, GraphicsComponent)>,
) -> Seq<RenderCommand> {
    Seq::new(
        comps.len(),
        |k: int|
            {
                let e = world[index_of_id(world, comps[k].0)];
                RenderCommand {
                    shape: comps[k].1.shape_of(),
                    bounds: BoundingBox {
                        x: box_x(e) as i64,
                        y: box_y(e) as i64,
                        width: e.dimensions.width,
                        height: e.dimensions.height,
                    },
                }
            },
    )
}

/// The registry of render behaviors.
pub struct GraphicsSystem {
    components: Vec<(EntityID, GraphicsComponent)>,
}

impl View for GraphicsSystem {
    type V = Seq<(EntityID, GraphicsComponent)>;

    closed spec fn view(&self) -> Seq<(EntityID, GraphicsComponent)> {
        self.components@
    }
}

impl GraphicsSystem {
    /// Each identity is registered at most once.
    pub open spec fn wf(&self) -> bool {
        keys_unique(self@)
    }

    /// An empty registry.
    pub fn new() -> (s: GraphicsSystem)
        ensures
            s@.len() == 0,
            s.wf(),
    {
        GraphicsSystem { components: Vec::new() }
    }

    /// Insert or replace the render behavior for `id`.
    pub fn register_component(&mut self, id: EntityID, component: GraphicsComponent)
        requires
            old(self).wf(),
        ensures
            final(self).wf(),
            final(self)@ == register_spec(old(self)@, id, component),
    {
        register(&mut self.components, id, component);
    }

    /// One drawing request per registered entity, in registry order: the
    /// behavior's shape variant in the box its entity occupies.
    pub fn render(&self, world: &EntityStore) -> (r: Vec<RenderCommand>)
        requires
            world.wf(),
            forall|k: int| 0 <= k < self@.len() ==> has_id(world@, self@[k].0),
            forall|i: int| 0 <= i < world@.len() ==> (#[trigger] world@[i]).wf_stepped(),
        ensures
            r@ == render_spec(world@, self@),
            r@.len() == self@.len(),
    {
        let n = self.components.len();
        let mut out: Vec<RenderCommand> = Vec::new();
        let mut k: usize = 0;
        while k < n
            invariant
                n == self@.len(),
                k <= n,
                world.wf(),
                forall|j: int| 0 <= j < self@.len() ==> has_id(world@, self@[j].0),
                forall|i: int| 0 <= i < world@.len() ==> (#[trigger] world@[i]).wf_stepped(),
                out@.len() == k,
                forall|j: int|
                    0 <= j < k ==> {
                        let e = world@[index_of_id(world@, self@[j].0)];
                        &&& (#[trigger] out@[j]).shape == self@[j].1.shape_of()
                        &&& out@[j].bounds.x == box_x(e)
                        &&& out@[j].bounds.y == box_y(e)
                        &&& out@[j].bounds.width == e.dimensions.width
                        &&& out@[j].bounds.height == e.dimensions.height
                    },
            decreases n - k,
        {
            let (id, component) = self.components[k];
            let entity = world.get(id);
            out.push(component.render(entity));
            k = k + 1;
        }
        proof {
            assert forall|j: int| 0 <= j < n implies out@[j] == render_spec(world@, self@)[j] by {
                let e = world@[index_of_id(world@, self@[j].0)];
                assert(out@[j].bounds.x == box_x(e));
                assert(out@[j].bounds.y == box_y(e));
            }
            assert(out@ =~= render_spec(world@, self@));
        }
        out
    }
}

} // verus!
