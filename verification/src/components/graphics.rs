//! The render behavior: what geometry each entity asks the renderer to draw.
//!
//! The library owns no rasterization. A render pass turns each renderable
//! entity into a [`RenderCommand`]: the shape variant to draw and the
//! axis-aligned box to draw it into. An external collaborator draws them.

use vstd::prelude::*;

use crate::entities::Entity;

verus! {

/// The shape variants the external renderer knows how to draw.
#[derive(Clone, Copy, Debug, PartialEq, Eq, Structural)]
pub enum ShapeKind {
    DiscWithBorder,
    RectWithBorder,
}

/// A box in field coordinates: top-left corner, then extent.
#[derive(Clone, Copy, Debug, PartialEq, Eq, Structural)]
pub struct BoundingBox {
    pub x: i64,
    pub y: i64,
    pub width: i64,
    pub height: i64,
}

/// One drawing request handed to the external renderer.
#[derive(Clone, Copy, Debug, PartialEq, Eq, Structural)]
pub struct RenderCommand {
    pub shape: ShapeKind,
    pub bounds: BoundingBox,
}

/// Draws the ball: a filled disc with a border.
#[derive(Clone, Copy, Debug, PartialEq, Eq, Structural)]
pub struct BallGraphics;

/// Draws a paddle: a filled rectangle with a border.
#[derive(Clone, Copy, Debug, PartialEq, Eq, Structural)]
pub struct StickGraphics;

/// The closed set of render behaviors.
#[derive(Clone, Copy, Debug, PartialEq, Eq, Structural)]
pub enum GraphicsComponent {
    Ball(BallGraphics),
    Stick(StickGraphics),
}

/// Top-left x of the box an entity is drawn into.
pub open spec fn box_x(e: Entity) -> int {
    e.position.x - e.dimensions.width as int / 2
}

/// Top-left y of the box an entity is drawn into.
pub open spec fn box_y(e: Entity) -> int {
    e.position.y - e.dimensions.height as int / 2
}

impl GraphicsComponent {
    /// The shape variant this behavior draws.
    pub open spec fn shape_of(self) -> ShapeKind {
        match self {
            GraphicsComponent::Ball(_) => ShapeKind::DiscWithBorder,
            GraphicsComponent::Stick(_) => ShapeKind::RectWithBorder,
        }
    }

    /// The box the entity occupies: its extent, centered on its position.
    pub fn bounding_box(&self, entity: &Entity) -> (r: BoundingBox)
        requires
            entity.wf_stepped(),
        ensures
            r.x == box_x(*entity),
            r.y == box_y(*entity),
            r.width == entity.dimensions.width,
            r.height == entity.dimensions.height,
    {
        BoundingBox {
            x: entity.position.x - entity.dimensions.width / 2,
            y: entity.position.y - entity.dimensions.height / 2,
            width: entity.dimensions.width,
            height: entity.dimensions.height,
        }
    }

    /// Ask for this entity to be drawn: its shape variant in its box.
    pub fn render(&self, entity: &Entity) -> (r: RenderCommand)
        requires
            entity.wf_stepped(),
        ensures
            r.shape == self.shape_of(),
            r.bounds.x == box_x(*entity),
            r.bounds.y == box_y(*entity),
            r.bounds.width == entity.dimensions.width,
            r.bounds.height == entity.dimensions.height,
    {
        let shape = match self {
            GraphicsComponent::Ball(_) => ShapeKind::DiscWithBorder,
            GraphicsComponent::Stick(_) => ShapeKind::RectWithBorder,
        };
        RenderCommand { shape, bounds: self.bounding_box(entity) }
    }
}

} // verus!
