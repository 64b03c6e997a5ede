//! Per-entity behavior objects, one module per concern.

pub mod graphics;
pub mod input;
pub mod physics;
