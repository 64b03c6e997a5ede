//! The three per-concern subsystems, each owning one registry.

pub mod graphics;
pub mod input;
pub mod physics;
pub mod registry;
