//! A verified fixed-point core for a two-player paddle-and-ball simulation.
//!
//! All geometry and kinematics are carried in milli-units: one world unit is
//! `consts::SCALE` fixed-point units, and angles are milli-degrees. The crate
//! owns the entity store, the per-concern component registries, the physics
//! tick (collision detection, collision resolution, kinematic integration),
//! the input router and the render dispatch geometry; drawing, windowing and
//! raw key decoding are left to an unverified shell around the library.

pub mod angle;
pub mod components;
pub mod consts;
pub mod entities;
pub mod game;
pub mod num;
pub mod systems;
