//! Simulation core of a 2D platformer: entities assembled from components,
//! a collision world of boxes, and the per-tick step that keeps the two in
//! line.

pub mod collision;
pub mod components;
pub mod entities;
pub mod geometry;
pub mod store;
pub mod systems;
pub mod tilemap;
