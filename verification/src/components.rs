//! The components that entities are assembled from.

use crate::collision::CollisionObjectHandle;
use crate::geometry::{Isometry, Vector2};
use vstd::prelude::*;

verus! {

/// Where an entity stands, how large it is and how far it is turned.
#[derive(Clone, Copy, Debug, PartialEq, Eq, Structural)]
pub struct Transform {
    pub position: Vector2,
    pub size: Vector2,
    pub rotation: i32,
}

impl Transform {
    pub fn new(position: Vector2, size: Vector2, rotation: i32) -> (transform: Self)
        ensures
            transform == (Transform { position, size, rotation }),
    {
        Transform { position, size, rotation }
    }

    /// A transform at the origin, without size or turn.
    pub fn new_empty() -> (transform: Self)
        ensures
            transform == (Transform {
                position: Vector2 { x: 0, y: 0 },
                size: Vector2 { x: 0, y: 0 },
                rotation: 0,
            }),
    {
        Transform { position: Vector2::new(0, 0), size: Vector2::new(0, 0), rotation: 0 }
    }

    /// The pose that the collision world is to hold for this transform.
    pub open spec fn pose(self) -> Isometry {
        Isometry { translation: self.position, rotation: self.rotation }
    }

    pub fn isometry(&self) -> (iso: Isometry)
        ensures
            iso == self.pose(),
    {
        Isometry::new(self.position, self.rotation)
    }
}

/// Ties an entity to its shape in the collision world. The component
/// holds the handle only; the shape belongs to the collision world.
#[derive(Clone, Copy, Debug, PartialEq, Eq, Structural)]
pub struct Collider {
    pub collision_object_handle: CollisionObjectHandle,
}

impl Collider {
    pub fn new(collision_object_handle: CollisionObjectHandle) -> (collider: Self)
        ensures
            collider == (Collider { collision_object_handle }),
    {
        Collider { collision_object_handle }
    }
}

/// A colour by its four channels, each from 0 (none) to 255 (full).
#[derive(Clone, Copy, Debug, PartialEq, Eq, Structural)]
pub struct Color {
    pub r: u8,
    pub g: u8,
    pub b: u8,
    pub a: u8,
}

impl Color {
    pub fn new(r: u8, g: u8, b: u8, a: u8) -> (color: Self)
        ensures
            color == (Color { r, g, b, a }),
    {
        Color { r, g, b, a }
    }
}

/// Marks an entity to be drawn as a filled rectangle.
#[derive(Clone, Copy, Debug, PartialEq, Eq, Structural)]
pub struct RectDrawable {
    pub color: Color,
}

impl RectDrawable {
    pub fn new(color: Color) -> (drawable: Self)
        ensures
            drawable == (RectDrawable { color }),
    {
        RectDrawable { color }
    }
}

/// Marks an entity that moves.
#[derive(Clone, Copy, Debug, PartialEq, Eq, Structural)]
pub struct Moving {}

impl Moving {
    pub fn new() -> (moving: Self)
        ensures
            moving == (Moving {  }),
    {
        Moving {  }
    }
}

/// Marks an entity that gravity pulls on.
#[derive(Clone, Copy, Debug, PartialEq, Eq, Structural)]
pub struct GravityAffected {}

impl GravityAffected {
    pub fn new() -> (gravity: Self)
        ensures
            gravity == (GravityAffected {  }),
    {
        GravityAffected {  }
    }
}

impl specs::Component for Transform {
    type Storage = specs::VecStorage<Self>;
}

impl specs::Component for Collider {
    type Storage = specs::VecStorage<Self>;
}

impl specs::Component for RectDrawable {
    type Storage = specs::VecStorage<Self>;
}

impl specs::Component for Moving {
    type Storage = specs::VecStorage<Self>;
}

impl specs::Component for GravityAffected {
    type Storage = specs::VecStorage<Self>;
}

} // verus!
