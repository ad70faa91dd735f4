//! The archetypes: descriptions of an entity to be, each of which knows how
//! to enter a world together with its shape.

use crate::collision::{
    CollisionHandler,
    CollisionLayer,
    CollisionObject,
    CollisionObjectHandle,
    GeometricQueryType,
};
use crate::components::{Collider, Color, GravityAffected, Moving, RectDrawable, Transform};
use crate::geometry::{Cuboid, Isometry, Vector2};
use crate::store::{create_actor, create_static, has_room, world_ready, world_rows, EntityRow};
use vstd::prelude::*;

verus! {

/// The components of an entity whose shape has the given pose and box and
/// is registered under `handle`. The transform repeats the pose and the
/// box, so that entity and shape start out in the same place with the same
/// size. Only an entity that moves carries the two motion marks.
pub open spec fn entity_row(
    pose: Isometry,
    shape: Cuboid,
    drawable: RectDrawable,
    moves: bool,
    handle: CollisionObjectHandle,
) -> EntityRow {
    EntityRow {
        transform: Some(
            Transform {
                position: pose.translation,
                size: shape.half_extents,
                rotation: pose.rotation,
            },
        ),
        drawable: Some(drawable),
        collider: Some(Collider { collision_object_handle: handle }),
        moving: if moves {
            Some(Moving {  })
        } else {
            None
        },
        gravity: if moves {
            Some(GravityAffected {  })
        } else {
            None
        },
    }
}

/// Something that can be added to the simulation.
pub trait GameEntity: Sized {
    /// The typed handle that stands for the entity once it is in the world.
    type Entity;

    /// The pose at which the shape is registered.
    spec fn pose(&self) -> Isometry;

    /// The box that is registered.
    spec fn shape(&self) -> Cuboid;

    /// The layer on which the shape is registered.
    spec fn layer(&self) -> CollisionLayer;

    /// How the entity is drawn.
    spec fn drawable(&self) -> RectDrawable;

    /// The entity moves and falls.
    spec fn moves(&self) -> bool;

    /// The index under which the world holds the entity.
    spec fn index_of(entity: &Self::Entity) -> int;

    /// Registers the shape and creates the entity, as one step: the
    /// collision world gains exactly the shape, under its next handle, and
    /// the world gains exactly the entity, which refers to that handle.
    fn add_to_world(self, world: &mut specs::World, handler: &mut CollisionHandler) -> (made:
        Self::Entity)
        requires
            world_ready(*old(world)),
            has_room(*old(world)),
        ensures
            final(handler)@ == old(handler)@.added(
                CollisionObject {
                    position: self.pose(),
                    shape: self.shape(),
                    collision_groups: CollisionHandler::groups_of(self.layer()),
                    query_type: GeometricQueryType::Contacts(0, 0),
                },
            ),
            final(handler)@.is_live(old(handler)@.next_handle()),
            world_ready(*final(world)),
            !world_rows(*old(world)).dom().contains(Self::index_of(&made)),
            world_rows(*final(world)) == world_rows(*old(world)).insert(
                Self::index_of(&made),
                entity_row(
                    self.pose(),
                    self.shape(),
                    self.drawable(),
                    self.moves(),
                    old(handler)@.next_handle(),
                ),
            ),
    ;
}

/// Stands for a piece of ground that is in the world.
pub struct GroundEntity(specs::Entity, u32);

/// A piece of ground to be: static geometry.
pub struct Ground {
    position: Vector2,
    size: Vector2,
    color: Color,
}

impl Ground {
    pub closed spec fn position(&self) -> Vector2 {
        self.position
    }

    pub closed spec fn size(&self) -> Vector2 {
        self.size
    }

    pub closed spec fn color(&self) -> Color {
        self.color
    }

    pub fn new(position: Vector2, size: Vector2, color: Color) -> (ground: Self)
        ensures
            ground.position() == position,
            ground.size() == size,
            ground.color() == color,
    {
        Ground { position, size, color }
    }

    pub fn new_explicit(
        x: i32,
        y: i32,
        w: i32,
        h: i32,
        col_r: u8,
        col_g: u8,
        col_b: u8,
        col_a: u8,
    ) -> (ground: Ground)
        ensures
            ground.position() == (Vector2 { x, y }),
            ground.size() == (Vector2 { x: w, y: h }),
            ground.color() == (Color { r: col_r, g: col_g, b: col_b, a: col_a }),
    {
        Ground {
            position: Vector2::new(x, y),
            size: Vector2::new(w, h),
            color: Color::new(col_r, col_g, col_b, col_a),
        }
    }
}

impl Default for Ground {
    /// A red square of half side 32 at the origin.
    fn default() -> (ground: Self)
        ensures
            ground.position() == (Vector2 { x: 0, y: 0 }),
            ground.size() == (Vector2 { x: 32, y: 32 }),
            ground.color() == (Color { r: 255, g: 0, b: 0, a: 255 }),
    {
        Ground {
            position: Vector2::new(0, 0),
            size: Vector2::new(32, 32),
            color: Color::new(255, 0, 0, 255),
        }
    }
}

impl GameEntity for Ground {
    type Entity = GroundEntity;

    open spec fn pose(&self) -> Isometry {
        Isometry { translation: self.position(), rotation: 0 }
    }

    open spec fn shape(&self) -> Cuboid {
        Cuboid { half_extents: self.size() }
    }

    open spec fn layer(&self) -> CollisionLayer {
        CollisionLayer::Normal
    }

    open spec fn drawable(&self) -> RectDrawable {
        RectDrawable { color: self.color() }
    }

    open spec fn moves(&self) -> bool {
        false
    }

    closed spec fn index_of(entity: &GroundEntity) -> int {
        entity.1 as int
    }

    fn add_to_world(self, world: &mut specs::World, handler: &mut CollisionHandler) -> (made:
        GroundEntity) {
        let isometry = Isometry::new(self.position, 0);
        let shape = Cuboid::new(self.size);

        let collision_group = handler.get_collision_group(CollisionLayer::Normal);
        let collision_object_handle = handler.add_shape(
            isometry,
            shape,
            collision_group,
            GeometricQueryType::Contacts(0, 0),
        );

        let (entity, index) = create_static(
            world,
            Transform::new(Vector2::new(self.position.x, self.position.y), self.size, 0),
            RectDrawable::new(self.color),
            Collider::new(collision_object_handle),
        );

        GroundEntity(entity, index)
    }
}

/// Stands for a player that is in the world.
pub struct PlayerEntity(specs::Entity, u32);

/// A player to be: an actor that moves and falls.
pub struct Player {
    position: Vector2,
    size: Vector2,
    color: Color,
}

impl Player {
    pub closed spec fn position(&self) -> Vector2 {
        self.position
    }

    pub closed spec fn size(&self) -> Vector2 {
        self.size
    }

    pub closed spec fn color(&self) -> Color {
        self.color
    }

    pub fn new(position: Vector2, size: Vector2, color: Color) -> (player: Self)
        ensures
            player.position() == position,
            player.size() == size,
            player.color() == color,
    {
        Player { position, size, color }
    }
}

impl Default for Player {
    /// A green square of half side 32 at (200, 100).
    fn default() -> (player: Self)
        ensures
            player.position() == (Vector2 { x: 200, y: 100 }),
            player.size() == (Vector2 { x: 32, y: 32 }),
            player.color() == (Color { r: 0, g: 255, b: 0, a: 255 }),
    {
        Player {
            position: Vector2::new(200, 100),
            size: Vector2::new(32, 32),
            color: Color::new(0, 255, 0, 255),
        }
    }
}

impl GameEntity for Player {
    type Entity = PlayerEntity;

    open spec fn pose(&self) -> Isometry {
        Isometry { translation: self.position(), rotation: 0 }
    }

    open spec fn shape(&self) -> Cuboid {
        Cuboid { half_extents: self.size() }
    }

    open spec fn layer(&self) -> CollisionLayer {
        CollisionLayer::Normal
    }

    open spec fn drawable(&self) -> RectDrawable {
        RectDrawable { color: self.color() }
    }

    open spec fn moves(&self) -> bool {
        true
    }

    closed spec fn index_of(entity: &PlayerEntity) -> int {
        entity.1 as int
    }

    fn add_to_world(self, world: &mut specs::World, handler: &mut CollisionHandler) -> (made:
        PlayerEntity) {
        let isometry = Isometry::new(self.position, 0);
        let shape = Cuboid::new(self.size);

        let collision_group = handler.get_collision_group(CollisionLayer::Normal);
        let collision_object_handle = handler.add_shape(
            isometry,
            shape,
            collision_group,
            GeometricQueryType::Contacts(0, 0),
        );

        let (entity, index) = create_actor(
            world,
            Transform::new(Vector2::new(self.position.x, self.position.y), self.size, 0),
            RectDrawable::new(self.color),
            Moving::new(),
            GravityAffected::new(),
            Collider::new(collision_object_handle),
        );

        PlayerEntity(entity, index)
    }
}

} // verus!
