//! The entity store. Entities and their components live in a
//! `specs::World`; this module says what the library relies on of it.

use crate::components::{Collider, GravityAffected, Moving, RectDrawable, Transform};
use vstd::prelude::*;

verus! {

/// `specs::World`, the store of entities and components. Nothing of its
/// inside is known here; `world_rows` and `world_ready` speak of it.
#[verifier::external_type_specification]
#[verifier::external_body]
pub struct ExWorld(specs::World);

/// `specs::Entity`, the store's own name for an entity. It is carried and
/// never looked into.
#[verifier::external_type_specification]
#[verifier::external_body]
pub struct ExEntity(specs::Entity);

/// `specs::VecStorage`, the storage that each component type names as its
/// own. It is named and never used here.
#[verifier::external_type_specification]
#[verifier::external_body]
#[verifier::reject_recursive_types(T)]
pub struct ExVecStorage<T>(specs::VecStorage<T>);

/// The components that one entity carries.
pub struct EntityRow {
    pub transform: Option<Transform>,
    pub drawable: Option<RectDrawable>,
    pub collider: Option<Collider>,
    pub moving: Option<Moving>,
    pub gravity: Option<GravityAffected>,
}

/// What the world holds: for the index of each of its entities, the
/// components stored for it.
pub uninterp spec fn world_rows(world: specs::World) -> Map<int, EntityRow>;

/// The world is fit for this library: the five component types are
/// registered in it, and whatever its storages hold is held for one of its
/// own entities.
pub uninterp spec fn world_ready(world: specs::World) -> bool;

/// A world without entities.
pub open spec fn no_rows() -> Map<int, EntityRow> {
    Map::empty()
}

/// How many entities a world can index: the reach of the bit sets that
/// the store keeps its entities in.
pub open spec fn entity_capacity() -> nat {
    if usize::BITS == 64 {
        0x100_0000
    } else {
        0x10_0000
    }
}

/// The world has room for one more entity.
pub open spec fn has_room(world: specs::World) -> bool {
    &&& world_rows(world).dom().finite()
    &&& world_rows(world).dom().len() < entity_capacity()
}

/// `items` is what joining the entities with their transforms and
/// colliders yields: each entity that carries both, once, with the two
/// components, by rising index.
pub open spec fn is_join_of(items: Seq<(u32, Transform, Collider)>, rows: Map<int, EntityRow>) -> bool {
    &&& forall|k: int|
        0 <= k < items.len() ==> {
            let item = #[trigger] items[k];
            &&& rows.dom().contains(item.0 as int)
            &&& rows[item.0 as int].transform == Some(item.1)
            &&& rows[item.0 as int].collider == Some(item.2)
        }
    &&& forall|k1: int, k2: int|
        0 <= k1 < k2 < items.len() ==> (#[trigger] items[k1]).0 < (#[trigger] items[k2]).0
    &&& forall|id: int|
        #![trigger rows[id]]
        rows.dom().contains(id) && rows[id].transform is Some && rows[id].collider is Some
            ==> exists|k: int| 0 <= k < items.len() && (#[trigger] items[k]).0 == id
}

/// Calls `specs::World::new`, then `specs::World::register` for each of the
/// five component types. Claims that the world made so is ready and holds
/// no entity.
#[verifier::external_body]
fn fresh_world() -> (made: specs::World)
    ensures
        world_ready(made),
        world_rows(made) == no_rows(),
{
    let mut world = specs::World::new();
    world.register::<Transform>();
    world.register::<RectDrawable>();
    world.register::<Collider>();
    world.register::<Moving>();
    world.register::<GravityAffected>();
    world
}

/// Calls `specs::World::create_entity`, `specs::EntityBuilder::with` once for
/// each component given, and `specs::EntityBuilder::build`. Claims that the
/// entity made gets an index no entity of the world had, that it carries
/// the three components and no other, and that every other entity carries
/// what it carried. The index is `specs::Entity::id` of the entity made.
#[verifier::external_body]
pub(crate) fn create_static(
    world: &mut specs::World,
    transform: Transform,
    drawable: RectDrawable,
    collider: Collider,
) -> (made: (specs::Entity, u32))
    requires
        world_ready(*old(world)),
        has_room(*old(world)),
    ensures
        world_ready(*final(world)),
        !world_rows(*old(world)).dom().contains(made.1 as int),
        world_rows(*final(world)) == world_rows(*old(world)).insert(
            made.1 as int,
            EntityRow {
                transform: Some(transform),
                drawable: Some(drawable),
                collider: Some(collider),
                moving: None,
                gravity: None,
            },
        ),
{
    let entity = world.create_entity().with(transform).with(drawable).with(collider).build();
    (entity, entity.id())
}

/// Calls `specs::World::create_entity`, `specs::EntityBuilder::with` once for
/// each component given, and `specs::EntityBuilder::build`. Claims that the
/// entity made gets an index no entity of the world had, that it carries
/// the five components, and that every other entity carries what it
/// carried. The index is `specs::Entity::id` of the entity made.
#[verifier::external_body]
pub(crate) fn create_actor(
    world: &mut specs::World,
    transform: Transform,
    drawable: RectDrawable,
    moving: Moving,
    gravity: GravityAffected,
    collider: Collider,
) -> (made: (specs::Entity, u32))
    requires
        world_ready(*old(world)),
        has_room(*old(world)),
    ensures
        world_ready(*final(world)),
        !world_rows(*old(world)).dom().contains(made.1 as int),
        world_rows(*final(world)) == world_rows(*old(world)).insert(
            made.1 as int,
            EntityRow {
                transform: Some(transform),
                drawable: Some(drawable),
                collider: Some(collider),
                moving: Some(moving),
                gravity: Some(gravity),
            },
        ),
{
    let entity = world.create_entity().with(transform).with(drawable).with(moving).with(
        gravity,
    ).with(collider).build();
    (entity, entity.id())
}

/// Calls `specs::World::entities` and `specs::World::read` for `Transform`
/// and for `Collider`, and `specs::Join::join` on the three. Claims that the
/// join yields each entity that carries both components, once, by rising
/// index, and that the world is left as it was. Each item is copied out
/// with `specs::Entity::id` of its entity.
#[verifier::external_body]
pub(crate) fn join_colliders(world: &mut specs::World) -> (found: Vec<(u32, Transform, Collider)>)
    requires
        world_ready(*old(world)),
    ensures
        world_ready(*final(world)),
        world_rows(*final(world)) == world_rows(*old(world)),
        is_join_of(found@, world_rows(*final(world))),
{
    let entities = world.entities();
    let transforms = world.read::<Transform>();
    let colliders = world.read::<Collider>();
    specs::Join::join((&*entities, &transforms, &colliders)).map(|(e, t, c)| (e.id(), *t, *c)).collect()
}

/// A world that is ready and holds no entity.
pub fn new_world() -> (world: specs::World)
    ensures
        world_ready(world),
        world_rows(world) == no_rows(),
        has_room(world),
{
    fresh_world()
}

} // verus!
