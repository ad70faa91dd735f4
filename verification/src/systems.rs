//! The per-tick step that brings the collision world in line with the
//! entities and finds the contacts.

use crate::collision::{CollisionHandler, CollisionObjectHandle, CollisionState};
use crate::components::{Collider, Transform};
use crate::store::{is_join_of, join_colliders, world_ready, world_rows, EntityRow};
use vstd::prelude::*;

verus! {

/// What one tick found.
#[derive(Clone, Copy, Debug, PartialEq, Eq, Structural)]
pub struct TickReport {
    /// Some pair of shapes is in contact.
    pub contact: bool,
    /// How many colliders named a handle under which no shape is
    /// registered. Their entities were passed over.
    pub stale: usize,
}

/// The handle that the item's collider names.
pub open spec fn handle_of(item: (u32, Transform, Collider)) -> CollisionObjectHandle {
    item.2.collision_object_handle
}

/// The collision world after the pose of each item's transform was
/// written under the handle of its collider, item by item from the front.
/// An item whose handle names no shape changes nothing.
pub open spec fn pushed(state: CollisionState, items: Seq<(u32, Transform, Collider)>) -> CollisionState
    decreases items.len(),
{
    if items.len() == 0 {
        state
    } else {
        pushed(state, items.drop_last()).moved(handle_of(items.last()), items.last().1.pose())
    }
}

/// How many of the items name a handle under which `state` holds no shape.
pub open spec fn stale_count(state: CollisionState, items: Seq<(u32, Transform, Collider)>) -> nat
    decreases items.len(),
{
    if items.len() == 0 {
        0
    } else {
        stale_count(state, items.drop_last()) + if state.is_live(handle_of(items.last())) {
            0nat
        } else {
            1nat
        }
    }
}

/// No two of the items name the same handle.
pub open spec fn handles_distinct(items: Seq<(u32, Transform, Collider)>) -> bool {
    forall|k1: int, k2: int|
        0 <= k1 < k2 < items.len() ==> handle_of(#[trigger] items[k1]) != handle_of(
            #[trigger] items[k2],
        )
}

/// No two entities that carry a transform and a collider name the same
/// handle.
pub open spec fn colliders_distinct(rows: Map<int, EntityRow>) -> bool {
    forall|id1: int, id2: int|
        #![trigger rows[id1], rows[id2]]
        rows.dom().contains(id1) && rows.dom().contains(id2) && id1 != id2
            && rows[id1].transform is Some && rows[id2].transform is Some
            && rows[id1].collider is Some && rows[id2].collider is Some
            ==> rows[id1].collider->Some_0.collision_object_handle
            != rows[id2].collider->Some_0.collision_object_handle
}

/// Writing poses registers no shape and removes none, and leaves the
/// contacts of the last update as they were.
pub proof fn lemma_pushed_keeps_shapes(
    state: CollisionState,
    items: Seq<(u32, Transform, Collider)>,
)
    ensures
        pushed(state, items).objects.len() == state.objects.len(),
        pushed(state, items).contacts == state.contacts,
        forall|handle: CollisionObjectHandle|
            pushed(state, items).is_live(handle) == state.is_live(handle),
    decreases items.len(),
{
    if items.len() > 0 {
        lemma_pushed_keeps_shapes(state, items.drop_last());
    }
}

/// A shape that no item names keeps its slot as it was.
pub proof fn lemma_pushed_leaves_others(
    state: CollisionState,
    items: Seq<(u32, Transform, Collider)>,
    slot: int,
)
    requires
        0 <= slot < state.objects.len(),
        forall|k: int| 0 <= k < items.len() ==> handle_of(#[trigger] items[k]).0 != slot,
    ensures
        pushed(state, items).objects[slot] == state.objects[slot],
    decreases items.len(),
{
    if items.len() > 0 {
        let front = items.drop_last();
        assert forall|k: int| 0 <= k < front.len() implies handle_of(#[trigger] front[k]).0
            != slot by {
            assert(front[k] == items[k]);
        }
        lemma_pushed_leaves_others(state, front, slot);
        lemma_pushed_keeps_shapes(state, front);
    }
}

/// Synchronization: where no two items name the same handle, each shape
/// that an item names ends up with the pose of that item's transform, and
/// is otherwise the shape it was.
pub proof fn lemma_pushed_synchronizes(
    state: CollisionState,
    items: Seq<(u32, Transform, Collider)>,
    k: int,
)
    requires
        handles_distinct(items),
        0 <= k < items.len(),
        state.is_live(handle_of(items[k])),
    ensures
        pushed(state, items).is_live(handle_of(items[k])),
        pushed(state, items).objects[handle_of(items[k]).0 as int] == Some(
            state.objects[handle_of(items[k]).0 as int]->Some_0.placed_at(items[k].1.pose()),
        ),
    decreases items.len(),
{
    let front = items.drop_last();
    lemma_pushed_keeps_shapes(state, front);
    if k == items.len() - 1 {
        // No earlier item names the handle, so the last write finds the
        // shape as it was.
        assert forall|j: int| 0 <= j < front.len() implies handle_of(#[trigger] front[j]).0
            != handle_of(items[k]).0 by {
            assert(front[j] == items[j]);
        }
        lemma_pushed_leaves_others(state, front, handle_of(items[k]).0 as int);
    } else {
        // The item's own write came earlier, and the last write goes
        // elsewhere.
        assert forall|k1: int, k2: int| 0 <= k1 < k2 < front.len() implies handle_of(
            #[trigger] front[k1],
        ) != handle_of(#[trigger] front[k2]) by {
            assert(front[k1] == items[k1] && front[k2] == items[k2]);
        }
        lemma_pushed_synchronizes(state, front, k);
    }
}

/// The system that synchronizes positions and finds contacts, once per
/// tick. It keeps nothing from one tick to the next.
pub struct SysCollide {}

impl SysCollide {
    /// Writes the pose of each item's transform into the collision world
    /// under the handle of its collider, front to back. An item whose
    /// handle names no shape is passed over and counted.
    pub fn push_positions(
        handler: &mut CollisionHandler,
        items: &Vec<(u32, Transform, Collider)>,
    ) -> (stale: usize)
        ensures
            final(handler)@ == pushed(old(handler)@, items@),
            stale == stale_count(old(handler)@, items@),
    {
        let mut stale: usize = 0;
        let mut k: usize = 0;
        while k < items.len()
            invariant
                k <= items@.len(),
                stale <= k,
                handler@ == pushed(old(handler)@, items@.take(k as int)),
                stale == stale_count(old(handler)@, items@.take(k as int)),
            decreases items@.len() - k,
        {
            let (_, transform, collider) = items[k];
            proof {
                assert(items@.take(k + 1).drop_last() =~= items@.take(k as int));
                lemma_pushed_keeps_shapes(old(handler)@, items@.take(k as int));
            }
            let done = handler.set_position(collider.collision_object_handle, transform.isometry());
            if done.is_err() {
                stale = stale + 1;
            }
            k = k + 1;
        }
        proof {
            assert(items@.take(k as int) =~= items@);
        }
        stale
    }

    /// One tick over the items given: writes every pose, then updates the
    /// collision world once, then reports whether any contact was found.
    pub fn step(
        &mut self,
        handler: &mut CollisionHandler,
        items: &Vec<(u32, Transform, Collider)>,
    ) -> (report: TickReport)
        ensures
            final(handler)@.is_update_of(pushed(old(handler)@, items@)),
            report.contact == (final(handler)@.contacts.len() > 0),
            report.stale == stale_count(old(handler)@, items@),
    {
        let stale = Self::push_positions(handler, items);
        handler.update();
        let contact = handler.contacts().len() > 0;
        TickReport { contact, stale }
    }

    /// One tick over the world: joins the entities that carry a transform
    /// and a collider, and steps over them. The world is only read.
    ///
    /// Every shape is afterwards the shape it was, but for its pose. Where
    /// no two of the joined entities name the same handle, the shape that
    /// such an entity names has the pose of the entity's transform.
    pub fn run(&mut self, world: &mut specs::World, handler: &mut CollisionHandler) -> (report:
        TickReport)
        requires
            world_ready(*old(world)),
        ensures
            world_ready(*final(world)),
            world_rows(*final(world)) == world_rows(*old(world)),
            exists|items: Seq<(u32, Transform, Collider)>|
                {
                    &&& is_join_of(items, world_rows(*old(world)))
                    &&& (#[trigger] final(handler)@.is_update_of(pushed(old(handler)@, items)))
                    &&& report.stale == stale_count(old(handler)@, items)
                },
            report.contact == (final(handler)@.contacts.len() > 0),
            final(handler)@.objects.len() == old(handler)@.objects.len(),
            forall|handle: CollisionObjectHandle|
                final(handler)@.is_live(handle) == old(handler)@.is_live(handle),
            colliders_distinct(world_rows(*old(world))) ==> forall|id: int|
                #![trigger world_rows(*old(world))[id]]
                {
                    let row = world_rows(*old(world))[id];
                    let handle = row.collider->Some_0.collision_object_handle;
                    world_rows(*old(world)).dom().contains(id) && row.transform is Some
                        && row.collider is Some && old(handler)@.is_live(handle)
                        ==> final(handler)@.objects[handle.0 as int] == Some(
                        old(handler)@.objects[handle.0 as int]->Some_0.placed_at(
                            row.transform->Some_0.pose(),
                        ),
                    )
                },
    {
        let items = join_colliders(world);
        let report = self.step(handler, &items);
        proof {
            let rows = world_rows(*old(world));
            let before = old(handler)@;
            lemma_pushed_keeps_shapes(before, items@);
            if colliders_distinct(rows) {
                assert forall|id: int|
                    #![trigger rows[id]]
                    rows.dom().contains(id) && rows[id].transform is Some && rows[id].collider is Some
                        && before.is_live(
                        rows[id].collider->Some_0.collision_object_handle,
                    ) implies handler@.objects[rows[id].collider->Some_0.collision_object_handle.0 as int]
                    == Some(
                    before.objects[rows[id].collider->Some_0.collision_object_handle.0 as int]->Some_0.placed_at(
                        rows[id].transform->Some_0.pose(),
                    ),
                ) by {
                    let k = choose|k: int| 0 <= k < items@.len() && (#[trigger] items@[k]).0 == id;
                    lemma_pushed_synchronizes(before, items@, k);
                }
            }
        }
        report
    }
}

} // verus!
