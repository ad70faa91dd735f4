//! The collision world: a table of boxes addressed by stable handles, the
//! groups that decide which pairs may meet, and the contacts found by the
//! last update.

use crate::geometry::{Cuboid, Isometry};
use vstd::prelude::*;

verus! {

/// The logical layers on which shapes are registered.
#[derive(Clone, Copy, Debug, PartialEq, Eq, Structural)]
pub enum CollisionLayer {
    Normal,
}

/// Group masks used to filter pairs: the groups a shape belongs to, the
/// groups it accepts, and the groups it refuses.
#[derive(Clone, Copy, Debug, PartialEq, Eq, Structural)]
pub struct CollisionGroups {
    pub membership: u32,
    pub whitelist: u32,
    pub blacklist: u32,
}

impl CollisionGroups {
    /// Each side belongs to a group the other accepts, and to none the other
    /// refuses.
    pub open spec fn interacts(self, other: CollisionGroups) -> bool {
        &&& self.membership & other.whitelist != 0
        &&& other.membership & self.whitelist != 0
        &&& self.membership & other.blacklist == 0
        &&& other.membership & self.blacklist == 0
    }

    pub fn can_interact_with(&self, other: &CollisionGroups) -> (yes: bool)
        ensures
            yes == self.interacts(*other),
    {
        let accepted = (self.membership & other.whitelist) != 0 && (other.membership
            & self.whitelist) != 0;
        let refused = (self.membership & other.blacklist) != 0 || (other.membership
            & self.blacklist) != 0;
        accepted && !refused
    }
}

/// What a shape asks of the world: contact pairs, with its margin and
/// prediction distance, or nearness only, with its margin. The distances
/// are kept with the shape as given; contacts are found by the boxes
/// alone.
#[derive(Clone, Copy, Debug, PartialEq, Eq, Structural)]
pub enum GeometricQueryType {
    Contacts(i32, i32),
    Proximity(i32),
}

/// Names one shape of the world. A handle stays with its shape for as
/// long as the shape is registered and is never given to another shape.
#[derive(Clone, Copy, Debug, PartialEq, Eq, Structural)]
pub struct CollisionObjectHandle(pub usize);

/// A registered shape with its pose, groups and query.
#[derive(Clone, Copy, Debug, PartialEq, Eq, Structural)]
pub struct CollisionObject {
    pub position: Isometry,
    pub shape: Cuboid,
    pub collision_groups: CollisionGroups,
    pub query_type: GeometricQueryType,
}

impl CollisionObject {
    /// The same shape at another pose.
    pub open spec fn placed_at(self, position: Isometry) -> CollisionObject {
        CollisionObject { position, ..self }
    }

    /// The two shapes both ask for contacts, their groups let them meet, and
    /// their boxes overlap.
    pub open spec fn meets(self, other: CollisionObject) -> bool {
        &&& self.query_type is Contacts
        &&& other.query_type is Contacts
        &&& self.collision_groups.interacts(other.collision_groups)
        &&& self.shape.overlaps(
            self.position.translation,
            other.shape,
            other.position.translation,
        )
    }

    pub fn in_contact_with(&self, other: &CollisionObject) -> (yes: bool)
        ensures
            yes == self.meets(*other),
    {
        let both_ask = match (self.query_type, other.query_type) {
            (GeometricQueryType::Contacts(_, _), GeometricQueryType::Contacts(_, _)) => true,
            _ => false,
        };
        both_ask && self.collision_groups.can_interact_with(&other.collision_groups)
            && self.shape.intersects(
            self.position.translation,
            &other.shape,
            other.position.translation,
        )
    }
}

/// Two shapes found in contact, the one with the smaller handle first.
#[derive(Clone, Copy, Debug, PartialEq, Eq, Structural)]
pub struct ContactEvent {
    pub first: CollisionObjectHandle,
    pub second: CollisionObjectHandle,
}

/// Why the collision world turned a request down.
#[derive(Clone, Copy, Debug, PartialEq, Eq, Structural)]
pub enum CollisionError {
    /// No shape is registered under the handle.
    InvalidHandle(CollisionObjectHandle),
}

/// The collision world as a value: one slot per handle ever given out,
/// empty once its shape was removed, and the contacts of the last update.
pub struct CollisionState {
    pub objects: Seq<Option<CollisionObject>>,
    pub contacts: Seq<ContactEvent>,
}

/// The contact that names the slots `i` and `j`.
pub open spec fn contact_of(i: int, j: int) -> ContactEvent {
    ContactEvent { first: CollisionObjectHandle(i as usize), second: CollisionObjectHandle(j as usize) }
}

/// The slots `i` and `j`, in this order, hold two shapes in contact.
pub open spec fn in_contact(objects: Seq<Option<CollisionObject>>, i: int, j: int) -> bool {
    &&& 0 <= i < j < objects.len()
    &&& objects[i] matches Some(a)
    &&& objects[j] matches Some(b)
    &&& a.meets(b)
}

/// The order in which contacts are listed: by first handle, then by second.
pub open spec fn listed_before(a: ContactEvent, b: ContactEvent) -> bool {
    a.first.0 < b.first.0 || (a.first.0 == b.first.0 && a.second.0 < b.second.0)
}

/// `contacts` lists exactly the pairs of `objects` in contact, each once, in
/// listing order.
pub open spec fn lists_contacts(
    contacts: Seq<ContactEvent>,
    objects: Seq<Option<CollisionObject>>,
) -> bool {
    &&& forall|k: int|
        0 <= k < contacts.len() ==> in_contact(
            objects,
            (#[trigger] contacts[k]).first.0 as int,
            contacts[k].second.0 as int,
        )
    &&& forall|i: int, j: int| #[trigger]
        in_contact(objects, i, j) ==> contacts.contains(contact_of(i, j))
    &&& forall|k1: int, k2: int|
        0 <= k1 < k2 < contacts.len() ==> listed_before(#[trigger] contacts[k1], #[trigger] contacts[k2])
}

impl CollisionState {
    /// A shape is registered under the handle.
    pub open spec fn is_live(self, handle: CollisionObjectHandle) -> bool {
        handle.0 < self.objects.len() && self.objects[handle.0 as int] is Some
    }

    /// The handle that the next registered shape will get.
    pub open spec fn next_handle(self) -> CollisionObjectHandle {
        CollisionObjectHandle(self.objects.len() as usize)
    }

    /// The world after `object` was registered, under `next_handle()`.
    pub open spec fn added(self, object: CollisionObject) -> CollisionState {
        CollisionState { objects: self.objects.push(Some(object)), contacts: self.contacts }
    }

    /// The world after the shape under `handle` was given the pose
    /// `position`; the same world where no shape is registered there.
    pub open spec fn moved(self, handle: CollisionObjectHandle, position: Isometry) -> CollisionState {
        if self.is_live(handle) {
            let object = self.objects[handle.0 as int]->Some_0;
            CollisionState {
                objects: self.objects.update(handle.0 as int, Some(object.placed_at(position))),
                contacts: self.contacts,
            }
        } else {
            self
        }
    }

    /// The world after the shape under `handle` was taken out; the same
    /// world where no shape is registered there.
    pub open spec fn removed(self, handle: CollisionObjectHandle) -> CollisionState {
        if self.is_live(handle) {
            CollisionState {
                objects: self.objects.update(handle.0 as int, None),
                contacts: self.contacts,
            }
        } else {
            self
        }
    }

    /// `self` is what an update makes of `before`: the same shapes, and the
    /// contacts among them.
    pub open spec fn is_update_of(self, before: CollisionState) -> bool {
        &&& self.objects == before.objects
        &&& lists_contacts(self.contacts, self.objects)
    }
}

/// The resource that owns the collision world.
pub struct CollisionHandler {
    objects: Vec<Option<CollisionObject>>,
    contacts: Vec<ContactEvent>,
}

impl View for CollisionHandler {
    type V = CollisionState;

    closed spec fn view(&self) -> CollisionState {
        CollisionState { objects: self.objects@, contacts: self.contacts@ }
    }
}

impl CollisionHandler {
    /// The groups that stand for a layer.
    pub open spec fn groups_of(layer: CollisionLayer) -> CollisionGroups {
        match layer {
            CollisionLayer::Normal => CollisionGroups {
                membership: 1,
                whitelist: 1,
                blacklist: 0,
            },
        }
    }

    /// An empty world: no shape, no contact.
    pub fn new() -> (handler: Self)
        ensures
            handler@.objects.len() == 0,
            handler@.contacts.len() == 0,
    {
        CollisionHandler { objects: Vec::new(), contacts: Vec::new() }
    }

    /// Resolves a layer to its groups. The answer depends on the layer alone.
    pub fn get_collision_group(&self, layer: CollisionLayer) -> (groups: CollisionGroups)
        ensures
            groups == Self::groups_of(layer),
    {
        match layer {
            CollisionLayer::Normal => CollisionGroups { membership: 1, whitelist: 1, blacklist: 0 },
        }
    }

    /// Registers a shape at a pose and returns its handle. The contacts stay
    /// as they are until the next update.
    pub fn add_shape(
        &mut self,
        position: Isometry,
        shape: Cuboid,
        collision_groups: CollisionGroups,
        query_type: GeometricQueryType,
    ) -> (handle: CollisionObjectHandle)
        ensures
            handle == old(self)@.next_handle(),
            handle.0 == old(self)@.objects.len(),
            final(self)@ == old(self)@.added(
                CollisionObject { position, shape, collision_groups, query_type },
            ),
            final(self)@.is_live(handle),
    {
        let handle = CollisionObjectHandle(self.objects.len());
        self.objects.push(Some(CollisionObject { position, shape, collision_groups, query_type }));
        handle
    }

    /// Gives the shape under `handle` a new pose. Where no shape is
    /// registered there, nothing changes and the handle is reported.
    pub fn set_position(&mut self, handle: CollisionObjectHandle, position: Isometry) -> (done:
        Result<(), CollisionError>)
        ensures
            done is Ok <==> old(self)@.is_live(handle),
            done matches Err(error) ==> error == CollisionError::InvalidHandle(handle),
            final(self)@ == old(self)@.moved(handle, position),
    {
        if handle.0 < self.objects.len() {
            match self.objects[handle.0] {
                Some(object) => {
                    self.objects.set(handle.0, Some(CollisionObject { position, ..object }));
                    return Ok(());
                },
                None => {},
            }
        }
        Err(CollisionError::InvalidHandle(handle))
    }

    /// Takes the shape under `handle` out of the world. Its handle is not
    /// given out again. The contacts stay as they are until the next
    /// update.
    pub fn remove_shape(&mut self, handle: CollisionObjectHandle) -> (done: Result<
        (),
        CollisionError,
    >)
        ensures
            done is Ok <==> old(self)@.is_live(handle),
            done matches Err(error) ==> error == CollisionError::InvalidHandle(handle),
            final(self)@ == old(self)@.removed(handle),
            !final(self)@.is_live(handle),
    {
        if handle.0 < self.objects.len() {
            match self.objects[handle.0] {
                Some(_) => {
                    self.objects.set(handle.0, None);
                    return Ok(());
                },
                None => {},
            }
        }
        Err(CollisionError::InvalidHandle(handle))
    }

    /// The shape registered under `handle`, if there is one.
    pub fn collision_object(&self, handle: CollisionObjectHandle) -> (found: Option<
        CollisionObject,
    >)
        ensures
            found is Some <==> self@.is_live(handle),
            found is Some ==> found == self@.objects[handle.0 as int],
    {
        if handle.0 < self.objects.len() {
            self.objects[handle.0]
        } else {
            None
        }
    }

    /// Finds the contacts among the shapes as they now stand. Whatever was
    /// found before is dropped.
    pub fn update(&mut self)
        ensures
            final(self)@.is_update_of(old(self)@),
    {
        let mut found: Vec<ContactEvent> = Vec::new();
        let n: usize = self.objects.len();
        let mut i: usize = 0;
        while i < n
            invariant
                n == self.objects@.len(),
                self.objects@ == old(self).objects@,
                i <= n,
                forall|k: int|
                    0 <= k < found@.len() ==> in_contact(
                        self.objects@,
                        (#[trigger] found@[k]).first.0 as int,
                        found@[k].second.0 as int,
                    ) && found@[k].first.0 < i,
                forall|a: int, b: int| #[trigger]
                    in_contact(self.objects@, a, b) && a < i ==> found@.contains(contact_of(a, b)),
                forall|k1: int, k2: int|
                    0 <= k1 < k2 < found@.len() ==> listed_before(
                        #[trigger] found@[k1],
                        #[trigger] found@[k2],
                    ),
            decreases n - i,
        {
            let mut j: usize = i + 1;
            while j < n
                invariant
                    n == self.objects@.len(),
                    self.objects@ == old(self).objects@,
                    i < n,
                    i < j <= n,
                    forall|k: int|
                        0 <= k < found@.len() ==> in_contact(
                            self.objects@,
                            (#[trigger] found@[k]).first.0 as int,
                            found@[k].second.0 as int,
                        ) && (found@[k].first.0 < i || (found@[k].first.0 == i
                            && found@[k].second.0 < j)),
                    forall|a: int, b: int| #[trigger]
                        in_contact(self.objects@, a, b) && (a < i || (a == i && b < j))
                            ==> found@.contains(contact_of(a, b)),
                    forall|k1: int, k2: int|
                        0 <= k1 < k2 < found@.len() ==> listed_before(
                            #[trigger] found@[k1],
                            #[trigger] found@[k2],
                        ),
                decreases n - j,
            {
                let hit = match (self.objects[i], self.objects[j]) {
                    (Some(a), Some(b)) => a.in_contact_with(&b),
                    _ => false,
                };
                if hit {
                    let event = ContactEvent {
                        first: CollisionObjectHandle(i),
                        second: CollisionObjectHandle(j),
                    };
                    let ghost before = found@;
                    found.push(event);
                    proof {
                        assert forall|a: int, b: int| #[trigger]
                            in_contact(self.objects@, a, b) && (a < i || (a == i && b < j + 1))
                            implies found@.contains(contact_of(a, b)) by {
                            if a == i && b == j {
                                assert(found@[before.len() as int] == contact_of(a, b));
                            } else {
                                let k = choose|k: int|
                                    0 <= k < before.len() && before[k] == contact_of(a, b);
                                assert(found@[k] == contact_of(a, b));
                            }
                        }
                    }
                }
                j = j + 1;
            }
            i = i + 1;
        }
        self.contacts = found;
    }

    /// The contacts found by the last update.
    pub fn contacts(&self) -> (found: &Vec<ContactEvent>)
        ensures
            found@ == self@.contacts,
    {
        &self.contacts
    }
}

/// Handle stability: the handle given out for a new shape is good at once,
/// and a good handle stays good when another shape is registered, when
/// any shape is moved, when the world is updated, and when a shape under
/// another handle is removed. Only its own removal ends it.
pub proof fn lemma_handle_stable(
    state: CollisionState,
    handle: CollisionObjectHandle,
    object: CollisionObject,
    other: CollisionObjectHandle,
    position: Isometry,
    after: CollisionState,
)
    requires
        state.objects.len() <= usize::MAX,
    ensures
        state.added(object).is_live(state.next_handle()),
        !state.is_live(state.next_handle()),
        state.is_live(handle) ==> state.added(object).is_live(handle),
        state.is_live(handle) ==> state.moved(other, position).is_live(handle),
        state.is_live(handle) && after.is_update_of(state) ==> after.is_live(handle),
        state.is_live(handle) && other != handle ==> state.removed(other).is_live(handle),
        !state.removed(handle).is_live(handle),
{
}

/// Moving a shape changes its pose and nothing else: it keeps its box,
/// its groups and its query, and every other slot stays as it was.
pub proof fn lemma_moved_sets_pose(
    state: CollisionState,
    handle: CollisionObjectHandle,
    position: Isometry,
)
    requires
        state.is_live(handle),
    ensures
        state.moved(handle, position).objects[handle.0 as int] == Some(
            state.objects[handle.0 as int]->Some_0.placed_at(position),
        ),
        forall|slot: int|
            0 <= slot < state.objects.len() && slot != handle.0 ==> state.moved(
                handle,
                position,
            ).objects[slot] == state.objects[slot],
{
}

/// No contact without overlap: two shapes whose boxes do not overlap are
/// not listed as a contact, in either order.
pub proof fn lemma_apart_not_listed(
    contacts: Seq<ContactEvent>,
    objects: Seq<Option<CollisionObject>>,
    a: CollisionObjectHandle,
    b: CollisionObjectHandle,
)
    requires
        lists_contacts(contacts, objects),
        a.0 < objects.len(),
        b.0 < objects.len(),
        objects[a.0 as int] matches Some(first) && objects[b.0 as int] matches Some(second)
            && !first.shape.overlaps(
            first.position.translation,
            second.shape,
            second.position.translation,
        ),
    ensures
        !contacts.contains(ContactEvent { first: a, second: b }),
        !contacts.contains(ContactEvent { first: b, second: a }),
{
    let first = objects[a.0 as int]->Some_0;
    let second = objects[b.0 as int]->Some_0;
    crate::geometry::lemma_overlap_symmetric(
        first.shape,
        first.position.translation,
        second.shape,
        second.position.translation,
    );
}

/// Where no two shapes overlap, no contact is listed at all.
pub proof fn lemma_all_apart_no_contact(
    contacts: Seq<ContactEvent>,
    objects: Seq<Option<CollisionObject>>,
)
    requires
        lists_contacts(contacts, objects),
        forall|i: int, j: int|
            #![trigger objects[i], objects[j]]
            0 <= i < j < objects.len() && objects[i] is Some && objects[j] is Some
                ==> !objects[i]->Some_0.shape.overlaps(
                objects[i]->Some_0.position.translation,
                objects[j]->Some_0.shape,
                objects[j]->Some_0.position.translation,
            ),
    ensures
        contacts.len() == 0,
{
    if contacts.len() > 0 {
        let event = contacts[0];
        assert(in_contact(objects, event.first.0 as int, event.second.0 as int));
    }
}

/// Overlap is found: two shapes that both ask for contacts, whose groups
/// let them meet and whose boxes overlap are listed, the smaller handle
/// first, so that the list is not empty.
pub proof fn lemma_overlap_listed(
    contacts: Seq<ContactEvent>,
    objects: Seq<Option<CollisionObject>>,
    a: CollisionObjectHandle,
    b: CollisionObjectHandle,
)
    requires
        lists_contacts(contacts, objects),
        a.0 < b.0 < objects.len(),
        objects[a.0 as int] matches Some(first) && objects[b.0 as int] matches Some(second)
            && first.meets(second),
    ensures
        contacts.contains(ContactEvent { first: a, second: b }),
        contacts.len() > 0,
{
    assert(in_contact(objects, a.0 as int, b.0 as int));
}

/// Each contact of one list of the contacts of some shapes stands in any
/// other list of them.
proof fn lemma_listed_in_other(
    first: Seq<ContactEvent>,
    second: Seq<ContactEvent>,
    objects: Seq<Option<CollisionObject>>,
    k: int,
)
    requires
        lists_contacts(first, objects),
        lists_contacts(second, objects),
        0 <= k < first.len(),
    ensures
        second.contains(first[k]),
{
    let event = first[k];
    assert(in_contact(objects, event.first.0 as int, event.second.0 as int));
}

/// Two lists of the contacts of the same shapes agree up to any length
/// that both reach: were they to differ at some place, the contact that
/// comes first of the two would stand later in the other list, behind
/// one that it is listed before.
proof fn lemma_lists_agree_upto(
    first: Seq<ContactEvent>,
    second: Seq<ContactEvent>,
    objects: Seq<Option<CollisionObject>>,
    upto: int,
)
    requires
        lists_contacts(first, objects),
        lists_contacts(second, objects),
        0 <= upto <= first.len(),
        upto <= second.len(),
    ensures
        forall|k: int| 0 <= k < upto ==> first[k] == second[k],
    decreases upto,
{
    if upto > 0 {
        let k = upto - 1;
        lemma_lists_agree_upto(first, second, objects, k);
        lemma_listed_in_other(first, second, objects, k);
        lemma_listed_in_other(second, first, objects, k);
        let m = choose|m: int| 0 <= m < second.len() && second[m] == first[k];
        let n = choose|n: int| 0 <= n < first.len() && first[n] == second[k];
        assert(m == k || n == k);
    }
}

/// The contacts are determined by the shapes: any two lists of the
/// contacts of the same shapes are the same list. So an update forgets
/// what was found before it, and updating twice finds the same as once.
pub proof fn lemma_contacts_determined(
    first: Seq<ContactEvent>,
    second: Seq<ContactEvent>,
    objects: Seq<Option<CollisionObject>>,
)
    requires
        lists_contacts(first, objects),
        lists_contacts(second, objects),
    ensures
        first == second,
{
    let shared = if first.len() <= second.len() {
        first.len() as int
    } else {
        second.len() as int
    };
    lemma_lists_agree_upto(first, second, objects, shared);
    if shared < second.len() {
        lemma_listed_in_other(second, first, objects, shared);
        let n = choose|n: int| 0 <= n < first.len() && first[n] == second[shared];
        assert(listed_before(second[n], second[shared]));
    }
    if shared < first.len() {
        lemma_listed_in_other(first, second, objects, shared);
        let m = choose|m: int| 0 <= m < second.len() && second[m] == first[shared];
        assert(listed_before(first[m], first[shared]));
    }
}

/// Shapes of the normal layer may meet one another.
pub proof fn lemma_normal_layer_meets_itself()
    ensures
        CollisionHandler::groups_of(CollisionLayer::Normal).interacts(
            CollisionHandler::groups_of(CollisionLayer::Normal),
        ),
{
    assert(1u32 & 1u32 != 0) by (bit_vector);
    assert(1u32 & 0u32 == 0) by (bit_vector);
}

} // verus!
