//! The collision world: boxes on the grid, and which of them touch.
//!
//! Every box has a handle. Handles are handed out in increasing order and
//! never used twice, so a handle that outlives its box names nothing.

use vstd::prelude::*;

use ncollide2d::pipeline::object::CollisionGroups;

use crate::event::Entity;
use crate::geometry::{Aabb, Transform};
use crate::systems::collision::ColliderObjectType;
use crate::systems::groups::{can_interact_with_groups, state_of, GroupsState};

verus! {

/// What a collider says of the game object that owns it.
#[derive(Debug, Clone, Copy)]
pub struct ColliderData {
    /// The owner. It may be bound after the collider has been made.
    pub entity: Option<Entity>,
    pub ty: ColliderObjectType,
}

impl Default for ColliderData {
    fn default() -> (r: Self)
        ensures
            r.entity is None,
            r.ty == ColliderObjectType::NoType,
    {
        Self { entity: None, ty: ColliderObjectType::NoType }
    }
}

/// What the collision world reports of a box.
#[derive(Debug, Clone, Copy, PartialEq, Eq, Structural)]
pub enum GeometricQueryType {
    /// The box is solid: its contacts with other solid boxes are reported.
    Contacts,
    /// The box is a zone: it is reported when it meets any other box, and
    /// when the two part.
    Proximity,
}

/// A box in the collision world.
#[derive(Debug, Clone, Copy)]
pub struct CollisionObject {
    /// The centre of the box, and its turn.
    pub position: Transform,
    pub half_width: u32,
    pub half_height: u32,
    pub groups: CollisionGroups,
    pub query: GeometricQueryType,
    pub data: ColliderData,
}

/// What a box in the collision world is.
pub ghost struct ObjectState {
    /// The centre of the box, and its turn.
    pub position: Transform,
    pub half_width: u32,
    pub half_height: u32,
    pub groups: GroupsState,
    pub query: GeometricQueryType,
    pub data: ColliderData,
}

impl ObjectState {
    /// The box that the object fills. The turn of the object is kept and
    /// handed on, but the box is taken as it stands unturned: boxes are
    /// tested along the axes of the grid.
    pub open spec fn aabb(self) -> Aabb {
        Aabb::around(self.position.translation, self.half_width, self.half_height)
    }
}

impl View for CollisionObject {
    type V = ObjectState;

    open spec fn view(&self) -> ObjectState {
        ObjectState {
            position: self.position,
            half_width: self.half_width,
            half_height: self.half_height,
            groups: state_of(self.groups),
            query: self.query,
            data: self.data,
        }
    }
}

impl CollisionObject {
    pub fn bounding_box(&self) -> (r: Aabb)
        ensures
            r == self@.aabb(),
    {
        Aabb::new_around(self.position.translation, self.half_width, self.half_height)
    }
}

/// The two objects are in contact: their groups let them, and their boxes
/// have a point in common.
pub open spec fn touching(a: ObjectState, b: ObjectState) -> bool {
    a.groups.interact(b.groups) && a.aabb().overlaps(b.aabb())
}

/// A change in which solid boxes touch. The first handle is the smaller one.
#[derive(Debug, Clone, Copy, PartialEq, Eq, Structural)]
pub enum ContactEvent {
    /// The two objects did not touch at the step before, and now they do.
    Started(usize, usize),
    /// The two objects touched at the step before, and now they do not.
    Stopped(usize, usize),
}

/// Whether two boxes have a point in common.
#[derive(Debug, Clone, Copy, PartialEq, Eq, Structural)]
pub enum Proximity {
    Intersecting,
    Disjoint,
}

/// A change in what a zone meets. The first handle is the smaller one.
#[derive(Debug, Clone, Copy, PartialEq, Eq, Structural)]
pub struct ProximityEvent {
    pub collider1: usize,
    pub collider2: usize,
    /// How the two boxes stood at the step before.
    pub prev_status: Proximity,
    /// How they stand now.
    pub new_status: Proximity,
}

impl ProximityEvent {
    /// The two boxes have met.
    pub open spec fn began(a: usize, b: usize) -> ProximityEvent {
        ProximityEvent {
            collider1: a,
            collider2: b,
            prev_status: Proximity::Disjoint,
            new_status: Proximity::Intersecting,
        }
    }

    /// The two boxes have parted.
    pub open spec fn ended(a: usize, b: usize) -> ProximityEvent {
        ProximityEvent {
            collider1: a,
            collider2: b,
            prev_status: Proximity::Intersecting,
            new_status: Proximity::Disjoint,
        }
    }

    /// The two handles of the event.
    pub open spec fn pair(self) -> (usize, usize) {
        (self.collider1, self.collider2)
    }
}

impl ContactEvent {
    /// The two handles of the event.
    pub open spec fn pair(self) -> (usize, usize) {
        match self {
            ContactEvent::Started(a, b) => (a, b),
            ContactEvent::Stopped(a, b) => (a, b),
        }
    }
}

/// `p` comes before `q` when pairs are ordered by their first handle, then by
/// their second.
pub open spec fn pair_lt(p: (usize, usize), q: (usize, usize)) -> bool {
    p.0 < q.0 || (p.0 == q.0 && p.1 < q.1)
}

/// `events` reports each change from `before` to `after` once, and nothing
/// else, in the order of the pairs.
pub open spec fn reports(
    events: Seq<ContactEvent>,
    before: Set<(usize, usize)>,
    after: Set<(usize, usize)>,
) -> bool {
    &&& forall|i: int, j: int|
        0 <= i < j < events.len() ==> pair_lt(#[trigger] events[i].pair(), #[trigger] events[j].pair())
    &&& forall|a: usize, b: usize|
        #![trigger events.contains(ContactEvent::Started(a, b))]
        events.contains(ContactEvent::Started(a, b)) <==> !before.contains((a, b))
            && after.contains((a, b))
    &&& forall|a: usize, b: usize|
        #![trigger events.contains(ContactEvent::Stopped(a, b))]
        events.contains(ContactEvent::Stopped(a, b)) <==> before.contains((a, b))
            && !after.contains((a, b))
}

/// `events` reports each change from `before` to `after` once, and nothing
/// else, in the order of the pairs: a pair that comes to be in `after` has
/// met, and one that is no longer in it has parted.
pub open spec fn senses(
    events: Seq<ProximityEvent>,
    before: Set<(usize, usize)>,
    after: Set<(usize, usize)>,
) -> bool {
    &&& forall|i: int, j: int|
        0 <= i < j < events.len() ==> pair_lt(#[trigger] events[i].pair(), #[trigger] events[j].pair())
    &&& forall|i: int|
        0 <= i < events.len() ==> #[trigger] events[i] == ProximityEvent::began(
            events[i].collider1,
            events[i].collider2,
        ) || events[i] == ProximityEvent::ended(events[i].collider1, events[i].collider2)
    &&& forall|a: usize, b: usize|
        #![trigger events.contains(ProximityEvent::began(a, b))]
        events.contains(ProximityEvent::began(a, b)) <==> !before.contains((a, b))
            && after.contains((a, b))
    &&& forall|a: usize, b: usize|
        #![trigger events.contains(ProximityEvent::ended(a, b))]
        events.contains(ProximityEvent::ended(a, b)) <==> before.contains((a, b))
            && !after.contains((a, b))
}

/// What a collision world holds.
pub ghost struct WorldState {
    /// How many handles have been handed out. The next one is this number.
    pub slots: nat,
    /// The objects of the world, by handle.
    pub objects: Map<usize, ObjectState>,
    /// What the world reports of the box of each handle that has been handed
    /// out, also once the box is gone.
    pub queries: Seq<GeometricQueryType>,
    /// The pairs that touched at the last step.
    pub contacts: Set<(usize, usize)>,
    /// The changes among solid boxes that the last step reported.
    pub events: Seq<ContactEvent>,
    /// The changes around zones that the last step reported.
    pub proximities: Seq<ProximityEvent>,
}

impl WorldState {
    /// The two handles name objects of the world that touch.
    pub open spec fn touch(self, a: usize, b: usize) -> bool {
        &&& self.objects.dom().contains(a)
        &&& self.objects.dom().contains(b)
        &&& touching(self.objects[a], self.objects[b])
    }

    /// The pairs of objects of the world that touch, smaller handle first.
    pub open spec fn touching_pairs(self) -> Set<(usize, usize)> {
        Set::new(|p: (usize, usize)| p.0 < p.1 && self.touch(p.0, p.1))
    }

    /// Handles in use are below `slots`, and recorded contacts are between two
    /// different handles that have been handed out, smaller handle first.
    /// Where both boxes of a recorded contact are still there, their groups
    /// let them touch.
    pub open spec fn wf(self) -> bool {
        &&& self.slots <= usize::MAX
        &&& self.queries.len() == self.slots
        &&& forall|h: usize| #[trigger]
            self.objects.dom().contains(h) ==> h < self.slots && self.objects[h].query
                == self.queries[h as int]
        &&& forall|p: (usize, usize)| self.contacts.contains(p) ==> p.0 < p.1 < self.slots
        &&& forall|p: (usize, usize)|
            self.contacts.contains(p) && self.objects.dom().contains(p.0)
                && self.objects.dom().contains(p.1) ==> self.objects[p.0].groups.interact(
                self.objects[p.1].groups,
            )
    }

    /// The two handles are those of solid boxes: what happens between them is
    /// a contact. Between any other two boxes it is a proximity.
    pub open spec fn solid(self, a: usize, b: usize) -> bool {
        &&& a < self.queries.len()
        &&& b < self.queries.len()
        &&& self.queries[a as int] == GeometricQueryType::Contacts
        &&& self.queries[b as int] == GeometricQueryType::Contacts
    }

    /// The pairs of `pairs` between solid boxes.
    pub open spec fn solid_pairs(self, pairs: Set<(usize, usize)>) -> Set<(usize, usize)> {
        Set::new(|p: (usize, usize)| pairs.contains(p) && self.solid(p.0, p.1))
    }

    /// The pairs of `pairs` in which a zone takes part.
    pub open spec fn zone_pairs(self, pairs: Set<(usize, usize)>) -> Set<(usize, usize)> {
        Set::new(|p: (usize, usize)| pairs.contains(p) && !self.solid(p.0, p.1))
    }

    /// The world with no object.
    pub open spec fn empty() -> WorldState {
        WorldState {
            slots: 0,
            objects: Map::empty(),
            queries: Seq::empty(),
            contacts: Set::empty(),
            events: Seq::empty(),
            proximities: Seq::empty(),
        }
    }

    /// The world with one more object, under the next handle.
    pub open spec fn with_object(self, object: ObjectState) -> WorldState {
        WorldState {
            slots: self.slots + 1,
            objects: self.objects.insert(self.slots as usize, object),
            queries: self.queries.push(object.query),
            ..self
        }
    }

    /// The world with the object under `handle` moved to the place, and
    /// turned by the turn, of `position`.
    pub open spec fn moved(self, handle: usize, position: Transform) -> WorldState {
        WorldState {
            objects: self.objects.insert(
                handle,
                ObjectState { position, ..self.objects[handle] },
            ),
            ..self
        }
    }

    /// The world with `entity` as the owner of the object under `handle`.
    pub open spec fn owned(self, handle: usize, entity: Entity) -> WorldState {
        WorldState {
            objects: self.objects.insert(
                handle,
                ObjectState {
                    data: ColliderData { entity: Some(entity), ty: self.objects[handle].data.ty },
                    ..self.objects[handle]
                },
            ),
            ..self
        }
    }

    /// In a well-formed world the next handle names no object yet: the
    /// object that is added is one more, and all the others stay.
    pub proof fn lemma_with_object_is_new(self, object: ObjectState)
        requires
            self.wf(),
        ensures
            !self.objects.dom().contains(self.slots as usize),
            self.with_object(object).objects.dom() == self.objects.dom().insert(
                self.slots as usize,
            ),
            self.with_object(object).objects[self.slots as usize] == object,
            forall|h: usize|
                self.objects.dom().contains(h) ==> #[trigger] self.with_object(object).objects[h]
                    == self.objects[h],
    {
        let next = self.slots as usize;
        if self.objects.dom().contains(next) {
            assert(next < self.slots);
        }
        assert forall|h: usize| self.objects.dom().contains(h) implies #[trigger] self.with_object(
            object,
        ).objects[h] == self.objects[h] by {
            assert(h < self.slots);
        }
    }

    /// The world without the object under `handle`, if there is one.
    pub open spec fn without(self, handle: usize) -> WorldState {
        WorldState { objects: self.objects.remove(handle), ..self }
    }

    /// The world without the objects under `handles`.
    pub open spec fn without_all(self, handles: Set<usize>) -> WorldState {
        WorldState { objects: self.objects.remove_keys(handles), ..self }
    }

    /// Taking an object out twice is taking it out once.
    pub proof fn lemma_without_twice(self, handle: usize)
        ensures
            !self.without(handle).objects.dom().contains(handle),
            self.without(handle).without(handle) == self.without(handle),
            !self.objects.dom().contains(handle) ==> self.without(handle) == self,
    {
        assert(self.without(handle).objects.remove(handle) =~= self.without(handle).objects);
        if !self.objects.dom().contains(handle) {
            assert(self.objects.remove(handle) =~= self.objects);
        }
    }

    /// The world after one step: the objects stay, the contacts are those of
    /// the objects as they stand, and `events` and `proximities` are what the
    /// step reported.
    pub open spec fn stepped(
        self,
        events: Seq<ContactEvent>,
        proximities: Seq<ProximityEvent>,
    ) -> WorldState {
        WorldState { contacts: self.touching_pairs(), events, proximities, ..self }
    }
}

/// The collision world of the game.
#[derive(Debug)]
pub struct MyCollisionWorld {
    objects: Vec<Option<CollisionObject>>,
    queries: Vec<GeometricQueryType>,
    contacts: Vec<(usize, usize)>,
    events: Vec<ContactEvent>,
    proximities: Vec<ProximityEvent>,
}

impl View for MyCollisionWorld {
    type V = WorldState;

    closed spec fn view(&self) -> WorldState {
        WorldState {
            slots: self.objects@.len(),
            objects: Map::new(
                |h: usize| h < self.objects@.len() && self.objects@[h as int] is Some,
                |h: usize| self.objects@[h as int].unwrap()@,
            ),
            queries: self.queries@,
            contacts: self.contacts@.to_set(),
            events: self.events@,
            proximities: self.proximities@,
        }
    }
}

impl Default for MyCollisionWorld {
    fn default() -> (r: Self)
        ensures
            r.wf(),
            r@ == WorldState::empty(),
    {
        let r = Self {
            objects: Vec::new(),
            queries: Vec::new(),
            contacts: Vec::new(),
            events: Vec::new(),
            proximities: Vec::new(),
        };
        assert(r@.objects =~= Map::empty());
        assert(r@.contacts =~= Set::empty());
        r
    }
}

impl MyCollisionWorld {
    /// The world is well formed. Every world that this module hands out is.
    pub closed spec fn wf(&self) -> bool {
        &&& self@.wf()
        &&& self.queries@.len() == self.objects@.len()
        &&& self.contacts@.no_duplicates()
    }

    /// What is known of every world that is well formed: see
    /// `WorldState::wf`.
    pub proof fn lemma_wf_view(&self)
        requires
            self.wf(),
        ensures
            self@.wf(),
    {
    }

    /// Adds a box to the world and returns its handle, which named no box
    /// before. The boxes that the world held stay as they are.
    pub fn add(
        &mut self,
        position: Transform,
        half_width: u32,
        half_height: u32,
        groups: CollisionGroups,
        query: GeometricQueryType,
        data: ColliderData,
    ) -> (handle: usize)
        requires
            old(self).wf(),
        ensures
            final(self).wf(),
            handle == old(self)@.slots,
            !old(self)@.objects.dom().contains(handle),
            final(self)@ == old(self)@.with_object(
                ObjectState {
                    position,
                    half_width,
                    half_height,
                    groups: state_of(groups),
                    query,
                    data,
                },
            ),
    {
        let handle = self.objects.len();
        self.objects.push(
            Some(CollisionObject { position, half_width, half_height, groups, query, data }),
        );
        self.queries.push(query);
        assert(self@.objects =~= old(self)@.objects.insert(
            handle,
            ObjectState {
                position,
                half_width,
                half_height,
                groups: state_of(groups),
                query,
                data,
            },
        ));
        let count = self.objects.len();
        assert(self@.contacts == old(self)@.contacts);
        assert(self@.slots == old(self)@.slots + 1);
        assert(self@.slots == count);
        handle
    }

    /// The object under `handle`, if there is one.
    pub fn collision_object(&self, handle: usize) -> (r: Option<&CollisionObject>)
        ensures
            self@.objects.dom().contains(handle) ==> r is Some && r.unwrap()@
                == self@.objects[handle],
            !self@.objects.dom().contains(handle) ==> r is None,
    {
        if handle < self.objects.len() {
            match &self.objects[handle] {
                Some(object) => Some(object),
                None => None,
            }
        } else {
            None
        }
    }

    /// Tells whether `handle` names an object of the world.
    pub fn contains(&self, handle: usize) -> (r: bool)
        ensures
            r == self@.objects.dom().contains(handle),
    {
        handle < self.objects.len() && self.objects[handle].is_some()
    }

    /// Moves the object under `handle` to the place of `position`, and gives
    /// it the turn of `position`. Without such an object nothing happens, and
    /// the result is `false`.
    pub fn set_position(&mut self, handle: usize, position: Transform) -> (found: bool)
        requires
            old(self).wf(),
        ensures
            final(self).wf(),
            found == old(self)@.objects.dom().contains(handle),
            found ==> final(self)@ == old(self)@.moved(handle, position),
            !found ==> final(self)@ == old(self)@,
    {
        if handle < self.objects.len() {
            match self.objects[handle] {
                Some(object) => {
                    self.objects.set(handle, Some(CollisionObject { position, ..object }));
                    assert(self@.objects =~= old(self)@.moved(handle, position).objects);
                    assert(self@.contacts == old(self)@.contacts);
                    assert(self@.queries == old(self)@.queries);
                    assert forall|h: usize| #[trigger]
                        self@.objects.dom().contains(h) implies h < self@.slots
                        && self@.objects[h].query == self@.queries[h as int] by {
                        assert(old(self)@.objects.dom().contains(h));
                    }
                    true
                },
                None => false,
            }
        } else {
            false
        }
    }

    /// Makes `entity` the owner of the object under `handle`. Without such an
    /// object nothing happens, and the result is `false`.
    pub fn set_owner(&mut self, handle: usize, entity: Entity) -> (found: bool)
        requires
            old(self).wf(),
        ensures
            final(self).wf(),
            found == old(self)@.objects.dom().contains(handle),
            found ==> final(self)@ == old(self)@.owned(handle, entity),
            !found ==> final(self)@ == old(self)@,
    {
        if handle < self.objects.len() {
            match self.objects[handle] {
                Some(object) => {
                    let data = ColliderData { entity: Some(entity), ty: object.data.ty };
                    self.objects.set(handle, Some(CollisionObject { data, ..object }));
                    assert(self@.objects =~= old(self)@.owned(handle, entity).objects);
                    assert(self@.contacts == old(self)@.contacts);
                    assert(self@.queries == old(self)@.queries);
                    assert forall|h: usize| #[trigger]
                        self@.objects.dom().contains(h) implies h < self@.slots
                        && self@.objects[h].query == self@.queries[h as int] by {
                        assert(old(self)@.objects.dom().contains(h));
                    }
                    true
                },
                None => false,
            }
        } else {
            false
        }
    }

    /// Takes the object under `handle` out of the world. Without such an
    /// object nothing happens, and the result is `false`. The contacts of the
    /// object are reported as stopped by the next step.
    pub fn remove(&mut self, handle: usize) -> (removed: bool)
        requires
            old(self).wf(),
        ensures
            final(self).wf(),
            removed == old(self)@.objects.dom().contains(handle),
            final(self)@ == old(self)@.without(handle),
    {
        let removed = if handle < self.objects.len() && self.objects[handle].is_some() {
            self.objects.set(handle, None);
            true
        } else {
            false
        };
        assert(self@.objects =~= old(self)@.objects.remove(handle));
        assert(self@.contacts == old(self)@.contacts);
        assert(self@.slots == old(self)@.slots);
        removed
    }

    /// The changes among solid boxes that the last step reported.
    pub fn contact_events(&self) -> (r: &Vec<ContactEvent>)
        ensures
            r@ == self@.events,
    {
        &self.events
    }

    /// The changes around zones that the last step reported.
    pub fn proximity_events(&self) -> (r: &Vec<ProximityEvent>)
        ensures
            r@ == self@.proximities,
    {
        &self.proximities
    }

    /// Tells whether the two handles name objects that touch.
    fn touch(&self, a: usize, b: usize) -> (r: bool)
        ensures
            r == self@.touch(a, b),
    {
        match (self.collision_object(a), self.collision_object(b)) {
            (Some(first), Some(second)) => {
                can_interact_with_groups(&first.groups, &second.groups)
                    && first.bounding_box().intersects(&second.bounding_box())
            },
            _ => false,
        }
    }

    /// Tells whether the pair touched at the last step.
    fn touched(&self, a: usize, b: usize) -> (r: bool)
        ensures
            r == self@.contacts.contains((a, b)),
    {
        let mut i: usize = 0;
        while i < self.contacts.len()
            invariant
                i <= self.contacts@.len(),
                forall|k: int| 0 <= k < i ==> self.contacts@[k] != (a, b),
            decreases self.contacts@.len() - i,
        {
            let p = self.contacts[i];
            if p.0 == a && p.1 == b {
                return true;
            }
            i += 1;
        }
        false
    }
}

/// The pairs that a step has looked at once it stands at `(a, b)`.
spec fn seen(p: (usize, usize), a: usize, b: usize) -> bool {
    p.0 < a || (p.0 == a && p.1 < b)
}

/// What a step has gathered once it stands at `(a, b)`: the contacts among
/// the pairs seen, and the changes among them.
spec fn gathered(
    world: WorldState,
    contacts: Seq<(usize, usize)>,
    events: Seq<ContactEvent>,
    a: usize,
    b: usize,
) -> bool {
    &&& forall|i: int| 0 <= i < contacts.len() ==> seen(#[trigger] contacts[i], a, b)
    &&& contacts.no_duplicates()
    &&& forall|p: (usize, usize)|
        #![trigger contacts.contains(p)]
        contacts.contains(p) <==> seen(p, a, b) && world.touching_pairs().contains(p)
    &&& forall|i: int| 0 <= i < events.len() ==> seen(#[trigger] events[i].pair(), a, b)
    &&& forall|i: int, j: int|
        0 <= i < j < events.len() ==> pair_lt(#[trigger] events[i].pair(), #[trigger] events[j].pair())
    &&& forall|x: usize, y: usize|
        #![trigger events.contains(ContactEvent::Started(x, y))]
        events.contains(ContactEvent::Started(x, y)) <==> seen((x, y), a, b)
            && !world.contacts.contains((x, y)) && world.touching_pairs().contains((x, y))
    &&& forall|x: usize, y: usize|
        #![trigger events.contains(ContactEvent::Stopped(x, y))]
        events.contains(ContactEvent::Stopped(x, y)) <==> seen((x, y), a, b)
            && world.contacts.contains((x, y)) && !world.touching_pairs().contains((x, y))
}

/// A pair that is neither a contact of the world nor touching adds nothing.
proof fn lemma_gathered_skip(
    world: WorldState,
    contacts: Seq<(usize, usize)>,
    events: Seq<ContactEvent>,
    a: usize,
    b: usize,
    c: usize,
    d: usize,
)
    requires
        gathered(world, contacts, events, a, b),
        forall|p: (usize, usize)| seen(p, a, b) ==> seen(p, c, d),
        forall|p: (usize, usize)|
            seen(p, c, d) && !seen(p, a, b) ==> !world.contacts.contains(p)
                && !world.touching_pairs().contains(p),
    ensures
        gathered(world, contacts, events, c, d),
{
    assert forall|x: usize, y: usize|
        #![trigger events.contains(ContactEvent::Started(x, y))]
        events.contains(ContactEvent::Started(x, y)) <==> seen((x, y), c, d)
            && !world.contacts.contains((x, y)) && world.touching_pairs().contains((x, y)) by {
        if seen((x, y), c, d) && !seen((x, y), a, b) {
            assert(!world.touching_pairs().contains((x, y)));
        }
    }
    assert forall|x: usize, y: usize|
        #![trigger events.contains(ContactEvent::Stopped(x, y))]
        events.contains(ContactEvent::Stopped(x, y)) <==> seen((x, y), c, d)
            && world.contacts.contains((x, y)) && !world.touching_pairs().contains((x, y)) by {
        if seen((x, y), c, d) && !seen((x, y), a, b) {
            assert(!world.contacts.contains((x, y)));
        }
    }
    assert forall|p: (usize, usize)|
        #![trigger contacts.contains(p)]
        contacts.contains(p) <==> seen(p, c, d) && world.touching_pairs().contains(p) by {
        if seen(p, c, d) && !seen(p, a, b) {
            assert(!world.touching_pairs().contains(p));
        }
    }
}

/// What is gathered after the pair `(a, b)` has been looked at.
proof fn lemma_gathered_step(
    world: WorldState,
    contacts: Seq<(usize, usize)>,
    events: Seq<ContactEvent>,
    a: usize,
    b: usize,
    now: bool,
    before: bool,
)
    requires
        gathered(world, contacts, events, a, b),
        b < usize::MAX,
        now == world.touching_pairs().contains((a, b)),
        before == world.contacts.contains((a, b)),
    ensures
        gathered(
            world,
            if now {
                contacts.push((a, b))
            } else {
                contacts
            },
            if now && !before {
                events.push(ContactEvent::Started(a, b))
            } else if !now && before {
                events.push(ContactEvent::Stopped(a, b))
            } else {
                events
            },
            a,
            (b + 1) as usize,
        ),
{
    let b1 = (b + 1) as usize;
    let contacts1 = if now {
        contacts.push((a, b))
    } else {
        contacts
    };
    let events1 = if now && !before {
        events.push(ContactEvent::Started(a, b))
    } else if !now && before {
        events.push(ContactEvent::Stopped(a, b))
    } else {
        events
    };
    assert(forall|p: (usize, usize)| seen(p, a, b1) <==> seen(p, a, b) || p == (a, b));
    assert(!seen((a, b), a, b));
    assert forall|p: (usize, usize)|
        #![trigger contacts1.contains(p)]
        contacts1.contains(p) <==> seen(p, a, b1) && world.touching_pairs().contains(p) by {
        if now {
            lemma_push_contains(contacts, (a, b), p);
        }
        assert(contacts.contains(p) <==> seen(p, a, b) && world.touching_pairs().contains(p));
    }
    assert(contacts1.no_duplicates()) by {
        if now {
            assert(!contacts.contains((a, b)));
            assert forall|i: int, j: int|
                0 <= i < contacts1.len() && 0 <= j < contacts1.len() && i != j implies contacts1[i]
                != contacts1[j] by {
                if i < contacts.len() && j < contacts.len() {
                } else if i < contacts.len() {
                    assert(contacts.contains(contacts[i]));
                } else {
                    assert(contacts.contains(contacts[j]));
                }
            }
        }
    }
    assert forall|i: int| 0 <= i < events1.len() implies seen(
        #[trigger] events1[i].pair(),
        a,
        b1,
    ) by {
        if i < events.len() {
            assert(seen(events[i].pair(), a, b));
        }
    }
    assert forall|i: int, j: int| 0 <= i < j < events1.len() implies pair_lt(
        #[trigger] events1[i].pair(),
        #[trigger] events1[j].pair(),
    ) by {
        if j < events.len() {
        } else {
            assert(seen(events[i].pair(), a, b));
        }
    }
    assert forall|x: usize, y: usize|
        #![trigger events1.contains(ContactEvent::Started(x, y))]
        events1.contains(ContactEvent::Started(x, y)) <==> seen((x, y), a, b1)
            && !world.contacts.contains((x, y)) && world.touching_pairs().contains((x, y)) by {
        if now && !before {
            lemma_push_contains(events, ContactEvent::Started(a, b), ContactEvent::Started(x, y));
        } else if !now && before {
            lemma_push_contains(events, ContactEvent::Stopped(a, b), ContactEvent::Started(x, y));
        }
        assert(events.contains(ContactEvent::Started(x, y)) <==> seen((x, y), a, b)
            && !world.contacts.contains((x, y)) && world.touching_pairs().contains((x, y)));
    }
    assert forall|x: usize, y: usize|
        #![trigger events1.contains(ContactEvent::Stopped(x, y))]
        events1.contains(ContactEvent::Stopped(x, y)) <==> seen((x, y), a, b1)
            && world.contacts.contains((x, y)) && !world.touching_pairs().contains((x, y)) by {
        if now && !before {
            lemma_push_contains(events, ContactEvent::Started(a, b), ContactEvent::Stopped(x, y));
        } else if !now && before {
            lemma_push_contains(events, ContactEvent::Stopped(a, b), ContactEvent::Stopped(x, y));
        }
        assert(events.contains(ContactEvent::Stopped(x, y)) <==> seen((x, y), a, b)
            && world.contacts.contains((x, y)) && !world.touching_pairs().contains((x, y)));
    }
}

/// A sequence with one more item holds what it held, and the item.
proof fn lemma_push_contains<T>(s: Seq<T>, item: T, x: T)
    ensures
        s.push(item).contains(x) <==> s.contains(x) || x == item,
{
    if s.contains(x) {
        let i = choose|i: int| 0 <= i < s.len() && s[i] == x;
        assert(s.push(item)[i] == x);
    }
    if x == item {
        assert(s.push(item)[s.len() as int] == x);
    }
}

/// The event of a zone that stands for a change.
pub open spec fn sensed(change: ContactEvent) -> ProximityEvent {
    match change {
        ContactEvent::Started(a, b) => ProximityEvent::began(a, b),
        ContactEvent::Stopped(a, b) => ProximityEvent::ended(a, b),
    }
}

/// `event` is one of the first `k` of `changes`, between solid boxes.
spec fn solid_change(world: WorldState, changes: Seq<ContactEvent>, k: int, event: ContactEvent) -> bool {
    exists|j: int|
        0 <= j < k && #[trigger] changes[j] == event && world.solid(
            changes[j].pair().0,
            changes[j].pair().1,
        )
}

/// `event` stands for one of the first `k` of `changes`, around a zone.
spec fn zone_change(world: WorldState, changes: Seq<ContactEvent>, k: int, event: ProximityEvent) -> bool {
    exists|j: int|
        0 <= j < k && sensed(#[trigger] changes[j]) == event && !world.solid(
            changes[j].pair().0,
            changes[j].pair().1,
        )
}

/// What has been sorted once the first `k` of `changes` have been looked at:
/// the changes among solid boxes are in `events`, the others in
/// `proximities`, both in the order in which they came.
spec fn sorted_out(
    world: WorldState,
    changes: Seq<ContactEvent>,
    k: int,
    events: Seq<ContactEvent>,
    proximities: Seq<ProximityEvent>,
) -> bool {
    &&& forall|i: int, j: int|
        0 <= i < j < events.len() ==> pair_lt(#[trigger] events[i].pair(), #[trigger] events[j].pair())
    &&& forall|i: int|
        0 <= i < events.len() ==> solid_change(world, changes, k, #[trigger] events[i])
    &&& forall|j: int|
        0 <= j < k && world.solid(changes[j].pair().0, changes[j].pair().1) ==> events.contains(
            #[trigger] changes[j],
        )
    &&& forall|i: int, j: int|
        0 <= i < j < proximities.len() ==> pair_lt(
            #[trigger] proximities[i].pair(),
            #[trigger] proximities[j].pair(),
        )
    &&& forall|i: int|
        0 <= i < proximities.len() ==> zone_change(world, changes, k, #[trigger] proximities[i])
    &&& forall|j: int|
        0 <= j < k && !world.solid(changes[j].pair().0, changes[j].pair().1)
            ==> proximities.contains(sensed(#[trigger] changes[j]))
}

/// The changes, once sorted out, are reported as contacts and as proximities.
proof fn lemma_sorted_out(
    world: WorldState,
    changes: Seq<ContactEvent>,
    events: Seq<ContactEvent>,
    proximities: Seq<ProximityEvent>,
    before: Set<(usize, usize)>,
    after: Set<(usize, usize)>,
)
    requires
        reports(changes, before, after),
        sorted_out(world, changes, changes.len() as int, events, proximities),
    ensures
        reports(events, world.solid_pairs(before), world.solid_pairs(after)),
        senses(proximities, world.zone_pairs(before), world.zone_pairs(after)),
{
    assert forall|x: usize, y: usize|
        #![trigger events.contains(ContactEvent::Started(x, y))]
        events.contains(ContactEvent::Started(x, y)) <==> !world.solid_pairs(before).contains(
            (x, y),
        ) && world.solid_pairs(after).contains((x, y)) by {
        let e = ContactEvent::Started(x, y);
        if events.contains(e) {
            let i = choose|i: int| 0 <= i < events.len() && events[i] == e;
            assert(solid_change(world, changes, changes.len() as int, events[i]));
            let j = choose|j: int|
                0 <= j < changes.len() && #[trigger] changes[j] == events[i] && world.solid(
                    changes[j].pair().0,
                    changes[j].pair().1,
                );
            assert(changes.contains(e));
        }
        if !world.solid_pairs(before).contains((x, y)) && world.solid_pairs(after).contains(
            (x, y),
        ) {
            assert(changes.contains(e));
            let j = choose|j: int| 0 <= j < changes.len() && changes[j] == e;
            assert(events.contains(changes[j]));
        }
    }
    assert forall|x: usize, y: usize|
        #![trigger events.contains(ContactEvent::Stopped(x, y))]
        events.contains(ContactEvent::Stopped(x, y)) <==> world.solid_pairs(before).contains(
            (x, y),
        ) && !world.solid_pairs(after).contains((x, y)) by {
        let e = ContactEvent::Stopped(x, y);
        if events.contains(e) {
            let i = choose|i: int| 0 <= i < events.len() && events[i] == e;
            assert(solid_change(world, changes, changes.len() as int, events[i]));
            let j = choose|j: int|
                0 <= j < changes.len() && #[trigger] changes[j] == events[i] && world.solid(
                    changes[j].pair().0,
                    changes[j].pair().1,
                );
            assert(changes.contains(e));
        }
        if world.solid_pairs(before).contains((x, y)) && !world.solid_pairs(after).contains(
            (x, y),
        ) {
            assert(changes.contains(e));
            let j = choose|j: int| 0 <= j < changes.len() && changes[j] == e;
            assert(events.contains(changes[j]));
        }
    }
    assert forall|i: int| 0 <= i < proximities.len() implies #[trigger] proximities[i]
        == ProximityEvent::began(proximities[i].collider1, proximities[i].collider2)
        || proximities[i] == ProximityEvent::ended(
        proximities[i].collider1,
        proximities[i].collider2,
    ) by {
        assert(zone_change(world, changes, changes.len() as int, proximities[i]));
        let j = choose|j: int|
            0 <= j < changes.len() && sensed(#[trigger] changes[j]) == proximities[i]
                && !world.solid(changes[j].pair().0, changes[j].pair().1);
    }
    assert forall|x: usize, y: usize|
        #![trigger proximities.contains(ProximityEvent::began(x, y))]
        proximities.contains(ProximityEvent::began(x, y)) <==> !world.zone_pairs(before).contains(
            (x, y),
        ) && world.zone_pairs(after).contains((x, y)) by {
        let e = ProximityEvent::began(x, y);
        if proximities.contains(e) {
            let i = choose|i: int| 0 <= i < proximities.len() && proximities[i] == e;
            assert(zone_change(world, changes, changes.len() as int, proximities[i]));
            let j = choose|j: int|
                0 <= j < changes.len() && sensed(#[trigger] changes[j]) == proximities[i]
                    && !world.solid(changes[j].pair().0, changes[j].pair().1);
            assert(changes[j] == ContactEvent::Started(x, y));
            assert(changes.contains(ContactEvent::Started(x, y)));
        }
        if !world.zone_pairs(before).contains((x, y)) && world.zone_pairs(after).contains((x, y)) {
            assert(changes.contains(ContactEvent::Started(x, y)));
            let j = choose|j: int| 0 <= j < changes.len() && changes[j] == ContactEvent::Started(x, y);
            assert(proximities.contains(sensed(changes[j])));
        }
    }
    assert forall|x: usize, y: usize|
        #![trigger proximities.contains(ProximityEvent::ended(x, y))]
        proximities.contains(ProximityEvent::ended(x, y)) <==> world.zone_pairs(before).contains(
            (x, y),
        ) && !world.zone_pairs(after).contains((x, y)) by {
        let e = ProximityEvent::ended(x, y);
        if proximities.contains(e) {
            let i = choose|i: int| 0 <= i < proximities.len() && proximities[i] == e;
            assert(zone_change(world, changes, changes.len() as int, proximities[i]));
            let j = choose|j: int|
                0 <= j < changes.len() && sensed(#[trigger] changes[j]) == proximities[i]
                    && !world.solid(changes[j].pair().0, changes[j].pair().1);
            assert(changes[j] == ContactEvent::Stopped(x, y));
            assert(changes.contains(ContactEvent::Stopped(x, y)));
        }
        if world.zone_pairs(before).contains((x, y)) && !world.zone_pairs(after).contains((x, y)) {
            assert(changes.contains(ContactEvent::Stopped(x, y)));
            let j = choose|j: int| 0 <= j < changes.len() && changes[j] == ContactEvent::Stopped(x, y);
            assert(proximities.contains(sensed(changes[j])));
        }
    }
}

impl MyCollisionWorld {
    /// Works out which pairs of objects touch as they stand, whatever their
    /// kind, and which pairs have started or stopped touching since the step
    /// before.
    fn changes(&self) -> (r: (Vec<(usize, usize)>, Vec<ContactEvent>))
        requires
            self.wf(),
        ensures
            r.0@.no_duplicates(),
            r.0@.to_set() == self@.touching_pairs(),
            reports(r.1@, self@.contacts, self@.touching_pairs()),
    {
        let n = self.objects.len();
        let ghost world = self@;
        let mut contacts: Vec<(usize, usize)> = Vec::new();
        let mut events: Vec<ContactEvent> = Vec::new();
        let mut a: usize = 0;
        while a < n
            invariant
                a <= n,
                n == world.slots,
                self@ == world,
                world.wf(),
                gathered(world, contacts@, events@, a, 0),
            decreases n - a,
        {
            let mut b: usize = a + 1;
            proof {
                lemma_gathered_skip(world, contacts@, events@, a, 0, a, b);
            }
            while b < n
                invariant
                    a < b <= n,
                    n == world.slots,
                    self@ == world,
                    world.wf(),
                    gathered(world, contacts@, events@, a, b),
                decreases n - b,
            {
                let now = self.touch(a, b);
                let before = self.touched(a, b);
                proof {
                    lemma_gathered_step(world, contacts@, events@, a, b, now, before);
                }
                if now {
                    contacts.push((a, b));
                    if !before {
                        events.push(ContactEvent::Started(a, b));
                    }
                } else if before {
                    events.push(ContactEvent::Stopped(a, b));
                }
                b += 1;
            }
            proof {
                lemma_gathered_skip(world, contacts@, events@, a, b, (a + 1) as usize, 0);
            }
            a += 1;
        }
        proof {
            assert forall|p: (usize, usize)| world.touching_pairs().contains(p) implies seen(
                p,
                a,
                0,
            ) by {}
            assert(contacts@.to_set() =~= world.touching_pairs()) by {
                assert forall|p: (usize, usize)|
                    contacts@.to_set().contains(p) <==> world.touching_pairs().contains(p) by {
                    assert(contacts@.contains(p) <==> seen(p, a, 0)
                        && world.touching_pairs().contains(p));
                }
            }
            assert forall|x: usize, y: usize|
                #![trigger events@.contains(ContactEvent::Started(x, y))]
                events@.contains(ContactEvent::Started(x, y)) <==> !world.contacts.contains((x, y))
                    && world.touching_pairs().contains((x, y)) by {
                if world.touching_pairs().contains((x, y)) {
                    assert(seen((x, y), a, 0));
                }
            }
            assert forall|x: usize, y: usize|
                #![trigger events@.contains(ContactEvent::Stopped(x, y))]
                events@.contains(ContactEvent::Stopped(x, y)) <==> world.contacts.contains((x, y))
                    && !world.touching_pairs().contains((x, y)) by {
                if world.contacts.contains((x, y)) {
                    assert(seen((x, y), a, 0));
                }
            }
        }
        (contacts, events)
    }

    /// Tells whether the two handles are those of solid boxes.
    fn solid(&self, a: usize, b: usize) -> (r: bool)
        requires
            self.wf(),
        ensures
            r == self@.solid(a, b),
    {
        a < self.queries.len() && b < self.queries.len() && match (
            self.queries[a],
            self.queries[b],
        ) {
            (GeometricQueryType::Contacts, GeometricQueryType::Contacts) => true,
            _ => false,
        }
    }

    /// Sorts the changes into those among solid boxes and the others.
    fn sort_out(&self, changes: &Vec<ContactEvent>) -> (r: (Vec<ContactEvent>, Vec<ProximityEvent>))
        requires
            self.wf(),
            forall|i: int, j: int|
                0 <= i < j < changes@.len() ==> pair_lt(
                    #[trigger] changes@[i].pair(),
                    #[trigger] changes@[j].pair(),
                ),
        ensures
            sorted_out(self@, changes@, changes@.len() as int, r.0@, r.1@),
    {
        let ghost world = self@;
        let mut events: Vec<ContactEvent> = Vec::new();
        let mut proximities: Vec<ProximityEvent> = Vec::new();
        let mut k: usize = 0;
        while k < changes.len()
            invariant
                k <= changes@.len(),
                self@ == world,
                self.wf(),
                forall|i: int, j: int|
                    0 <= i < j < changes@.len() ==> pair_lt(
                        #[trigger] changes@[i].pair(),
                        #[trigger] changes@[j].pair(),
                    ),
                sorted_out(world, changes@, k as int, events@, proximities@),
            decreases changes@.len() - k,
        {
            let change = changes[k];
            let ghost listed = events@;
            let ghost felt = proximities@;
            let (a, b, started) = match change {
                ContactEvent::Started(a, b) => (a, b, true),
                ContactEvent::Stopped(a, b) => (a, b, false),
            };
            if self.solid(a, b) {
                events.push(change);
            } else if started {
                proximities.push(
                    ProximityEvent {
                        collider1: a,
                        collider2: b,
                        prev_status: Proximity::Disjoint,
                        new_status: Proximity::Intersecting,
                    },
                );
            } else {
                proximities.push(
                    ProximityEvent {
                        collider1: a,
                        collider2: b,
                        prev_status: Proximity::Intersecting,
                        new_status: Proximity::Disjoint,
                    },
                );
            }
            proof {
                let k1 = k as int + 1;
                let last = changes@[k as int];
                assert forall|i: int, j: int| 0 <= i < j < events@.len() implies pair_lt(
                    #[trigger] events@[i].pair(),
                    #[trigger] events@[j].pair(),
                ) by {
                    if j >= listed.len() {
                        assert(solid_change(world, changes@, k as int, listed[i]));
                        let w = choose|w: int|
                            0 <= w < k && #[trigger] changes@[w] == listed[i] && world.solid(
                                changes@[w].pair().0,
                                changes@[w].pair().1,
                            );
                        assert(pair_lt(changes@[w].pair(), last.pair()));
                    }
                }
                assert forall|i: int| 0 <= i < events@.len() implies solid_change(
                    world,
                    changes@,
                    k1,
                    #[trigger] events@[i],
                ) by {
                    if i < listed.len() {
                        assert(solid_change(world, changes@, k as int, listed[i]));
                        let w = choose|w: int|
                            0 <= w < k && #[trigger] changes@[w] == listed[i] && world.solid(
                                changes@[w].pair().0,
                                changes@[w].pair().1,
                            );
                        assert(changes@[w] == events@[i]);
                    } else {
                        assert(changes@[k as int] == events@[i]);
                    }
                }
                assert forall|j: int|
                    0 <= j < k1 && world.solid(
                        changes@[j].pair().0,
                        changes@[j].pair().1,
                    ) implies events@.contains(#[trigger] changes@[j]) by {
                    if j < k {
                        assert(listed.contains(changes@[j]));
                        let i = choose|i: int| 0 <= i < listed.len() && listed[i] == changes@[j];
                        assert(events@[i] == changes@[j]);
                    } else {
                        assert(events@[events@.len() - 1] == changes@[j]);
                    }
                }
                assert forall|i: int, j: int| 0 <= i < j < proximities@.len() implies pair_lt(
                    #[trigger] proximities@[i].pair(),
                    #[trigger] proximities@[j].pair(),
                ) by {
                    if j >= felt.len() {
                        assert(zone_change(world, changes@, k as int, felt[i]));
                        let w = choose|w: int|
                            0 <= w < k && sensed(#[trigger] changes@[w]) == felt[i] && !world.solid(
                                changes@[w].pair().0,
                                changes@[w].pair().1,
                            );
                        assert(pair_lt(changes@[w].pair(), last.pair()));
                    }
                }
                assert forall|i: int| 0 <= i < proximities@.len() implies zone_change(
                    world,
                    changes@,
                    k1,
                    #[trigger] proximities@[i],
                ) by {
                    if i < felt.len() {
                        assert(zone_change(world, changes@, k as int, felt[i]));
                        let w = choose|w: int|
                            0 <= w < k && sensed(#[trigger] changes@[w]) == felt[i] && !world.solid(
                                changes@[w].pair().0,
                                changes@[w].pair().1,
                            );
                        assert(sensed(changes@[w]) == proximities@[i]);
                    } else {
                        assert(sensed(changes@[k as int]) == proximities@[i]);
                    }
                }
                assert forall|j: int|
                    0 <= j < k1 && !world.solid(
                        changes@[j].pair().0,
                        changes@[j].pair().1,
                    ) implies proximities@.contains(sensed(#[trigger] changes@[j])) by {
                    if j < k {
                        assert(felt.contains(sensed(changes@[j])));
                        let i = choose|i: int| 0 <= i < felt.len() && felt[i] == sensed(changes@[j]);
                        assert(proximities@[i] == sensed(changes@[j]));
                    } else {
                        assert(proximities@[proximities@.len() - 1] == sensed(changes@[j]));
                    }
                }
            }
            k += 1;
        }
        (events, proximities)
    }

    /// One step of the world: works out which pairs of objects touch as they
    /// stand, and reports each pair that has started or stopped touching since
    /// the step before. A pair that goes on touching, or goes on not touching,
    /// is not reported. A change between two solid boxes is reported as a
    /// contact, any other as a proximity.
    pub fn update(&mut self)
        requires
            old(self).wf(),
        ensures
            final(self).wf(),
            final(self)@ == old(self)@.stepped(final(self)@.events, final(self)@.proximities),
            reports(
                final(self)@.events,
                old(self)@.solid_pairs(old(self)@.contacts),
                old(self)@.solid_pairs(old(self)@.touching_pairs()),
            ),
            senses(
                final(self)@.proximities,
                old(self)@.zone_pairs(old(self)@.contacts),
                old(self)@.zone_pairs(old(self)@.touching_pairs()),
            ),
    {
        let ghost world = self@;
        let (contacts, changes) = self.changes();
        let (events, proximities) = self.sort_out(&changes);
        proof {
            lemma_sorted_out(
                world,
                changes@,
                events@,
                proximities@,
                world.contacts,
                world.touching_pairs(),
            );
        }
        self.contacts = contacts;
        self.events = events;
        self.proximities = proximities;
        proof {
            assert(self@.objects =~= world.objects);
        }
    }
}

/// Whether two objects are in contact does not depend on their order.
pub proof fn lemma_touching_symmetric(a: ObjectState, b: ObjectState)
    ensures
        touching(a, b) == touching(b, a),
{
}

/// A step reports a pair that starts to touch, and one that stops touching.
pub proof fn lemma_change_is_reported(
    events: Seq<ContactEvent>,
    before: Set<(usize, usize)>,
    after: Set<(usize, usize)>,
    a: usize,
    b: usize,
)
    requires
        reports(events, before, after),
    ensures
        !before.contains((a, b)) && after.contains((a, b)) ==> events.contains(
            ContactEvent::Started(a, b),
        ),
        before.contains((a, b)) && !after.contains((a, b)) ==> events.contains(
            ContactEvent::Stopped(a, b),
        ),
{
}

/// A step reports no pair that goes on touching, and none that goes on not
/// touching.
pub proof fn lemma_steady_pair_is_silent(
    events: Seq<ContactEvent>,
    before: Set<(usize, usize)>,
    after: Set<(usize, usize)>,
    a: usize,
    b: usize,
)
    requires
        reports(events, before, after),
        before.contains((a, b)) == after.contains((a, b)),
    ensures
        !events.contains(ContactEvent::Started(a, b)),
        !events.contains(ContactEvent::Stopped(a, b)),
{
}

/// A step reports a pair once at most: two events of one step that speak of
/// the same pair are one event.
pub proof fn lemma_pair_is_reported_once(
    events: Seq<ContactEvent>,
    before: Set<(usize, usize)>,
    after: Set<(usize, usize)>,
    i: int,
    j: int,
)
    requires
        reports(events, before, after),
        0 <= i < events.len(),
        0 <= j < events.len(),
        events[i].pair() == events[j].pair(),
    ensures
        i == j,
{
    if i < j {
        assert(pair_lt(events[i].pair(), events[j].pair()));
    }
    if j < i {
        assert(pair_lt(events[j].pair(), events[i].pair()));
    }
}

/// Over two steps in a row, with any moves in between: a pair that touches
/// at both is reported as started by the first step at most, never by the
/// second, and is not reported as stopped by the second.
pub proof fn lemma_contact_fires_once(
    first: WorldState,
    second: WorldState,
    events: Seq<ContactEvent>,
    a: usize,
    b: usize,
)
    requires
        a < b,
        first.touch(a, b),
        second.contacts == first.touching_pairs(),
        second.touch(a, b),
        reports(
            events,
            second.solid_pairs(second.contacts),
            second.solid_pairs(second.touching_pairs()),
        ),
    ensures
        !events.contains(ContactEvent::Started(a, b)),
        !events.contains(ContactEvent::Stopped(a, b)),
{
    assert(first.touching_pairs().contains((a, b)));
    assert(second.touching_pairs().contains((a, b)));
}

/// The same of a zone: a pair that touches at two steps in a row is not
/// reported by the second.
pub proof fn lemma_zone_senses_once(
    first: WorldState,
    second: WorldState,
    proximities: Seq<ProximityEvent>,
    a: usize,
    b: usize,
)
    requires
        a < b,
        first.touch(a, b),
        second.contacts == first.touching_pairs(),
        second.touch(a, b),
        senses(
            proximities,
            second.zone_pairs(second.contacts),
            second.zone_pairs(second.touching_pairs()),
        ),
    ensures
        !proximities.contains(ProximityEvent::began(a, b)),
        !proximities.contains(ProximityEvent::ended(a, b)),
{
    assert(first.touching_pairs().contains((a, b)));
    assert(second.touching_pairs().contains((a, b)));
}

/// A change is reported either as a contact or as a proximity, never as both.
pub proof fn lemma_contact_or_proximity(
    world: WorldState,
    events: Seq<ContactEvent>,
    proximities: Seq<ProximityEvent>,
    before: Set<(usize, usize)>,
    after: Set<(usize, usize)>,
    a: usize,
    b: usize,
)
    requires
        reports(events, world.solid_pairs(before), world.solid_pairs(after)),
        senses(proximities, world.zone_pairs(before), world.zone_pairs(after)),
    ensures
        !(events.contains(ContactEvent::Started(a, b)) && proximities.contains(
            ProximityEvent::began(a, b),
        )),
        !(events.contains(ContactEvent::Stopped(a, b)) && proximities.contains(
            ProximityEvent::ended(a, b),
        )),
        !before.contains((a, b)) && after.contains((a, b)) ==> events.contains(
            ContactEvent::Started(a, b),
        ) || proximities.contains(ProximityEvent::began(a, b)),
        before.contains((a, b)) && !after.contains((a, b)) ==> events.contains(
            ContactEvent::Stopped(a, b),
        ) || proximities.contains(ProximityEvent::ended(a, b)),
{
}

/// Two boxes whose groups do not let them touch are never reported, by no
/// step, wherever they stand: the step reports nothing of the pair, and
/// records no contact between them.
pub proof fn lemma_filtered_pair_never_fires(
    world: WorldState,
    events: Seq<ContactEvent>,
    proximities: Seq<ProximityEvent>,
    a: usize,
    b: usize,
)
    requires
        world.wf(),
        world.objects.dom().contains(a),
        world.objects.dom().contains(b),
        !world.objects[a].groups.interact(world.objects[b].groups),
        reports(
            events,
            world.solid_pairs(world.contacts),
            world.solid_pairs(world.touching_pairs()),
        ),
        senses(
            proximities,
            world.zone_pairs(world.contacts),
            world.zone_pairs(world.touching_pairs()),
        ),
    ensures
        !world.contacts.contains((a, b)),
        !events.contains(ContactEvent::Started(a, b)),
        !events.contains(ContactEvent::Stopped(a, b)),
        !proximities.contains(ProximityEvent::began(a, b)),
        !proximities.contains(ProximityEvent::ended(a, b)),
        !world.stepped(events, proximities).contacts.contains((a, b)),
        world.stepped(events, proximities).wf(),
{
    assert(!world.touching_pairs().contains((a, b)));
    if world.contacts.contains((a, b)) {
        assert(world.objects[(a, b).0].groups.interact(world.objects[(a, b).1].groups));
    }
    let after = world.stepped(events, proximities);
    assert forall|p: (usize, usize)| after.contacts.contains(p) implies p.0 < p.1 < after.slots by {
        assert(world.touch(p.0, p.1));
    }
}

} // verus!
