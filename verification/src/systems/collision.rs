//! Colliders, and what the game does when two of them touch.

use vstd::prelude::*;

use crate::ecs::{Entities, Storage};
use crate::event::{AppEvent, Entity};
use crate::geometry::{Aabb, Position, Transform};
use crate::systems::player::{Player, PlayerStatus, FALLING_DURATION};
use crate::systems::groups::{all_groups, new_groups, set_membership, set_whitelist, GroupsState};
use crate::systems::world::{
    reports, senses, ColliderData, ContactEvent, GeometricQueryType, MyCollisionWorld, ObjectState,
    WorldState,
};
use crate::util::{delete_all, handles_of};

verus! {

/// What kind of object a collider is attached to. Contacts are resolved by
/// the kinds of the two objects.
#[derive(Debug, Clone, Copy, PartialEq, Eq, Structural)]
pub enum ColliderObjectType {
    Bullet,
    Player,
    Wall,
    Enemy,
    /// An object of no particular kind, such as a walkable zone.
    NoType,
}

impl ColliderObjectType {
    /// The collision group of the kind.
    pub open spec fn group(self) -> usize {
        match self {
            ColliderObjectType::Bullet => 1,
            ColliderObjectType::Player => 2,
            ColliderObjectType::Wall => 3,
            ColliderObjectType::Enemy => 4,
            ColliderObjectType::NoType => 5,
        }
    }

    /// Collision groups tell what collides with what: a bullet shot by an
    /// enemy, for one, does not collide with other enemies.
    pub fn get_collider_group(&self) -> (r: usize)
        ensures
            r == self.group(),
    {
        match *self {
            ColliderObjectType::Bullet => 1,
            ColliderObjectType::Player => 2,
            ColliderObjectType::Wall => 3,
            ColliderObjectType::Enemy => 4,
            ColliderObjectType::NoType => 5,
        }
    }
}

/// The groups that a collider accepts when it is made with the list
/// `collide_with`: those of the kinds listed, or every group when there is no
/// list or the list is empty.
pub open spec fn accepted_groups(collide_with: Option<Seq<ColliderObjectType>>) -> Set<usize> {
    match collide_with {
        Some(kinds) if kinds.len() > 0 => Set::new(
            |g: usize| exists|i: int| 0 <= i < kinds.len() && kinds[i].group() == g,
        ),
        _ => all_groups(),
    }
}

/// A rectangle of width `w` and height `h` around `position`, of the kind
/// `collider_type`, owned by `entity`. It is a member of the group of its kind
/// only, accepts the groups that `collide_with` stands for and refuses none.
pub open spec fn rect(
    position: Position,
    w: u32,
    h: u32,
    collider_type: ColliderObjectType,
    collide_with: Option<Seq<ColliderObjectType>>,
    entity: Option<Entity>,
) -> ObjectState {
    ObjectState {
        position: Transform::spec_at(position),
        half_width: w / 2,
        half_height: h / 2,
        groups: GroupsState {
            membership: set![collider_type.group()],
            whitelist: accepted_groups(collide_with),
            blacklist: Set::empty(),
        },
        query: GeometricQueryType::Contacts,
        data: ColliderData { entity, ty: collider_type },
    }
}

/// The component that ties an entity to its box in the collision world.
#[derive(Debug, Clone, Copy, PartialEq, Eq, Structural)]
pub struct Collider {
    pub handle: usize,
}

impl Collider {
    /// Adds a rectangle of width `w` and height `h` around `position` to the
    /// world, for an object of kind `collider_type`. With a list
    /// `collide_with` that is not empty the rectangle touches objects of the
    /// kinds listed only; else it touches everything. The owner may be left
    /// out here and bound with `set_entity` afterwards. The rectangle is not
    /// turned. Its handle named no box before, and the boxes that the world
    /// held stay as they are.
    pub fn new_rect(
        position: Position,
        w: u32,
        h: u32,
        collision_world: &mut MyCollisionWorld,
        collider_type: ColliderObjectType,
        collide_with: Option<&[ColliderObjectType]>,
        entity: Option<Entity>,
    ) -> (r: Self)
        requires
            old(collision_world).wf(),
        ensures
            final(collision_world).wf(),
            r.handle == old(collision_world)@.slots,
            !old(collision_world)@.objects.dom().contains(r.handle),
            final(collision_world)@ == old(collision_world)@.with_object(
                rect(
                    position,
                    w,
                    h,
                    collider_type,
                    match collide_with {
                        Some(kinds) => Some(kinds@),
                        None => None,
                    },
                    entity,
                ),
            ),
    {
        let mut group = new_groups();
        let mut members: Vec<usize> = Vec::new();
        members.push(collider_type.get_collider_group());
        set_membership(&mut group, &members);
        assert(members@.to_set() =~= set![collider_type.group()]) by {
            assert(members@[0] == collider_type.group());
            assert forall|g: usize| members@.to_set().contains(g) implies g == collider_type.group() by {
                let i = choose|i: int| 0 <= i < members@.len() && members@[i] == g;
            }
            assert(members@.contains(members@[0]));
        }
        if let Some(kinds) = collide_with {
            if kinds.len() > 0 {
                let mut accepted: Vec<usize> = Vec::new();
                let mut i: usize = 0;
                while i < kinds.len()
                    invariant
                        i <= kinds@.len(),
                        accepted@.len() == i,
                        forall|k: int| 0 <= k < i ==> accepted@[k] == kinds@[k].group(),
                    decreases kinds@.len() - i,
                {
                    accepted.push(kinds[i].get_collider_group());
                    i += 1;
                }
                set_whitelist(&mut group, &accepted);
                assert(accepted@.to_set() =~= accepted_groups(Some(kinds@))) by {
                    assert forall|g: usize|
                        accepted@.to_set().contains(g) <==> accepted_groups(Some(kinds@)).contains(
                            g,
                        ) by {
                        if accepted@.to_set().contains(g) {
                            let k = choose|k: int| 0 <= k < accepted@.len() && accepted@[k] == g;
                            assert(kinds@[k].group() == g);
                        }
                        if accepted_groups(Some(kinds@)).contains(g) {
                            let k = choose|k: int| 0 <= k < kinds@.len() && kinds@[k].group() == g;
                            assert(accepted@[k] == g);
                            assert(accepted@.contains(g));
                        }
                    }
                }
            }
        }
        let handle = collision_world.add(
            Transform::at(position),
            w / 2,
            h / 2,
            group,
            GeometricQueryType::Contacts,
            ColliderData { entity, ty: collider_type },
        );
        Collider { handle }
    }

    /// Binds the owner of the collider, once the entity exists. The box of
    /// the collider is still in the world.
    pub fn set_entity(&self, collision_world: &mut MyCollisionWorld, entity: Entity)
        requires
            old(collision_world).wf(),
            old(collision_world)@.objects.dom().contains(self.handle),
        ensures
            final(collision_world).wf(),
            final(collision_world)@ == old(collision_world)@.owned(self.handle, entity),
    {
        collision_world.set_owner(self.handle, entity);
    }
}

/// The bullet of a contact and what it has run into, if the contact is one
/// between a bullet and a player, a wall or an enemy. Every other contact is
/// ignored.
pub open spec fn bullet_and_target(first: ColliderData, second: ColliderData) -> Option<
    (ColliderData, ColliderData),
> {
    match (first.ty, second.ty) {
        (ColliderObjectType::Bullet, ColliderObjectType::Player)
        | (ColliderObjectType::Bullet, ColliderObjectType::Wall)
        | (ColliderObjectType::Bullet, ColliderObjectType::Enemy) => Some((first, second)),
        (ColliderObjectType::Player, ColliderObjectType::Bullet)
        | (ColliderObjectType::Wall, ColliderObjectType::Bullet)
        | (ColliderObjectType::Enemy, ColliderObjectType::Bullet) => Some((second, first)),
        _ => None,
    }
}

/// The bullet and the target of the contact that `event` reports. Only a
/// contact that starts between two objects that are still in the world has
/// them.
pub open spec fn impact(world: WorldState, event: ContactEvent) -> Option<
    (ColliderData, ColliderData),
> {
    match event {
        ContactEvent::Started(first, second) => {
            if world.objects.dom().contains(first) && world.objects.dom().contains(second) {
                bullet_and_target(world.objects[first].data, world.objects[second].data)
            } else {
                None
            }
        },
        ContactEvent::Stopped(_, _) => None,
    }
}

/// The contact can be resolved: the bullet knows its entity, and so does a
/// target that takes the hit. Colliders whose owner was bound when they were
/// made, or right after, meet this.
pub open spec fn resolvable(world: WorldState, event: ContactEvent) -> bool {
    match impact(world, event) {
        Some((bullet, target)) => {
            &&& bullet.entity is Some
            &&& target.ty != ColliderObjectType::Wall ==> target.entity is Some
        },
        None => true,
    }
}

/// The entities that the contact removes: the bullet.
pub open spec fn removed_by(world: WorldState, event: ContactEvent) -> Seq<Entity> {
    match impact(world, event) {
        Some((bullet, _)) => seq![bullet.entity.unwrap()],
        None => seq![],
    }
}

/// The events that the contact sends: the hit of the player or of the enemy.
/// A wall takes no hit.
pub open spec fn hits_of(world: WorldState, event: ContactEvent) -> Seq<AppEvent> {
    match impact(world, event) {
        Some((_, target)) if target.ty != ColliderObjectType::Wall => seq![
            AppEvent::EntityHit(target.entity.unwrap()),
        ],
        _ => seq![],
    }
}

/// Resolves the contacts of the collision world, removes what has died and
/// advances the world.
#[derive(Debug, Clone, Copy, Default)]
pub struct CollisionSystem;

impl CollisionSystem {
    pub fn new() -> (r: Self) {
        Self
    }

    /// Tells whether `handle_contact_event` can resolve the contact.
    pub fn can_resolve(&self, world: &MyCollisionWorld, event: &ContactEvent) -> (r: bool)
        ensures
            r == resolvable(world@, *event),
    {
        if let ContactEvent::Started(first, second) = *event {
            match (world.collision_object(first), world.collision_object(second)) {
                (Some(obj1), Some(obj2)) => {
                    match (obj1.data.ty, obj2.data.ty) {
                        (ColliderObjectType::Bullet, ColliderObjectType::Wall) => {
                            obj1.data.entity.is_some()
                        },
                        (ColliderObjectType::Wall, ColliderObjectType::Bullet) => {
                            obj2.data.entity.is_some()
                        },
                        (ColliderObjectType::Bullet, ColliderObjectType::Player)
                        | (ColliderObjectType::Bullet, ColliderObjectType::Enemy)
                        | (ColliderObjectType::Player, ColliderObjectType::Bullet)
                        | (ColliderObjectType::Enemy, ColliderObjectType::Bullet) => {
                            obj1.data.entity.is_some() && obj2.data.entity.is_some()
                        },
                        _ => true,
                    }
                },
                _ => true,
            }
        } else {
            true
        }
    }

    /// Resolves one contact. A bullet that runs into a player, a wall or an
    /// enemy is returned for removal, and the hit of a player or of an enemy
    /// is sent on `channel`. A contact that stops, one with an object that has
    /// left the world, and one between any other two kinds do nothing.
    pub fn handle_contact_event(
        &self,
        world: &MyCollisionWorld,
        event: &ContactEvent,
        channel: &mut Vec<AppEvent>,
    ) -> (to_remove: Vec<Entity>)
        requires
            resolvable(world@, *event),
        ensures
            to_remove@ == removed_by(world@, *event),
            final(channel)@ == old(channel)@ + hits_of(world@, *event),
    {
        let mut to_remove: Vec<Entity> = Vec::new();
        if let ContactEvent::Started(collider1, collider2) = *event {
            // An event may be left over from before the colliders were removed.
            match (world.collision_object(collider1), world.collision_object(collider2)) {
                (Some(obj1), Some(obj2)) => {
                    match (obj1.data.ty, obj2.data.ty) {
                        (ColliderObjectType::Player, ColliderObjectType::Bullet) => {
                            to_remove.push(obj2.data.entity.unwrap());
                            self.send_hit_event(channel, obj1.data.entity.unwrap());
                        },
                        (ColliderObjectType::Bullet, ColliderObjectType::Player) => {
                            to_remove.push(obj1.data.entity.unwrap());
                            self.send_hit_event(channel, obj2.data.entity.unwrap());
                        },
                        (ColliderObjectType::Bullet, ColliderObjectType::Wall) => {
                            to_remove.push(obj1.data.entity.unwrap());
                        },
                        (ColliderObjectType::Wall, ColliderObjectType::Bullet) => {
                            to_remove.push(obj2.data.entity.unwrap());
                        },
                        (ColliderObjectType::Bullet, ColliderObjectType::Enemy) => {
                            to_remove.push(obj1.data.entity.unwrap());
                            self.send_hit_event(channel, obj2.data.entity.unwrap());
                        },
                        (ColliderObjectType::Enemy, ColliderObjectType::Bullet) => {
                            to_remove.push(obj2.data.entity.unwrap());
                            self.send_hit_event(channel, obj1.data.entity.unwrap());
                        },
                        _ => {},
                    }
                },
                _ => {},
            }
        }
        assert(to_remove@ =~= removed_by(world@, *event));
        assert(channel@ =~= old(channel)@ + hits_of(world@, *event));
        to_remove
    }

    fn send_hit_event(&self, channel: &mut Vec<AppEvent>, entity: Entity)
        ensures
            final(channel)@ == old(channel)@.push(AppEvent::EntityHit(entity)),
    {
        channel.push(AppEvent::EntityHit(entity));
    }
}

/// `entity` has a position and a collider whose box is under `handle`.
pub open spec fn carries(
    colliders: Map<Entity, Collider>,
    transforms: Map<Entity, Transform>,
    entity: Entity,
    handle: usize,
) -> bool {
    &&& colliders.dom().contains(entity)
    &&& transforms.dom().contains(entity)
    &&& colliders[entity].handle == handle
}

/// `entity` is the one with the greatest id among those that carry `handle`.
pub open spec fn last_carrier(
    colliders: Map<Entity, Collider>,
    transforms: Map<Entity, Transform>,
    entity: Entity,
    handle: usize,
) -> bool {
    &&& carries(colliders, transforms, entity, handle)
    &&& forall|other: Entity|
        carries(colliders, transforms, other, handle) ==> other.id <= entity.id
}

/// Where the box under `handle` stands, and how it is turned, once positions
/// are copied over: as the entity that carries it. Where several entities carry one
/// box, the one with the greatest id decides. A box that no entity carries
/// stays where it is.
pub open spec fn synced_position(
    world: WorldState,
    colliders: Map<Entity, Collider>,
    transforms: Map<Entity, Transform>,
    handle: usize,
) -> Transform {
    if exists|e: Entity| last_carrier(colliders, transforms, e, handle) {
        transforms[choose|e: Entity| last_carrier(colliders, transforms, e, handle)]
    } else {
        world.objects[handle].position
    }
}

/// The world once the place and the turn of each entity have been copied to
/// its box.
pub open spec fn synced(
    world: WorldState,
    colliders: Map<Entity, Collider>,
    transforms: Map<Entity, Transform>,
) -> WorldState {
    WorldState {
        objects: Map::new(
            |h: usize| world.objects.dom().contains(h),
            |h: usize|
                ObjectState {
                    position: synced_position(world, colliders, transforms, h),
                    ..world.objects[h]
                },
        ),
        ..world
    }
}

/// The entities that `events` report dead, in the order of the events.
pub open spec fn died_in(events: Seq<AppEvent>) -> Seq<Entity>
    decreases events.len(),
{
    if events.len() == 0 {
        seq![]
    } else {
        died_in(events.drop_last()) + (match events.last() {
            AppEvent::EnemyDied(e) => seq![e],
            _ => seq![],
        })
    }
}

/// The entities that the contacts `contacts` remove, in the order of the
/// contacts.
pub open spec fn removed_by_all(world: WorldState, contacts: Seq<ContactEvent>) -> Seq<Entity>
    decreases contacts.len(),
{
    if contacts.len() == 0 {
        seq![]
    } else {
        removed_by_all(world, contacts.drop_last()) + removed_by(world, contacts.last())
    }
}

/// The events that the contacts `contacts` send, in the order of the
/// contacts.
pub open spec fn hits_of_all(world: WorldState, contacts: Seq<ContactEvent>) -> Seq<AppEvent>
    decreases contacts.len(),
{
    if contacts.len() == 0 {
        seq![]
    } else {
        hits_of_all(world, contacts.drop_last()) + hits_of(world, contacts.last())
    }
}

/// The entities that a tick of the collision system removes: those that
/// `events` report dead, and the bullets of the contacts of the world.
pub open spec fn doomed(world: WorldState, events: Seq<AppEvent>) -> Set<Entity> {
    (died_in(events) + removed_by_all(world, world.events)).to_set()
}

/// The world before the step that ends a tick of the collision system:
/// positions are copied over, and the colliders of the entities removed are
/// gone.
pub open spec fn settled(
    world: WorldState,
    colliders: Map<Entity, Collider>,
    transforms: Map<Entity, Transform>,
    events: Seq<AppEvent>,
) -> WorldState {
    synced(world, colliders, transforms).without_all(
        handles_of(colliders, doomed(world, events)),
    )
}

/// `entity` carries `handle` and its id is below `bound`.
spec fn carries_below(
    colliders: Map<Entity, Collider>,
    transforms: Map<Entity, Transform>,
    entity: Entity,
    handle: usize,
    bound: usize,
) -> bool {
    carries(colliders, transforms, entity, handle) && entity.id < bound
}

/// `entity` is the one with the greatest id among those below `bound` that
/// carry `handle`.
spec fn last_carrier_below(
    colliders: Map<Entity, Collider>,
    transforms: Map<Entity, Transform>,
    entity: Entity,
    handle: usize,
    bound: usize,
) -> bool {
    &&& carries_below(colliders, transforms, entity, handle, bound)
    &&& forall|other: Entity|
        carries_below(colliders, transforms, other, handle, bound) ==> other.id <= entity.id
}

/// `now` is `world` with the positions of the entities below `bound` copied
/// over.
spec fn synced_below(
    world: WorldState,
    now: WorldState,
    colliders: Map<Entity, Collider>,
    transforms: Map<Entity, Transform>,
    bound: usize,
) -> bool {
    &&& now.slots == world.slots
    &&& now.queries == world.queries
    &&& now.contacts == world.contacts
    &&& now.events == world.events
    &&& now.proximities == world.proximities
    &&& now.objects.dom() == world.objects.dom()
    &&& forall|h: usize| #[trigger]
        world.objects.dom().contains(h) ==> {
            &&& now.objects[h] == ObjectState {
                position: now.objects[h].position,
                ..world.objects[h]
            }
            &&& (forall|e: Entity| !carries_below(colliders, transforms, e, h, bound))
                ==> now.objects[h].position == world.objects[h].position
            &&& (exists|e: Entity| carries_below(colliders, transforms, e, h, bound)) ==> exists|
                e: Entity,
            |
                last_carrier_below(colliders, transforms, e, h, bound) && now.objects[h].position
                    == transforms[e]
        }
}

/// Once every entity has been looked at, the world is the synced one.
proof fn lemma_synced_below_all(
    world: WorldState,
    now: WorldState,
    colliders: Map<Entity, Collider>,
    transforms: Map<Entity, Transform>,
    bound: usize,
)
    requires
        synced_below(world, now, colliders, transforms, bound),
        forall|e: Entity| colliders.dom().contains(e) ==> e.id < bound,
    ensures
        now == synced(world, colliders, transforms),
{
    let target = synced(world, colliders, transforms);
    assert forall|h: usize| world.objects.dom().contains(h) implies now.objects[h]
        == target.objects[h] by {
        assert(forall|e: Entity|
            carries_below(colliders, transforms, e, h, bound) <==> carries(
                colliders,
                transforms,
                e,
                h,
            ));
        assert(forall|e: Entity|
            last_carrier_below(colliders, transforms, e, h, bound) <==> last_carrier(
                colliders,
                transforms,
                e,
                h,
            ));
        if exists|e: Entity| last_carrier(colliders, transforms, e, h) {
            let chosen = choose|e: Entity| last_carrier(colliders, transforms, e, h);
            assert(carries_below(colliders, transforms, chosen, h, bound));
            let found = choose|e: Entity|
                last_carrier_below(colliders, transforms, e, h, bound) && now.objects[h].position
                    == transforms[e];
            assert(found.id == chosen.id);
            assert(found == chosen);
        } else {
            if exists|e: Entity| carries_below(colliders, transforms, e, h, bound) {
                let found = choose|e: Entity|
                    last_carrier_below(colliders, transforms, e, h, bound)
                        && now.objects[h].position == transforms[e];
                assert(last_carrier(colliders, transforms, found, h));
            }
        }
    }
    assert(now.objects =~= target.objects);
}

impl CollisionSystem {
    /// Copies the place and the turn of every entity that has them to the box
    /// of its collider. A collider whose box has left the world is passed over.
    pub fn update_obj_positions(
        &self,
        colliders: &Storage<Collider>,
        transforms: &Storage<Transform>,
        collision_world: &mut MyCollisionWorld,
    )
        requires
            old(collision_world).wf(),
        ensures
            final(collision_world).wf(),
            final(collision_world)@ == synced(old(collision_world)@, colliders@, transforms@),
    {
        let bound = colliders.bound();
        let ghost world = collision_world@;
        let mut id: usize = 0;
        while id < bound
            invariant
                id <= bound,
                collision_world.wf(),
                synced_below(world, collision_world@, colliders@, transforms@, id),
            decreases bound - id,
        {
            let entity = Entity { id };
            let ghost before = collision_world@;
            let ghost next = (id + 1) as usize;
            let mut moved: Option<usize> = None;
            match (colliders.get(entity), transforms.get(entity)) {
                (Some(collider), Some(position)) => {
                    if collision_world.set_position(collider.handle, *position) {
                        moved = Some(collider.handle);
                    }
                },
                _ => {},
            }
            proof {
                let now = collision_world@;
                assert(now.objects.dom() =~= world.objects.dom());
                assert forall|h: usize| #[trigger] world.objects.dom().contains(h) implies {
                    &&& now.objects[h] == ObjectState {
                        position: now.objects[h].position,
                        ..world.objects[h]
                    }
                    &&& (forall|e: Entity| !carries_below(colliders@, transforms@, e, h, next))
                        ==> now.objects[h].position == world.objects[h].position
                    &&& (exists|e: Entity| carries_below(colliders@, transforms@, e, h, next))
                        ==> exists|e: Entity|
                        last_carrier_below(colliders@, transforms@, e, h, next)
                            && now.objects[h].position == transforms@[e]
                } by {
                    assert(before.objects.dom().contains(h));
                    if moved == Some(h) {
                        assert(carries_below(colliders@, transforms@, entity, h, next));
                        assert forall|other: Entity|
                            carries_below(
                                colliders@,
                                transforms@,
                                other,
                                h,
                                next,
                            ) implies other.id <= entity.id by {}
                        assert(last_carrier_below(colliders@, transforms@, entity, h, next));
                    } else {
                        assert(now.objects[h] == before.objects[h]);
                        assert(!carries(colliders@, transforms@, entity, h));
                        assert forall|e: Entity|
                            carries_below(colliders@, transforms@, e, h, next) == carries_below(
                                colliders@,
                                transforms@,
                                e,
                                h,
                                id,
                            ) by {
                            if e.id == id {
                                assert(e == entity);
                            }
                        }
                        if exists|e: Entity| carries_below(colliders@, transforms@, e, h, next) {
                            let w = choose|e: Entity|
                                carries_below(colliders@, transforms@, e, h, next);
                            assert(carries_below(colliders@, transforms@, w, h, id));
                            let found = choose|e: Entity|
                                last_carrier_below(colliders@, transforms@, e, h, id)
                                    && before.objects[h].position == transforms@[e];
                            assert(last_carrier_below(colliders@, transforms@, found, h, next));
                        }
                    }
                }
            }
            id += 1;
        }
        proof {
            lemma_synced_below_all(world, collision_world@, colliders@, transforms@, bound);
        }
    }

    /// One tick of the collision system. It resolves the contacts that the
    /// last step of the world has reported, copies the positions of the
    /// entities to their boxes, removes the bullets that have hit something
    /// and the enemies that `events` report dead, each with its collider, and
    /// advances the world by one step. It returns the hits to send.
    pub fn run(
        &mut self,
        colliders: &Storage<Collider>,
        transforms: &Storage<Transform>,
        collision_world: &mut MyCollisionWorld,
        entities: &mut Entities,
        events: &Vec<AppEvent>,
    ) -> (out: Vec<AppEvent>)
        requires
            old(collision_world).wf(),
            forall|i: int|
                0 <= i < old(collision_world)@.events.len() ==> resolvable(
                    old(collision_world)@,
                    #[trigger] old(collision_world)@.events[i],
                ),
        ensures
            final(collision_world).wf(),
            out@ == hits_of_all(old(collision_world)@, old(collision_world)@.events),
            final(entities)@.created == old(entities)@.created,
            final(entities)@.alive == old(entities)@.alive.difference(
                doomed(old(collision_world)@, events@),
            ),
            final(collision_world)@ == settled(
                old(collision_world)@,
                colliders@,
                transforms@,
                events@,
            ).stepped(final(collision_world)@.events, final(collision_world)@.proximities),
            ({
                let ready = settled(old(collision_world)@, colliders@, transforms@, events@);
                &&& reports(
                    final(collision_world)@.events,
                    ready.solid_pairs(ready.contacts),
                    ready.solid_pairs(ready.touching_pairs()),
                )
                &&& senses(
                    final(collision_world)@.proximities,
                    ready.zone_pairs(ready.contacts),
                    ready.zone_pairs(ready.touching_pairs()),
                )
            }),
    {
        let ghost world = collision_world@;
        let mut to_remove: Vec<Entity> = Vec::new();
        let mut out: Vec<AppEvent> = Vec::new();

        // Entities that have died are removed here, with their colliders.
        let mut i: usize = 0;
        while i < events.len()
            invariant
                i <= events@.len(),
                to_remove@ == died_in(events@.take(i as int)),
            decreases events@.len() - i,
        {
            proof {
                assert(events@.take(i as int + 1).drop_last() =~= events@.take(i as int));
            }
            match &events[i] {
                AppEvent::EnemyDied(e) => {
                    to_remove.push(*e);
                },
                _ => {},
            }
            assert(to_remove@ =~= died_in(events@.take(i as int + 1)));
            i += 1;
        }
        assert(events@.take(events@.len() as int) =~= events@);

        let mut k: usize = 0;
        let pending = collision_world.contact_events().len();
        while k < pending
            invariant
                k <= pending,
                pending == world.events.len(),
                collision_world@ == world,
                forall|j: int| 0 <= j < world.events.len() ==> resolvable(world, #[trigger] world.events[j]),
                to_remove@ == died_in(events@) + removed_by_all(world, world.events.take(k as int)),
                out@ == hits_of_all(world, world.events.take(k as int)),
            decreases pending - k,
        {
            proof {
                assert(world.events.take(k as int + 1).drop_last() =~= world.events.take(k as int));
            }
            let event = collision_world.contact_events()[k];
            let mut to_remove_from_ev = self.handle_contact_event(collision_world, &event, &mut out);
            to_remove.append(&mut to_remove_from_ev);
            assert(to_remove@ =~= died_in(events@) + removed_by_all(
                world,
                world.events.take(k as int + 1),
            ));
            k += 1;
        }
        assert(world.events.take(world.events.len() as int) =~= world.events);

        // Now update all the positions.
        self.update_obj_positions(colliders, transforms, collision_world);

        // Remove what is to be destroyed.
        delete_all(&to_remove, colliders, entities, collision_world);

        collision_world.update();
        out
    }
}

/// Marks a zone on which the player can walk.
#[derive(Debug, Clone, Copy, Default)]
pub struct Walkable;

/// The box of the collider of `entity`, if the entity has a collider and the
/// box is still in the world.
pub open spec fn box_of(
    world: WorldState,
    colliders: Map<Entity, Collider>,
    entity: Entity,
) -> Option<Aabb> {
    if colliders.dom().contains(entity) && world.objects.dom().contains(
        colliders[entity].handle,
    ) {
        Some(world.objects[colliders[entity].handle].aabb())
    } else {
        None
    }
}

/// `entity` is a walkable zone whose box has a point in common with `aabb`.
pub open spec fn supports(
    world: WorldState,
    colliders: Map<Entity, Collider>,
    areas: Map<Entity, Walkable>,
    entity: Entity,
    aabb: Aabb,
) -> bool {
    &&& areas.dom().contains(entity)
    &&& box_of(world, colliders, entity) matches Some(area)
    &&& area.overlaps(aabb)
}

/// Some walkable zone has a point in common with `aabb`.
pub open spec fn on_ground(
    world: WorldState,
    colliders: Map<Entity, Collider>,
    areas: Map<Entity, Walkable>,
    aabb: Aabb,
) -> bool {
    exists|a: Entity| supports(world, colliders, areas, a, aabb)
}

/// The player after the walkable check: a walking player whose box is on no
/// walkable zone starts to fall. A player that does not walk, and one whose
/// box cannot be found, stay as they are.
pub open spec fn checked_player(
    world: WorldState,
    colliders: Map<Entity, Collider>,
    areas: Map<Entity, Walkable>,
    entity: Entity,
    player: Player,
) -> Player {
    match (player.state, box_of(world, colliders, entity)) {
        (PlayerStatus::Walking, Some(aabb)) => {
            if on_ground(world, colliders, areas, aabb) {
                player
            } else {
                Player {
                    state: PlayerStatus::Falling {
                        falling_duration: FALLING_DURATION,
                        elapsed_time: 0,
                    },
                }
            }
        },
        _ => player,
    }
}

/// Detects whether the player can still walk: whether the collider of the
/// player is still on a walkable zone.
#[derive(Debug, Clone, Copy, Default)]
pub struct WalkableSystem;

impl WalkableSystem {
    /// Tells whether some walkable zone has a point in common with `aabb`.
    fn player_in_area(
        &self,
        aabb: &Aabb,
        colliders: &Storage<Collider>,
        walkable_areas: &Storage<Walkable>,
        collision_world: &MyCollisionWorld,
    ) -> (r: bool)
        ensures
            r == on_ground(collision_world@, colliders@, walkable_areas@, *aabb),
    {
        let bound = walkable_areas.bound();
        let mut id: usize = 0;
        while id < bound
            invariant
                id <= bound,
                forall|a: Entity| walkable_areas@.dom().contains(a) ==> a.id < bound,
                forall|a: Entity|
                    a.id < id ==> !supports(
                        collision_world@,
                        colliders@,
                        walkable_areas@,
                        a,
                        *aabb,
                    ),
            decreases bound - id,
        {
            let area = Entity { id };
            if walkable_areas.contains(area) {
                if let Some(area_collider) = colliders.get(area) {
                    if let Some(aob) = collision_world.collision_object(area_collider.handle) {
                        let area_aabb = aob.bounding_box();
                        if area_aabb.intersects(aabb) {
                            assert(supports(
                                collision_world@,
                                colliders@,
                                walkable_areas@,
                                area,
                                *aabb,
                            ));
                            return true;
                        }
                    }
                }
            }
            assert forall|a: Entity| a.id < id + 1 implies !supports(
                collision_world@,
                colliders@,
                walkable_areas@,
                a,
                *aabb,
            ) by {
                if a.id == id {
                    assert(a == area);
                }
            }
            id += 1;
        }
        false
    }

    /// One tick: every walking player whose collider is on no walkable zone
    /// starts to fall. The fall is shown before the game is over, so no event
    /// is sent here.
    pub fn run(
        &mut self,
        players: &mut Storage<Player>,
        colliders: &Storage<Collider>,
        walkable_areas: &Storage<Walkable>,
        collision_world: &MyCollisionWorld,
    )
        ensures
            final(players)@ == Map::new(
                |e: Entity| old(players)@.dom().contains(e),
                |e: Entity|
                    checked_player(
                        collision_world@,
                        colliders@,
                        walkable_areas@,
                        e,
                        old(players)@[e],
                    ),
            ),
    {
        let bound = players.bound();
        let mut id: usize = 0;
        while id < bound
            invariant
                id <= bound,
                forall|e: Entity| old(players)@.dom().contains(e) ==> e.id < bound,
                players@ == Map::new(
                    |e: Entity| old(players)@.dom().contains(e),
                    |e: Entity|
                        if e.id < id {
                            checked_player(
                                collision_world@,
                                colliders@,
                                walkable_areas@,
                                e,
                                old(players)@[e],
                            )
                        } else {
                            old(players)@[e]
                        },
                ),
            decreases bound - id,
        {
            let entity = Entity { id };
            let mut falls = false;
            if let Some(player) = players.get(entity) {
                // A player that is not walking is left alone.
                if let PlayerStatus::Walking = player.state {
                    if let Some(collider) = colliders.get(entity) {
                        if let Some(cob) = collision_world.collision_object(collider.handle) {
                            let aabb = cob.bounding_box();
                            falls = !self.player_in_area(
                                &aabb,
                                colliders,
                                walkable_areas,
                                collision_world,
                            );
                        }
                    }
                }
            }
            if falls {
                players.insert(
                    entity,
                    Player {
                        state: PlayerStatus::Falling {
                            falling_duration: FALLING_DURATION,
                            elapsed_time: 0,
                        },
                    },
                );
            }
            proof {
                assert(players@ =~= Map::new(
                    |e: Entity| old(players)@.dom().contains(e),
                    |e: Entity|
                        if e.id < id + 1 {
                            checked_player(
                                collision_world@,
                                colliders@,
                                walkable_areas@,
                                e,
                                old(players)@[e],
                            )
                        } else {
                            old(players)@[e]
                        },
                )) by {
                    assert forall|e: Entity| old(players)@.dom().contains(e) implies #[trigger] players@[e]
                        == (if e.id < id + 1 {
                        checked_player(
                            collision_world@,
                            colliders@,
                            walkable_areas@,
                            e,
                            old(players)@[e],
                        )
                    } else {
                        old(players)@[e]
                    }) by {
                        if e.id == id {
                            assert(e == entity);
                        }
                    }
                }
            }
            id += 1;
        }
        assert(players@ =~= Map::new(
            |e: Entity| old(players)@.dom().contains(e),
            |e: Entity|
                checked_player(
                    collision_world@,
                    colliders@,
                    walkable_areas@,
                    e,
                    old(players)@[e],
                ),
        ));
    }
}

} // verus!
