//! Removal of an entity together with its collider.

use vstd::prelude::*;

use crate::ecs::{Entities, EntitiesState, Storage};
use crate::event::Entity;
use crate::systems::collision::Collider;
use crate::systems::world::{MyCollisionWorld, WorldState};

verus! {

/// The world once the collider of `entity` has been taken out of it: an
/// entity without a collider leaves the world as it is.
pub open spec fn torn_down(
    world: WorldState,
    colliders: Map<Entity, Collider>,
    entity: Entity,
) -> WorldState {
    if colliders.dom().contains(entity) {
        world.without(colliders[entity].handle)
    } else {
        world
    }
}

/// Removes an entity that may have a collider: the box of the collider
/// leaves the collision world, and the entity is deleted, in one step. The
/// result tells whether the entity was alive. On an entity that is gone
/// already, and on a collider whose box is gone already, this does nothing.
pub fn delete_entity_with_collider(
    entity: Entity,
    colliders: &Storage<Collider>,
    entities: &mut Entities,
    world: &mut MyCollisionWorld,
) -> (was_alive: bool)
    requires
        old(world).wf(),
    ensures
        final(world).wf(),
        final(world)@ == torn_down(old(world)@, colliders@, entity),
        final(entities)@ == (EntitiesState {
            alive: old(entities)@.alive.remove(entity),
            ..old(entities)@
        }),
        was_alive == old(entities)@.alive.contains(entity),
{
    if let Some(collider) = colliders.get(entity) {
        world.remove(collider.handle);
    }
    entities.delete(entity)
}

/// Removing an entity with its collider a second time changes nothing.
pub proof fn lemma_delete_twice(
    world: WorldState,
    alive: Set<Entity>,
    colliders: Map<Entity, Collider>,
    entity: Entity,
)
    ensures
        torn_down(torn_down(world, colliders, entity), colliders, entity) == torn_down(
            world,
            colliders,
            entity,
        ),
        alive.remove(entity).remove(entity) == alive.remove(entity),
{
    if colliders.dom().contains(entity) {
        world.lemma_without_twice(colliders[entity].handle);
    }
    assert(alive.remove(entity).remove(entity) =~= alive.remove(entity));
}

/// The handles of the colliders of `entities`.
pub open spec fn handles_of(colliders: Map<Entity, Collider>, entities: Set<Entity>) -> Set<usize> {
    Set::new(
        |h: usize|
            exists|e: Entity|
                entities.contains(e) && colliders.dom().contains(e) && #[trigger] colliders[e].handle
                    == h,
    )
}

/// The set of the items of a sequence with one more item.
pub proof fn lemma_push_to_set<T>(s: Seq<T>, item: T)
    ensures
        s.push(item).to_set() == s.to_set().insert(item),
{
    assert forall|x: T| s.push(item).to_set().contains(x) <==> s.to_set().insert(item).contains(
        x,
    ) by {
        if s.contains(x) {
            let i = choose|i: int| 0 <= i < s.len() && s[i] == x;
            assert(s.push(item)[i] == x);
        }
        if x == item {
            assert(s.push(item)[s.len() as int] == x);
        }
    }
    assert(s.push(item).to_set() =~= s.to_set().insert(item));
}

/// Taking out the colliders of a set of entities and of one more.
proof fn lemma_handles_of_insert(
    world: WorldState,
    colliders: Map<Entity, Collider>,
    entities: Set<Entity>,
    entity: Entity,
)
    ensures
        torn_down(world.without_all(handles_of(colliders, entities)), colliders, entity)
            == world.without_all(handles_of(colliders, entities.insert(entity))),
{
    let before = handles_of(colliders, entities);
    let after = handles_of(colliders, entities.insert(entity));
    if colliders.dom().contains(entity) {
        let h = colliders[entity].handle;
        assert(entities.insert(entity).contains(entity));
        assert(after =~= before.insert(h)) by {
            assert forall|x: usize| after.contains(x) <==> before.insert(h).contains(x) by {
                if after.contains(x) {
                    let e = choose|e: Entity|
                        entities.insert(entity).contains(e) && colliders.dom().contains(e)
                            && #[trigger] colliders[e].handle == x;
                    if e != entity {
                        assert(entities.contains(e));
                    }
                }
                if before.contains(x) {
                    let e = choose|e: Entity|
                        entities.contains(e) && colliders.dom().contains(e)
                            && #[trigger] colliders[e].handle == x;
                    assert(entities.insert(entity).contains(e));
                }
            }
        }
        assert(world.objects.remove_keys(before).remove(h) =~= world.objects.remove_keys(after));
    } else {
        assert(after =~= before) by {
            assert forall|x: usize| after.contains(x) <==> before.contains(x) by {
                if after.contains(x) {
                    let e = choose|e: Entity|
                        entities.insert(entity).contains(e) && colliders.dom().contains(e)
                            && #[trigger] colliders[e].handle == x;
                    assert(entities.contains(e));
                }
                if before.contains(x) {
                    let e = choose|e: Entity|
                        entities.contains(e) && colliders.dom().contains(e)
                            && #[trigger] colliders[e].handle == x;
                    assert(entities.insert(entity).contains(e));
                }
            }
        }
    }
}

/// To remove the entities of a list, and then one more, is to remove those of
/// the list with one more item.
pub proof fn lemma_removed_one_more(
    world: WorldState,
    alive: Set<Entity>,
    colliders: Map<Entity, Collider>,
    gone: Seq<Entity>,
    entity: Entity,
)
    ensures
        torn_down(world.without_all(handles_of(colliders, gone.to_set())), colliders, entity)
            == world.without_all(handles_of(colliders, gone.push(entity).to_set())),
        alive.difference(gone.to_set()).remove(entity) == alive.difference(
            gone.push(entity).to_set(),
        ),
{
    lemma_push_to_set(gone, entity);
    lemma_handles_of_insert(world, colliders, gone.to_set(), entity);
    assert(alive.difference(gone.to_set()).remove(entity) =~= alive.difference(
        gone.to_set().insert(entity),
    ));
}

/// Removes each of `to_remove`, with its collider. An entity that is listed
/// twice, or is gone already, is removed once.
pub fn delete_all(
    to_remove: &Vec<Entity>,
    colliders: &Storage<Collider>,
    entities: &mut Entities,
    world: &mut MyCollisionWorld,
)
    requires
        old(world).wf(),
    ensures
        final(world).wf(),
        final(world)@ == old(world)@.without_all(handles_of(colliders@, to_remove@.to_set())),
        final(entities)@ == (EntitiesState {
            alive: old(entities)@.alive.difference(to_remove@.to_set()),
            ..old(entities)@
        }),
{
    let ghost before = world@;
    let ghost alive = entities@.alive;
    let mut r: usize = 0;
    proof {
        assert(to_remove@.take(0).to_set() =~= Set::<Entity>::empty());
        assert(handles_of(colliders@, Set::<Entity>::empty()) =~= Set::<usize>::empty());
        assert(before.objects.remove_keys(Set::<usize>::empty()) =~= before.objects);
        assert(alive.difference(Set::<Entity>::empty()) =~= alive);
    }
    while r < to_remove.len()
        invariant
            r <= to_remove@.len(),
            world.wf(),
            world@ == before.without_all(handles_of(colliders@, to_remove@.take(r as int).to_set())),
            entities@.created == old(entities)@.created,
            entities@.alive == alive.difference(to_remove@.take(r as int).to_set()),
        decreases to_remove@.len() - r,
    {
        proof {
            let done = to_remove@.take(r as int);
            assert(to_remove@.take(r as int + 1) =~= done.push(to_remove@[r as int]));
            lemma_removed_one_more(before, alive, colliders@, done, to_remove@[r as int]);
        }
        delete_entity_with_collider(to_remove[r], colliders, entities, world);
        r += 1;
    }
    assert(to_remove@.take(to_remove@.len() as int) =~= to_remove@);
}

} // verus!
