//! Cleanup of entities with their colliders.
//!
//! To delete an entity is to delete its collider too, if it has one. That
//! is done here, for the deaths that the events report.

use vstd::prelude::*;

use crate::ecs::{Entities, EntitiesState, Storage};
use crate::event::{AppEvent, Entity};
use crate::systems::collision::{died_in, Collider};
use crate::systems::world::MyCollisionWorld;
use crate::util::{
    delete_entity_with_collider, handles_of, lemma_removed_one_more, torn_down,
};

verus! {

#[derive(Debug, Clone, Copy, Default)]
pub struct GarbageSystem;

impl GarbageSystem {
    pub fn new() -> (r: Self) {
        Self
    }

    /// Destroys the entity and its collider.
    fn boum(
        &self,
        entity: Entity,
        entities: &mut Entities,
        collision_world: &mut MyCollisionWorld,
        colliders: &Storage<Collider>,
    )
        requires
            old(collision_world).wf(),
        ensures
            final(collision_world).wf(),
            final(collision_world)@ == torn_down(old(collision_world)@, colliders@, entity),
            final(entities)@ == (EntitiesState {
                alive: old(entities)@.alive.remove(entity),
                ..old(entities)@
            }),
    {
        delete_entity_with_collider(entity, colliders, entities, collision_world);
    }

    /// One tick: every enemy that `events` report dead is deleted, with its
    /// collider.
    pub fn run(
        &mut self,
        entities: &mut Entities,
        collision_world: &mut MyCollisionWorld,
        events: &Vec<AppEvent>,
        colliders: &Storage<Collider>,
    )
        requires
            old(collision_world).wf(),
        ensures
            final(collision_world).wf(),
            final(collision_world)@ == old(collision_world)@.without_all(
                handles_of(colliders@, died_in(events@).to_set()),
            ),
            final(entities)@ == (EntitiesState {
                alive: old(entities)@.alive.difference(died_in(events@).to_set()),
                ..old(entities)@
            }),
    {
        let ghost world = collision_world@;
        let ghost alive = entities@.alive;
        let mut i: usize = 0;
        proof {
            assert(died_in(events@.take(0)).to_set() =~= Set::<Entity>::empty());
            assert(handles_of(colliders@, Set::<Entity>::empty()) =~= Set::<usize>::empty());
            assert(world.objects.remove_keys(Set::<usize>::empty()) =~= world.objects);
            assert(alive.difference(Set::<Entity>::empty()) =~= alive);
        }
        while i < events.len()
            invariant
                i <= events@.len(),
                collision_world.wf(),
                collision_world@ == world.without_all(
                    handles_of(colliders@, died_in(events@.take(i as int)).to_set()),
                ),
                entities@.created == old(entities)@.created,
                entities@.alive == alive.difference(died_in(events@.take(i as int)).to_set()),
            decreases events@.len() - i,
        {
            proof {
                assert(events@.take(i as int + 1).drop_last() =~= events@.take(i as int));
            }
            match &events[i] {
                AppEvent::EnemyDied(e) => {
                    proof {
                        let gone = died_in(events@.take(i as int));
                        assert(died_in(events@.take(i as int + 1)) =~= gone.push(*e));
                        lemma_removed_one_more(world, alive, colliders@, gone, *e);
                    }
                    self.boum(*e, entities, collision_world, colliders)
                },
                _ => {
                    assert(died_in(events@.take(i as int + 1)) =~= died_in(events@.take(i as int)));
                },
            }
            i += 1;
        }
        assert(events@.take(events@.len() as int) =~= events@);
    }
}

} // verus!
