use vstd::prelude::*;

use crate::ecs::{Entities, EntitiesState, Storage};
use crate::event::{AppEvent, Entity};

verus! {

/// An event that is sent once `timeout` milliseconds have passed.
///
/// It is the only component of its entity: the scheduler deletes the entity
/// once the event has been sent, so the entity must not have a collider.
#[derive(Debug, PartialEq, Eq)]
pub struct ScheduledEvent {
    /// Time left until the event is sent, in milliseconds.
    pub timeout: u32,
    /// Event to fire.
    pub event: AppEvent,
}

impl ScheduledEvent {
    /// The event is sent by a tick of `delta` milliseconds.
    pub open spec fn fires(self, delta: u32) -> bool {
        self.timeout <= delta
    }

    /// The event after a tick of `delta` milliseconds that does not send it.
    pub open spec fn waited(self, delta: u32) -> ScheduledEvent {
        ScheduledEvent { timeout: (self.timeout - delta) as u32, event: self.event }
    }
}

/// The events that a tick of `delta` milliseconds sends, of the entities with
/// an id below `bound`, in the order of their ids.
pub open spec fn fired(scheduled: Map<Entity, ScheduledEvent>, delta: u32, bound: nat) -> Seq<
    AppEvent,
>
    decreases bound,
{
    if bound == 0 {
        seq![]
    } else {
        let entity = Entity { id: (bound - 1) as usize };
        let before = fired(scheduled, delta, (bound - 1) as nat);
        if scheduled.dom().contains(entity) && scheduled[entity].fires(delta) {
            before.push(scheduled[entity].event)
        } else {
            before
        }
    }
}

/// The entities whose event a tick of `delta` milliseconds sends.
pub open spec fn firing(scheduled: Map<Entity, ScheduledEvent>, delta: u32) -> Set<Entity> {
    Set::new(|e: Entity| scheduled.dom().contains(e) && scheduled[e].fires(delta))
}

/// The scheduled events that are left after a tick of `delta` milliseconds,
/// each with that much less time to wait.
pub open spec fn waiting(scheduled: Map<Entity, ScheduledEvent>, delta: u32) -> Map<
    Entity,
    ScheduledEvent,
> {
    Map::new(
        |e: Entity| scheduled.dom().contains(e) && !scheduled[e].fires(delta),
        |e: Entity| scheduled[e].waited(delta),
    )
}

/// Sends the scheduled events whose time has come.
#[derive(Debug, Clone, Copy, Default)]
pub struct Scheduler;

impl Scheduler {
    /// One tick of `delta` milliseconds. Every scheduled event has that much
    /// less time to wait. Those whose time is up are sent on `channel`, in
    /// the order of the ids of their entities, and their entities are
    /// deleted.
    pub fn run(
        &mut self,
        scheduled_events: &mut Storage<ScheduledEvent>,
        delta: u32,
        entities: &mut Entities,
        channel: &mut Vec<AppEvent>,
    )
        ensures
            final(scheduled_events)@ == waiting(old(scheduled_events)@, delta),
            final(channel)@ == old(channel)@ + fired(
                old(scheduled_events)@,
                delta,
                old(scheduled_events).capacity(),
            ),
            final(entities)@ == (EntitiesState {
                alive: old(entities)@.alive.difference(firing(old(scheduled_events)@, delta)),
                ..old(entities)@
            }),
    {
        let bound = scheduled_events.bound();
        let ghost scheduled = scheduled_events@;
        let mut id: usize = 0;
        assert(channel@ =~= old(channel)@ + fired(scheduled, delta, 0));
        assert(entities@.alive =~= old(entities)@.alive.difference(
            Set::new(|e: Entity| e.id < 0 && firing(scheduled, delta).contains(e)),
        ));
        while id < bound
            invariant
                id <= bound,
                forall|e: Entity| scheduled.dom().contains(e) ==> e.id < bound,
                scheduled_events@ == Map::new(
                    |e: Entity|
                        scheduled.dom().contains(e) && !(e.id < id && scheduled[e].fires(delta)),
                    |e: Entity|
                        if e.id < id {
                            scheduled[e].waited(delta)
                        } else {
                            scheduled[e]
                        },
                ),
                channel@ == old(channel)@ + fired(scheduled, delta, id as nat),
                entities@.created == old(entities)@.created,
                entities@.alive == old(entities)@.alive.difference(
                    Set::new(|e: Entity| e.id < id && firing(scheduled, delta).contains(e)),
                ),
            decreases bound - id,
        {
            let entity = Entity { id };
            let mut fire = false;
            if let Some(scheduled_event) = scheduled_events.get_mut(entity) {
                if scheduled_event.timeout <= delta {
                    fire = true;
                } else {
                    scheduled_event.timeout -= delta;
                }
            }
            if fire {
                if let Some(scheduled_event) = scheduled_events.remove(entity) {
                    channel.push(scheduled_event.event);
                }
                entities.delete(entity);
            }
            proof {
                assert(forall|e: Entity| e.id == id ==> e == entity);
                assert(scheduled_events@ =~= Map::new(
                    |e: Entity|
                        scheduled.dom().contains(e) && !(e.id < id + 1 && scheduled[e].fires(
                            delta,
                        )),
                    |e: Entity|
                        if e.id < id + 1 {
                            scheduled[e].waited(delta)
                        } else {
                            scheduled[e]
                        },
                ));
                assert(channel@ =~= old(channel)@ + fired(scheduled, delta, (id + 1) as nat));
                assert(entities@.alive =~= old(entities)@.alive.difference(
                    Set::new(|e: Entity| e.id < id + 1 && firing(scheduled, delta).contains(e)),
                ));
            }
            id += 1;
        }
        assert(scheduled_events@ =~= waiting(scheduled, delta));
        assert(Set::new(|e: Entity| e.id < id && firing(scheduled, delta).contains(e))
            =~= firing(scheduled, delta));
    }
}

} // verus!
