//! Hit points, and what happens when they run out.

use vstd::prelude::*;

use crate::ecs::Storage;
use crate::event::{AppEvent, Entity};
use crate::systems::player::{Player, PlayerStatus};

verus! {

/// Health of an entity. A hit always takes one whole point, whatever has
/// hit. At zero the entity dies.
#[derive(Debug, Clone, Copy)]
pub struct Health {
    /// Current value of health.
    current_health: i32,
    /// Maximum value of health.
    max_health: i32,
}

impl Health {
    pub closed spec fn current(&self) -> int {
        self.current_health as int
    }

    pub closed spec fn max(&self) -> int {
        self.max_health as int
    }

    /// The health after one hit.
    pub closed spec fn damaged(self) -> Health {
        Health { current_health: (self.current_health - 1) as i32, max_health: self.max_health }
    }

    /// A hit takes one point and leaves the maximum.
    pub proof fn lemma_damaged(self)
        requires
            self.current() > i32::MIN,
        ensures
            self.damaged().current() == self.current() - 1,
            self.damaged().max() == self.max(),
    {
    }

    /// The entity with this health has died.
    pub open spec fn dead(self) -> bool {
        self.current() <= 0
    }

    /// Full health of `max_health` points.
    pub closed spec fn spec_new(max_health: i32) -> Health {
        Health { current_health: max_health, max_health }
    }

    /// Full health has as many points as its maximum.
    pub proof fn lemma_spec_new(max_health: i32)
        ensures
            Health::spec_new(max_health).current() == max_health,
            Health::spec_new(max_health).max() == max_health,
    {
    }

    /// A health component that starts full.
    pub fn new(max_health: i32) -> (r: Self)
        ensures
            r == Health::spec_new(max_health),
            r.current() == max_health,
            r.max() == max_health,
    {
        Self { current_health: max_health, max_health }
    }

    pub fn current_health(&self) -> (r: i32)
        ensures
            r == self.current(),
    {
        self.current_health
    }

    pub fn max_health(&self) -> (r: i32)
        ensures
            r == self.max(),
    {
        self.max_health
    }
}

/// The healths after `entity` has been hit: an entity without health ignores
/// the hit.
pub open spec fn hit_healths(healths: Map<Entity, Health>, entity: Entity) -> Map<Entity, Health> {
    if healths.dom().contains(entity) {
        healths.insert(entity, healths[entity].damaged())
    } else {
        healths
    }
}

/// The hit kills `entity`.
pub open spec fn hit_kills(healths: Map<Entity, Health>, entity: Entity) -> bool {
    healths.dom().contains(entity) && healths[entity].damaged().dead()
}

/// The players after `entity` has been hit: for a player that the hit kills,
/// the game is over.
pub open spec fn hit_players(
    healths: Map<Entity, Health>,
    players: Map<Entity, Player>,
    entity: Entity,
) -> Map<Entity, Player> {
    if hit_kills(healths, entity) && players.dom().contains(entity) {
        players.insert(entity, Player { state: PlayerStatus::GameOver })
    } else {
        players
    }
}

/// What the hit of `entity` sends: the end of the game where it kills a
/// player, the death of the entity where it kills anything else, and nothing
/// where it does not kill.
pub open spec fn hit_events(
    healths: Map<Entity, Health>,
    players: Map<Entity, Player>,
    entity: Entity,
) -> Seq<AppEvent> {
    if hit_kills(healths, entity) {
        if players.dom().contains(entity) {
            seq![AppEvent::GameOver]
        } else {
            seq![AppEvent::EnemyDied(entity)]
        }
    } else {
        seq![]
    }
}

/// Healths, players and events sent, once the hits among `events` have been
/// taken in their order.
pub open spec fn after_hits(
    healths: Map<Entity, Health>,
    players: Map<Entity, Player>,
    events: Seq<AppEvent>,
) -> (Map<Entity, Health>, Map<Entity, Player>, Seq<AppEvent>)
    decreases events.len(),
{
    if events.len() == 0 {
        (healths, players, seq![])
    } else {
        let (h, p, sent) = after_hits(healths, players, events.drop_last());
        match events.last() {
            AppEvent::EntityHit(e) => (
                hit_healths(h, e),
                hit_players(h, p, e),
                sent + hit_events(h, p, e),
            ),
            _ => (h, p, sent),
        }
    }
}

/// How many of `events` are hits of `entity`.
pub open spec fn hits_on(events: Seq<AppEvent>, entity: Entity) -> nat
    decreases events.len(),
{
    if events.len() == 0 {
        0
    } else if events[0] == AppEvent::EntityHit(entity) {
        1 + hits_on(events.skip(1), entity)
    } else {
        hits_on(events.skip(1), entity)
    }
}

/// No health is so low that the hits of its entity among `events` could not
/// be counted on it.
pub open spec fn can_take(healths: Map<Entity, Health>, events: Seq<AppEvent>) -> bool {
    forall|e: Entity|
        healths.dom().contains(e) ==> #[trigger] healths[e].current() - hits_on(events, e)
            >= i32::MIN
}

/// Takes the hits and announces the deaths.
#[derive(Debug, Clone, Copy, Default)]
pub struct HealthSystem;

impl HealthSystem {
    pub fn new() -> (r: Self) {
        Self
    }

    /// Counts the hits of `entity` among `events`.
    fn count_hits(&self, events: &Vec<AppEvent>, entity: Entity) -> (r: usize)
        ensures
            r == hits_on(events@, entity),
    {
        let mut count: usize = 0;
        let len = events.len();
        let mut i: usize = len;
        assert(events@.skip(i as int).len() == 0);
        while i > 0
            invariant
                len == events@.len(),
                i <= events@.len(),
                count == hits_on(events@.skip(i as int), entity),
                count <= events@.len() - i,
            decreases i,
        {
            i -= 1;
            proof {
                let rest = events@.skip(i as int);
                assert(rest[0] == events@[i as int]);
                assert(rest.skip(1) =~= events@.skip(i as int + 1));
            }
            if let AppEvent::EntityHit(e) = &events[i] {
                if e.id == entity.id {
                    count += 1;
                }
            }
        }
        assert(events@.skip(0) =~= events@);
        count
    }

    /// Tells whether the hits among `events` can be counted on the healths
    /// of their entities.
    pub fn can_run(&self, healths: &Storage<Health>, events: &Vec<AppEvent>) -> (r: bool)
        ensures
            r == can_take(healths@, events@),
    {
        let bound = healths.bound();
        let mut id: usize = 0;
        while id < bound
            invariant
                id <= bound,
                forall|e: Entity| healths@.dom().contains(e) ==> e.id < bound,
                forall|e: Entity|
                    healths@.dom().contains(e) && e.id < id ==> #[trigger] healths@[e].current()
                        - hits_on(events@, e) >= i32::MIN,
            decreases bound - id,
        {
            let entity = Entity { id };
            if let Some(health) = healths.get(entity) {
                let hits = self.count_hits(events, entity);
                if (health.current_health as i128) - (hits as i128) < i32::MIN as i128 {
                    assert(healths@.dom().contains(entity));
                    assert(healths@[entity].current() - hits_on(events@, entity) < i32::MIN);
                    return false;
                }
            }
            assert(forall|e: Entity| e.id == id ==> e == entity);
            id += 1;
        }
        true
    }

    /// Decreases the health of the entity that has been hit by one point.
    /// At zero the entity has died: for the player the game is over, for any
    /// other entity its death is announced. The events to send are returned;
    /// the entity itself is removed elsewhere.
    pub fn process_hit(
        &self,
        entity: Entity,
        health_storage: &mut Storage<Health>,
        players: &mut Storage<Player>,
    ) -> (to_send: Vec<AppEvent>)
        requires
            old(health_storage)@.dom().contains(entity) ==> old(health_storage)@[entity].current()
                > i32::MIN,
        ensures
            final(health_storage)@ == hit_healths(old(health_storage)@, entity),
            final(players)@ == hit_players(old(health_storage)@, old(players)@, entity),
            to_send@ == hit_events(old(health_storage)@, old(players)@, entity),
    {
        let mut to_send: Vec<AppEvent> = Vec::new();
        let mut died = false;
        if let Some(h) = health_storage.get_mut(entity) {
            h.current_health -= 1;
            died = h.current_health <= 0;
        }
        if died {
            // Is that the player?
            if let Some(p) = players.get_mut(entity) {
                p.state = PlayerStatus::GameOver;
                to_send.push(AppEvent::GameOver);
            } else {
                to_send.push(AppEvent::EnemyDied(entity));
            }
        }
        assert(to_send@ =~= hit_events(old(health_storage)@, old(players)@, entity));
        to_send
    }

    /// One tick: takes every hit among `events`, in their order, and returns
    /// the events to send.
    pub fn run(
        &mut self,
        healths: &mut Storage<Health>,
        players: &mut Storage<Player>,
        events: &Vec<AppEvent>,
    ) -> (events_to_send: Vec<AppEvent>)
        requires
            can_take(old(healths)@, events@),
        ensures
            final(healths)@ == after_hits(old(healths)@, old(players)@, events@).0,
            final(players)@ == after_hits(old(healths)@, old(players)@, events@).1,
            events_to_send@ == after_hits(old(healths)@, old(players)@, events@).2,
    {
        let mut events_to_send: Vec<AppEvent> = Vec::new();
        let mut i: usize = 0;
        assert(events@.skip(0) =~= events@);
        while i < events.len()
            invariant
                i <= events@.len(),
                can_take(healths@, events@.skip(i as int)),
                healths@ == after_hits(old(healths)@, old(players)@, events@.take(i as int)).0,
                players@ == after_hits(old(healths)@, old(players)@, events@.take(i as int)).1,
                events_to_send@ == after_hits(old(healths)@, old(players)@, events@.take(i as int)).2,
            decreases events@.len() - i,
        {
            proof {
                assert(events@.take(i as int + 1).drop_last() =~= events@.take(i as int));
            }
            let ghost before = healths@;
            proof {
                let rest = events@.skip(i as int);
                assert(rest[0] == events@[i as int]);
                assert(rest.skip(1) =~= events@.skip(i as int + 1));
            }
            if let AppEvent::EntityHit(e) = &events[i] {
                assert(before.dom().contains(*e) ==> before[*e].current() - hits_on(
                    events@.skip(i as int),
                    *e,
                ) >= i32::MIN);
                let mut to_send = self.process_hit(*e, healths, players);
                events_to_send.append(&mut to_send);
                proof {
                    if before.dom().contains(*e) {
                        before[*e].lemma_damaged();
                    }
                    assert forall|o: Entity| healths@.dom().contains(o) implies #[trigger] healths@[o].current()
                        - hits_on(events@.skip(i as int + 1), o) >= i32::MIN by {
                        assert(before.dom().contains(o));
                        assert(before[o].current() - hits_on(events@.skip(i as int), o) >= i32::MIN);
                    }
                }
            } else {
                assert forall|o: Entity| healths@.dom().contains(o) implies #[trigger] healths@[o].current()
                    - hits_on(events@.skip(i as int + 1), o) >= i32::MIN by {
                    assert(before[o].current() - hits_on(events@.skip(i as int), o) >= i32::MIN);
                }
            }
            i += 1;
        }
        assert(events@.take(events@.len() as int) =~= events@);
        events_to_send
    }
}

/// Two hits on an entity with two points of health that is no player: the
/// first leaves one point and sends nothing, the second leaves none and
/// announces the death, once. The game is not over.
pub proof fn lemma_two_hits_kill_once(
    healths: Map<Entity, Health>,
    players: Map<Entity, Player>,
    entity: Entity,
)
    requires
        healths.dom().contains(entity),
        healths[entity].current() == 2,
        !players.dom().contains(entity),
    ensures
        ({
            let hits = seq![AppEvent::EntityHit(entity), AppEvent::EntityHit(entity)];
            let after = after_hits(healths, players, hits);
            &&& can_take(healths, hits)
            &&& after.0.dom().contains(entity)
            &&& after.0[entity].current() == 0
            &&& after.1 == players
            &&& after.2 == seq![AppEvent::EnemyDied(entity)]
        }),
{
    let hit = AppEvent::EntityHit(entity);
    let hits = seq![hit, hit];
    let one = hits.drop_last();
    assert(one.drop_last().len() == 0);
    assert(one.last() == hit);
    assert(hits.last() == hit);
    healths[entity].lemma_damaged();
    let first = after_hits(healths, players, one);
    assert(after_hits(healths, players, one.drop_last()) == (healths, players, Seq::<AppEvent>::empty()));
    assert(first.0 == hit_healths(healths, entity));
    assert(first.0[entity].current() == 1);
    first.0[entity].lemma_damaged();
    assert(first.2 =~= seq![]);
    assert(first.1 == players);
    let after = after_hits(healths, players, hits);
    assert(after.2 =~= seq![AppEvent::EnemyDied(entity)]);
    assert forall|o: Entity| healths.dom().contains(o) implies #[trigger] healths[o].current()
        - hits_on(hits, o) >= i32::MIN by {
        let rest = hits.skip(1);
        assert(rest[0] == hit);
        assert(rest.skip(1).len() == 0);
        assert(hits_on(rest.skip(1), o) == 0);
        assert(hits_on(rest, o) == (if o == entity {
            1nat
        } else {
            0nat
        }));
        assert(hits[0] == hit);
        assert(hits_on(hits, o) == (if o == entity {
            2nat
        } else {
            0nat
        }));
    }
}

} // verus!
