//! Spawning of enemies, on request, at the places that the map gives.

use vstd::prelude::*;

use rand::seq::SliceRandom;

use crate::components::{ArenaState, Components};
use crate::ecs::Entities;
use crate::event::{AppEvent, Entity};
use crate::geometry::Position;
use crate::objects::enemy::{with_enemy, EnemySpawner};
use crate::systems::enemy::EnemyType;
use crate::systems::world::MyCollisionWorld;
use crate::tilemap::Tilemap;

verus! {

/// `SliceRandom::choose` of rand, with the generator of the thread: of an
/// empty list it gives nothing, of any other list one of its items. Which one
/// is left to chance.
#[verifier::external_body]
fn choose_location(locations: &Vec<Position>) -> (r: Option<Position>)
    ensures
        locations@.len() == 0 ==> r is None,
        locations@.len() > 0 ==> r is Some && locations@.contains(r.unwrap()),
{
    locations.as_slice().choose(&mut rand::thread_rng()).copied()
}

/// The arena with one more enemy of the kind `enemy_type` at each of
/// `positions`, in their order.
pub open spec fn with_enemies(
    arena: ArenaState,
    spawner: EnemySpawner,
    enemy_type: EnemyType,
    positions: Seq<Position>,
) -> ArenaState
    decreases positions.len(),
{
    if positions.len() == 0 {
        arena
    } else {
        with_enemy(
            with_enemies(arena, spawner, enemy_type, positions.drop_last()),
            spawner.config(),
            enemy_type,
            positions.last(),
        )
    }
}

/// `chosen` is a choice of places for `count` simple enemies among
/// `locations`: one place for each enemy, each one of `locations`. Where
/// there is no place to choose from, or the spawner knows no simple enemy,
/// no place is chosen. A count below 1 asks for no enemy.
pub open spec fn picked(
    chosen: Seq<Position>,
    locations: Seq<Position>,
    spawner: EnemySpawner,
    count: i32,
) -> bool {
    &&& forall|i: int| 0 <= i < chosen.len() ==> locations.contains(#[trigger] chosen[i])
    &&& chosen.len() == (if locations.len() > 0 && spawner.knows(EnemyType::Simple) && count > 0 {
        count as nat
    } else {
        0
    })
}

/// The `count` entities that are created after those of `arena`.
pub open spec fn new_entities(arena: ArenaState, count: nat) -> Seq<Entity> {
    Seq::new(count, |k: int| Entity { id: (arena.entities.created + k) as usize })
}

/// `choices` holds a choice of places for each request for enemies among
/// `events`, and nothing for any other event.
pub open spec fn picked_all(
    choices: Seq<Seq<Position>>,
    locations: Seq<Position>,
    spawner: EnemySpawner,
    events: Seq<AppEvent>,
) -> bool {
    &&& choices.len() == events.len()
    &&& forall|i: int|
        0 <= i < events.len() ==> match #[trigger] events[i] {
            AppEvent::SpawnEnemy(count) => picked(choices[i], locations, spawner, count),
            _ => choices[i].len() == 0,
        }
}

/// The arena after the requests among `events` have been served in their
/// order, with the places `choices` for the enemies: a request for enemies
/// gives simple enemies at the places chosen for it, a request for the boss
/// gives the boss at `boss_spawn`, if the spawner knows the boss.
pub open spec fn spawn_run(
    arena: ArenaState,
    spawner: EnemySpawner,
    boss_spawn: Option<Position>,
    events: Seq<AppEvent>,
    choices: Seq<Seq<Position>>,
) -> ArenaState
    decreases events.len(),
{
    if events.len() == 0 || choices.len() == 0 {
        arena
    } else {
        let before = spawn_run(arena, spawner, boss_spawn, events.drop_last(), choices.drop_last());
        match events.last() {
            AppEvent::SpawnEnemy(_) => with_enemies(
                before,
                spawner,
                EnemyType::Simple,
                choices.last(),
            ),
            AppEvent::SpawnBoss => {
                if spawner.knows(EnemyType::CreepyFirstBoss) {
                    with_enemy(
                        before,
                        spawner.config(),
                        EnemyType::CreepyFirstBoss,
                        boss_spawn.unwrap(),
                    )
                } else {
                    before
                }
            },
            _ => before,
        }
    }
}

/// Some event asks for the boss.
pub open spec fn asks_for_boss(events: Seq<AppEvent>) -> bool {
    exists|i: int| 0 <= i < events.len() && events[i] is SpawnBoss
}

/// Spawns enemies when they are asked for.
#[derive(Debug, Clone, Copy, Default)]
pub struct SpawnSystem;

impl SpawnSystem {
    pub fn new() -> (r: Self) {
        Self
    }

    /// Spawns a simple enemy at `location`, if there is one. The result is
    /// the enemy, if one was spawned.
    pub fn spawn_at(
        &self,
        location: Option<Position>,
        spawner: &EnemySpawner,
        entities: &mut Entities,
        updater: &mut Components,
        collision: &mut MyCollisionWorld,
    ) -> (r: Option<Entity>)
        requires
            old(collision).wf(),
        ensures
            final(collision).wf(),
            match location {
                Some(position) => spawner.spawned(
                    ArenaState {
                        entities: old(entities)@,
                        components: old(updater)@,
                        world: old(collision)@,
                    },
                    ArenaState {
                        entities: final(entities)@,
                        components: final(updater)@,
                        world: final(collision)@,
                    },
                    r,
                    EnemyType::Simple,
                    position,
                ),
                None => {
                    &&& r is None
                    &&& final(entities)@ == old(entities)@
                    &&& final(updater)@ == old(updater)@
                    &&& final(collision)@ == old(collision)@
                },
            },
    {
        match location {
            Some(position) => spawner.spawn_enemy(
                entities,
                updater,
                collision,
                EnemyType::Simple,
                position,
            ),
            None => None,
        }
    }

    /// Spawns `count` simple enemies, each at one of `locations`, chosen at
    /// random and independently of the others. Returns the enemies, in the
    /// order in which they were spawned.
    pub fn spawn_enemies(
        &self,
        count: i32,
        locations: &Vec<Position>,
        spawner: &EnemySpawner,
        entities: &mut Entities,
        updater: &mut Components,
        collision: &mut MyCollisionWorld,
    ) -> (spawned: Vec<Entity>)
        requires
            old(collision).wf(),
        ensures
            final(collision).wf(),
            exists|chosen: Seq<Position>|
                {
                    &&& picked(chosen, locations@, *spawner, count)
                    &&& (ArenaState {
                        entities: final(entities)@,
                        components: final(updater)@,
                        world: final(collision)@,
                    }) == #[trigger] with_enemies(
                        ArenaState {
                            entities: old(entities)@,
                            components: old(updater)@,
                            world: old(collision)@,
                        },
                        *spawner,
                        EnemyType::Simple,
                        chosen,
                    )
                    &&& spawned@ == new_entities(
                        ArenaState {
                            entities: old(entities)@,
                            components: old(updater)@,
                            world: old(collision)@,
                        },
                        chosen.len(),
                    )
                },
    {
        let ghost before = ArenaState {
            entities: entities@,
            components: updater@,
            world: collision@,
        };
        let ghost mut chosen: Seq<Position> = seq![];
        let mut spawned: Vec<Entity> = Vec::new();
        let mut k: i32 = 0;
        let usable = locations.len() > 0 && spawner.can_spawn(EnemyType::Simple);
        assert(spawned@ =~= new_entities(before, 0));
        while k < count
            invariant
                0 <= k,
                count > 0 ==> k <= count,
                count <= 0 ==> k == 0,
                collision.wf(),
                usable == (locations@.len() > 0 && spawner.knows(EnemyType::Simple)),
                forall|i: int| 0 <= i < chosen.len() ==> locations@.contains(#[trigger] chosen[i]),
                chosen.len() == (if usable {
                    k as nat
                } else {
                    0
                }),
                (ArenaState { entities: entities@, components: updater@, world: collision@ })
                    == with_enemies(before, *spawner, EnemyType::Simple, chosen),
                entities@.created == before.entities.created + chosen.len(),
                spawned@ == new_entities(before, chosen.len()),
            decreases count - k,
        {
            let location = choose_location(locations);
            if let Some(entity) = self.spawn_at(location, spawner, entities, updater, collision) {
                spawned.push(entity);
                proof {
                    let position = location.unwrap();
                    assert(chosen.push(position).drop_last() =~= chosen);
                    assert(spawned@ =~= new_entities(before, chosen.len() + 1));
                    chosen = chosen.push(position);
                }
            }
            k += 1;
        }
        proof {
            assert(picked(chosen, locations@, *spawner, count));
        }
        spawned
    }

    /// One tick: serves every request among `events`, in their order. A
    /// request for enemies spawns that many simple enemies at places of the
    /// map, chosen at random; a request for the boss spawns the boss at the
    /// place that the map has for it. Returns the enemies, in the order in
    /// which they were spawned.
    ///
    /// A map without a place for the boss is a mistake of its author: such a
    /// map must not meet a request for the boss.
    pub fn run(
        &mut self,
        tilemap: &Tilemap,
        events: &Vec<AppEvent>,
        spawner: &EnemySpawner,
        entities: &mut Entities,
        updater: &mut Components,
        collision: &mut MyCollisionWorld,
    ) -> (spawned: Vec<Entity>)
        requires
            old(collision).wf(),
            asks_for_boss(events@) ==> tilemap.boss_spawn is Some,
        ensures
            final(collision).wf(),
            exists|choices: Seq<Seq<Position>>|
                {
                    &&& picked_all(choices, tilemap.spawn_locations@, *spawner, events@)
                    &&& (ArenaState {
                        entities: final(entities)@,
                        components: final(updater)@,
                        world: final(collision)@,
                    }) == #[trigger] spawn_run(
                        ArenaState {
                            entities: old(entities)@,
                            components: old(updater)@,
                            world: old(collision)@,
                        },
                        *spawner,
                        tilemap.boss_spawn,
                        events@,
                        choices,
                    )
                },
            final(entities)@.created >= old(entities)@.created,
            spawned@ == new_entities(
                ArenaState {
                    entities: old(entities)@,
                    components: old(updater)@,
                    world: old(collision)@,
                },
                (final(entities)@.created - old(entities)@.created) as nat,
            ),
    {
        let ghost before = ArenaState {
            entities: entities@,
            components: updater@,
            world: collision@,
        };
        let ghost mut choices: Seq<Seq<Position>> = seq![];
        let mut spawned: Vec<Entity> = Vec::new();
        let mut i: usize = 0;
        assert(spawned@ =~= new_entities(before, 0));
        while i < events.len()
            invariant
                i <= events@.len(),
                collision.wf(),
                asks_for_boss(events@) ==> tilemap.boss_spawn is Some,
                picked_all(choices, tilemap.spawn_locations@, *spawner, events@.take(i as int)),
                (ArenaState { entities: entities@, components: updater@, world: collision@ })
                    == spawn_run(before, *spawner, tilemap.boss_spawn, events@.take(i as int), choices),
                entities@.created >= before.entities.created,
                spawned@ == new_entities(
                    before,
                    (entities@.created - before.entities.created) as nat,
                ),
            decreases events@.len() - i,
        {
            let ghost now = ArenaState {
                entities: entities@,
                components: updater@,
                world: collision@,
            };
            let ghost mut choice: Seq<Position> = seq![];
            match &events[i] {
                AppEvent::SpawnEnemy(x) => {
                    let mut enemies = self.spawn_enemies(
                        *x,
                        &tilemap.spawn_locations,
                        spawner,
                        entities,
                        updater,
                        collision,
                    );
                    proof {
                        choice = choose|chosen: Seq<Position>|
                            {
                                &&& picked(chosen, tilemap.spawn_locations@, *spawner, *x)
                                &&& (ArenaState {
                                    entities: entities@,
                                    components: updater@,
                                    world: collision@,
                                }) == #[trigger] with_enemies(
                                    now,
                                    *spawner,
                                    EnemyType::Simple,
                                    chosen,
                                )
                                &&& enemies@ == new_entities(now, chosen.len())
                            };
                        lemma_with_enemies_created(now, *spawner, EnemyType::Simple, choice);
                    }
                    spawned.append(&mut enemies);
                    assert(spawned@ =~= new_entities(
                        before,
                        (entities@.created - before.entities.created) as nat,
                    ));
                },
                AppEvent::SpawnBoss => {
                    assert(asks_for_boss(events@));
                    if let Some(boss_spawn) = tilemap.boss_spawn {
                        if let Some(boss) = spawner.spawn_enemy(
                            entities,
                            updater,
                            collision,
                            EnemyType::CreepyFirstBoss,
                            boss_spawn,
                        ) {
                            spawned.push(boss);
                            assert(spawned@ =~= new_entities(
                                before,
                                (entities@.created - before.entities.created) as nat,
                            ));
                        }
                    }
                },
                _ => {},
            }
            proof {
                let next = events@.take(i as int + 1);
                assert(next.drop_last() =~= events@.take(i as int));
                assert(next.last() == events@[i as int]);
                assert(choices.push(choice).drop_last() =~= choices);
                assert(choices.push(choice).last() == choice);
                choices = choices.push(choice);
                assert forall|j: int| 0 <= j < next.len() implies match #[trigger] next[j] {
                    AppEvent::SpawnEnemy(count) => picked(
                        choices[j],
                        tilemap.spawn_locations@,
                        *spawner,
                        count,
                    ),
                    _ => choices[j].len() == 0,
                } by {
                    if j < i {
                        assert(next[j] == events@.take(i as int)[j]);
                    }
                }
            }
            i += 1;
        }
        assert(events@.take(events@.len() as int) =~= events@);
        spawned
    }
}

/// Each enemy spawned is one more entity created.
pub proof fn lemma_with_enemies_created(
    arena: ArenaState,
    spawner: EnemySpawner,
    enemy_type: EnemyType,
    positions: Seq<Position>,
)
    ensures
        with_enemies(arena, spawner, enemy_type, positions).entities.created
            == arena.entities.created + positions.len(),
    decreases positions.len(),
{
    if positions.len() > 0 {
        lemma_with_enemies_created(arena, spawner, enemy_type, positions.drop_last());
    }
}

} // verus!
