//! The attacks of the player. The player aims with the mouse and shoots on a
//! click.

use vstd::prelude::*;

use crate::components::{ArenaState, Components, ComponentsState};
use crate::ecs::Entities;
use crate::error::{GameError, GameResult};
use crate::event::Entity;
use crate::geometry::Direction;
use crate::systems::bullet::{player_bullet_targets, with_bullet, BulletSpawner, SIMPLE_BULLET_IDX};
use crate::systems::world::MyCollisionWorld;

verus! {

/// Milliseconds between two shots of a weapon that has not been configured.
pub const DEFAULT_RELOAD_TIME: u32 = 1000;

/// Speed of the bullets of the player, in thousandths of a world unit per
/// second.
pub const PLAYER_BULLET_SPEED: u32 = 100_000;

/// What the weapon is, as numbers. Both are in milliseconds.
pub ghost struct WeaponState {
    /// Time before the weapon can shoot.
    pub time_before_shooting: nat,
    /// Time that the weapon waits after a shot.
    pub reload_time: nat,
}

impl WeaponState {
    /// The weapon after `time_delta` milliseconds without a shot.
    pub open spec fn cooled(self, time_delta: u32) -> WeaponState {
        WeaponState {
            time_before_shooting: if self.time_before_shooting > time_delta {
                (self.time_before_shooting - time_delta) as nat
            } else {
                0
            },
            ..self
        }
    }

    /// The weapon can shoot.
    pub open spec fn ready(self) -> bool {
        self.time_before_shooting == 0
    }

    /// The weapon after a shot.
    pub open spec fn reloading(self) -> WeaponState {
        WeaponState { time_before_shooting: self.reload_time, ..self }
    }

    /// The weapon after a tick of `time_delta` milliseconds in which the
    /// trigger is held or not: the time runs first, and a weapon that is then
    /// ready shoots if the trigger is held.
    pub open spec fn tick(self, time_delta: u32, trigger: bool) -> WeaponState {
        if trigger && self.cooled(time_delta).ready() {
            self.cooled(time_delta).reloading()
        } else {
            self.cooled(time_delta)
        }
    }

    /// The weapon shoots in that tick.
    pub open spec fn shoots(self, time_delta: u32, trigger: bool) -> bool {
        trigger && self.cooled(time_delta).ready()
    }
}

#[derive(Debug, Clone, Copy)]
pub struct Weapon {
    /// Time before the weapon can shoot, in milliseconds.
    time_before_shooting: u32,
    /// Time that the weapon waits after a shot, in milliseconds.
    reload_time: u32,
}

impl View for Weapon {
    type V = WeaponState;

    closed spec fn view(&self) -> WeaponState {
        WeaponState {
            time_before_shooting: self.time_before_shooting as nat,
            reload_time: self.reload_time as nat,
        }
    }
}

impl Default for Weapon {
    fn default() -> (r: Self)
        ensures
            r == Weapon::spec_default(),
            r@ == (WeaponState {
                time_before_shooting: 0,
                reload_time: DEFAULT_RELOAD_TIME as nat,
            }),
    {
        Self { time_before_shooting: 0, reload_time: DEFAULT_RELOAD_TIME }
    }
}

impl Weapon {
    pub closed spec fn spec_default() -> Weapon {
        Weapon { time_before_shooting: 0, reload_time: DEFAULT_RELOAD_TIME }
    }

    /// The weapon after a tick of `time_delta` milliseconds with the trigger
    /// held or not.
    pub closed spec fn pulled(self, time_delta: u32, trigger: bool) -> Weapon {
        let next = self@.tick(time_delta, trigger);
        Weapon {
            time_before_shooting: next.time_before_shooting as u32,
            reload_time: self.reload_time,
        }
    }

    /// The weapon shoots in that tick.
    pub closed spec fn shoots(self, time_delta: u32, trigger: bool) -> bool {
        self@.shoots(time_delta, trigger)
    }

    /// What `pulled`, `shoots` and `spec_default` are, as numbers.
    pub proof fn lemma_pulled(self, time_delta: u32, trigger: bool)
        ensures
            self.pulled(time_delta, trigger)@ == self@.tick(time_delta, trigger),
            self.shoots(time_delta, trigger) == self@.shoots(time_delta, trigger),
            Weapon::spec_default()@ == (WeaponState {
                time_before_shooting: 0,
                reload_time: DEFAULT_RELOAD_TIME as nat,
            }),
    {
    }

    pub fn new(reload_time: u32) -> (r: Self)
        ensures
            r@ == (WeaponState { time_before_shooting: 0, reload_time: reload_time as nat }),
    {
        Self { time_before_shooting: 0, reload_time }
    }

    pub fn time_before_shooting(&self) -> (r: u32)
        ensures
            r == self@.time_before_shooting,
    {
        self.time_before_shooting
    }

    pub fn reload_time(&self) -> (r: u32)
        ensures
            r == self@.reload_time,
    {
        self.reload_time
    }

    /// One tick of `time_delta` milliseconds with the trigger held or not.
    /// The result tells whether the weapon shoots.
    pub fn pull(&mut self, time_delta: u32, trigger: bool) -> (shoots: bool)
        ensures
            final(self)@ == old(self)@.tick(time_delta, trigger),
            *final(self) == old(self).pulled(time_delta, trigger),
            shoots == old(self)@.shoots(time_delta, trigger),
            shoots == old(self).shoots(time_delta, trigger),
    {
        self.time_before_shooting = if self.time_before_shooting > time_delta {
            self.time_before_shooting - time_delta
        } else {
            0
        };
        if trigger && self.time_before_shooting == 0 {
            self.time_before_shooting = self.reload_time;
            true
        } else {
            false
        }
    }
}

/// `entity` is a player with a position and a weapon.
pub open spec fn armed(components: ComponentsState, entity: Entity) -> bool {
    &&& components.players.dom().contains(entity)
    &&& components.transforms.dom().contains(entity)
    &&& components.weapons.dom().contains(entity)
}

/// `entity` is the one with the smallest id among the armed players.
pub open spec fn first_armed(components: ComponentsState, entity: Entity) -> bool {
    &&& armed(components, entity)
    &&& forall|other: Entity| armed(components, other) ==> entity.id <= other.id
}

/// What a tick of `time_delta` milliseconds does for the attack of `shooter`,
/// who aims in the direction `aim` while the trigger is held: the time of
/// the weapon runs, and a weapon that is then ready shoots if the trigger is
/// held. A shot is one more bullet of the player, which flies straight from
/// where the shooter stands; if no kind of bullet is known, it is an error instead. Either way
/// the weapon reloads.
pub open spec fn attack(
    kinds: usize,
    arena: ArenaState,
    shooter: Entity,
    aim: Option<Direction>,
    time_delta: u32,
) -> (ArenaState, Option<GameResult<Entity>>) {
    let weapon = arena.components.weapons[shooter];
    let reloaded = ArenaState {
        components: ComponentsState {
            weapons: arena.components.weapons.insert(
                shooter,
                weapon.pulled(time_delta, aim is Some),
            ),
            ..arena.components
        },
        ..arena
    };
    if weapon.shoots(time_delta, aim is Some) {
        if SIMPLE_BULLET_IDX < kinds {
            (
                with_bullet(
                    reloaded,
                    arena.components.transforms[shooter].translation,
                    aim.unwrap(),
                    PLAYER_BULLET_SPEED,
                    None,
                    player_bullet_targets(),
                ),
                Some(Ok(arena.next_entity())),
            )
        } else {
            (reloaded, Some(Err(GameError::BulletNotFound { idx: SIMPLE_BULLET_IDX })))
        }
    } else {
        (reloaded, None)
    }
}

/// Lets the player shoot.
#[derive(Debug, Clone, Copy, Default)]
pub struct AttackSystem;

impl AttackSystem {
    /// The armed player with the smallest id, if there is an armed player.
    pub fn shooter(&self, updater: &Components) -> (r: Option<Entity>)
        ensures
            match r {
                Some(entity) => first_armed(updater@, entity),
                None => forall|e: Entity| !armed(updater@, e),
            },
    {
        let bound = updater.players.bound();
        let mut id: usize = 0;
        while id < bound
            invariant
                id <= bound,
                forall|e: Entity| updater@.players.dom().contains(e) ==> e.id < bound,
                forall|e: Entity| e.id < id ==> !armed(updater@, e),
            decreases bound - id,
        {
            let entity = Entity { id };
            if updater.players.contains(entity) && updater.transforms.contains(entity)
                && updater.weapons.contains(entity) {
                return Some(entity);
            }
            assert(forall|e: Entity| e.id == id ==> e == entity);
            id += 1;
        }
        None
    }

    /// One tick of `time_delta` milliseconds for the attack of the first
    /// armed player. `aim` is where the player aims while the trigger is
    /// held, and nothing while it is not. The result is the bullet that was
    /// shot, or why none could be; nothing where no shot was due.
    pub fn run(
        &mut self,
        updater: &mut Components,
        aim: Option<Direction>,
        time_delta: u32,
        entities: &mut Entities,
        bullet_spawner: &BulletSpawner,
        collision_world: &mut MyCollisionWorld,
    ) -> (r: Option<GameResult<Entity>>)
        requires
            old(collision_world).wf(),
        ensures
            final(collision_world).wf(),
            forall|shooter: Entity|
                first_armed(old(updater)@, shooter) ==> (
                    ArenaState {
                        entities: final(entities)@,
                        components: final(updater)@,
                        world: final(collision_world)@,
                    },
                    r,
                ) == attack(
                    bullet_spawner.spec_kinds(),
                    ArenaState {
                        entities: old(entities)@,
                        components: old(updater)@,
                        world: old(collision_world)@,
                    },
                    shooter,
                    aim,
                    time_delta,
                ),
            forall|shooter: Entity|
                first_armed(old(updater)@, shooter) ==> {
                    &&& final(updater)@.weapons.dom().contains(shooter)
                    &&& (#[trigger] final(updater)@.weapons[shooter])@ == old(
                        updater,
                    )@.weapons[shooter]@.tick(time_delta, aim is Some)
                    &&& r is Some == old(updater)@.weapons[shooter]@.shoots(time_delta, aim is Some)
                },
            (forall|e: Entity| !armed(old(updater)@, e)) ==> {
                &&& r is None
                &&& final(entities)@ == old(entities)@
                &&& final(updater)@ == old(updater)@
                &&& final(collision_world)@ == old(collision_world)@
            },
    {
        let shooter = match self.shooter(updater) {
            Some(shooter) => shooter,
            None => {
                return None;
            },
        };
        assert forall|other: Entity| first_armed(updater@, other) implies other == shooter by {
            assert(other.id == shooter.id);
        }
        proof {
            updater@.weapons[shooter].lemma_pulled(time_delta, aim is Some);
        }
        let origin = match updater.transforms.get(shooter) {
            Some(origin) => origin.translation,
            None => {
                return None;
            },
        };
        let mut fire = false;
        if let Some(weapon) = updater.weapons.get_mut(shooter) {
            fire = weapon.pull(time_delta, aim.is_some());
        }
        if fire {
            if let Some(direction) = aim {
                return Some(
                    bullet_spawner.spawn_player_bullet(
                        entities,
                        updater,
                        collision_world,
                        SIMPLE_BULLET_IDX,
                        origin,
                        direction,
                        PLAYER_BULLET_SPEED,
                    ),
                );
            }
        }
        None
    }
}

} // verus!
