//! The simple enemy: it walks towards the player, and shoots at fixed
//! intervals.

use vstd::prelude::*;

use crate::components::{ArenaState, Components};
use crate::config::SimpleEnemyConfig;
use crate::ecs::Entities;
use crate::error::GameError;
use crate::event::Entity;
use crate::geometry::{Direction, Position};
use crate::objects::enemy::{EnemyUpdate, Movement};
use crate::systems::animation::AnimationKey;
use crate::systems::bullet::{
    enemy_bullet_targets, with_bullet, BulletSpawner, BULLET_TURN, SIMPLE_BULLET_IDX,
};
use crate::systems::world::MyCollisionWorld;

verus! {

/// What a simple enemy is doing.
#[derive(Debug, Clone, Copy, PartialEq, Eq, Structural)]
pub enum EnemyStatus {
    Walking,
    /// The enemy shoots. This lasts one tick.
    Shooting,
    /// The enemy has shot, and the shooting animation still plays.
    PostShooting,
}

/// A simple enemy. Durations are in milliseconds, speeds in thousandths of a
/// world unit: per second for the bullet, per tick for the walk.
#[derive(Debug, Clone, Copy, PartialEq, Eq, Structural)]
pub struct SimpleEnemy {
    /// How fast its bullet flies.
    pub bullet_speed: u32,
    /// How fast it walks.
    pub walk_speed: u32,
    /// What the enemy is doing.
    pub state: EnemyStatus,
    /// How long the enemy has been doing it.
    pub current_state_duration: u32,
    /// How long the enemy walks.
    pub walk_duration: u32,
    /// How long the enemy shoots. This is the length of the shooting
    /// animation.
    pub shoot_duration: u32,
}

impl SimpleEnemy {
    pub open spec fn spec_default() -> SimpleEnemy {
        SimpleEnemy {
            bullet_speed: 100_000,
            state: EnemyStatus::Walking,
            walk_speed: 200,
            current_state_duration: 0,
            walk_duration: 3000,
            shoot_duration: 300,
        }
    }

    /// The enemy that the configuration describes. It starts walking.
    pub open spec fn spec_from_config(config: SimpleEnemyConfig) -> SimpleEnemy {
        SimpleEnemy {
            bullet_speed: config.bullet_speed,
            walk_speed: config.walk_speed,
            walk_duration: config.walk_duration,
            shoot_duration: config.shoot_duration,
            ..SimpleEnemy::spec_default()
        }
    }

    pub fn from_config(config: &SimpleEnemyConfig) -> (r: Self)
        ensures
            r == SimpleEnemy::spec_from_config(*config),
    {
        let base = SimpleEnemy::default();
        Self {
            bullet_speed: config.bullet_speed,
            walk_duration: config.walk_duration,
            shoot_duration: config.shoot_duration,
            walk_speed: config.walk_speed,
            state: base.state,
            current_state_duration: base.current_state_duration,
        }
    }

    /// The enemy with the state `state`, which it has just entered.
    pub open spec fn entering(self, state: EnemyStatus) -> SimpleEnemy {
        SimpleEnemy { state, current_state_duration: 0, ..self }
    }

    /// The enemy with `time_delta` more milliseconds spent in its state.
    pub open spec fn staying(self, time_delta: u32) -> SimpleEnemy {
        SimpleEnemy {
            current_state_duration: (self.current_state_duration + time_delta) as u32,
            ..self
        }
    }

    /// The enemy after a tick of `time_delta` milliseconds. It walks for
    /// `walk_duration`, shoots for one tick, holds for `shoot_duration`, and
    /// walks again.
    pub open spec fn tick(self, time_delta: u32) -> SimpleEnemy {
        match self.state {
            EnemyStatus::Walking => {
                if self.current_state_duration + time_delta >= self.walk_duration {
                    self.entering(EnemyStatus::Shooting)
                } else {
                    self.staying(time_delta)
                }
            },
            EnemyStatus::Shooting => self.entering(EnemyStatus::PostShooting),
            EnemyStatus::PostShooting => {
                if self.current_state_duration + time_delta >= self.shoot_duration {
                    self.entering(EnemyStatus::Walking)
                } else {
                    self.staying(time_delta)
                }
            },
        }
    }

    /// The animation that the enemy shows in a tick, given the one it showed
    /// before and the direction to the player.
    pub open spec fn animation(
        self,
        previous: Option<AnimationKey>,
        direction: Direction,
    ) -> Option<AnimationKey> {
        match self.state {
            EnemyStatus::Walking => walking_animation(direction),
            _ => shooting_animation(previous),
        }
    }

    /// Moves on in time by `time_delta` milliseconds.
    pub fn advance(&mut self, time_delta: u32)
        ensures
            *final(self) == old(self).tick(time_delta),
    {
        let elapsed: u64 = self.current_state_duration as u64 + time_delta as u64;
        match self.state {
            EnemyStatus::Walking => {
                // state transition if walked too long
                if elapsed >= self.walk_duration as u64 {
                    self.state = EnemyStatus::Shooting;
                    self.current_state_duration = 0;
                } else {
                    self.current_state_duration = elapsed as u32;
                }
            },
            EnemyStatus::Shooting => {
                self.current_state_duration = 0;
                self.state = EnemyStatus::PostShooting;
            },
            EnemyStatus::PostShooting => {
                if elapsed >= self.shoot_duration as u64 {
                    self.current_state_duration = 0;
                    self.state = EnemyStatus::Walking;
                } else {
                    self.current_state_duration = elapsed as u32;
                }
            },
        }
    }
}

impl Default for SimpleEnemy {
    fn default() -> (r: Self)
        ensures
            r == SimpleEnemy::spec_default(),
    {
        Self {
            bullet_speed: 100_000,
            state: EnemyStatus::Walking,
            walk_speed: 200,
            current_state_duration: 0,
            walk_duration: 3000,
            shoot_duration: 300,
        }
    }
}

/// How long a part of a direction is, whatever its sign.
pub open spec fn spec_abs(n: i64) -> int {
    if n < 0 {
        -n
    } else {
        n as int
    }
}

/// The animation of an enemy that walks in `direction`: the walk along the
/// axis on which the direction is longer, to the side to which it points.
/// Where both parts are equally long, the horizontal one counts. An enemy
/// that stands on its target shows none.
pub open spec fn walking_animation(direction: Direction) -> Option<AnimationKey> {
    if spec_abs(direction.x) >= spec_abs(direction.y) {
        if direction.x < 0 {
            Some(AnimationKey::WalkLeft)
        } else if direction.x > 0 {
            Some(AnimationKey::WalkRight)
        } else {
            None
        }
    } else if direction.y > 0 {
        Some(AnimationKey::WalkUp)
    } else {
        Some(AnimationKey::WalkDown)
    }
}

/// The animation of an enemy that shoots: the shooting animation, unless the
/// enemy faced up before, where the shot is not shown.
pub open spec fn shooting_animation(previous: Option<AnimationKey>) -> Option<AnimationKey> {
    if previous == Some(AnimationKey::WalkUp) {
        None
    } else {
        Some(AnimationKey::Shoot)
    }
}

pub fn choose_walking_animation(direction: &Direction) -> (r: Option<AnimationKey>)
    ensures
        r == walking_animation(*direction),
{
    let x: i128 = if direction.x < 0 {
        -(direction.x as i128)
    } else {
        direction.x as i128
    };
    let y: i128 = if direction.y < 0 {
        -(direction.y as i128)
    } else {
        direction.y as i128
    };
    if x >= y {
        if direction.x < 0 {
            Some(AnimationKey::WalkLeft)
        } else if direction.x > 0 {
            Some(AnimationKey::WalkRight)
        } else {
            None
        }
    } else if direction.y > 0 {
        Some(AnimationKey::WalkUp)
    } else {
        Some(AnimationKey::WalkDown)
    }
}

pub fn choose_shooting_animation(previous: Option<AnimationKey>) -> (r: Option<AnimationKey>)
    ensures
        r == shooting_animation(previous),
{
    match previous {
        Some(AnimationKey::WalkUp) => None,
        _ => Some(AnimationKey::Shoot),
    }
}

/// What a tick of `delta_time` milliseconds does for the simple enemy at `t`,
/// with the player at `player` and `kinds` kinds of bullets known: the enemy
/// that results, the arena that results, and what is to be done about it.
/// While it walks, the enemy moves towards the player. When it shoots, the
/// arena has one more bullet, which flies from the enemy towards the player;
/// if no kind of bullet is known, it has an error instead.
pub open spec fn simple_update(
    enemy: SimpleEnemy,
    kinds: usize,
    arena: ArenaState,
    delta_time: u32,
    t: Position,
    previous: Option<AnimationKey>,
    player: Position,
) -> (SimpleEnemy, ArenaState, EnemyUpdate) {
    let direction = t.towards(player);
    let shot = enemy.state == EnemyStatus::Shooting;
    (
        enemy.tick(delta_time),
        if shot && SIMPLE_BULLET_IDX < kinds {
            with_bullet(
                arena,
                t,
                direction,
                enemy.bullet_speed,
                Some(BULLET_TURN),
                enemy_bullet_targets(),
            )
        } else {
            arena
        },
        EnemyUpdate {
            movement: if enemy.state == EnemyStatus::Walking {
                Some(Movement { direction, speed: enemy.walk_speed })
            } else {
                None
            },
            animation: enemy.animation(previous, direction),
            spawned: if shot && SIMPLE_BULLET_IDX < kinds {
                Some(arena.next_entity())
            } else {
                None
            },
            error: if shot && SIMPLE_BULLET_IDX >= kinds {
                Some(GameError::BulletNotFound { idx: SIMPLE_BULLET_IDX })
            } else {
                None
            },
        },
    )
}

impl SimpleEnemy {
    /// One tick of the enemy at `t`. The enemy is in one of three states.
    /// Walking, it goes towards the player. Shooting takes one tick: a bullet
    /// leaves towards the player. After the shot the enemy holds still while
    /// the shooting animation plays.
    pub fn update(
        &mut self,
        delta_time: u32,
        t: &Position,
        previous_animation: Option<AnimationKey>,
        player_vec: &Position,
        bullet_spawner: &BulletSpawner,
        entities: &mut Entities,
        updater: &mut Components,
        collision: &mut MyCollisionWorld,
    ) -> (r: EnemyUpdate)
        requires
            old(collision).wf(),
        ensures
            final(collision).wf(),
            (
                *final(self),
                ArenaState {
                    entities: final(entities)@,
                    components: final(updater)@,
                    world: final(collision)@,
                },
                r,
            ) == simple_update(
                *old(self),
                bullet_spawner.spec_kinds(),
                ArenaState {
                    entities: old(entities)@,
                    components: old(updater)@,
                    world: old(collision)@,
                },
                delta_time,
                *t,
                previous_animation,
                *player_vec,
            ),
    {
        let direction = t.direction_to(player_vec);
        let mut movement: Option<Movement> = None;
        let mut spawned: Option<Entity> = None;
        let mut error: Option<GameError> = None;
        let animation;
        match self.state {
            EnemyStatus::Walking => {
                movement = Some(Movement { direction, speed: self.walk_speed });
                animation = choose_walking_animation(&direction);
            },
            EnemyStatus::Shooting => {
                // shoot at the player
                match bullet_spawner.spawn_enemy_bullet(
                    entities,
                    updater,
                    collision,
                    SIMPLE_BULLET_IDX,
                    *t,
                    direction,
                    self.bullet_speed,
                ) {
                    Ok(bullet) => {
                        spawned = Some(bullet);
                    },
                    Err(e) => {
                        error = Some(e);
                    },
                }
                // the shot is only shown when the enemy does not face up
                animation = choose_shooting_animation(previous_animation);
            },
            EnemyStatus::PostShooting => {
                animation = choose_shooting_animation(previous_animation);
            },
        }
        self.advance(delta_time);
        EnemyUpdate { movement, animation, spawned, error }
    }
}

} // verus!
