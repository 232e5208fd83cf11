//! The creepy first boss: a big blob that does not move. It waits, and then
//! throws bullets for a while.

use vstd::prelude::*;

use crate::components::{ArenaState, Components};
use crate::ecs::Entities;
use crate::error::GameError;
use crate::event::Entity;
use crate::geometry::{Direction, Position};
use crate::objects::enemy::EnemyUpdate;
use crate::systems::bullet::{
    enemy_bullet_targets, with_bullet, BulletSpawner, BULLET_TURN, SIMPLE_BULLET_IDX,
};
use crate::systems::animation::AnimationKey;
use crate::systems::world::MyCollisionWorld;

verus! {

/// What the boss is doing.
#[derive(Debug, Clone, Copy, PartialEq, Eq, Structural)]
pub enum BossStatus {
    Shooting,
    Waiting,
}

/// How far below its position the boss shoots from, in world units.
pub const BOSS_SHOOT_OFFSET: i32 = 25;

/// Speed of the bullets of the boss, in thousandths of a world unit per
/// second.
pub const BOSS_BULLET_SPEED: u32 = 50_000;

/// The boss. Durations are in milliseconds.
#[derive(Debug, Clone, Copy, PartialEq, Eq, Structural)]
pub struct CreepyFirstBoss {
    pub state: BossStatus,
    /// How long the boss has been in its state.
    pub current_state_duration: u32,
    pub shoot_duration: u32,
    pub wait_duration: u32,
    /// Ticks between two shots.
    pub frames_between_shot: u32,
    /// Ticks since the last shot.
    pub nb_frame: u32,
}

impl CreepyFirstBoss {
    pub open spec fn spec_default() -> CreepyFirstBoss {
        CreepyFirstBoss {
            state: BossStatus::Waiting,
            current_state_duration: 0,
            shoot_duration: 3000,
            wait_duration: 2000,
            frames_between_shot: 10,
            nb_frame: 0,
        }
    }

    /// The boss fires a bullet in this tick: it is shooting, and as many
    /// ticks as lie between two shots have passed since the last one.
    pub open spec fn fires(self) -> bool {
        self.state == BossStatus::Shooting && self.nb_frame >= self.frames_between_shot
    }

    /// The boss with the state `state`, which it has just entered: time and
    /// ticks are counted anew.
    pub open spec fn entering(self, state: BossStatus) -> CreepyFirstBoss {
        CreepyFirstBoss { state, current_state_duration: 0, nb_frame: 0, ..self }
    }

    /// The boss after a tick of `time_delta` milliseconds. It waits for
    /// `wait_duration`, then shoots for `shoot_duration`, and waits again.
    /// While it shoots it counts the ticks, and starts anew after each shot
    /// and when it goes back to waiting.
    pub open spec fn tick(self, time_delta: u32) -> CreepyFirstBoss {
        match self.state {
            BossStatus::Waiting => {
                if self.current_state_duration + time_delta >= self.wait_duration {
                    CreepyFirstBoss {
                        state: BossStatus::Shooting,
                        current_state_duration: 0,
                        ..self
                    }
                } else {
                    CreepyFirstBoss {
                        current_state_duration: (self.current_state_duration + time_delta) as u32,
                        ..self
                    }
                }
            },
            BossStatus::Shooting => {
                if self.current_state_duration + time_delta >= self.shoot_duration {
                    self.entering(BossStatus::Waiting)
                } else {
                    CreepyFirstBoss {
                        current_state_duration: (self.current_state_duration + time_delta) as u32,
                        nb_frame: if self.fires() {
                            0
                        } else {
                            (self.nb_frame + 1) as u32
                        },
                        ..self
                    }
                }
            },
        }
    }

    /// A boss with the given durations, in milliseconds, that fires every
    /// `frames_between_shot` ticks while it shoots. It starts waiting.
    pub fn new(shoot_duration: u32, wait_duration: u32, frames_between_shot: u32) -> (r: Self)
        ensures
            r == (CreepyFirstBoss {
                shoot_duration,
                wait_duration,
                frames_between_shot,
                ..CreepyFirstBoss::spec_default()
            }),
    {
        Self {
            state: BossStatus::Waiting,
            current_state_duration: 0,
            shoot_duration,
            wait_duration,
            frames_between_shot,
            nb_frame: 0,
        }
    }

    pub fn status(&self) -> (r: BossStatus)
        ensures
            r == self.state,
    {
        self.state
    }

    pub fn nb_frame(&self) -> (r: u32)
        ensures
            r == self.nb_frame,
    {
        self.nb_frame
    }

    pub fn current_state_duration(&self) -> (r: u32)
        ensures
            r == self.current_state_duration,
    {
        self.current_state_duration
    }

    /// Moves on in time by `time_delta` milliseconds. The result tells
    /// whether the boss fires a bullet in this tick.
    pub fn advance(&mut self, time_delta: u32) -> (fires: bool)
        ensures
            *final(self) == old(self).tick(time_delta),
            fires == old(self).fires(),
    {
        let elapsed: u64 = self.current_state_duration as u64 + time_delta as u64;
        match self.state {
            BossStatus::Waiting => {
                if elapsed >= self.wait_duration as u64 {
                    self.state = BossStatus::Shooting;
                    self.current_state_duration = 0;
                } else {
                    self.current_state_duration = elapsed as u32;
                }
                false
            },
            BossStatus::Shooting => {
                let fires = self.nb_frame >= self.frames_between_shot;
                if elapsed >= self.shoot_duration as u64 {
                    self.current_state_duration = 0;
                    self.nb_frame = 0;
                    self.state = BossStatus::Waiting;
                } else {
                    self.current_state_duration = elapsed as u32;
                    if fires {
                        // shoot at the player
                        self.nb_frame = 0;
                    } else {
                        self.nb_frame = self.nb_frame + 1;
                    }
                }
                fires
            },
        }
    }
}

impl Default for CreepyFirstBoss {
    fn default() -> (r: Self)
        ensures
            r == CreepyFirstBoss::spec_default(),
    {
        Self {
            state: BossStatus::Waiting,
            current_state_duration: 0,
            shoot_duration: 3000,
            wait_duration: 2000,
            frames_between_shot: 10,
            nb_frame: 0,
        }
    }
}

/// Where the boss at `t` shoots from: `BOSS_SHOOT_OFFSET` below, or at the
/// lower edge of the grid where that lies beyond it.
pub open spec fn shoot_location(t: Position) -> Position {
    Position {
        x: t.x,
        y: if t.y - BOSS_SHOOT_OFFSET >= i32::MIN {
            (t.y - BOSS_SHOOT_OFFSET) as i32
        } else {
            i32::MIN
        },
    }
}

/// The direction in which the boss shoots: straight down.
pub open spec fn shoot_direction() -> Direction {
    Direction { x: 0, y: -1i64 }
}

/// What a tick of `delta_time` milliseconds does for the boss at `t`, where
/// `kinds` kinds of bullets are known: the boss that results, the arena that
/// results, and what is to be done about it. Where the boss fires, the arena
/// has one more bullet, which leaves straight down from below the boss; if no
/// kind of bullet is known, it has an error instead. The boss does not move,
/// and shows what it showed before.
pub open spec fn boss_update(
    boss: CreepyFirstBoss,
    kinds: usize,
    arena: ArenaState,
    delta_time: u32,
    t: Position,
    previous: Option<AnimationKey>,
) -> (CreepyFirstBoss, ArenaState, EnemyUpdate) {
    let shot = boss.fires();
    (
        boss.tick(delta_time),
        if shot && SIMPLE_BULLET_IDX < kinds {
            with_bullet(
                arena,
                shoot_location(t),
                shoot_direction(),
                BOSS_BULLET_SPEED,
                Some(BULLET_TURN),
                enemy_bullet_targets(),
            )
        } else {
            arena
        },
        EnemyUpdate {
            movement: None,
            animation: previous,
            spawned: if shot && SIMPLE_BULLET_IDX < kinds {
                Some(arena.next_entity())
            } else {
                None
            },
            error: if shot && SIMPLE_BULLET_IDX >= kinds {
                Some(GameError::BulletNotFound { idx: SIMPLE_BULLET_IDX })
            } else {
                None
            },
        },
    )
}

impl CreepyFirstBoss {
    /// One tick of the boss at `t`.
    pub fn update(
        &mut self,
        delta_time: u32,
        t: &Position,
        previous_animation: Option<AnimationKey>,
        bullet_spawner: &BulletSpawner,
        entities: &mut Entities,
        updater: &mut Components,
        collision: &mut MyCollisionWorld,
    ) -> (r: EnemyUpdate)
        requires
            old(collision).wf(),
        ensures
            final(collision).wf(),
            (
                *final(self),
                ArenaState {
                    entities: final(entities)@,
                    components: final(updater)@,
                    world: final(collision)@,
                },
                r,
            ) == boss_update(
                *old(self),
                bullet_spawner.spec_kinds(),
                ArenaState {
                    entities: old(entities)@,
                    components: old(updater)@,
                    world: old(collision)@,
                },
                delta_time,
                *t,
                previous_animation,
            ),
    {
        let mut spawned: Option<Entity> = None;
        let mut error: Option<GameError> = None;
        if self.advance(delta_time) {
            let shoot_loc = Position {
                x: t.x,
                y: if t.y >= i32::MIN + BOSS_SHOOT_OFFSET {
                    t.y - BOSS_SHOOT_OFFSET
                } else {
                    i32::MIN
                },
            };
            match bullet_spawner.spawn_enemy_bullet(
                entities,
                updater,
                collision,
                SIMPLE_BULLET_IDX,
                shoot_loc,
                Direction { x: 0, y: -1 },
                BOSS_BULLET_SPEED,
            ) {
                Ok(bullet) => {
                    spawned = Some(bullet);
                },
                Err(e) => {
                    error = Some(e);
                },
            }
        }
        EnemyUpdate { movement: None, animation: previous_animation, spawned, error }
    }
}

} // verus!
