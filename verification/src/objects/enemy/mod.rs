//! The enemies: what they are, and how they come into the arena.

use vstd::prelude::*;

use crate::components::{ArenaState, Components, ComponentsState};
use crate::config::EnemyConfig;
use crate::ecs::Entities;
use crate::error::GameError;
use crate::event::Entity;
use crate::geometry::{Direction, Position, Transform};
use crate::objects::animations::{enemy_anim, get_enemy_anim};
use crate::systems::animation::{AnimationController, AnimationKey, ControllerState};
use crate::systems::collision::{rect, Collider, ColliderObjectType};
use crate::systems::enemy::{Enemy, EnemyType};
use crate::systems::health::Health;
use crate::systems::world::MyCollisionWorld;

pub mod creepy_boss;
pub mod simple_enemy;

verus! {

/// A step towards a place, to be taken in this tick.
#[derive(Debug, Clone, Copy, PartialEq, Eq, Structural)]
pub struct Movement {
    /// Where to go. The length of the direction does not matter.
    pub direction: Direction,
    /// How far to go, in thousandths of a world unit.
    pub speed: u32,
}

/// What an enemy does in a tick, besides what it has done to the arena.
#[derive(Debug, Clone, Copy, PartialEq, Eq, Structural)]
pub struct EnemyUpdate {
    /// The step that the enemy takes.
    pub movement: Option<Movement>,
    /// The animation that the enemy shows from now on.
    pub animation: Option<AnimationKey>,
    /// The bullet that the enemy has shot.
    pub spawned: Option<Entity>,
    /// Why the enemy could not shoot.
    pub error: Option<GameError>,
}

/// Width and height of the collider of an enemy that is not the boss, in
/// world units.
pub const ENEMY_SIZE: u32 = 16;

/// Width and height of the collider of an enemy of the kind `enemy_type`.
pub open spec fn collider_size(config: EnemyConfig, enemy_type: EnemyType) -> u32 {
    match enemy_type {
        EnemyType::CreepyFirstBoss => config.creepy_boss.collider_size,
        EnemyType::Simple => ENEMY_SIZE,
    }
}

/// Points of health of an enemy of the kind `enemy_type`.
pub open spec fn enemy_health(config: EnemyConfig, enemy_type: EnemyType) -> i32 {
    match enemy_type {
        EnemyType::CreepyFirstBoss => config.creepy_boss.health,
        EnemyType::Simple => config.simple_enemy.health,
    }
}

/// The arena with one more enemy of the kind `enemy_type`: a new entity at
/// `position`, with the animations of its kind if it has any, full health,
/// and a collider that touches everything.
pub open spec fn with_enemy(
    arena: ArenaState,
    config: EnemyConfig,
    enemy_type: EnemyType,
    position: Position,
) -> ArenaState {
    let entity = arena.next_entity();
    ArenaState {
        entities: arena.entities.with_new(),
        components: ComponentsState {
            animations: match enemy_anim(enemy_type) {
                Some(table) => arena.components.animations.insert(
                    entity,
                    ControllerState { animations: table, current_animation: None },
                ),
                None => arena.components.animations,
            },
            transforms: arena.components.transforms.insert(entity, Transform::spec_at(position)),
            enemies: arena.components.enemies.insert(
                entity,
                Enemy::spec_from_config(enemy_type, config),
            ),
            colliders: arena.components.colliders.insert(
                entity,
                Collider { handle: arena.next_handle() },
            ),
            healths: arena.components.healths.insert(
                entity,
                Health::spec_new(enemy_health(config, enemy_type)),
            ),
            ..arena.components
        },
        world: arena.world.with_object(
            rect(
                Position { x: 0, y: 0 },
                collider_size(config, enemy_type),
                collider_size(config, enemy_type),
                ColliderObjectType::Enemy,
                None,
                Some(entity),
            ),
        ),
    }
}

/// Creates enemies of the kinds that it knows.
#[derive(Debug)]
pub struct EnemySpawner {
    known: Vec<EnemyType>,
    enemy_config: EnemyConfig,
}

impl EnemySpawner {
    /// The spawner can create enemies of the kind `enemy_type`.
    pub closed spec fn knows(&self, enemy_type: EnemyType) -> bool {
        self.known@.contains(enemy_type)
    }

    /// The configuration that the spawner creates enemies from.
    pub closed spec fn config(&self) -> EnemyConfig {
        self.enemy_config
    }

    /// A spawner that knows every kind of enemy.
    pub fn init(enemy_config: EnemyConfig) -> (r: Self)
        ensures
            forall|t: EnemyType| r.knows(t),
            r.config() == enemy_config,
    {
        let mut known: Vec<EnemyType> = Vec::new();
        known.push(EnemyType::Simple);
        known.push(EnemyType::CreepyFirstBoss);
        let r = Self { known, enemy_config };
        assert forall|t: EnemyType| r.knows(t) by {
            assert(r.known@[0] == EnemyType::Simple);
            assert(r.known@[1] == EnemyType::CreepyFirstBoss);
        }
        r
    }

    /// A spawner that knows the kinds listed.
    pub fn new(known: Vec<EnemyType>, enemy_config: EnemyConfig) -> (r: Self)
        ensures
            forall|t: EnemyType| r.knows(t) == known@.contains(t),
            r.config() == enemy_config,
    {
        Self { known, enemy_config }
    }

    /// Tells whether the spawner can create enemies of the kind
    /// `enemy_type`.
    pub fn can_spawn(&self, enemy_type: EnemyType) -> (r: bool)
        ensures
            r == self.knows(enemy_type),
    {
        let mut i: usize = 0;
        while i < self.known.len()
            invariant
                i <= self.known@.len(),
                forall|k: int| 0 <= k < i ==> self.known@[k] != enemy_type,
            decreases self.known@.len() - i,
        {
            if self.known[i] == enemy_type {
                return true;
            }
            i += 1;
        }
        false
    }

    /// Spawns an enemy at the given position.
    pub fn create_enemy(
        &self,
        entities: &mut Entities,
        updater: &mut Components,
        collision: &mut MyCollisionWorld,
        enemy_type: EnemyType,
        position: Position,
    ) -> (r: Option<Entity>)
        requires
            old(collision).wf(),
        ensures
            final(collision).wf(),
            self.spawned(
                ArenaState {
                    entities: old(entities)@,
                    components: old(updater)@,
                    world: old(collision)@,
                },
                ArenaState {
                    entities: final(entities)@,
                    components: final(updater)@,
                    world: final(collision)@,
                },
                r,
                enemy_type,
                position,
            ),
    {
        self.spawn_enemy(entities, updater, collision, enemy_type, position)
    }

    /// The outcome of spawning an enemy: a kind that the spawner does not
    /// know gives no enemy, and changes nothing.
    pub open spec fn spawned(
        &self,
        before: ArenaState,
        after: ArenaState,
        result: Option<Entity>,
        enemy_type: EnemyType,
        position: Position,
    ) -> bool {
        if self.knows(enemy_type) {
            &&& result == Some(before.next_entity())
            &&& after == with_enemy(before, self.config(), enemy_type, position)
        } else {
            &&& result is None
            &&& after == before
        }
    }

    /// Spawns an enemy at `position`. The collider stands at the origin of
    /// the world until positions are copied over.
    pub fn spawn_enemy(
        &self,
        entities: &mut Entities,
        updater: &mut Components,
        collision: &mut MyCollisionWorld,
        enemy_type: EnemyType,
        position: Position,
    ) -> (r: Option<Entity>)
        requires
            old(collision).wf(),
        ensures
            final(collision).wf(),
            self.spawned(
                ArenaState {
                    entities: old(entities)@,
                    components: old(updater)@,
                    world: old(collision)@,
                },
                ArenaState {
                    entities: final(entities)@,
                    components: final(updater)@,
                    world: final(collision)@,
                },
                r,
                enemy_type,
                position,
            ),
    {
        if self.can_spawn(enemy_type) {
            let entity = entities.create();
            let walking_animations = get_enemy_anim(enemy_type);
            if let Some(walking_animations) = walking_animations {
                let animation_controller = AnimationController::with_animations(walking_animations);
                updater.animations.insert(entity, animation_controller);
            }
            updater.transforms.insert(entity, Transform::at(position));
            updater.enemies.insert(entity, Enemy::from_config(enemy_type, &self.enemy_config));
            self.add_collider(updater, entity, collision, enemy_type);
            self.add_health(updater, entity, enemy_type);
            proof {
                let before = ArenaState {
                    entities: old(entities)@,
                    components: old(updater)@,
                    world: old(collision)@,
                };
                let target = with_enemy(before, self.config(), enemy_type, position);
                assert(updater@.animations =~= target.components.animations);
            }
            Some(entity)
        } else {
            None
        }
    }

    fn add_health(&self, updater: &mut Components, entity: Entity, enemy_type: EnemyType)
        ensures
            final(updater)@ == (ComponentsState {
                healths: old(updater)@.healths.insert(
                    entity,
                    Health::spec_new(enemy_health(self.config(), enemy_type)),
                ),
                ..old(updater)@
            }),
    {
        match enemy_type {
            EnemyType::CreepyFirstBoss => {
                updater.healths.insert(entity, Health::new(self.enemy_config.creepy_boss.health))
            },
            EnemyType::Simple => {
                updater.healths.insert(entity, Health::new(self.enemy_config.simple_enemy.health))
            },
        }
    }

    fn add_collider(
        &self,
        updater: &mut Components,
        entity: Entity,
        collision: &mut MyCollisionWorld,
        enemy_type: EnemyType,
    )
        requires
            old(collision).wf(),
        ensures
            final(collision).wf(),
            final(collision)@ == old(collision)@.with_object(
                rect(
                    Position { x: 0, y: 0 },
                    collider_size(self.config(), enemy_type),
                    collider_size(self.config(), enemy_type),
                    ColliderObjectType::Enemy,
                    None,
                    Some(entity),
                ),
            ),
            final(updater)@ == (ComponentsState {
                colliders: old(updater)@.colliders.insert(
                    entity,
                    Collider { handle: old(collision)@.slots as usize },
                ),
                ..old(updater)@
            }),
    {
        let w = if let EnemyType::CreepyFirstBoss = enemy_type {
            self.enemy_config.creepy_boss.collider_size
        } else {
            ENEMY_SIZE
        };
        let collider = Collider::new_rect(
            Position { x: 0, y: 0 },
            w,
            w,
            collision,
            ColliderObjectType::Enemy,
            None,
            Some(entity),
        );
        updater.colliders.insert(entity, collider);
    }
}

} // verus!
