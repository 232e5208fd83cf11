//! The enemies and what they do every tick.

use vstd::prelude::*;

use crate::components::{ArenaState, Components, ComponentsState};
use crate::config::EnemyConfig;
use crate::ecs::Entities;
use crate::event::Entity;
use crate::geometry::{Position, Transform};
use crate::objects::enemy::creepy_boss::{boss_update, CreepyFirstBoss};
use crate::objects::enemy::simple_enemy::{simple_update, SimpleEnemy};
use crate::objects::enemy::EnemyUpdate;
use crate::systems::animation::{AnimationController, AnimationKey, ControllerState};
use crate::systems::bullet::BulletSpawner;
use crate::systems::player::PlayerResource;
use crate::systems::world::MyCollisionWorld;

verus! {

#[derive(Debug, Clone, Copy, Hash, PartialEq, Eq, Structural)]
pub enum EnemyType {
    /// Most basic enemy. Follows and shoots.
    Simple,
    CreepyFirstBoss,
}

/// An enemy, of one of the kinds that the game knows.
#[derive(Debug, Clone, Copy)]
pub enum Enemy {
    Simple(SimpleEnemy),
    CreepyFirstBoss(CreepyFirstBoss),
}

/// What a tick of `delta_time` milliseconds does for an enemy at `t`: see
/// `simple_update` and `boss_update`.
pub open spec fn enemy_update(
    enemy: Enemy,
    kinds: usize,
    arena: ArenaState,
    delta_time: u32,
    t: Position,
    previous: Option<AnimationKey>,
    player: Position,
) -> (Enemy, ArenaState, EnemyUpdate) {
    match enemy {
        Enemy::Simple(simple_enemy) => {
            let (next, arena, update) = simple_update(
                simple_enemy,
                kinds,
                arena,
                delta_time,
                t,
                previous,
                player,
            );
            (Enemy::Simple(next), arena, update)
        },
        Enemy::CreepyFirstBoss(creepy_boss) => {
            let (next, arena, update) = boss_update(
                creepy_boss,
                kinds,
                arena,
                delta_time,
                t,
                previous,
            );
            (Enemy::CreepyFirstBoss(next), arena, update)
        },
    }
}

impl Enemy {
    pub open spec fn spec_from_config(enemy_type: EnemyType, config: EnemyConfig) -> Enemy {
        match enemy_type {
            EnemyType::Simple => Enemy::Simple(SimpleEnemy::spec_from_config(config.simple_enemy)),
            EnemyType::CreepyFirstBoss => Enemy::CreepyFirstBoss(CreepyFirstBoss::spec_default()),
        }
    }

    /// A new enemy of the kind `enemy_type`. The boss is not configured.
    pub fn from_config(enemy_type: EnemyType, config: &EnemyConfig) -> (r: Self)
        ensures
            r == Enemy::spec_from_config(enemy_type, *config),
    {
        match enemy_type {
            EnemyType::Simple => Enemy::Simple(SimpleEnemy::from_config(&config.simple_enemy)),
            EnemyType::CreepyFirstBoss => Enemy::CreepyFirstBoss(CreepyFirstBoss::default()),
        }
    }

    /// What the enemy does in a tick.
    pub fn update(
        &mut self,
        delta_time: u32,
        t: &Position,
        previous_animation: Option<AnimationKey>,
        player_vec: &Position,
        bullet_spawner: &BulletSpawner,
        entities: &mut Entities,
        updater: &mut Components,
        collision: &mut MyCollisionWorld,
    ) -> (r: EnemyUpdate)
        requires
            old(collision).wf(),
        ensures
            final(collision).wf(),
            (
                *final(self),
                ArenaState {
                    entities: final(entities)@,
                    components: final(updater)@,
                    world: final(collision)@,
                },
                r,
            ) == enemy_update(
                *old(self),
                bullet_spawner.spec_kinds(),
                ArenaState {
                    entities: old(entities)@,
                    components: old(updater)@,
                    world: old(collision)@,
                },
                delta_time,
                *t,
                previous_animation,
                *player_vec,
            ),
    {
        match self {
            Enemy::Simple(simple_enemy) => simple_enemy.update(
                delta_time,
                t,
                previous_animation,
                player_vec,
                bullet_spawner,
                entities,
                updater,
                collision,
            ),
            Enemy::CreepyFirstBoss(creepy_boss) => creepy_boss.update(
                delta_time,
                t,
                previous_animation,
                bullet_spawner,
                entities,
                updater,
                collision,
            ),
        }
    }
}

impl Default for Enemy {
    fn default() -> (r: Self)
        ensures
            r == Enemy::Simple(SimpleEnemy::spec_default()),
    {
        Enemy::Simple(SimpleEnemy::default())
    }
}

/// The animation that `entity` shows, if it has animations and shows one.
pub open spec fn shown(animations: Map<Entity, ControllerState>, entity: Entity) -> Option<
    AnimationKey,
> {
    if animations.dom().contains(entity) {
        animations[entity].current_animation
    } else {
        None
    }
}

/// The animations with `entity` showing `animation`, if it has animations.
pub open spec fn showing(
    animations: Map<Entity, ControllerState>,
    entity: Entity,
    animation: Option<AnimationKey>,
) -> Map<Entity, ControllerState> {
    if animations.dom().contains(entity) {
        animations.insert(entity, animations[entity].showing(animation))
    } else {
        animations
    }
}

/// What a tick does for `entity`: an enemy with a position is updated, and
/// shows the animation of its update. Anything else is passed over.
pub open spec fn enemy_step(
    kinds: usize,
    arena: ArenaState,
    player: Position,
    delta_time: u32,
    entity: Entity,
) -> (ArenaState, Seq<(Entity, EnemyUpdate)>) {
    if arena.components.enemies.dom().contains(entity) && arena.components.transforms.dom().contains(
        entity,
    ) {
        let (enemy, after, update) = enemy_update(
            arena.components.enemies[entity],
            kinds,
            arena,
            delta_time,
            arena.components.transforms[entity].translation,
            shown(arena.components.animations, entity),
            player,
        );
        (
            ArenaState {
                components: ComponentsState {
                    enemies: after.components.enemies.insert(entity, enemy),
                    animations: showing(after.components.animations, entity, update.animation),
                    ..after.components
                },
                ..after
            },
            seq![(entity, update)],
        )
    } else {
        (arena, seq![])
    }
}

/// What a tick does for the entities with an id below `bound`, in the order
/// of their ids: the arena that results, and the updates of the enemies.
pub open spec fn enemies_run(
    kinds: usize,
    arena: ArenaState,
    player: Position,
    delta_time: u32,
    bound: nat,
) -> (ArenaState, Seq<(Entity, EnemyUpdate)>)
    decreases bound,
{
    if bound == 0 {
        (arena, seq![])
    } else {
        let (before, updates) = enemies_run(kinds, arena, player, delta_time, (bound - 1) as nat);
        let (after, update) = enemy_step(
            kinds,
            before,
            player,
            delta_time,
            Entity { id: (bound - 1) as usize },
        );
        (after, updates + update)
    }
}

/// Where the player stands, if there is a player and it has a position.
pub open spec fn player_position(
    player: PlayerResource,
    transforms: Map<Entity, Transform>,
) -> Option<Position> {
    match player.player {
        Some(e) if transforms.dom().contains(e) => Some(transforms[e].translation),
        _ => None,
    }
}

#[derive(Debug, Clone, Copy, Default)]
pub struct EnemySystem;

impl EnemySystem {
    /// One tick of `delta_time` milliseconds for every enemy that has a
    /// position, in the order of their ids. Returns what each enemy does: the
    /// caller takes the steps. Without a player, or while the player has no
    /// position, nothing happens.
    pub fn run(
        &mut self,
        updater: &mut Components,
        player: &PlayerResource,
        delta_time: u32,
        entities: &mut Entities,
        bullet_spawner: &BulletSpawner,
        collision: &mut MyCollisionWorld,
    ) -> (updates: Vec<(Entity, EnemyUpdate)>)
        requires
            old(collision).wf(),
        ensures
            final(collision).wf(),
            match player_position(*player, old(updater)@.transforms) {
                Some(position) => (
                    ArenaState {
                        entities: final(entities)@,
                        components: final(updater)@,
                        world: final(collision)@,
                    },
                    updates@,
                ) == enemies_run(
                    bullet_spawner.spec_kinds(),
                    ArenaState {
                        entities: old(entities)@,
                        components: old(updater)@,
                        world: old(collision)@,
                    },
                    position,
                    delta_time,
                    old(updater).enemies.capacity(),
                ),
                None => {
                    &&& updates@.len() == 0
                    &&& final(entities)@ == old(entities)@
                    &&& final(updater)@ == old(updater)@
                    &&& final(collision)@ == old(collision)@
                },
            },
    {
        let mut updates: Vec<(Entity, EnemyUpdate)> = Vec::new();
        let player_vec = match player.player {
            Some(e) => match updater.transforms.get(e) {
                Some(position) => position.translation,
                None => {
                    return updates;
                },
            },
            None => {
                return updates;
            },
        };
        let bound = updater.enemies.bound();
        let ghost start = ArenaState {
            entities: entities@,
            components: updater@,
            world: collision@,
        };
        let ghost kinds = bullet_spawner.spec_kinds();
        let mut id: usize = 0;
        while id < bound
            invariant
                id <= bound,
                collision.wf(),
                kinds == bullet_spawner.spec_kinds(),
                (
                    ArenaState { entities: entities@, components: updater@, world: collision@ },
                    updates@,
                ) == enemies_run(kinds, start, player_vec, delta_time, id as nat),
            decreases bound - id,
        {
            let e = Entity { id };
            let ghost before = ArenaState {
                entities: entities@,
                components: updater@,
                world: collision@,
            };
            let ghost listed = updates@;
            let found = match (updater.transforms.get(e), updater.enemies.get(e)) {
                (Some(t), Some(enemy)) => Some((t.translation, *enemy)),
                _ => None,
            };
            if let Some((t, enemy)) = found {
                let mut enemy = enemy;
                let previous = match updater.animations.get(e) {
                    Some(controller) => controller.current_animation,
                    None => None,
                };
                let update = enemy.update(
                    delta_time,
                    &t,
                    previous,
                    &player_vec,
                    bullet_spawner,
                    entities,
                    updater,
                    collision,
                );
                updater.enemies.insert(e, enemy);
                if let Some(controller) = updater.animations.get_mut(e) {
                    controller.current_animation = update.animation;
                }
                updates.push((e, update));
            }
            proof {
                let step = enemy_step(kinds, before, player_vec, delta_time, e);
                assert(updater@.animations =~= step.0.components.animations);
                assert(ArenaState { entities: entities@, components: updater@, world: collision@ }
                    == step.0);
                assert(updates@ =~= listed + step.1);
            }
            id += 1;
        }
        updates
    }
}

} // verus!
