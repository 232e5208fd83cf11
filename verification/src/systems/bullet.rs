//! The bullets, and how they come into the arena.

use vstd::prelude::*;

use crate::components::{ArenaState, Components, ComponentsState};
use crate::config::BulletConfig;
use crate::ecs::Entities;
use crate::error::{GameError, GameResult};
use crate::event::Entity;
use crate::geometry::{Direction, Position, Transform};
use crate::systems::collision::{rect, Collider, ColliderObjectType};
use crate::systems::world::MyCollisionWorld;

verus! {

/// Index of the simple bullet among the kinds of bullets.
pub const SIMPLE_BULLET_IDX: usize = 0;

/// Width and height of the collider of a bullet, in world units.
pub const BULLET_SIZE: u32 = 8;

/// How much a bullet turns in a tick, in millionths of a radian.
pub const BULLET_TURN: u32 = 10_000;

/// A bullet. It flies in a line, which may bend.
#[derive(Debug, Clone, Copy, PartialEq, Eq, Structural)]
pub struct Bullet {
    /// Speed in thousandths of a world unit per second.
    pub speed: u32,
    /// Where it is headed.
    pub direction: Direction,
    /// By how much the direction turns in each tick, in millionths of a
    /// radian.
    pub path_mod: Option<u32>,
}

/// The arena with one more bullet: a new entity at `origin` that flies in
/// `direction` at `speed`, and turns by `path_mod` in each tick if that is
/// given, with a collider for contacts with the kinds `collide_with`.
pub open spec fn with_bullet(
    arena: ArenaState,
    origin: Position,
    direction: Direction,
    speed: u32,
    path_mod: Option<u32>,
    collide_with: Seq<ColliderObjectType>,
) -> ArenaState {
    let bullet = arena.next_entity();
    ArenaState {
        entities: arena.entities.with_new(),
        components: ComponentsState {
            bullets: arena.components.bullets.insert(
                bullet,
                Bullet { speed, direction, path_mod },
            ),
            transforms: arena.components.transforms.insert(bullet, Transform::spec_at(origin)),
            colliders: arena.components.colliders.insert(
                bullet,
                Collider { handle: arena.next_handle() },
            ),
            ..arena.components
        },
        world: arena.world.with_object(
            rect(
                Position { x: 0, y: 0 },
                BULLET_SIZE,
                BULLET_SIZE,
                ColliderObjectType::Bullet,
                Some(collide_with),
                Some(bullet),
            ),
        ),
    }
}

/// What a bullet of an enemy runs into.
pub open spec fn enemy_bullet_targets() -> Seq<ColliderObjectType> {
    seq![ColliderObjectType::Player, ColliderObjectType::Wall]
}

/// What a bullet of the player runs into.
pub open spec fn player_bullet_targets() -> Seq<ColliderObjectType> {
    seq![ColliderObjectType::Enemy, ColliderObjectType::Wall]
}

/// The outcome of spawning a bullet of kind `bullet_idx` where `kinds` kinds
/// are known: a kind that is not known is an error and changes nothing.
pub open spec fn spawned(
    kinds: usize,
    before: ArenaState,
    after: ArenaState,
    result: GameResult<Entity>,
    bullet_idx: usize,
    origin: Position,
    direction: Direction,
    speed: u32,
    path_mod: Option<u32>,
    collide_with: Seq<ColliderObjectType>,
) -> bool {
    if bullet_idx < kinds {
        &&& result == Ok::<Entity, GameError>(before.next_entity())
        &&& after == with_bullet(before, origin, direction, speed, path_mod, collide_with)
    } else {
        &&& result == Err::<Entity, GameError>(GameError::BulletNotFound { idx: bullet_idx })
        &&& after == before
    }
}

/// Spawns bullets of the kinds that it knows.
#[derive(Debug, Clone, Copy, Default)]
pub struct BulletSpawner {
    kinds: usize,
    bullet_config: BulletConfig,
}

impl BulletSpawner {
    /// How many kinds of bullets the spawner knows. They are numbered from 0.
    pub closed spec fn spec_kinds(&self) -> usize {
        self.kinds
    }

    /// A spawner that knows `kinds` kinds of bullets.
    pub fn init(kinds: usize, bullet_config: BulletConfig) -> (r: Self)
        ensures
            r.spec_kinds() == kinds,
            r.spec_bullet_config() == bullet_config,
    {
        Self { kinds, bullet_config }
    }

    pub fn kinds(&self) -> (r: usize)
        ensures
            r == self.spec_kinds(),
    {
        self.kinds
    }

    /// The configuration that the spawner was made with.
    pub closed spec fn spec_bullet_config(&self) -> BulletConfig {
        self.bullet_config
    }

    pub fn bullet_config(&self) -> (r: BulletConfig)
        ensures
            r == self.spec_bullet_config(),
    {
        self.bullet_config
    }

    /// Spawns a bullet of an enemy: it runs into the player and into walls,
    /// and its path bends.
    pub fn spawn_enemy_bullet(
        &self,
        entities: &mut Entities,
        updater: &mut Components,
        collision: &mut MyCollisionWorld,
        bullet_idx: usize,
        origin: Position,
        direction: Direction,
        speed: u32,
    ) -> (r: GameResult<Entity>)
        requires
            old(collision).wf(),
        ensures
            final(collision).wf(),
            !old(collision)@.objects.dom().contains(old(collision)@.slots as usize),
            spawned(
                self.spec_kinds(),
                ArenaState {
                    entities: old(entities)@,
                    components: old(updater)@,
                    world: old(collision)@,
                },
                ArenaState {
                    entities: final(entities)@,
                    components: final(updater)@,
                    world: final(collision)@,
                },
                r,
                bullet_idx,
                origin,
                direction,
                speed,
                Some(BULLET_TURN),
                enemy_bullet_targets(),
            ),
    {
        proof {
            collision.lemma_wf_view();
            collision@.lemma_with_object_is_new(collision@.objects[0]);
        }
        let mut collide_with: Vec<ColliderObjectType> = Vec::new();
        collide_with.push(ColliderObjectType::Player);
        collide_with.push(ColliderObjectType::Wall);
        assert(collide_with@ =~= enemy_bullet_targets());
        self.spawn_bullet(
            entities,
            updater,
            collision,
            bullet_idx,
            origin,
            direction,
            speed,
            Some(BULLET_TURN),
            collide_with.as_slice(),
        )
    }

    /// Spawns a bullet of the player: it runs into enemies and into walls,
    /// and flies straight.
    pub fn spawn_player_bullet(
        &self,
        entities: &mut Entities,
        updater: &mut Components,
        collision: &mut MyCollisionWorld,
        bullet_idx: usize,
        origin: Position,
        direction: Direction,
        speed: u32,
    ) -> (r: GameResult<Entity>)
        requires
            old(collision).wf(),
        ensures
            final(collision).wf(),
            !old(collision)@.objects.dom().contains(old(collision)@.slots as usize),
            spawned(
                self.spec_kinds(),
                ArenaState {
                    entities: old(entities)@,
                    components: old(updater)@,
                    world: old(collision)@,
                },
                ArenaState {
                    entities: final(entities)@,
                    components: final(updater)@,
                    world: final(collision)@,
                },
                r,
                bullet_idx,
                origin,
                direction,
                speed,
                None,
                player_bullet_targets(),
            ),
    {
        proof {
            collision.lemma_wf_view();
            collision@.lemma_with_object_is_new(collision@.objects[0]);
        }
        let mut collide_with: Vec<ColliderObjectType> = Vec::new();
        collide_with.push(ColliderObjectType::Enemy);
        collide_with.push(ColliderObjectType::Wall);
        assert(collide_with@ =~= player_bullet_targets());
        self.spawn_bullet(
            entities,
            updater,
            collision,
            bullet_idx,
            origin,
            direction,
            speed,
            None,
            collide_with.as_slice(),
        )
    }

    /// Spawns a bullet of the kind `bullet_idx`: a new entity with a bullet,
    /// a position and a collider. The collider is one more box of the world,
    /// under a handle that named no box before. It stands at the origin of
    /// the world until positions are copied over. The direction is kept as it
    /// is given, whatever its length.
    pub fn spawn_bullet(
        &self,
        entities: &mut Entities,
        updater: &mut Components,
        collision: &mut MyCollisionWorld,
        bullet_idx: usize,
        origin: Position,
        direction: Direction,
        speed: u32,
        path_mod: Option<u32>,
        collide_with: &[ColliderObjectType],
    ) -> (r: GameResult<Entity>)
        requires
            old(collision).wf(),
        ensures
            final(collision).wf(),
            !old(collision)@.objects.dom().contains(old(collision)@.slots as usize),
            spawned(
                self.spec_kinds(),
                ArenaState {
                    entities: old(entities)@,
                    components: old(updater)@,
                    world: old(collision)@,
                },
                ArenaState {
                    entities: final(entities)@,
                    components: final(updater)@,
                    world: final(collision)@,
                },
                r,
                bullet_idx,
                origin,
                direction,
                speed,
                path_mod,
                collide_with@,
            ),
    {
        proof {
            collision.lemma_wf_view();
            collision@.lemma_with_object_is_new(collision@.objects[0]);
        }
        if bullet_idx < self.kinds {
            let bullet = entities.create();
            let collider = Collider::new_rect(
                Position { x: 0, y: 0 },
                BULLET_SIZE,
                BULLET_SIZE,
                collision,
                ColliderObjectType::Bullet,
                Some(collide_with),
                Some(bullet),
            );
            updater.bullets.insert(bullet, Bullet { speed, direction, path_mod });
            updater.transforms.insert(bullet, Transform::at(origin));
            updater.colliders.insert(bullet, collider);
            Ok(bullet)
        } else {
            Err(GameError::BulletNotFound { idx: bullet_idx })
        }
    }
}

} // verus!
