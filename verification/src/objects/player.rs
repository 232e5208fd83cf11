//! How the player comes into the arena.

use vstd::prelude::*;

use crate::components::{ArenaState, Components, ComponentsState};
use crate::config::PlayerConfig;
use crate::ecs::Entities;
use crate::event::Entity;
use crate::geometry::{Position, Transform};
use crate::objects::animations::{get_walking_animations, walking_animations};
use crate::systems::animation::{AnimationController, ControllerState};
use crate::systems::attack::Weapon;
use crate::systems::collision::{rect, Collider, ColliderObjectType};
use crate::systems::health::Health;
use crate::systems::player::{Player, PlayerStatus};
use crate::systems::world::MyCollisionWorld;

verus! {

/// Width and height of the collider of the player, in world units.
pub const PLAYER_SIZE: u32 = 16;

/// The arena with the player in it: a new entity at `position` that walks,
/// with the walking animations, full health as configured, a weapon, and a
/// collider that touches everything.
pub open spec fn with_player(
    arena: ArenaState,
    player_config: PlayerConfig,
    position: Position,
) -> ArenaState {
    let entity = arena.next_entity();
    ArenaState {
        entities: arena.entities.with_new(),
        components: ComponentsState {
            transforms: arena.components.transforms.insert(entity, Transform::spec_at(position)),
            players: arena.components.players.insert(
                entity,
                Player { state: PlayerStatus::Walking },
            ),
            animations: arena.components.animations.insert(
                entity,
                ControllerState { animations: walking_animations(), current_animation: None },
            ),
            colliders: arena.components.colliders.insert(
                entity,
                Collider { handle: arena.next_handle() },
            ),
            healths: arena.components.healths.insert(entity, Health::spec_new(player_config.health)),
            weapons: arena.components.weapons.insert(entity, Weapon::spec_default()),
            ..arena.components
        },
        world: arena.world.with_object(
            rect(
                Position { x: 0, y: 0 },
                PLAYER_SIZE,
                PLAYER_SIZE,
                ColliderObjectType::Player,
                None,
                Some(entity),
            ),
        ),
    }
}

/// Creates the player with all its components. To be called once.
///
/// `position` is where the player spawns. The collider stands at the origin
/// of the world until positions are copied over.
pub fn create_player(
    entities: &mut Entities,
    updater: &mut Components,
    collision: &mut MyCollisionWorld,
    player_config: &PlayerConfig,
    position: Position,
) -> (entity: Entity)
    requires
        old(collision).wf(),
    ensures
        final(collision).wf(),
        entity == (ArenaState {
            entities: old(entities)@,
            components: old(updater)@,
            world: old(collision)@,
        }).next_entity(),
        (ArenaState {
            entities: final(entities)@,
            components: final(updater)@,
            world: final(collision)@,
        }) == with_player(
            ArenaState { entities: old(entities)@, components: old(updater)@, world: old(collision)@ },
            *player_config,
            position,
        ),
{
    let animation_controller = AnimationController::with_animations(get_walking_animations());

    // The collider is made first, and learns its owner once the entity is
    // there.
    let collider = Collider::new_rect(
        Position { x: 0, y: 0 },
        PLAYER_SIZE,
        PLAYER_SIZE,
        collision,
        ColliderObjectType::Player,
        None,
        None,
    );

    let entity = entities.create();
    updater.transforms.insert(entity, Transform::at(position));
    updater.players.insert(entity, Player::default());
    updater.animations.insert(entity, animation_controller);
    updater.colliders.insert(entity, collider);
    updater.healths.insert(entity, Health::new(player_config.health));
    updater.weapons.insert(entity, Weapon::default());

    collider.set_entity(collision, entity);
    proof {
        let before = ArenaState {
            entities: old(entities)@,
            components: old(updater)@,
            world: old(collision)@,
        };
        let target = with_player(before, *player_config, position);
        assert(updater@.animations =~= target.components.animations);
        assert(collision@.objects =~= target.world.objects);
    }
    entity
}

} // verus!
