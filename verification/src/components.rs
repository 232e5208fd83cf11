//! The component stores of the game, and the state of an arena as a whole.

use vstd::prelude::*;

use crate::ecs::{EntitiesState, Storage};
use crate::event::Entity;
use crate::geometry::Transform;
use crate::systems::animation::{AnimationController, ControllerState};
use crate::systems::attack::Weapon;
use crate::systems::bullet::Bullet;
use crate::systems::collision::{Collider, Walkable};
use crate::systems::enemy::Enemy;
use crate::systems::health::Health;
use crate::systems::player::Player;
use crate::systems::schedule::ScheduledEvent;
use crate::systems::world::WorldState;

verus! {

/// The components of the entities, one store for each kind.
#[derive(Debug)]
pub struct Components {
    /// Where each entity stands, in whole world units, and how it is turned.
    pub transforms: Storage<Transform>,
    pub colliders: Storage<Collider>,
    pub bullets: Storage<Bullet>,
    pub enemies: Storage<Enemy>,
    pub healths: Storage<Health>,
    pub players: Storage<Player>,
    pub weapons: Storage<Weapon>,
    pub animations: Storage<AnimationController>,
    pub walkables: Storage<Walkable>,
    pub scheduled_events: Storage<ScheduledEvent>,
}

/// What the component stores hold.
pub ghost struct ComponentsState {
    pub transforms: Map<Entity, Transform>,
    pub colliders: Map<Entity, Collider>,
    pub bullets: Map<Entity, Bullet>,
    pub enemies: Map<Entity, Enemy>,
    pub healths: Map<Entity, Health>,
    pub players: Map<Entity, Player>,
    pub weapons: Map<Entity, Weapon>,
    pub animations: Map<Entity, ControllerState>,
    pub walkables: Map<Entity, Walkable>,
    pub scheduled_events: Map<Entity, ScheduledEvent>,
}

impl View for Components {
    type V = ComponentsState;

    open spec fn view(&self) -> ComponentsState {
        ComponentsState {
            transforms: self.transforms@,
            colliders: self.colliders@,
            bullets: self.bullets@,
            enemies: self.enemies@,
            healths: self.healths@,
            players: self.players@,
            weapons: self.weapons@,
            animations: self.animations@.map_values(|c: AnimationController| c@),
            walkables: self.walkables@,
            scheduled_events: self.scheduled_events@,
        }
    }
}

impl Components {
    /// Stores without any component.
    pub fn new() -> (r: Self)
        ensures
            r@ == ComponentsState::empty(),
    {
        let r = Self {
            transforms: Storage::new(),
            colliders: Storage::new(),
            bullets: Storage::new(),
            enemies: Storage::new(),
            healths: Storage::new(),
            players: Storage::new(),
            weapons: Storage::new(),
            animations: Storage::new(),
            walkables: Storage::new(),
            scheduled_events: Storage::new(),
        };
        assert(r@.animations =~= Map::empty());
        r
    }
}

impl ComponentsState {
    pub open spec fn empty() -> ComponentsState {
        ComponentsState {
            transforms: Map::empty(),
            colliders: Map::empty(),
            bullets: Map::empty(),
            enemies: Map::empty(),
            healths: Map::empty(),
            players: Map::empty(),
            weapons: Map::empty(),
            animations: Map::empty(),
            walkables: Map::empty(),
            scheduled_events: Map::empty(),
        }
    }
}

/// An arena as a whole: its entities, their components and the collision
/// world.
pub ghost struct ArenaState {
    pub entities: EntitiesState,
    pub components: ComponentsState,
    pub world: WorldState,
}

impl ArenaState {
    /// The entity that is created next.
    pub open spec fn next_entity(self) -> Entity {
        Entity { id: self.entities.created as usize }
    }

    /// The handle that the collision world hands out next.
    pub open spec fn next_handle(self) -> usize {
        self.world.slots as usize
    }
}

impl EntitiesState {
    /// The entities with one more, which is alive.
    pub open spec fn with_new(self) -> EntitiesState {
        EntitiesState {
            created: self.created + 1,
            alive: self.alive.insert(Entity { id: self.created as usize }),
        }
    }
}

} // verus!
