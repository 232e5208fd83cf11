//! The states of the game, and how events move the game from one to the
//! other.

use vstd::prelude::*;

use crate::ecs::{Entities, EntitiesState, Storage};
use crate::event::{AppEvent, Entity};
use crate::systems::bullet::Bullet;
use crate::systems::collision::Collider;
use crate::systems::player::PlayerResource;
use crate::systems::world::MyCollisionWorld;
use crate::util::{delete_all, handles_of, lemma_push_to_set};

verus! {

/// Width of the arena, in world units.
pub const ARENA_WIDTH: u32 = 800;

/// Height of the arena, in world units.
pub const ARENA_HEIGHT: u32 = 600;

/// Tells whether the systems of the game run. During a dialog, for one,
/// they do not.
#[derive(Debug, Clone, Copy, PartialEq, Eq, Structural)]
pub enum RuntimeSystemState {
    Running,
    Paused,
}

impl Default for RuntimeSystemState {
    fn default() -> (r: Self)
        ensures
            r == RuntimeSystemState::Paused,
    {
        RuntimeSystemState::Paused
    }
}

/// The states of the game.
#[derive(Debug, Clone, Copy, PartialEq, Eq, Structural)]
pub enum State {
    /// The story is told.
    Story,
    /// The player plays.
    Game,
    /// A dialog is shown on top of another state.
    Dialog,
    /// The game is lost.
    GameOver,
}

/// What the window and the buttons report.
#[derive(Debug, Clone, Copy, PartialEq, Eq, Structural)]
pub enum Input {
    /// The window is to be closed, or escape was pressed.
    Close,
    /// The left mouse button went down.
    Click,
    /// The button to play again was clicked.
    Retry,
    /// The button to leave was clicked.
    Exit,
}

/// What becomes of the state that handles an event.
#[derive(Debug, Clone, Copy, PartialEq, Eq, Structural)]
pub enum Transition {
    /// The state stays.
    Stay,
    /// The game ends.
    Quit,
    /// A dialog is shown on top of the state.
    PushDialog,
    /// The state on top is left.
    Pop,
    /// The state is replaced by this one.
    Switch(State),
}

impl State {
    /// What the state does about an input.
    pub open spec fn on_input(self, input: Input) -> Transition {
        match (self, input) {
            (_, Input::Close) => Transition::Quit,
            (State::Story, Input::Click) => Transition::Switch(State::Game),
            (State::GameOver, Input::Retry) => Transition::Switch(State::Game),
            (State::GameOver, Input::Exit) => Transition::Quit,
            _ => Transition::Stay,
        }
    }

    /// What the state does about an event of the game. A new dialog is shown
    /// on top of every state but a dialog; the game ends when the player has
    /// lost; a dialog is left when it is over.
    pub open spec fn on_event(self, event: AppEvent) -> Transition {
        match (self, event) {
            (State::Dialog, AppEvent::DialogOver) => Transition::Pop,
            (State::Dialog, _) => Transition::Stay,
            (_, AppEvent::NewDialog { .. }) => Transition::PushDialog,
            (State::Game, AppEvent::GameOver) => Transition::Switch(State::GameOver),
            _ => Transition::Stay,
        }
    }

    /// Whether the systems of the game run while the state is on top.
    pub open spec fn runtime(self) -> RuntimeSystemState {
        match self {
            State::Dialog => RuntimeSystemState::Paused,
            _ => RuntimeSystemState::Running,
        }
    }

    pub fn handle_input(&self, input: Input) -> (r: Transition)
        ensures
            r == self.on_input(input),
    {
        match (*self, input) {
            (_, Input::Close) => Transition::Quit,
            (State::Story, Input::Click) => Transition::Switch(State::Game),
            (State::GameOver, Input::Retry) => Transition::Switch(State::Game),
            (State::GameOver, Input::Exit) => Transition::Quit,
            _ => Transition::Stay,
        }
    }

    pub fn handle_event(&self, event: &AppEvent) -> (r: Transition)
        ensures
            r == self.on_event(*event),
    {
        match (*self, event) {
            (State::Dialog, AppEvent::DialogOver) => Transition::Pop,
            (State::Dialog, _) => Transition::Stay,
            (_, AppEvent::NewDialog { .. }) => Transition::PushDialog,
            (State::Game, AppEvent::GameOver) => Transition::Switch(State::GameOver),
            _ => Transition::Stay,
        }
    }

    /// Whether the systems of the game run while the state is on top.
    pub fn runtime_state(&self) -> (r: RuntimeSystemState)
        ensures
            r == self.runtime(),
    {
        match *self {
            State::Dialog => RuntimeSystemState::Paused,
            _ => RuntimeSystemState::Running,
        }
    }
}

/// The entities that go when the arena is left: those of the map, the
/// player, and the bullets in flight.
pub open spec fn leaving(
    map_entities: Seq<Entity>,
    player: PlayerResource,
    bullets: Map<Entity, Bullet>,
) -> Set<Entity> {
    Set::new(
        |e: Entity| map_entities.contains(e) || player.player == Some(e) || bullets.dom().contains(e),
    )
}

/// Leaves the arena: removes the entities of the map, the player and the
/// bullets in flight, each with its collider.
pub fn stop_arena(
    map_entities: &Vec<Entity>,
    player: &PlayerResource,
    bullets: &Storage<Bullet>,
    colliders: &Storage<Collider>,
    entities: &mut Entities,
    world: &mut MyCollisionWorld,
)
    requires
        old(world).wf(),
    ensures
        final(world).wf(),
        final(world)@ == old(world)@.without_all(
            handles_of(colliders@, leaving(map_entities@, *player, bullets@)),
        ),
        final(entities)@ == (EntitiesState {
            alive: old(entities)@.alive.difference(leaving(map_entities@, *player, bullets@)),
            ..old(entities)@
        }),
{
    let mut to_remove: Vec<Entity> = Vec::new();
    let mut i: usize = 0;
    while i < map_entities.len()
        invariant
            i <= map_entities@.len(),
            to_remove@ == map_entities@.take(i as int),
        decreases map_entities@.len() - i,
    {
        to_remove.push(map_entities[i]);
        assert(to_remove@ =~= map_entities@.take(i as int + 1));
        i += 1;
    }
    assert(map_entities@.take(map_entities@.len() as int) =~= map_entities@);
    if let Some(e) = player.player {
        proof {
            lemma_push_to_set(to_remove@, e);
        }
        to_remove.push(e);
    }
    let ghost listed = to_remove@.to_set();
    assert(listed =~= Set::new(
        |e: Entity| map_entities@.contains(e) || player.player == Some(e),
    ));
    // remove the bullets in flight
    let bound = bullets.bound();
    let mut id: usize = 0;
    assert(to_remove@.to_set() =~= listed.union(
        Set::new(|e: Entity| bullets@.dom().contains(e) && e.id < 0),
    ));
    while id < bound
        invariant
            id <= bound,
            forall|e: Entity| bullets@.dom().contains(e) ==> e.id < bound,
            to_remove@.to_set() == listed.union(
                Set::new(|e: Entity| bullets@.dom().contains(e) && e.id < id),
            ),
        decreases bound - id,
    {
        let entity = Entity { id };
        if bullets.contains(entity) {
            proof {
                lemma_push_to_set(to_remove@, entity);
            }
            to_remove.push(entity);
        }
        proof {
            assert(forall|e: Entity| e.id == id ==> e == entity);
            assert(to_remove@.to_set() =~= listed.union(
                Set::new(|e: Entity| bullets@.dom().contains(e) && e.id < id + 1),
            ));
        }
        id += 1;
    }
    assert(to_remove@.to_set() =~= leaving(map_entities@, *player, bullets@));
    delete_all(&to_remove, colliders, entities, world);
}

} // verus!
