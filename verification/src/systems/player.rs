//! The player: walking, falling off the arena, and the end of the game.

use vstd::prelude::*;

use crate::config::PlayerConfig;
use crate::ecs::Storage;
use crate::event::{AppEvent, Entity};
use crate::geometry::{Direction, Transform};
use crate::systems::animation::{AnimationController, AnimationKey, ControllerState};

verus! {

/// How long a fall lasts, in milliseconds.
pub const FALLING_DURATION: u32 = 1000;

/// The player entity, for the systems that follow the player.
#[derive(Debug, Clone, Copy)]
pub struct PlayerResource {
    pub player: Option<Entity>,
}

impl Default for PlayerResource {
    fn default() -> (r: Self)
        ensures
            r.player is None,
    {
        Self { player: None }
    }
}

#[derive(Debug, Clone, Copy, PartialEq, Eq, Structural)]
pub enum PlayerStatus {
    /// The player is above ground, and can move and shoot.
    Walking,
    /// The player is falling from the arena. The game is lost, but the fall
    /// is shown first. Both times are in milliseconds.
    Falling { falling_duration: u32, elapsed_time: u32 },
    /// Nothing more happens.
    GameOver,
}

impl Default for PlayerStatus {
    fn default() -> (r: Self)
        ensures
            r == PlayerStatus::Walking,
    {
        PlayerStatus::Walking
    }
}

impl PlayerStatus {
    /// The status after `time_delta` more milliseconds of falling: the fall
    /// is over once more time has passed than it lasts. A player that does
    /// not fall stays as it is.
    pub open spec fn fall(self, time_delta: u32) -> PlayerStatus {
        match self {
            PlayerStatus::Falling { falling_duration, elapsed_time } => {
                if elapsed_time + time_delta > falling_duration {
                    PlayerStatus::GameOver
                } else {
                    PlayerStatus::Falling {
                        falling_duration,
                        elapsed_time: (elapsed_time + time_delta) as u32,
                    }
                }
            },
            _ => self,
        }
    }
}

/// Marks the entity that the player steers.
#[derive(Debug, Clone, Copy, PartialEq, Eq, Structural)]
pub struct Player {
    pub state: PlayerStatus,
}

impl Default for Player {
    fn default() -> (r: Self)
        ensures
            r.state == PlayerStatus::Walking,
    {
        Self { state: PlayerStatus::Walking }
    }
}

/// The size of the falling player, in thousandths of its full size: the part
/// of the fall that is still to come. A fall that lasts no time has none.
pub open spec fn scale_of(falling_duration: u32, elapsed_time: u32) -> int {
    if falling_duration == 0 || elapsed_time >= falling_duration {
        0
    } else {
        (falling_duration - elapsed_time) * 1000 / (falling_duration as int)
    }
}

pub fn get_scale(falling_duration: u32, elapsed_time: u32) -> (r: u32)
    ensures
        r == scale_of(falling_duration, elapsed_time),
        r <= 1000,
{
    if falling_duration == 0 || elapsed_time >= falling_duration {
        0
    } else {
        let left: u64 = (falling_duration - elapsed_time) as u64;
        assert(left * 1000 / (falling_duration as int) <= 1000) by (nonlinear_arith)
            requires
                0 < left <= falling_duration,
        ;
        (left * 1000 / (falling_duration as u64)) as u32
    }
}

/// How the player is drawn while it falls.
#[derive(Debug, Clone, Copy, PartialEq, Eq, Structural)]
pub struct FallStep {
    /// The size, in thousandths of the full size.
    pub scale: u32,
    /// By how much the player turns in this tick, in millionths of a radian.
    pub rotation: u64,
}

/// The time that a player in the state `state` has been falling after
/// `time_delta` more milliseconds.
pub open spec fn fallen_time(state: PlayerStatus, time_delta: u32) -> int {
    match state {
        PlayerStatus::Falling { elapsed_time, .. } => elapsed_time + time_delta,
        _ => 0,
    }
}

/// How a player in the state `state` is drawn after a tick of `time_delta`
/// milliseconds of falling. A player that does not fall is drawn as it is.
pub open spec fn fall_step(
    state: PlayerStatus,
    time_delta: u32,
    player_config: PlayerConfig,
) -> Option<FallStep> {
    match state {
        PlayerStatus::Falling { falling_duration, elapsed_time } => Some(
            FallStep {
                scale: if elapsed_time + time_delta > falling_duration {
                    0
                } else {
                    scale_of(falling_duration, (elapsed_time + time_delta) as u32) as u32
                },
                rotation: (player_config.fall_rot_speed * time_delta) as u64,
            },
        ),
        _ => None,
    }
}

/// What a tick of falling sends: the end of the game, in the tick in which
/// the fall ends.
pub open spec fn fall_event(state: PlayerStatus, time_delta: u32) -> Option<AppEvent> {
    if state is Falling && state.fall(time_delta) is GameOver {
        Some(AppEvent::GameOver)
    } else {
        None
    }
}

/// In which directions the way is free.
#[derive(Debug, Clone, Copy, PartialEq, Eq, Structural)]
pub struct Clearance {
    pub up: bool,
    pub down: bool,
    pub left: bool,
    pub right: bool,
}

/// The step that the player takes in a tick.
#[derive(Debug, Clone, Copy, PartialEq, Eq, Structural)]
pub struct WalkStep {
    /// The player moves along the horizontal part of its movement.
    pub x: bool,
    /// The player moves along the vertical part of its movement.
    pub y: bool,
    /// The animation to show.
    pub animation: Option<AnimationKey>,
}

/// The step of a player that wants to go in the direction `movement`: along
/// each axis it moves if it wants to and the way is free. It shows the walk
/// along the vertical axis if it moves along it, else the walk along the
/// horizontal axis if it moves along that, else nothing.
pub open spec fn walk_step(movement: Direction, clearance: Clearance) -> WalkStep {
    let x = (movement.x > 0 && clearance.right) || (movement.x < 0 && clearance.left);
    let y = (movement.y > 0 && clearance.up) || (movement.y < 0 && clearance.down);
    WalkStep {
        x,
        y,
        animation: if movement.y > 0 && clearance.up {
            Some(AnimationKey::WalkUp)
        } else if movement.y < 0 && clearance.down {
            Some(AnimationKey::WalkDown)
        } else if movement.x > 0 && clearance.right {
            Some(AnimationKey::WalkRight)
        } else if movement.x < 0 && clearance.left {
            Some(AnimationKey::WalkLeft)
        } else {
            None
        },
    }
}

/// What a tick does for the player.
#[derive(Debug, Clone, Copy, PartialEq, Eq, Structural)]
pub enum PlayerStep {
    Walk(WalkStep),
    Fall(FallStep),
}

/// What a tick does for a player in the state `state`: a walking player takes
/// its step, a falling one falls on, and nothing happens once the game is
/// over.
pub open spec fn player_step(
    state: PlayerStatus,
    movement: Direction,
    clearance: Clearance,
    time_delta: u32,
    player_config: PlayerConfig,
) -> Option<PlayerStep> {
    match state {
        PlayerStatus::Walking => Some(PlayerStep::Walk(walk_step(movement, clearance))),
        PlayerStatus::Falling { .. } => Some(
            PlayerStep::Fall(fall_step(state, time_delta, player_config).unwrap()),
        ),
        PlayerStatus::GameOver => None,
    }
}

/// The animation that a player in the state `state` shows after its tick.
pub open spec fn player_animation(
    state: PlayerStatus,
    shown: Option<AnimationKey>,
    movement: Direction,
    clearance: Clearance,
) -> Option<AnimationKey> {
    match state {
        PlayerStatus::Walking => walk_step(movement, clearance).animation,
        PlayerStatus::Falling { .. } => None,
        PlayerStatus::GameOver => shown,
    }
}

/// Moves the player, and lets it fall.
#[derive(Debug, Clone, Copy, Default)]
pub struct PlayerSystem;

impl PlayerSystem {
    /// One tick of a falling player. The player shows no animation: it
    /// shrinks and turns instead. Once more time has passed than the fall
    /// lasts, the game is over, and the event that says so is sent on
    /// `event`.
    pub fn player_fall(
        &self,
        player: &mut Player,
        animation: &mut AnimationController,
        time_delta: u32,
        event: &mut Vec<AppEvent>,
        player_config: &PlayerConfig,
    ) -> (r: Option<FallStep>)
        ensures
            final(player).state == old(player).state.fall(time_delta),
            final(animation)@ == old(animation)@.showing(None),
            r == fall_step(old(player).state, time_delta, *player_config),
            final(event)@ == match fall_event(old(player).state, time_delta) {
                Some(e) => old(event)@.push(e),
                None => old(event)@,
            },
    {
        // No animation: the only thing that changes is how the player is
        // drawn.
        animation.current_animation = None;

        let mut has_fallen = false;
        let mut step: Option<FallStep> = None;
        if let PlayerStatus::Falling { falling_duration, elapsed_time } = player.state {
            let elapsed: u64 = elapsed_time as u64 + time_delta as u64;
            has_fallen = elapsed > falling_duration as u64;
            let scale = if has_fallen {
                0
            } else {
                get_scale(falling_duration, elapsed as u32)
            };
            assert(player_config.fall_rot_speed * time_delta <= u64::MAX) by (nonlinear_arith)
                requires
                    player_config.fall_rot_speed <= u32::MAX,
                    time_delta <= u32::MAX,
            ;
            step = Some(
                FallStep { scale, rotation: player_config.fall_rot_speed as u64 * time_delta as u64 },
            );
            if !has_fallen {
                player.state = PlayerStatus::Falling {
                    falling_duration,
                    elapsed_time: elapsed as u32,
                };
            }
        }
        if has_fallen {
            player.state = PlayerStatus::GameOver;
            event.push(AppEvent::GameOver);
        }
        step
    }

    /// One tick of a walking player that wants to go in the direction
    /// `movement`.
    pub fn player_walk(
        &self,
        animation: &mut AnimationController,
        movement: &Direction,
        clearance: &Clearance,
    ) -> (r: WalkStep)
        ensures
            r == walk_step(*movement, *clearance),
            final(animation)@ == old(animation)@.showing(r.animation),
    {
        animation.current_animation = None;
        let mut x = false;
        let mut y = false;
        if movement.x > 0 && clearance.right {
            x = true;
            animation.current_animation = Some(AnimationKey::WalkRight);
        } else if movement.x < 0 && clearance.left {
            x = true;
            animation.current_animation = Some(AnimationKey::WalkLeft);
        }
        if movement.y > 0 && clearance.up {
            y = true;
            animation.current_animation = Some(AnimationKey::WalkUp);
        } else if movement.y < 0 && clearance.down {
            y = true;
            animation.current_animation = Some(AnimationKey::WalkDown);
        }
        WalkStep { x, y, animation: animation.current_animation }
    }

    /// One tick of `time_delta` milliseconds for one player.
    pub fn step(
        &self,
        player: &mut Player,
        animation: &mut AnimationController,
        movement: &Direction,
        clearance: &Clearance,
        time_delta: u32,
        event: &mut Vec<AppEvent>,
        player_config: &PlayerConfig,
    ) -> (r: Option<PlayerStep>)
        ensures
            final(player).state == old(player).state.fall(time_delta),
            r == player_step(old(player).state, *movement, *clearance, time_delta, *player_config),
            final(animation)@ == old(animation)@.showing(
                player_animation(
                    old(player).state,
                    old(animation)@.current_animation,
                    *movement,
                    *clearance,
                ),
            ),
            final(event)@ == match fall_event(old(player).state, time_delta) {
                Some(e) => old(event)@.push(e),
                None => old(event)@,
            },
    {
        match player.state {
            PlayerStatus::Walking => Some(
                PlayerStep::Walk(self.player_walk(animation, movement, clearance)),
            ),
            PlayerStatus::Falling { .. } => {
                match self.player_fall(player, animation, time_delta, event, player_config) {
                    Some(fall) => Some(PlayerStep::Fall(fall)),
                    None => None,
                }
            },
            PlayerStatus::GameOver => None,
        }
    }
}

/// `entity` takes part in the tick of the player system: it is a player with
/// a position and animations.
pub open spec fn plays(
    players: Map<Entity, Player>,
    transforms: Map<Entity, Transform>,
    animations: Map<Entity, AnimationController>,
    entity: Entity,
) -> bool {
    &&& players.dom().contains(entity)
    &&& transforms.dom().contains(entity)
    &&& animations.dom().contains(entity)
}

/// The steps of the players with an id below `bound`, and the events that
/// their ticks send, both in the order of the ids.
pub open spec fn players_run(
    players: Map<Entity, Player>,
    transforms: Map<Entity, Transform>,
    animations: Map<Entity, AnimationController>,
    movement: Direction,
    clearance: Clearance,
    time_delta: u32,
    player_config: PlayerConfig,
    bound: nat,
) -> (Seq<(Entity, PlayerStep)>, Seq<AppEvent>)
    decreases bound,
{
    if bound == 0 {
        (seq![], seq![])
    } else {
        let (steps, events) = players_run(
            players,
            transforms,
            animations,
            movement,
            clearance,
            time_delta,
            player_config,
            (bound - 1) as nat,
        );
        let entity = Entity { id: (bound - 1) as usize };
        if plays(players, transforms, animations, entity) {
            let state = players[entity].state;
            (
                match player_step(state, movement, clearance, time_delta, player_config) {
                    Some(step) => steps.push((entity, step)),
                    None => steps,
                },
                match fall_event(state, time_delta) {
                    Some(e) => events.push(e),
                    None => events,
                },
            )
        } else {
            (steps, events)
        }
    }
}

impl PlayerSystem {
    /// One tick of `time_delta` milliseconds for every player that has a
    /// position and animations, in the order of their ids. Returns the step
    /// of each, for the caller to take.
    pub fn run(
        &mut self,
        players: &mut Storage<Player>,
        transforms: &Storage<Transform>,
        animations: &mut Storage<AnimationController>,
        movement: &Direction,
        clearance: &Clearance,
        time_delta: u32,
        event: &mut Vec<AppEvent>,
        player_config: &PlayerConfig,
    ) -> (steps: Vec<(Entity, PlayerStep)>)
        ensures
            final(players)@ == Map::new(
                |e: Entity| old(players)@.dom().contains(e),
                |e: Entity|
                    if plays(old(players)@, transforms@, old(animations)@, e) {
                        Player { state: old(players)@[e].state.fall(time_delta) }
                    } else {
                        old(players)@[e]
                    },
            ),
            final(animations)@.dom() == old(animations)@.dom(),
            forall|e: Entity|
                old(animations)@.dom().contains(e) ==> (#[trigger] final(animations)@[e])@ == (if plays(
                    old(players)@,
                    transforms@,
                    old(animations)@,
                    e,
                ) {
                    old(animations)@[e]@.showing(
                        player_animation(
                            old(players)@[e].state,
                            old(animations)@[e]@.current_animation,
                            *movement,
                            *clearance,
                        ),
                    )
                } else {
                    old(animations)@[e]@
                }),
            steps@ == players_run(
                old(players)@,
                transforms@,
                old(animations)@,
                *movement,
                *clearance,
                time_delta,
                *player_config,
                old(players).capacity(),
            ).0,
            final(event)@ == old(event)@ + players_run(
                old(players)@,
                transforms@,
                old(animations)@,
                *movement,
                *clearance,
                time_delta,
                *player_config,
                old(players).capacity(),
            ).1,
    {
        let bound = players.bound();
        let mut steps: Vec<(Entity, PlayerStep)> = Vec::new();
        let mut id: usize = 0;
        assert(event@ =~= old(event)@ + Seq::<AppEvent>::empty());
        while id < bound
            invariant
                id <= bound,
                forall|e: Entity| old(players)@.dom().contains(e) ==> e.id < bound,
                players@ == Map::new(
                    |e: Entity| old(players)@.dom().contains(e),
                    |e: Entity|
                        if e.id < id && plays(old(players)@, transforms@, old(animations)@, e) {
                            Player { state: old(players)@[e].state.fall(time_delta) }
                        } else {
                            old(players)@[e]
                        },
                ),
                animations@.dom() == old(animations)@.dom(),
                forall|e: Entity|
                    old(animations)@.dom().contains(e) ==> (#[trigger] animations@[e])@ == (if e.id
                        < id && plays(old(players)@, transforms@, old(animations)@, e) {
                        old(animations)@[e]@.showing(
                            player_animation(
                                old(players)@[e].state,
                                old(animations)@[e]@.current_animation,
                                *movement,
                                *clearance,
                            ),
                        )
                    } else {
                        old(animations)@[e]@
                    }),
                steps@ == players_run(
                    old(players)@,
                    transforms@,
                    old(animations)@,
                    *movement,
                    *clearance,
                    time_delta,
                    *player_config,
                    id as nat,
                ).0,
                event@ == old(event)@ + players_run(
                    old(players)@,
                    transforms@,
                    old(animations)@,
                    *movement,
                    *clearance,
                    time_delta,
                    *player_config,
                    id as nat,
                ).1,
            decreases bound - id,
        {
            let entity = Entity { id };
            if transforms.contains(entity) {
                if let Some(player) = players.get_mut(entity) {
                    if let Some(animation) = animations.get_mut(entity) {
                        if let Some(step) = self.step(
                            player,
                            animation,
                            movement,
                            clearance,
                            time_delta,
                            event,
                            player_config,
                        ) {
                            steps.push((entity, step));
                        }
                    }
                }
            }
            proof {
                assert(forall|e: Entity| e.id == id ==> e == entity);
                assert(animations@.dom() =~= old(animations)@.dom());
                assert(players@ =~= Map::new(
                    |e: Entity| old(players)@.dom().contains(e),
                    |e: Entity|
                        if e.id < id + 1 && plays(old(players)@, transforms@, old(animations)@, e) {
                            Player { state: old(players)@[e].state.fall(time_delta) }
                        } else {
                            old(players)@[e]
                        },
                ));
                let run = players_run(
                    old(players)@,
                    transforms@,
                    old(animations)@,
                    *movement,
                    *clearance,
                    time_delta,
                    *player_config,
                    (id + 1) as nat,
                );
                assert(steps@ =~= run.0);
                assert(event@ =~= old(event)@ + run.1);
            }
            id += 1;
        }
        proof {
            assert(players@ =~= Map::new(
                |e: Entity| old(players)@.dom().contains(e),
                |e: Entity|
                    if plays(old(players)@, transforms@, old(animations)@, e) {
                        Player { state: old(players)@[e].state.fall(time_delta) }
                    } else {
                        old(players)@[e]
                    },
            ));
        }
        steps
    }
}

/// A player that does not fall stays as it is, and sends nothing: once the
/// game is over, it is not announced again.
pub proof fn lemma_game_over_is_final(time_delta: u32)
    ensures
        PlayerStatus::GameOver.fall(time_delta) == PlayerStatus::GameOver,
        fall_event(PlayerStatus::GameOver, time_delta) is None,
        PlayerStatus::Walking.fall(time_delta) == PlayerStatus::Walking,
        fall_event(PlayerStatus::Walking, time_delta) is None,
{
}

/// A fall ends in the first tick after which more time has passed than the
/// fall lasts, and the end of the game is sent in that tick only.
pub proof fn lemma_fall_ends_once(falling_duration: u32, elapsed_time: u32, time_delta: u32)
    ensures
        ({
            let state = PlayerStatus::Falling { falling_duration, elapsed_time };
            &&& fall_event(state, time_delta) is Some <==> elapsed_time + time_delta
                > falling_duration
            &&& fall_event(state, time_delta) is Some ==> fall_event(
                state.fall(time_delta),
                time_delta,
            ) is None
        }),
{
}

} // verus!
