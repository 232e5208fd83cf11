use thief_engine::config::PlayerConfig;
use thief_engine::ecs::Storage;
use thief_engine::event::{AppEvent, Entity};
use thief_engine::geometry::{Direction, Position, Transform};
use thief_engine::systems::animation::{AnimationController, AnimationKey};
use thief_engine::systems::collision::{Collider, ColliderObjectType, Walkable, WalkableSystem};
use thief_engine::systems::player::{
    get_scale, Clearance, FallStep, Player, PlayerStatus, PlayerStep, PlayerSystem, WalkStep,
};
use thief_engine::systems::world::MyCollisionWorld;

fn at(x: i32, y: i32) -> Position {
    Position { x, y }
}

const FREE: Clearance = Clearance { up: true, down: true, left: true, right: true };

struct Ground {
    world: MyCollisionWorld,
    colliders: Storage<Collider>,
    walkable: Storage<Walkable>,
    players: Storage<Player>,
    player: Entity,
    player_collider: Collider,
}

fn ground() -> Ground {
    let mut world = MyCollisionWorld::default();
    let mut colliders = Storage::new();
    let mut walkable = Storage::new();
    let mut players = Storage::new();
    let player = Entity { id: 0 };
    let zone = Entity { id: 1 };
    let player_collider =
        Collider::new_rect(at(50, 50), 16, 16, &mut world, ColliderObjectType::Player, None, Some(player));
    let zone_collider =
        Collider::new_rect(at(50, 50), 100, 100, &mut world, ColliderObjectType::NoType, None, Some(zone));
    colliders.insert(player, player_collider);
    colliders.insert(zone, zone_collider);
    walkable.insert(zone, Walkable);
    players.insert(player, Player::default());
    Ground { world, colliders, walkable, players, player, player_collider }
}

#[test]
fn player_inside_a_zone_keeps_walking() {
    let mut g = ground();
    WalkableSystem.run(&mut g.players, &g.colliders, &g.walkable, &g.world);
    assert_eq!(g.players.get(g.player).unwrap().state, PlayerStatus::Walking);
    // On the border of the zone the player still stands.
    g.world.set_position(g.player_collider.handle, Transform::at(at(108, 50)));
    WalkableSystem.run(&mut g.players, &g.colliders, &g.walkable, &g.world);
    assert_eq!(g.players.get(g.player).unwrap().state, PlayerStatus::Walking);
}

#[test]
fn player_outside_all_zones_starts_to_fall() {
    let mut g = ground();
    g.world.set_position(g.player_collider.handle, Transform::at(at(109, 50)));
    WalkableSystem.run(&mut g.players, &g.colliders, &g.walkable, &g.world);
    assert_eq!(
        g.players.get(g.player).unwrap().state,
        PlayerStatus::Falling { falling_duration: 1000, elapsed_time: 0 }
    );
    // Back on the ground, the fall goes on.
    g.world.set_position(g.player_collider.handle, Transform::at(at(50, 50)));
    WalkableSystem.run(&mut g.players, &g.colliders, &g.walkable, &g.world);
    assert_eq!(
        g.players.get(g.player).unwrap().state,
        PlayerStatus::Falling { falling_duration: 1000, elapsed_time: 0 }
    );
}

#[test]
fn player_whose_box_is_gone_is_left_alone() {
    let mut g = ground();
    g.world.remove(g.player_collider.handle);
    WalkableSystem.run(&mut g.players, &g.colliders, &g.walkable, &g.world);
    assert_eq!(g.players.get(g.player).unwrap().state, PlayerStatus::Walking);
}

#[test]
fn zone_whose_box_is_gone_carries_nobody() {
    let mut g = ground();
    let zone_handle = g.colliders.get(Entity { id: 1 }).unwrap().handle;
    g.world.remove(zone_handle);
    WalkableSystem.run(&mut g.players, &g.colliders, &g.walkable, &g.world);
    assert!(matches!(g.players.get(g.player).unwrap().state, PlayerStatus::Falling { .. }));
}

#[test]
fn fall_ends_the_game_once() {
    let config = PlayerConfig::default();
    let mut player =
        Player { state: PlayerStatus::Falling { falling_duration: 1000, elapsed_time: 0 } };
    let mut animation = AnimationController::new();
    animation.current_animation = Some(AnimationKey::WalkLeft);
    let mut channel = vec![];
    let system = PlayerSystem;
    let mut ticks = 0;
    while player.state != PlayerStatus::GameOver {
        let step = system.player_fall(&mut player, &mut animation, 100, &mut channel, &config);
        ticks += 1;
        assert_eq!(animation.current_animation, None);
        let elapsed = 100 * ticks;
        let scale = if elapsed > 1000 { 0 } else { 1000 - elapsed };
        assert_eq!(step, Some(FallStep { scale, rotation: 2_500_000 }));
        assert!(ticks <= 11);
    }
    // The fall is over in the first tick after more than its duration.
    assert_eq!(ticks, 11);
    assert_eq!(channel, vec![AppEvent::GameOver]);
    // Nothing more is sent once the game is over.
    let step = system.player_fall(&mut player, &mut animation, 100, &mut channel, &config);
    assert_eq!(step, None);
    assert_eq!(channel, vec![AppEvent::GameOver]);
    assert_eq!(player.state, PlayerStatus::GameOver);
}

#[test]
fn scale_is_the_part_of_the_fall_to_come() {
    assert_eq!(get_scale(1000, 0), 1000);
    assert_eq!(get_scale(1000, 250), 750);
    assert_eq!(get_scale(3, 1), 666);
    assert_eq!(get_scale(1000, 1000), 0);
    assert_eq!(get_scale(1000, 5000), 0);
    assert_eq!(get_scale(0, 0), 0);
}

#[test]
fn walking_player_moves_where_the_way_is_free() {
    let system = PlayerSystem;
    let mut animation = AnimationController::new();
    animation.current_animation = Some(AnimationKey::Shoot);
    let step = system.player_walk(&mut animation, &Direction { x: 1, y: 0 }, &FREE);
    assert_eq!(step, WalkStep { x: true, y: false, animation: Some(AnimationKey::WalkRight) });
    assert_eq!(animation.current_animation, Some(AnimationKey::WalkRight));
    // The vertical walk is shown where the player moves along both axes.
    let step = system.player_walk(&mut animation, &Direction { x: -3, y: -2 }, &FREE);
    assert_eq!(step, WalkStep { x: true, y: true, animation: Some(AnimationKey::WalkDown) });
    let step = system.player_walk(&mut animation, &Direction { x: -3, y: 2 }, &FREE);
    assert_eq!(step.animation, Some(AnimationKey::WalkUp));
    // A wall to the left and above.
    let blocked = Clearance { up: false, down: true, left: false, right: true };
    let step = system.player_walk(&mut animation, &Direction { x: -1, y: 1 }, &blocked);
    assert_eq!(step, WalkStep { x: false, y: false, animation: None });
    assert_eq!(animation.current_animation, None);
    let step = system.player_walk(&mut animation, &Direction { x: 0, y: 0 }, &FREE);
    assert_eq!(step, WalkStep { x: false, y: false, animation: None });
}

#[test]
fn player_system_runs_each_player_by_its_state() {
    let config = PlayerConfig::default();
    let walker = Entity { id: 0 };
    let faller = Entity { id: 1 };
    let loser = Entity { id: 2 };
    let bare = Entity { id: 3 };
    let mut players = Storage::new();
    let mut transforms = Storage::new();
    let mut animations = Storage::new();
    players.insert(walker, Player::default());
    players.insert(
        faller,
        Player { state: PlayerStatus::Falling { falling_duration: 1000, elapsed_time: 990 } },
    );
    players.insert(loser, Player { state: PlayerStatus::GameOver });
    players.insert(bare, Player { state: PlayerStatus::Falling { falling_duration: 1, elapsed_time: 1 } });
    for entity in [walker, faller, loser] {
        transforms.insert(entity, Transform::at(at(0, 0)));
        animations.insert(entity, AnimationController::new());
    }
    let mut channel = vec![];
    let steps = PlayerSystem.run(
        &mut players,
        &transforms,
        &mut animations,
        &Direction { x: 0, y: 5 },
        &FREE,
        16,
        &mut channel,
        &config,
    );
    assert_eq!(
        steps,
        vec![
            (walker, PlayerStep::Walk(WalkStep { x: false, y: true, animation: Some(AnimationKey::WalkUp) })),
            (faller, PlayerStep::Fall(FallStep { scale: 0, rotation: 400_000 })),
        ]
    );
    assert_eq!(channel, vec![AppEvent::GameOver]);
    assert_eq!(players.get(walker).unwrap().state, PlayerStatus::Walking);
    assert_eq!(players.get(faller).unwrap().state, PlayerStatus::GameOver);
    assert_eq!(players.get(loser).unwrap().state, PlayerStatus::GameOver);
    // A player without position and animations is passed over.
    assert_eq!(
        players.get(bare).unwrap().state,
        PlayerStatus::Falling { falling_duration: 1, elapsed_time: 1 }
    );
    assert_eq!(animations.get(walker).unwrap().current_animation, Some(AnimationKey::WalkUp));
}
