use thief_engine::config::{ArenaConfig, BulletConfig, EnemyConfig, PlayerConfig};
use thief_engine::ecs::{Entities, Storage};
use thief_engine::event::{AppEvent, Entity};
use thief_engine::geometry::{Aabb, Direction, Position};
use thief_engine::objects::enemy::simple_enemy::SimpleEnemy;
use thief_engine::states::{stop_arena, Input, RuntimeSystemState, State, Transition};
use thief_engine::systems::bullet::Bullet;
use thief_engine::systems::collision::{Collider, ColliderObjectType};
use thief_engine::systems::garbage::GarbageSystem;
use thief_engine::systems::health::{Health, HealthSystem};
use thief_engine::systems::player::PlayerResource;
use thief_engine::systems::world::MyCollisionWorld;

fn at(x: i32, y: i32) -> Position {
    Position { x, y }
}

#[test]
fn entities_get_ids_in_order_and_die_once() {
    let mut entities = Entities::new();
    let a = entities.create();
    let b = entities.create();
    assert_eq!((a, b), (Entity { id: 0 }, Entity { id: 1 }));
    assert!(entities.is_alive(a));
    assert!(!entities.is_alive(Entity { id: 2 }));
    assert!(entities.delete(a));
    assert!(!entities.delete(a));
    assert!(!entities.is_alive(a));
    assert!(entities.is_alive(b));
    // An id is not used twice.
    assert_eq!(entities.create(), Entity { id: 2 });
}

#[test]
fn storage_holds_one_component_for_each_entity() {
    let mut storage = Storage::new();
    let e = Entity { id: 5 };
    assert_eq!(storage.get(e), None);
    storage.insert(e, 10);
    storage.insert(Entity { id: 2 }, 20);
    assert_eq!(storage.get(e), Some(&10));
    assert!(storage.contains(Entity { id: 2 }));
    assert!(!storage.contains(Entity { id: 3 }));
    storage.insert(e, 11);
    assert_eq!(storage.get(e), Some(&11));
    *storage.get_mut(e).unwrap() += 1;
    assert_eq!(storage.get(e), Some(&12));
    assert!(storage.get_mut(Entity { id: 100 }).is_none());
    assert_eq!(storage.remove(e), Some(12));
    assert_eq!(storage.remove(e), None);
    assert_eq!(storage.get(e), None);
    assert_eq!(storage.get(Entity { id: 2 }), Some(&20));
    assert!(storage.bound() > 2);
}

#[test]
fn boxes_and_directions() {
    let a = Aabb::new_around(at(0, 0), 5, 2);
    assert_eq!(a, Aabb { min_x: -5, min_y: -2, max_x: 5, max_y: 2 });
    let far = Aabb::new_around(at(i32::MAX, i32::MIN), u32::MAX, u32::MAX);
    assert_eq!(far.max_x, i32::MAX as i64 + u32::MAX as i64);
    assert_eq!(far.min_y, i32::MIN as i64 - u32::MAX as i64);
    assert!(a.intersects(&Aabb::new_around(at(10, 0), 5, 5)));
    assert!(!a.intersects(&Aabb::new_around(at(11, 0), 5, 5)));
    assert!(!a.intersects(&Aabb::new_around(at(0, 8), 5, 5)));
    assert!(a.intersects(&Aabb::new_around(at(0, -7), 5, 5)));
    assert!(a.intersects(&a));
    assert_eq!(at(3, -4).direction_to(&at(-1, 6)), Direction { x: -4, y: 10 });
    assert_eq!(
        at(i32::MIN, 0).direction_to(&at(i32::MAX, 0)),
        Direction { x: i32::MAX as i64 - i32::MIN as i64, y: 0 }
    );
}

#[test]
fn garbage_system_removes_what_has_died() {
    let mut entities = Entities::new();
    let mut colliders = Storage::new();
    let mut world = MyCollisionWorld::default();
    let dead = entities.create();
    let alive = entities.create();
    for entity in [dead, alive] {
        let collider =
            Collider::new_rect(at(0, 0), 4, 4, &mut world, ColliderObjectType::Enemy, None, Some(entity));
        colliders.insert(entity, collider);
    }
    let events = vec![AppEvent::NextWave, AppEvent::EnemyDied(dead), AppEvent::EntityHit(alive)];
    GarbageSystem::new().run(&mut entities, &mut world, &events, &colliders);
    assert!(!entities.is_alive(dead));
    assert!(!world.contains(colliders.get(dead).unwrap().handle));
    assert!(entities.is_alive(alive));
    assert!(world.contains(colliders.get(alive).unwrap().handle));
}

#[test]
fn leaving_the_arena_removes_map_player_and_bullets() {
    let mut entities = Entities::new();
    let mut colliders = Storage::new();
    let mut bullets = Storage::new();
    let mut world = MyCollisionWorld::default();
    let wall = entities.create();
    let player = entities.create();
    let bullet = entities.create();
    let enemy = entities.create();
    for entity in [wall, player, bullet, enemy] {
        let collider =
            Collider::new_rect(at(0, 0), 4, 4, &mut world, ColliderObjectType::Wall, None, Some(entity));
        colliders.insert(entity, collider);
    }
    bullets.insert(bullet, Bullet { speed: 1, direction: Direction { x: 1, y: 0 }, path_mod: None });
    stop_arena(
        &vec![wall],
        &PlayerResource { player: Some(player) },
        &bullets,
        &colliders,
        &mut entities,
        &mut world,
    );
    for entity in [wall, player, bullet] {
        assert!(!entities.is_alive(entity));
        assert!(!world.contains(colliders.get(entity).unwrap().handle));
    }
    assert!(entities.is_alive(enemy));
    assert!(world.contains(colliders.get(enemy).unwrap().handle));
}

#[test]
fn states_follow_the_events() {
    let dialog = AppEvent::NewDialog { dialog: vec![String::from("hi")], and_then: None };
    assert_eq!(State::Game.handle_event(&dialog), Transition::PushDialog);
    assert_eq!(State::Story.handle_event(&dialog), Transition::PushDialog);
    assert_eq!(State::GameOver.handle_event(&dialog), Transition::PushDialog);
    assert_eq!(State::Dialog.handle_event(&dialog), Transition::Stay);
    assert_eq!(State::Game.handle_event(&AppEvent::GameOver), Transition::Switch(State::GameOver));
    assert_eq!(State::Story.handle_event(&AppEvent::GameOver), Transition::Stay);
    assert_eq!(State::Dialog.handle_event(&AppEvent::DialogOver), Transition::Pop);
    assert_eq!(State::Game.handle_event(&AppEvent::DialogOver), Transition::Stay);
    assert_eq!(State::Game.handle_event(&AppEvent::NextWave), Transition::Stay);
    for state in [State::Story, State::Game, State::Dialog, State::GameOver] {
        assert_eq!(state.handle_input(Input::Close), Transition::Quit);
    }
    assert_eq!(State::Story.handle_input(Input::Click), Transition::Switch(State::Game));
    assert_eq!(State::Game.handle_input(Input::Click), Transition::Stay);
    assert_eq!(State::GameOver.handle_input(Input::Retry), Transition::Switch(State::Game));
    assert_eq!(State::GameOver.handle_input(Input::Exit), Transition::Quit);
    assert_eq!(State::Game.handle_input(Input::Retry), Transition::Stay);
    assert_eq!(State::Dialog.runtime_state(), RuntimeSystemState::Paused);
    assert_eq!(State::Game.runtime_state(), RuntimeSystemState::Running);
    assert_eq!(RuntimeSystemState::default(), RuntimeSystemState::Paused);
}

#[test]
fn configurations_start_from_their_defaults() {
    assert!(ArenaConfig::default().waves.is_empty());
    let player = PlayerConfig::default();
    assert_eq!((player.player_speed, player.health, player.fall_rot_speed), (50_000, 5, 25_000));
    let enemy = EnemyConfig::default();
    assert_eq!(enemy.simple_enemy.bullet_speed, 100_000);
    assert_eq!(enemy.simple_enemy.walk_speed, 200);
    assert_eq!(SimpleEnemy::from_config(&enemy.simple_enemy).walk_speed, 200);
    assert_eq!(enemy.creepy_boss.collider_size, 48);
    assert_eq!(BulletConfig::default().rotating_bullet.rot_per_sec(), 1_000_000);
}

#[test]
fn health_system_knows_how_many_hits_it_can_count() {
    let mut healths = Storage::new();
    healths.insert(Entity { id: 0 }, Health::new(3));
    healths.insert(Entity { id: 4 }, Health::new(i32::MIN + 2));
    let system = HealthSystem::new();
    let strong = Entity { id: 0 };
    let weak = Entity { id: 4 };
    let hit = |entity| AppEvent::EntityHit(entity);
    assert!(system.can_run(&healths, &vec![]));
    assert!(system.can_run(&healths, &vec![hit(weak), AppEvent::NextWave, hit(weak)]));
    assert!(!system.can_run(&healths, &vec![hit(weak), hit(weak), hit(weak)]));
    // Only the hits of an entity count against its health.
    assert!(system.can_run(&healths, &vec![hit(weak), hit(weak), hit(strong), hit(strong)]));
    let stranger = Entity { id: 9 };
    assert!(system.can_run(&healths, &vec![hit(stranger), hit(stranger), hit(stranger)]));
    assert!(system.can_run(&Storage::new(), &vec![hit(weak)]));
}
