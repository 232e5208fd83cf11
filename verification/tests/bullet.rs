use thief_engine::components::Components;
use thief_engine::config::BulletConfig;
use thief_engine::ecs::Entities;
use thief_engine::error::GameError;
use thief_engine::event::Entity;
use thief_engine::geometry::{Direction, Position, Transform};
use thief_engine::objects::player::create_player;
use thief_engine::config::PlayerConfig;
use thief_engine::systems::attack::{AttackSystem, Weapon};
use thief_engine::systems::bullet::{Bullet, BulletSpawner, SIMPLE_BULLET_IDX};
use thief_engine::systems::collision::{Collider, ColliderObjectType};
use thief_engine::systems::player::PlayerStatus;
use thief_engine::systems::world::{ContactEvent, MyCollisionWorld};

fn at(x: i32, y: i32) -> Position {
    Position { x, y }
}

#[test]
fn unknown_bullet_kind_is_an_error_and_changes_nothing() {
    let mut entities = Entities::new();
    let mut components = Components::new();
    let mut world = MyCollisionWorld::default();
    let spawner = BulletSpawner::init(1, BulletConfig::default());
    assert_eq!(spawner.kinds(), 1);
    let result = spawner.spawn_player_bullet(
        &mut entities,
        &mut components,
        &mut world,
        1,
        at(0, 0),
        Direction { x: 1, y: 0 },
        100_000,
    );
    assert_eq!(result, Err(GameError::BulletNotFound { idx: 1 }));
    assert!(!entities.is_alive(Entity { id: 0 }));
    assert!(!world.contains(0));
    assert_eq!(components.bullets.bound(), 0);
}

#[test]
fn player_bullet_touches_enemies_and_walls_only() {
    let mut entities = Entities::new();
    let mut components = Components::new();
    let mut world = MyCollisionWorld::default();
    let spawner = BulletSpawner::init(1, BulletConfig::default());
    let player = Collider::new_rect(at(0, 0), 16, 16, &mut world, ColliderObjectType::Player, None, None);
    let enemy = Collider::new_rect(at(0, 0), 16, 16, &mut world, ColliderObjectType::Enemy, None, None);
    let wall = Collider::new_rect(at(0, 0), 16, 16, &mut world, ColliderObjectType::Wall, None, None);
    world.update();
    let bullet = spawner
        .spawn_player_bullet(
            &mut entities,
            &mut components,
            &mut world,
            SIMPLE_BULLET_IDX,
            at(30, 40),
            Direction { x: 1, y: 0 },
            100_000,
        )
        .unwrap();
    assert_eq!(
        components.bullets.get(bullet),
        Some(&Bullet { speed: 100_000, direction: Direction { x: 1, y: 0 }, path_mod: None })
    );
    assert_eq!(components.transforms.get(bullet), Some(&Transform::at(at(30, 40))));
    let handle = components.colliders.get(bullet).unwrap().handle;
    world.update();
    assert_eq!(
        world.contact_events(),
        &vec![ContactEvent::Started(enemy.handle, handle), ContactEvent::Started(wall.handle, handle)]
    );
    assert!(world.contains(player.handle));
}

#[test]
fn enemy_bullet_touches_the_player_and_walls_only() {
    let mut entities = Entities::new();
    let mut components = Components::new();
    let mut world = MyCollisionWorld::default();
    let spawner = BulletSpawner::init(2, BulletConfig::default());
    let player = Collider::new_rect(at(0, 0), 16, 16, &mut world, ColliderObjectType::Player, None, None);
    let _enemy = Collider::new_rect(at(0, 0), 16, 16, &mut world, ColliderObjectType::Enemy, None, None);
    let wall = Collider::new_rect(at(0, 0), 16, 16, &mut world, ColliderObjectType::Wall, None, None);
    world.update();
    let bullet = spawner
        .spawn_enemy_bullet(&mut entities, &mut components, &mut world, 1, at(0, 0), Direction { x: 0, y: 1 }, 5)
        .unwrap();
    let handle = components.colliders.get(bullet).unwrap().handle;
    world.update();
    assert_eq!(
        world.contact_events(),
        &vec![ContactEvent::Started(player.handle, handle), ContactEvent::Started(wall.handle, handle)]
    );
}

#[test]
fn weapon_reloads_after_a_shot() {
    let mut weapon = Weapon::default();
    assert_eq!(weapon.time_before_shooting(), 0);
    assert_eq!(weapon.reload_time(), 1000);
    // No shot without the trigger.
    assert!(!weapon.pull(16, false));
    assert!(weapon.pull(16, true));
    assert_eq!(weapon.time_before_shooting(), 1000);
    assert!(!weapon.pull(600, true));
    assert_eq!(weapon.time_before_shooting(), 400);
    assert!(!weapon.pull(399, true));
    assert_eq!(weapon.time_before_shooting(), 1);
    // The time runs first: the weapon is ready in the tick in which it has
    // waited long enough.
    assert!(weapon.pull(5, true));
    assert_eq!(weapon.time_before_shooting(), 1000);
    let mut quick = Weapon::new(0);
    assert!(quick.pull(0, true));
    assert!(quick.pull(0, true));
}

#[test]
fn player_is_created_whole_and_shoots_where_it_aims() {
    let mut entities = Entities::new();
    let mut components = Components::new();
    let mut world = MyCollisionWorld::default();
    let config = PlayerConfig::default();
    let player = create_player(&mut entities, &mut components, &mut world, &config, at(50, 50));
    assert!(entities.is_alive(player));
    assert_eq!(components.transforms.get(player), Some(&Transform::at(at(50, 50))));
    assert_eq!(components.players.get(player).unwrap().state, PlayerStatus::Walking);
    assert_eq!(components.healths.get(player).unwrap().current_health(), 5);
    assert_eq!(components.weapons.get(player).unwrap().reload_time(), 1000);
    assert_eq!(components.animations.get(player).unwrap().animations.len(), 4);
    let object = world.collision_object(components.colliders.get(player).unwrap().handle).unwrap();
    assert_eq!(object.data.entity, Some(player));
    assert_eq!(object.data.ty, ColliderObjectType::Player);
    assert_eq!((object.half_width, object.half_height), (8, 8));

    let spawner = BulletSpawner::init(1, BulletConfig::default());
    let mut system = AttackSystem;
    assert_eq!(system.shooter(&components), Some(player));
    // The trigger is not held: the time runs, nothing is shot.
    let shot = system.run(&mut components, None, 16, &mut entities, &spawner, &mut world);
    assert_eq!(shot, None);
    let aim = Direction { x: -3, y: 4 };
    let shot = system.run(&mut components, Some(aim), 16, &mut entities, &spawner, &mut world);
    let bullet = Entity { id: 1 };
    assert_eq!(shot, Some(Ok(bullet)));
    assert_eq!(
        components.bullets.get(bullet),
        Some(&Bullet { speed: 100_000, direction: aim, path_mod: None })
    );
    assert_eq!(components.transforms.get(bullet), Some(&Transform::at(at(50, 50))));
    assert_eq!(components.weapons.get(player).unwrap().time_before_shooting(), 1000);
    // The weapon reloads: no shot in the next tick.
    let shot = system.run(&mut components, Some(aim), 16, &mut entities, &spawner, &mut world);
    assert_eq!(shot, None);
    assert_eq!(components.weapons.get(player).unwrap().time_before_shooting(), 984);

    // Without a bullet to shoot, the shot is an error, and the weapon reloads all the same.
    let empty = BulletSpawner::init(0, BulletConfig::default());
    let shot = system.run(&mut components, Some(aim), 2000, &mut entities, &empty, &mut world);
    assert_eq!(shot, Some(Err(GameError::BulletNotFound { idx: 0 })));
    assert_eq!(components.weapons.get(player).unwrap().time_before_shooting(), 1000);
}

#[test]
fn nobody_shoots_where_nobody_is_armed() {
    let mut entities = Entities::new();
    let mut components = Components::new();
    let mut world = MyCollisionWorld::default();
    let spawner = BulletSpawner::init(1, BulletConfig::default());
    let shot = AttackSystem.run(
        &mut components,
        Some(Direction { x: 1, y: 1 }),
        16,
        &mut entities,
        &spawner,
        &mut world,
    );
    assert_eq!(shot, None);
    assert!(!world.contains(0));
}
