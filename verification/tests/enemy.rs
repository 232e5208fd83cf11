use thief_engine::components::Components;
use thief_engine::config::{BulletConfig, CreepyFirstBossConfig, EnemyConfig, SimpleEnemyConfig};
use thief_engine::ecs::Entities;
use thief_engine::error::GameError;
use thief_engine::event::Entity;
use thief_engine::geometry::{Direction, Position, Transform};
use thief_engine::objects::enemy::creepy_boss::{BossStatus, CreepyFirstBoss};
use thief_engine::objects::enemy::simple_enemy::{
    choose_shooting_animation, choose_walking_animation, EnemyStatus, SimpleEnemy,
};
use thief_engine::objects::enemy::{EnemySpawner, EnemyUpdate, Movement};
use thief_engine::systems::animation::AnimationKey;
use thief_engine::systems::bullet::{Bullet, BulletSpawner};
use thief_engine::systems::collision::ColliderObjectType;
use thief_engine::systems::enemy::{Enemy, EnemySystem, EnemyType};
use thief_engine::systems::player::PlayerResource;
use thief_engine::systems::world::MyCollisionWorld;

fn at(x: i32, y: i32) -> Position {
    Position { x, y }
}

struct Arena {
    entities: Entities,
    components: Components,
    world: MyCollisionWorld,
    bullets: BulletSpawner,
}

fn arena(kinds: usize) -> Arena {
    Arena {
        entities: Entities::new(),
        components: Components::new(),
        world: MyCollisionWorld::default(),
        bullets: BulletSpawner::init(kinds, BulletConfig::default()),
    }
}

#[test]
fn simple_enemy_comes_from_its_configuration() {
    let config = SimpleEnemyConfig {
        bullet_speed: 42_000,
        walk_duration: 500,
        shoot_duration: 200,
        walk_speed: 999,
        health: 3,
    };
    let enemy = SimpleEnemy::from_config(&config);
    assert_eq!(
        enemy,
        SimpleEnemy {
            bullet_speed: 42_000,
            walk_speed: 999,
            state: EnemyStatus::Walking,
            current_state_duration: 0,
            walk_duration: 500,
            shoot_duration: 200,
        }
    );
    let default = SimpleEnemy::default();
    assert_eq!(default.bullet_speed, 100_000);
    assert_eq!(default.walk_duration, 3000);
    assert_eq!(default.shoot_duration, 300);
    let defaults = SimpleEnemyConfig::default();
    assert_eq!(defaults.walk_duration, 2000);
    assert_eq!(defaults.shoot_duration, 1000);
    assert_eq!(defaults.health, 2);
    assert_eq!(
        CreepyFirstBossConfig::default(),
        CreepyFirstBossConfig { health: 10, collider_size: 48, bullet_spawn: 4 }
    );
}

#[test]
fn walking_animation_goes_by_the_longer_part() {
    // The longer part of the direction decides.
    assert_eq!(choose_walking_animation(&Direction { x: -9, y: 1 }), Some(AnimationKey::WalkLeft));
    assert_eq!(choose_walking_animation(&Direction { x: 9, y: -2 }), Some(AnimationKey::WalkRight));
    assert_eq!(choose_walking_animation(&Direction { x: -1, y: 9 }), Some(AnimationKey::WalkUp));
    assert_eq!(choose_walking_animation(&Direction { x: 2, y: -9 }), Some(AnimationKey::WalkDown));
    // Where both are equally long, the horizontal part counts.
    assert_eq!(choose_walking_animation(&Direction { x: -4, y: 4 }), Some(AnimationKey::WalkLeft));
    assert_eq!(choose_walking_animation(&Direction { x: 4, y: -4 }), Some(AnimationKey::WalkRight));
    assert_eq!(
        choose_walking_animation(&Direction { x: i64::MIN, y: i64::MAX }),
        Some(AnimationKey::WalkLeft)
    );
    assert_eq!(choose_walking_animation(&Direction { x: 0, y: 4 }), Some(AnimationKey::WalkUp));
    assert_eq!(choose_walking_animation(&Direction { x: 0, y: -4 }), Some(AnimationKey::WalkDown));
    assert_eq!(choose_walking_animation(&Direction { x: 0, y: 0 }), None);
    assert_eq!(choose_shooting_animation(Some(AnimationKey::WalkUp)), None);
    assert_eq!(choose_shooting_animation(Some(AnimationKey::WalkLeft)), Some(AnimationKey::Shoot));
    assert_eq!(choose_shooting_animation(None), Some(AnimationKey::Shoot));
}

#[test]
fn simple_enemy_walks_shoots_and_holds() {
    let mut a = arena(1);
    let mut enemy = SimpleEnemy::from_config(&SimpleEnemyConfig {
        bullet_speed: 70_000,
        walk_duration: 30,
        shoot_duration: 20,
        walk_speed: 150,
        health: 2,
    });
    let here = at(10, 10);
    let player = at(2, 16);
    let direction = Direction { x: -8, y: 6 };

    // Walking: a step towards the player, until the walk has lasted long enough.
    let update = enemy.update(16, &here, None, &player, &a.bullets, &mut a.entities, &mut a.components, &mut a.world);
    assert_eq!(
        update,
        EnemyUpdate {
            movement: Some(Movement { direction, speed: 150 }),
            animation: Some(AnimationKey::WalkLeft),
            spawned: None,
            error: None,
        }
    );
    assert_eq!(enemy.state, EnemyStatus::Walking);
    assert_eq!(enemy.current_state_duration, 16);
    let update = enemy.update(16, &here, update.animation, &player, &a.bullets, &mut a.entities, &mut a.components, &mut a.world);
    assert!(update.movement.is_some());
    assert_eq!(enemy.state, EnemyStatus::Shooting);
    assert_eq!(enemy.current_state_duration, 0);

    // Shooting lasts one tick: one bullet leaves towards the player.
    let update = enemy.update(16, &here, update.animation, &player, &a.bullets, &mut a.entities, &mut a.components, &mut a.world);
    let bullet = Entity { id: 0 };
    assert_eq!(
        update,
        EnemyUpdate {
            movement: None,
            animation: Some(AnimationKey::Shoot),
            spawned: Some(bullet),
            error: None,
        }
    );
    assert_eq!(enemy.state, EnemyStatus::PostShooting);
    assert!(a.entities.is_alive(bullet));
    assert_eq!(
        a.components.bullets.get(bullet),
        Some(&Bullet { speed: 70_000, direction, path_mod: Some(10_000) })
    );
    assert_eq!(a.components.transforms.get(bullet), Some(&Transform::at(here)));
    let handle = a.components.colliders.get(bullet).unwrap().handle;
    let object = a.world.collision_object(handle).unwrap();
    assert_eq!(object.data.ty, ColliderObjectType::Bullet);
    assert_eq!(object.data.entity, Some(bullet));
    assert_eq!((object.half_width, object.half_height), (4, 4));
    assert_eq!(object.position, Transform::at(at(0, 0)));

    // Holding: no step, no bullet, until the shot has been shown long enough.
    let update = enemy.update(16, &here, update.animation, &player, &a.bullets, &mut a.entities, &mut a.components, &mut a.world);
    assert_eq!(
        update,
        EnemyUpdate { movement: None, animation: Some(AnimationKey::Shoot), spawned: None, error: None }
    );
    assert_eq!(enemy.state, EnemyStatus::PostShooting);
    assert_eq!(enemy.current_state_duration, 16);
    enemy.update(16, &here, update.animation, &player, &a.bullets, &mut a.entities, &mut a.components, &mut a.world);
    assert_eq!(enemy.state, EnemyStatus::Walking);
    assert_eq!(enemy.current_state_duration, 0);
    assert_eq!(a.components.bullets.bound(), 1);
}

#[test]
fn shot_is_not_shown_after_facing_up() {
    let mut a = arena(1);
    let mut enemy = SimpleEnemy::default();
    enemy.state = EnemyStatus::Shooting;
    let update = enemy.update(
        16,
        &at(0, 0),
        Some(AnimationKey::WalkUp),
        &at(0, 10),
        &a.bullets,
        &mut a.entities,
        &mut a.components,
        &mut a.world,
    );
    assert_eq!(update.animation, None);
    assert_eq!(update.spawned, Some(Entity { id: 0 }));
}

#[test]
fn enemy_that_cannot_shoot_reports_the_missing_bullet() {
    let mut a = arena(0);
    let mut enemy = SimpleEnemy::default();
    enemy.state = EnemyStatus::Shooting;
    let update = enemy.update(16, &at(0, 0), None, &at(5, 5), &a.bullets, &mut a.entities, &mut a.components, &mut a.world);
    assert_eq!(update.spawned, None);
    assert_eq!(update.error, Some(GameError::BulletNotFound { idx: 0 }));
    assert_eq!(enemy.state, EnemyStatus::PostShooting);
    assert!(!a.entities.is_alive(Entity { id: 0 }));
    assert!(!a.world.contains(0));
}

#[test]
fn boss_waits_then_fires_every_few_ticks() {
    let mut a = arena(1);
    let mut boss = CreepyFirstBoss::new(100, 30, 2);
    assert_eq!(boss.status(), BossStatus::Waiting);
    let here = at(100, 200);
    let mut fired = vec![];
    for tick in 0..14 {
        let update = boss.update(16, &here, Some(AnimationKey::Idle), &a.bullets, &mut a.entities, &mut a.components, &mut a.world);
        assert_eq!(update.movement, None);
        assert_eq!(update.animation, Some(AnimationKey::Idle));
        assert_eq!(update.error, None);
        if update.spawned.is_some() {
            fired.push(tick);
        }
    }
    // Ticks 0 and 1 pass waiting. Shooting, the boss counts two ticks between
    // shots. After 100 ms it goes back to waiting, and counts anew when it
    // shoots again.
    assert_eq!(fired, vec![4, 7, 13]);
    let bullet = Entity { id: 0 };
    assert_eq!(
        a.components.bullets.get(bullet),
        Some(&Bullet { speed: 50_000, direction: Direction { x: 0, y: -1 }, path_mod: Some(10_000) })
    );
    assert_eq!(a.components.transforms.get(bullet), Some(&Transform::at(at(100, 175))));
}

#[test]
fn default_boss_waits_two_seconds_and_shoots_for_three() {
    let mut boss = CreepyFirstBoss::default();
    assert_eq!(boss.status(), BossStatus::Waiting);
    assert!(!boss.advance(1999));
    assert_eq!(boss.status(), BossStatus::Waiting);
    assert_eq!(boss.current_state_duration(), 1999);
    assert!(!boss.advance(1));
    assert_eq!(boss.status(), BossStatus::Shooting);
    assert_eq!(boss.current_state_duration(), 0);
    for expected in 1..=10 {
        assert!(!boss.advance(16));
        assert_eq!(boss.nb_frame(), expected);
    }
    assert!(boss.advance(16));
    assert_eq!(boss.nb_frame(), 0);
    assert!(!boss.advance(3000));
    assert_eq!(boss.status(), BossStatus::Waiting);
}

#[test]
fn spawner_gives_each_kind_its_components() {
    let mut a = arena(1);
    let config = EnemyConfig::default();
    let spawner = EnemySpawner::init(config);
    let simple = spawner
        .spawn_enemy(&mut a.entities, &mut a.components, &mut a.world, EnemyType::Simple, at(3, 4))
        .unwrap();
    let boss = spawner
        .create_enemy(&mut a.entities, &mut a.components, &mut a.world, EnemyType::CreepyFirstBoss, at(9, 9))
        .unwrap();
    assert_eq!((simple, boss), (Entity { id: 0 }, Entity { id: 1 }));
    assert_eq!(a.components.transforms.get(simple), Some(&Transform::at(at(3, 4))));
    assert_eq!(a.components.healths.get(simple).unwrap().current_health(), 2);
    assert_eq!(a.components.healths.get(boss).unwrap().current_health(), 10);
    assert!(matches!(a.components.enemies.get(simple), Some(Enemy::Simple(_))));
    assert!(matches!(a.components.enemies.get(boss), Some(Enemy::CreepyFirstBoss(_))));
    // The simple enemy has its five animations, the boss has none.
    let controller = a.components.animations.get(simple).unwrap();
    assert_eq!(controller.animations.len(), 5);
    assert_eq!(controller.current_animation, None);
    assert!(!a.components.animations.contains(boss));
    let simple_box = a.world.collision_object(a.components.colliders.get(simple).unwrap().handle).unwrap();
    let boss_box = a.world.collision_object(a.components.colliders.get(boss).unwrap().handle).unwrap();
    assert_eq!((simple_box.half_width, simple_box.half_height), (8, 8));
    assert_eq!((boss_box.half_width, boss_box.half_height), (24, 24));
    assert_eq!(simple_box.data.ty, ColliderObjectType::Enemy);
    assert_eq!(boss_box.data.entity, Some(boss));
}

#[test]
fn spawner_that_does_not_know_a_kind_spawns_nothing() {
    let mut a = arena(1);
    let spawner = EnemySpawner::new(vec![EnemyType::CreepyFirstBoss], EnemyConfig::default());
    assert!(!spawner.can_spawn(EnemyType::Simple));
    assert!(spawner.can_spawn(EnemyType::CreepyFirstBoss));
    let spawned =
        spawner.spawn_enemy(&mut a.entities, &mut a.components, &mut a.world, EnemyType::Simple, at(0, 0));
    assert_eq!(spawned, None);
    assert!(!a.entities.is_alive(Entity { id: 0 }));
    assert!(!a.world.contains(0));
}

#[test]
fn enemy_system_updates_every_enemy_that_stands_somewhere() {
    let mut a = arena(1);
    let spawner = EnemySpawner::init(EnemyConfig::default());
    let player = a.entities.create();
    a.components.transforms.insert(player, Transform::at(at(0, 0)));
    let left = spawner
        .spawn_enemy(&mut a.entities, &mut a.components, &mut a.world, EnemyType::Simple, at(10, 0))
        .unwrap();
    let shooter = spawner
        .spawn_enemy(&mut a.entities, &mut a.components, &mut a.world, EnemyType::Simple, at(-10, 5))
        .unwrap();
    let mut shooting = SimpleEnemy::default();
    shooting.state = EnemyStatus::Shooting;
    a.components.enemies.insert(shooter, Enemy::Simple(shooting));
    let lost = spawner
        .spawn_enemy(&mut a.entities, &mut a.components, &mut a.world, EnemyType::Simple, at(1, 1))
        .unwrap();
    a.components.transforms.remove(lost);

    let resource = PlayerResource { player: Some(player) };
    let updates = EnemySystem.run(&mut a.components, &resource, 16, &mut a.entities, &a.bullets, &mut a.world);
    let bullet = Entity { id: 4 };
    assert_eq!(
        updates,
        vec![
            (
                left,
                EnemyUpdate {
                    movement: Some(Movement { direction: Direction { x: -10, y: 0 }, speed: 200 }),
                    animation: Some(AnimationKey::WalkLeft),
                    spawned: None,
                    error: None,
                }
            ),
            (
                shooter,
                EnemyUpdate {
                    movement: None,
                    animation: Some(AnimationKey::Shoot),
                    spawned: Some(bullet),
                    error: None,
                }
            ),
        ]
    );
    assert_eq!(a.components.animations.get(left).unwrap().current_animation, Some(AnimationKey::WalkLeft));
    assert_eq!(a.components.animations.get(shooter).unwrap().current_animation, Some(AnimationKey::Shoot));
    assert_eq!(a.components.animations.get(lost).unwrap().current_animation, None);
    assert!(matches!(
        a.components.enemies.get(shooter),
        Some(Enemy::Simple(SimpleEnemy { state: EnemyStatus::PostShooting, .. }))
    ));
    assert_eq!(a.components.bullets.get(bullet).unwrap().direction, Direction { x: 10, y: -5 });

    // Without a player nothing happens.
    let nobody = PlayerResource::default();
    let updates = EnemySystem.run(&mut a.components, &nobody, 16, &mut a.entities, &a.bullets, &mut a.world);
    assert!(updates.is_empty());
    let gone = PlayerResource { player: Some(Entity { id: 77 }) };
    let updates = EnemySystem.run(&mut a.components, &gone, 16, &mut a.entities, &a.bullets, &mut a.world);
    assert!(updates.is_empty());
}

#[test]
fn enemy_is_made_by_its_kind() {
    let config = EnemyConfig::default();
    assert!(matches!(Enemy::from_config(EnemyType::Simple, &config), Enemy::Simple(_)));
    assert!(matches!(
        Enemy::from_config(EnemyType::CreepyFirstBoss, &config),
        Enemy::CreepyFirstBoss(_)
    ));
    assert!(matches!(Enemy::default(), Enemy::Simple(_)));
}

#[test]
fn enemy_faces_up_when_the_player_is_farther_up_than_sideways() {
    let mut a = arena(1);
    let mut enemy = SimpleEnemy::default();
    let update = enemy.update(
        16,
        &at(0, 0),
        None,
        &at(3, 40),
        &a.bullets,
        &mut a.entities,
        &mut a.components,
        &mut a.world,
    );
    assert_eq!(update.animation, Some(AnimationKey::WalkUp));
    assert_eq!(
        update.movement,
        Some(Movement { direction: Direction { x: 3, y: 40 }, speed: 200 })
    );
    let update = enemy.update(
        16,
        &at(0, 0),
        update.animation,
        &at(-3, -40),
        &a.bullets,
        &mut a.entities,
        &mut a.components,
        &mut a.world,
    );
    assert_eq!(update.animation, Some(AnimationKey::WalkDown));
}

#[test]
fn boss_that_stops_shooting_counts_anew() {
    let mut boss = CreepyFirstBoss::new(50, 10, 5);
    assert!(!boss.advance(10));
    assert_eq!(boss.status(), BossStatus::Shooting);
    assert!(!boss.advance(16));
    assert!(!boss.advance(16));
    assert_eq!((boss.nb_frame(), boss.current_state_duration()), (2, 32));
    assert!(!boss.advance(18));
    assert_eq!(boss.status(), BossStatus::Waiting);
    assert_eq!((boss.nb_frame(), boss.current_state_duration()), (0, 0));
}
