use thief_engine::components::Components;
use thief_engine::config::{ArenaConfig, BulletConfig, EnemyConfig, PlayerConfig, WaveConfig};
use thief_engine::ecs::Entities;
use thief_engine::event::{AppEvent, Entity};
use thief_engine::geometry::{Direction, Position, Transform};
use thief_engine::objects::enemy::EnemySpawner;
use thief_engine::objects::player::create_player;
use thief_engine::systems::attack::AttackSystem;
use thief_engine::systems::bullet::BulletSpawner;
use thief_engine::systems::collision::{CollisionSystem, WalkableSystem};
use thief_engine::systems::health::HealthSystem;
use thief_engine::systems::player::PlayerStatus;
use thief_engine::systems::schedule::Scheduler;
use thief_engine::systems::spawn::SpawnSystem;
use thief_engine::systems::wave::{WaveSystem, Waves};
use thief_engine::systems::world::MyCollisionWorld;
use thief_engine::tilemap::Tilemap;

struct Game {
    entities: Entities,
    components: Components,
    world: MyCollisionWorld,
    bullets: BulletSpawner,
    enemies: EnemySpawner,
    tilemap: Tilemap,
    waves: Waves,
    channel: Vec<AppEvent>,
}

impl Game {
    /// One tick of the systems, in their order. Each system reads what was
    /// sent in the tick before.
    fn tick(&mut self, time_delta: u32) {
        let events = std::mem::take(&mut self.channel);
        let mut collisions = CollisionSystem::new();
        for event in self.world.contact_events() {
            assert!(collisions.can_resolve(&self.world, event));
        }
        let hits = collisions.run(
            &self.components.colliders,
            &self.components.transforms,
            &mut self.world,
            &mut self.entities,
            &events,
        );
        self.channel.extend(hits);
        WalkableSystem.run(
            &mut self.components.players,
            &self.components.colliders,
            &self.components.walkables,
            &self.world,
        );
        let mut healths = HealthSystem::new();
        assert!(healths.can_run(&self.components.healths, &events));
        let deaths = healths.run(&mut self.components.healths, &mut self.components.players, &events);
        self.channel.extend(deaths);
        if let Some(event) = WaveSystem::new().run(&mut self.waves, &events) {
            self.channel.push(event);
        }
        SpawnSystem::new().run(
            &self.tilemap,
            &events,
            &self.enemies,
            &mut self.entities,
            &mut self.components,
            &mut self.world,
        );
        Scheduler.run(
            &mut self.components.scheduled_events,
            time_delta,
            &mut self.entities,
            &mut self.channel,
        );
    }

    fn shoot(&mut self, aim: Direction) -> Entity {
        AttackSystem
            .run(
                &mut self.components,
                Some(aim),
                1000,
                &mut self.entities,
                &self.bullets,
                &mut self.world,
            )
            .unwrap()
            .unwrap()
    }
}

#[test]
fn wave_is_played_to_its_end() {
    let place = Position { x: 100, y: 100 };
    let mut game = Game {
        entities: Entities::new(),
        components: Components::new(),
        world: MyCollisionWorld::default(),
        bullets: BulletSpawner::init(1, BulletConfig::default()),
        enemies: EnemySpawner::init(EnemyConfig::default()),
        tilemap: Tilemap {
            all_entities: vec![],
            player_spawn: None,
            spawn_locations: vec![place],
            boss_spawn: None,
        },
        waves: Waves::from_config(ArenaConfig {
            waves: vec![WaveConfig { enemies_in_fly: 2, total_enemies: 2 }],
        }),
        channel: vec![],
    };
    let player = create_player(
        &mut game.entities,
        &mut game.components,
        &mut game.world,
        &PlayerConfig::default(),
        Position { x: 0, y: 0 },
    );

    // The wave asks for its enemies, and they spawn in the tick after.
    game.tick(16);
    assert_eq!(game.channel, vec![AppEvent::SpawnEnemy(2)]);
    game.tick(16);
    let (first, second) = (Entity { id: 1 }, Entity { id: 2 });
    assert!(game.entities.is_alive(first) && game.entities.is_alive(second));
    assert_eq!(game.components.transforms.get(first), Some(&Transform::at(place)));
    game.tick(16);
    assert!(game.channel.is_empty());

    // Two rounds of bullets that land on both enemies at once.
    for round in 0..2 {
        let bullet = game.shoot(Direction { x: 1, y: 1 });
        game.components.transforms.insert(bullet, Transform::at(place));
        // The step finds the contacts, the tick after resolves them, and the
        // tick after that takes the hits.
        game.tick(16);
        assert!(game.channel.is_empty());
        game.tick(16);
        assert_eq!(game.channel, vec![AppEvent::EntityHit(first), AppEvent::EntityHit(second)]);
        assert!(!game.entities.is_alive(bullet));
        game.tick(16);
        assert_eq!(game.components.healths.get(first).unwrap().current_health(), 1 - round);
        if round == 0 {
            assert!(game.channel.is_empty());
        }
    }
    assert_eq!(game.channel, vec![AppEvent::EnemyDied(first), AppEvent::EnemyDied(second)]);

    // The dead are removed with their colliders, and the wave is finished.
    let handle = game.components.colliders.get(first).unwrap().handle;
    game.tick(16);
    assert!(!game.entities.is_alive(first) && !game.entities.is_alive(second));
    assert!(!game.world.contains(handle));
    assert_eq!(game.channel.len(), 1);
    let scheduled = match game.channel.pop().unwrap() {
        AppEvent::NewDialog { and_then: Some(scheduled), .. } => *scheduled,
        other => panic!("expected the end of the wave, got {:?}", other),
    };

    // Once the dialog is over, the next wave starts after its delay.
    let timer = game.entities.create();
    game.components.scheduled_events.insert(timer, scheduled);
    game.tick(2999);
    assert!(game.channel.is_empty());
    game.tick(1);
    assert_eq!(game.channel, vec![AppEvent::NextWave]);
    assert!(!game.entities.is_alive(timer));
    // No wave is left: the arena is finished.
    game.tick(16);
    assert_eq!(game.channel, vec![AppEvent::NextArena]);
    assert!(game.waves.is_finished());
    game.tick(16);
    assert!(game.channel.is_empty());
    // The player has stood on no ground all along: it falls.
    assert!(matches!(game.components.players.get(player).unwrap().state, PlayerStatus::Falling { .. }));
}
