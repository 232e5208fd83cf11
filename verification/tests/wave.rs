use thief_engine::config::{ArenaConfig, WaveConfig};
use thief_engine::event::{AppEvent, Entity};
use thief_engine::systems::schedule::ScheduledEvent;
use thief_engine::systems::wave::{
    create_next_wave_ev, Wave, WaveStatus, WaveSystem, Waves, NEXT_WAVE_DELAY,
};

fn died(id: usize) -> AppEvent {
    AppEvent::EnemyDied(Entity { id })
}

fn wave_finished() -> AppEvent {
    AppEvent::NewDialog {
        dialog: vec![String::from("Wave finished!"), String::from("Get ready!")],
        and_then: Some(Box::new(ScheduledEvent { timeout: 3000, event: AppEvent::NextWave })),
    }
}

fn one_wave(in_fly: i32, total: i32) -> Waves {
    Waves::from_config(ArenaConfig {
        waves: vec![WaveConfig { enemies_in_fly: in_fly, total_enemies: total }],
    })
}

#[test]
fn wave_from_configuration_has_nobody_in_the_arena() {
    let wave = Wave::from_config(WaveConfig { enemies_in_fly: 2, total_enemies: 5 });
    assert_eq!(wave.enemies_left(), 5);
    assert_eq!(wave.current_enemies(), 0);
    assert_eq!(wave.enemies_in_fly(), 2);
    assert_eq!(wave.status(), WaveStatus::Idle);
}

#[test]
fn first_poll_spawns_up_to_the_cap() {
    let mut waves = one_wave(2, 5);
    let mut system = WaveSystem::new();
    let out = system.run(&mut waves, &vec![]);
    assert_eq!(out, Some(AppEvent::SpawnEnemy(2)));
    let wave = waves.wave(0).unwrap();
    assert_eq!(wave.enemies_left(), 3);
    assert_eq!(wave.current_enemies(), 2);
    assert_eq!(wave.enemies_in_fly(), 2);
    assert_eq!(wave.status(), WaveStatus::Running);
}

#[test]
fn first_poll_spawns_all_when_the_cap_is_higher() {
    let mut waves = one_wave(10, 3);
    let out = WaveSystem::new().run(&mut waves, &vec![]);
    assert_eq!(out, Some(AppEvent::SpawnEnemy(3)));
    let wave = waves.wave(0).unwrap();
    assert_eq!(wave.enemies_left(), 0);
    assert_eq!(wave.current_enemies(), 3);
}

#[test]
fn wave_is_finished_when_all_in_the_arena_have_died() {
    let mut waves = one_wave(2, 5);
    let mut system = WaveSystem::new();
    assert_eq!(system.run(&mut waves, &vec![]), Some(AppEvent::SpawnEnemy(2)));
    assert_eq!(waves.wave(0).unwrap().enemies_left(), 3);
    // Both die in one tick: the wave is finished, and nothing is spawned.
    let out = system.run(&mut waves, &vec![died(1), died(2)]);
    match out {
        Some(AppEvent::NewDialog { dialog, and_then }) => {
            assert_eq!(dialog, vec![String::from("Wave finished!"), String::from("Get ready!")]);
            let scheduled = and_then.unwrap();
            assert_eq!(scheduled.timeout, 3000);
            assert_eq!(scheduled.event, AppEvent::NextWave);
        }
        other => panic!("expected a dialog, got {:?}", other),
    }
    let wave = waves.wave(0).unwrap();
    assert_eq!(wave.current_enemies(), 0);
    assert_eq!(wave.enemies_left(), 3);
    assert_eq!(waves.current_wave(), 0);
    assert!(!waves.is_finished());
}

#[test]
fn wave_tops_up_while_somebody_is_left_in_the_arena() {
    let mut waves = one_wave(3, 5);
    let mut system = WaveSystem::new();
    assert_eq!(system.run(&mut waves, &vec![]), Some(AppEvent::SpawnEnemy(3)));
    // One of three has died: one more comes.
    assert_eq!(system.run(&mut waves, &vec![died(1)]), Some(AppEvent::SpawnEnemy(1)));
    let wave = waves.wave(0).unwrap();
    assert_eq!(wave.enemies_left(), 1);
    assert_eq!(wave.current_enemies(), 3);
    // Nothing happens in a tick without deaths.
    assert_eq!(system.run(&mut waves, &vec![AppEvent::DialogOver]), None);
    // Two more die, but only one is left to spawn.
    assert_eq!(system.run(&mut waves, &vec![died(2), died(3)]), Some(AppEvent::SpawnEnemy(1)));
    let wave = waves.wave(0).unwrap();
    assert_eq!(wave.enemies_left(), 0);
    assert_eq!(wave.current_enemies(), 2);
    // One dies, and nobody is left to spawn.
    assert_eq!(system.run(&mut waves, &vec![died(4)]), Some(AppEvent::SpawnEnemy(0)));
    assert_eq!(waves.wave(0).unwrap().current_enemies(), 1);
    // The last one dies.
    assert_eq!(system.run(&mut waves, &vec![died(5)]), Some(wave_finished()));
    assert_eq!(waves.wave(0).unwrap().current_enemies(), 0);
}

#[test]
fn counts_never_go_below_zero() {
    let mut wave = Wave::from_config(WaveConfig { enemies_in_fly: 1, total_enemies: 2 });
    assert_eq!(wave.poll(0), Some(AppEvent::SpawnEnemy(1)));
    // More deaths are reported than enemies are in the arena.
    assert_eq!(wave.poll(7), Some(wave_finished()));
    assert_eq!(wave.current_enemies(), 0);
    assert_eq!(wave.enemies_left(), 1);
    let wave = Wave::from_config(WaveConfig { enemies_in_fly: -2, total_enemies: -5 });
    assert_eq!(wave.enemies_left(), 0);
    assert_eq!(wave.current_enemies(), 0);
    assert_eq!(wave.enemies_in_fly(), 0);
    assert_eq!(wave.status(), WaveStatus::Idle);
}

#[test]
fn next_wave_moves_on_and_the_last_one_ends_the_arena() {
    let mut waves = Waves::from_config(ArenaConfig {
        waves: vec![
            WaveConfig { enemies_in_fly: 1, total_enemies: 1 },
            WaveConfig { enemies_in_fly: 4, total_enemies: 6 },
        ],
    });
    assert_eq!(waves.len(), 2);
    let mut system = WaveSystem::new();
    assert_eq!(system.run(&mut waves, &vec![]), Some(AppEvent::SpawnEnemy(1)));
    assert_eq!(system.run(&mut waves, &vec![died(0)]), Some(wave_finished()));
    assert_eq!(waves.current_wave(), 0);
    // The next wave starts idle, and is polled in the tick of the request.
    assert_eq!(system.run(&mut waves, &vec![AppEvent::NextWave]), Some(AppEvent::SpawnEnemy(4)));
    assert_eq!(waves.current_wave(), 1);
    assert!(!waves.is_finished());
    // No wave is left after the second.
    assert_eq!(system.run(&mut waves, &vec![AppEvent::NextWave]), Some(AppEvent::NextArena));
    assert_eq!(waves.current_wave(), 2);
    assert!(waves.is_finished());
    // Once finished, nothing more is sent.
    assert_eq!(system.run(&mut waves, &vec![AppEvent::NextWave, died(9)]), None);
    assert_eq!(waves.current_wave(), 2);
    assert!(waves.wave(2).is_none());
}

#[test]
fn next_wave_dialog_carries_the_delay() {
    assert_eq!(NEXT_WAVE_DELAY, 3000);
    assert_eq!(create_next_wave_ev(), wave_finished());
}
