use thief_engine::ecs::{Entities, Storage};
use thief_engine::event::AppEvent;
use thief_engine::systems::schedule::{ScheduledEvent, Scheduler};

#[test]
fn event_fires_when_its_time_is_up_and_its_entity_goes() {
    let mut entities = Entities::new();
    let mut scheduled = Storage::new();
    let first = entities.create();
    let second = entities.create();
    let third = entities.create();
    scheduled.insert(first, ScheduledEvent { timeout: 3000, event: AppEvent::NextWave });
    scheduled.insert(second, ScheduledEvent { timeout: 16, event: AppEvent::SpawnBoss });
    scheduled.insert(third, ScheduledEvent { timeout: 10, event: AppEvent::SpawnEnemy(2) });
    let mut channel = vec![AppEvent::DialogOver];
    let mut scheduler = Scheduler;

    scheduler.run(&mut scheduled, 16, &mut entities, &mut channel);
    assert_eq!(channel, vec![AppEvent::DialogOver, AppEvent::SpawnBoss, AppEvent::SpawnEnemy(2)]);
    assert_eq!(scheduled.get(first).unwrap().timeout, 2984);
    assert_eq!(scheduled.get(first).unwrap().event, AppEvent::NextWave);
    assert!(!scheduled.contains(second));
    assert!(!scheduled.contains(third));
    assert!(entities.is_alive(first));
    assert!(!entities.is_alive(second));
    assert!(!entities.is_alive(third));

    // Nothing fires twice.
    let mut channel = vec![];
    scheduler.run(&mut scheduled, 2983, &mut entities, &mut channel);
    assert!(channel.is_empty());
    assert_eq!(scheduled.get(first).unwrap().timeout, 1);
    scheduler.run(&mut scheduled, 1, &mut entities, &mut channel);
    assert_eq!(channel, vec![AppEvent::NextWave]);
    assert!(!entities.is_alive(first));
    scheduler.run(&mut scheduled, 5000, &mut entities, &mut channel);
    assert_eq!(channel, vec![AppEvent::NextWave]);
}

#[test]
fn tick_of_no_time_fires_what_is_due() {
    let mut entities = Entities::new();
    let mut scheduled = Storage::new();
    let due = entities.create();
    let later = entities.create();
    scheduled.insert(due, ScheduledEvent { timeout: 0, event: AppEvent::NextArena });
    scheduled.insert(later, ScheduledEvent { timeout: 1, event: AppEvent::NextWave });
    let mut channel = vec![];
    Scheduler.run(&mut scheduled, 0, &mut entities, &mut channel);
    assert_eq!(channel, vec![AppEvent::NextArena]);
    assert_eq!(scheduled.get(later).unwrap().timeout, 1);
}
