use thief_engine::ecs::Storage;
use thief_engine::event::{AppEvent, Entity};
use thief_engine::objects::animations::{
    get_enemy_anim, get_enemy_simplest_animation, get_walking_animations,
};
use thief_engine::systems::animation::{
    Animation, AnimationController, AnimationKey, AnimationSystem,
};
use thief_engine::systems::dialog::{Dialog, DialogStep, DialogSystem};
use thief_engine::systems::enemy::EnemyType;

#[test]
fn animation_cycles_through_its_sprites() {
    let mut animation = Animation::new(vec![4, 5, 6], 300);
    assert_eq!(animation.advance(200), 4);
    assert_eq!((animation.current_index, animation.elapsed_time), (0, 200));
    // Exactly the duration is not yet more than the duration.
    assert_eq!(animation.advance(100), 4);
    assert_eq!((animation.current_index, animation.elapsed_time), (0, 300));
    assert_eq!(animation.advance(1), 4);
    assert_eq!((animation.current_index, animation.elapsed_time), (1, 0));
    assert_eq!(animation.advance(301), 5);
    assert_eq!(animation.advance(301), 6);
    // After the last sprite comes the first.
    assert_eq!((animation.current_index, animation.elapsed_time), (0, 0));
    assert_eq!(animation.advance(0), 4);
}

#[test]
fn controller_plays_the_first_animation_under_the_key() {
    let mut controller = AnimationController::new();
    controller.add(AnimationKey::Idle, Animation::new(vec![7, 8], 10));
    controller.add(AnimationKey::Shoot, Animation::new(vec![1], 10));
    controller.add(AnimationKey::Idle, Animation::new(vec![99], 10));
    assert!(controller.is_wf());
    assert_eq!(controller.find(AnimationKey::Idle), Some(0));
    assert_eq!(controller.find(AnimationKey::Shoot), Some(1));
    assert_eq!(controller.find(AnimationKey::WalkUp), None);
    // Nothing plays.
    assert_eq!(controller.step(100), None);
    controller.current_animation = Some(AnimationKey::Idle);
    assert_eq!(controller.step(11), Some(7));
    assert_eq!(controller.step(11), Some(8));
    assert_eq!(controller.animations[2].1.current_index, 0);
    // The controller has no animation under the key.
    controller.current_animation = Some(AnimationKey::WalkUp);
    assert_eq!(controller.step(11), None);
    let mut broken = AnimationController::new();
    broken.add(AnimationKey::Idle, Animation::new(vec![], 10));
    assert!(!broken.is_wf());
}

#[test]
fn animation_system_sets_the_sprite_of_each_animated_entity() {
    let walker = Entity { id: 0 };
    let still = Entity { id: 1 };
    let unseen = Entity { id: 2 };
    let mut animations = Storage::new();
    let mut sprites = Storage::new();
    for entity in [walker, still, unseen] {
        animations.insert(entity, AnimationController::with_animations(get_walking_animations()));
    }
    animations.get_mut(walker).unwrap().current_animation = Some(AnimationKey::WalkRight);
    animations.get_mut(unseen).unwrap().current_animation = Some(AnimationKey::WalkUp);
    sprites.insert(walker, 0);
    sprites.insert(still, 3);
    let mut system = AnimationSystem;
    system.run(&mut animations, &mut sprites, 301);
    assert_eq!(sprites.get(walker), Some(&8));
    assert_eq!(sprites.get(still), Some(&3));
    assert!(!sprites.contains(unseen));
    system.run(&mut animations, &mut sprites, 301);
    assert_eq!(sprites.get(walker), Some(&9));
    // An entity without a sprite does not move on in time.
    assert_eq!(animations.get(unseen).unwrap().animations[3].1.current_index, 0);
}

#[test]
fn animation_tables_are_as_drawn() {
    let walking = get_walking_animations();
    let keys: Vec<AnimationKey> = walking.iter().map(|entry| entry.0).collect();
    assert_eq!(
        keys,
        vec![AnimationKey::WalkDown, AnimationKey::WalkLeft, AnimationKey::WalkRight, AnimationKey::WalkUp]
    );
    assert_eq!(walking[0].1.sprite_indexes, vec![0, 1, 2, 3]);
    assert_eq!(walking[1].1.sprite_indexes, vec![4, 5, 6, 7]);
    assert_eq!(walking[2].1.sprite_indexes, vec![8, 9, 10, 11]);
    assert_eq!(walking[3].1.sprite_indexes, vec![12, 13, 14, 15]);
    assert!(walking.iter().all(|entry| entry.1.step_duration == 300));

    let enemy = get_enemy_simplest_animation();
    let sprites: Vec<(AnimationKey, Vec<usize>, u32)> =
        enemy.iter().map(|e| (e.0, e.1.sprite_indexes.clone(), e.1.step_duration)).collect();
    assert_eq!(
        sprites,
        vec![
            (AnimationKey::WalkDown, vec![0], 10_000),
            (AnimationKey::WalkLeft, vec![0], 10_000),
            (AnimationKey::WalkRight, vec![0], 10_300),
            (AnimationKey::WalkUp, vec![2], 10_300),
            (AnimationKey::Shoot, vec![1], 3000),
        ]
    );
    assert_eq!(get_enemy_anim(EnemyType::Simple).unwrap().len(), 5);
    assert!(get_enemy_anim(EnemyType::CreepyFirstBoss).is_none());
    assert_eq!(AnimationKey::WalkUp.name(), "walk_up");
    assert_eq!(AnimationKey::Shoot.name(), "shoot");
    assert_eq!(AnimationKey::Idle.name(), "idle");
}

#[test]
fn dialog_moves_on_when_the_key_goes_down() {
    let mut dialog = Dialog::new(vec![String::from("First"), String::from("second")]);
    assert_eq!(dialog.sentence(0).unwrap(), "First");
    assert!(dialog.sentence(2).is_none());
    assert_eq!(dialog.advance(false), DialogStep::Stay);
    assert_eq!(dialog.advance(true), DialogStep::Show(1));
    assert_eq!(dialog.current_sentence(), 1);
    // The key is held: nothing more happens.
    assert_eq!(dialog.advance(true), DialogStep::Stay);
    assert_eq!(dialog.advance(false), DialogStep::Stay);
    assert_eq!(dialog.advance(true), DialogStep::Over);
    assert_eq!(dialog.current_sentence(), 2);
    assert_eq!(dialog.advance(false), DialogStep::Stay);
    assert_eq!(dialog.advance(true), DialogStep::Over);
    assert_eq!(dialog.current_sentence(), 2);
}

#[test]
fn dialog_system_announces_the_end() {
    let mut dialog = Dialog::new(vec![String::from("only")]);
    let mut events = vec![];
    let mut system = DialogSystem;
    assert_eq!(system.run(&mut dialog, false, &mut events), None);
    assert!(events.is_empty());
    assert_eq!(system.run(&mut dialog, true, &mut events), None);
    assert_eq!(events, vec![AppEvent::DialogOver]);
    let mut dialog = Dialog::new(vec![String::from("a"), String::from("b")]);
    let mut events = vec![];
    assert_eq!(system.run(&mut dialog, true, &mut events), Some(1));
    assert!(events.is_empty());
}
