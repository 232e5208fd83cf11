use thief_engine::event::Entity;
use thief_engine::geometry::{Position, Transform};
use thief_engine::systems::collision::{Collider, ColliderObjectType};
use ncollide2d::pipeline::object::CollisionGroups;
use thief_engine::systems::world::{
    ColliderData, ContactEvent, GeometricQueryType, MyCollisionWorld, Proximity, ProximityEvent,
};

fn at(x: i32, y: i32) -> Position {
    Position { x, y }
}

#[test]
fn contact_starts_once_and_stops_once() {
    let mut world = MyCollisionWorld::default();
    let a = Collider::new_rect(at(0, 0), 10, 10, &mut world, ColliderObjectType::Enemy, None, None);
    let b = Collider::new_rect(at(100, 0), 10, 10, &mut world, ColliderObjectType::Wall, None, None);
    world.update();
    assert!(world.contact_events().is_empty());

    assert!(world.set_position(b.handle, Transform::at(at(8, 0))));
    world.update();
    assert_eq!(world.contact_events(), &vec![ContactEvent::Started(a.handle, b.handle)]);

    // Still overlapping: nothing is reported, however often the world steps.
    world.update();
    assert!(world.contact_events().is_empty());
    assert!(world.set_position(b.handle, Transform::at(at(5, 0))));
    world.update();
    assert!(world.contact_events().is_empty());

    assert!(world.set_position(b.handle, Transform::at(at(50, 0))));
    world.update();
    assert_eq!(world.contact_events(), &vec![ContactEvent::Stopped(a.handle, b.handle)]);
    world.update();
    assert!(world.contact_events().is_empty());
}

#[test]
fn boxes_that_only_touch_are_in_contact() {
    let mut world = MyCollisionWorld::default();
    let a = Collider::new_rect(at(0, 0), 10, 10, &mut world, ColliderObjectType::Enemy, None, None);
    let b = Collider::new_rect(at(10, 0), 10, 10, &mut world, ColliderObjectType::Wall, None, None);
    world.update();
    assert_eq!(world.contact_events(), &vec![ContactEvent::Started(a.handle, b.handle)]);
    world.set_position(b.handle, Transform::at(at(11, 0)));
    world.update();
    assert_eq!(world.contact_events(), &vec![ContactEvent::Stopped(a.handle, b.handle)]);
}

#[test]
fn whitelist_that_names_the_other_group_lets_the_contact_fire() {
    let mut world = MyCollisionWorld::default();
    // A accepts the group of B only; B accepts everything.
    let a = Collider::new_rect(
        at(0, 0),
        8,
        8,
        &mut world,
        ColliderObjectType::Bullet,
        Some(&[ColliderObjectType::Enemy]),
        Some(Entity { id: 0 }),
    );
    let b = Collider::new_rect(at(2, 2), 16, 16, &mut world, ColliderObjectType::Enemy, None, None);
    world.update();
    assert_eq!(world.contact_events(), &vec![ContactEvent::Started(a.handle, b.handle)]);
}

#[test]
fn empty_whitelist_accepts_every_group() {
    let mut world = MyCollisionWorld::default();
    let a = Collider::new_rect(at(0, 0), 8, 8, &mut world, ColliderObjectType::Bullet, Some(&[]), None);
    let b = Collider::new_rect(at(2, 2), 16, 16, &mut world, ColliderObjectType::Enemy, None, None);
    world.update();
    assert_eq!(world.contact_events(), &vec![ContactEvent::Started(a.handle, b.handle)]);
}

#[test]
fn whitelist_that_names_another_group_never_fires() {
    let mut world = MyCollisionWorld::default();
    // A accepts walls only, B is an enemy.
    let a = Collider::new_rect(
        at(0, 0),
        8,
        8,
        &mut world,
        ColliderObjectType::Bullet,
        Some(&[ColliderObjectType::Wall]),
        None,
    );
    let b = Collider::new_rect(at(2, 2), 16, 16, &mut world, ColliderObjectType::Enemy, None, None);
    world.update();
    assert!(world.contact_events().is_empty());
    world.set_position(a.handle, Transform::at(at(3, 3)));
    world.update();
    assert!(world.contact_events().is_empty());
    // The filter holds from both sides.
    let c = Collider::new_rect(
        at(2, 2),
        4,
        4,
        &mut world,
        ColliderObjectType::Wall,
        Some(&[ColliderObjectType::Player]),
        None,
    );
    world.update();
    assert!(world.contact_events().is_empty());
    assert!(world.contains(c.handle));
    assert!(world.contains(b.handle));
}

#[test]
fn removing_a_box_twice_is_removing_it_once() {
    let mut world = MyCollisionWorld::default();
    let a = Collider::new_rect(at(0, 0), 10, 10, &mut world, ColliderObjectType::Enemy, None, None);
    let b = Collider::new_rect(at(1, 1), 10, 10, &mut world, ColliderObjectType::Wall, None, None);
    world.update();
    assert!(world.remove(a.handle));
    assert!(!world.contains(a.handle));
    assert!(!world.remove(a.handle));
    assert!(world.contains(b.handle));
    assert!(!world.set_position(a.handle, Transform::at(at(3, 3))));
    // The contact of the box that is gone is reported as stopped, once.
    world.update();
    assert_eq!(world.contact_events(), &vec![ContactEvent::Stopped(a.handle, b.handle)]);
    world.update();
    assert!(world.contact_events().is_empty());
    // A new box gets a handle of its own.
    let c = Collider::new_rect(at(0, 0), 10, 10, &mut world, ColliderObjectType::Enemy, None, None);
    assert_ne!(c.handle, a.handle);
}

#[test]
fn zone_reports_what_enters_and_leaves_it() {
    let mut world = MyCollisionWorld::default();
    let ball = Collider::new_rect(at(0, 0), 2, 2, &mut world, ColliderObjectType::Bullet, None, None);
    let zone = world.add(
        Transform::at(at(20, 0)),
        5,
        5,
        CollisionGroups::new(),
        GeometricQueryType::Proximity,
        ColliderData::default(),
    );
    let wall = Collider::new_rect(at(22, 0), 2, 2, &mut world, ColliderObjectType::Wall, None, None);
    world.update();
    // The wall stands in the zone from the start.
    assert!(world.contact_events().is_empty());
    assert_eq!(
        world.proximity_events(),
        &vec![ProximityEvent {
            collider1: zone,
            collider2: wall.handle,
            prev_status: Proximity::Disjoint,
            new_status: Proximity::Intersecting,
        }]
    );
    // The ball enters the zone and hits the wall in one step.
    world.set_position(ball.handle, Transform::at(at(20, 0)));
    world.update();
    assert_eq!(world.contact_events(), &vec![ContactEvent::Started(ball.handle, wall.handle)]);
    assert_eq!(
        world.proximity_events(),
        &vec![ProximityEvent {
            collider1: ball.handle,
            collider2: zone,
            prev_status: Proximity::Disjoint,
            new_status: Proximity::Intersecting,
        }]
    );
    world.update();
    assert!(world.contact_events().is_empty());
    assert!(world.proximity_events().is_empty());
    // The zone goes: what was in it has left it.
    assert!(world.remove(zone));
    world.update();
    assert!(world.contact_events().is_empty());
    assert_eq!(
        world.proximity_events(),
        &vec![
            ProximityEvent {
                collider1: ball.handle,
                collider2: zone,
                prev_status: Proximity::Intersecting,
                new_status: Proximity::Disjoint,
            },
            ProximityEvent {
                collider1: zone,
                collider2: wall.handle,
                prev_status: Proximity::Intersecting,
                new_status: Proximity::Disjoint,
            },
        ]
    );
}
