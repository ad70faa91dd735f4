use platformer_core::collision::{
    CollisionHandler, CollisionObjectHandle, ContactEvent,
};
use platformer_core::components::{Collider, Color, Moving, Transform};
use platformer_core::entities::{GameEntity, Ground, Player};
use platformer_core::geometry::{Isometry, Vector2};
use platformer_core::store::new_world;
use platformer_core::systems::{SysCollide, TickReport};
use specs::Join;

fn handle_of_mover(world: &specs::World) -> CollisionObjectHandle {
    let found: Vec<CollisionObjectHandle> = (&world.read::<Moving>(), &world.read::<Collider>())
        .join()
        .map(|(_, c)| c.collision_object_handle)
        .collect();
    assert_eq!(found.len(), 1);
    found[0]
}

fn move_movers_to(world: &specs::World, x: i32, y: i32, rotation: i32) {
    let moving = world.read::<Moving>();
    let mut transforms = world.write::<Transform>();
    for (_, transform) in (&moving, &mut transforms).join() {
        transform.position = Vector2::new(x, y);
        transform.rotation = rotation;
    }
}

fn white() -> Color {
    Color::new(255, 255, 255, 255)
}

#[test]
fn overlapping_ground_and_player_are_reported() {
    let mut world = new_world();
    let mut handler = CollisionHandler::new();
    Ground::new(Vector2::new(0, 0), Vector2::new(32, 32), white())
        .add_to_world(&mut world, &mut handler);
    Player::new(Vector2::new(10, 10), Vector2::new(32, 32), white())
        .add_to_world(&mut world, &mut handler);

    handler.update();
    assert!(!handler.contacts().is_empty());

    let mut system = SysCollide {};
    let report = system.run(&mut world, &mut handler);
    assert_eq!(report, TickReport { contact: true, stale: 0 });
    assert_eq!(
        handler.contacts(),
        &vec![ContactEvent { first: CollisionObjectHandle(0), second: CollisionObjectHandle(1) }]
    );
}

#[test]
fn default_ground_and_player_are_apart() {
    let mut world = new_world();
    let mut handler = CollisionHandler::new();
    Ground::default().add_to_world(&mut world, &mut handler);
    Player::default().add_to_world(&mut world, &mut handler);
    let mut system = SysCollide {};
    let report = system.run(&mut world, &mut handler);
    assert_eq!(report, TickReport { contact: false, stale: 0 });
    assert!(handler.contacts().is_empty());
}

#[test]
fn run_writes_every_transform_into_the_collision_world() {
    let mut world = new_world();
    let mut handler = CollisionHandler::new();
    Ground::default().add_to_world(&mut world, &mut handler);
    Player::default().add_to_world(&mut world, &mut handler);
    Ground::new_explicit(-90, 40, 8, 8, 0, 0, 0, 255).add_to_world(&mut world, &mut handler);

    {
        let mut transforms = world.write::<Transform>();
        let mut n = 0;
        for transform in (&mut transforms).join() {
            n += 1;
            transform.position = Vector2::new(1000 * n, -1000 * n);
            transform.rotation = 7 * n;
        }
        assert_eq!(n, 3);
    }

    let mut system = SysCollide {};
    let report = system.run(&mut world, &mut handler);
    assert_eq!(report.stale, 0);

    let pairs: Vec<(Transform, Collider)> =
        (&world.read::<Transform>(), &world.read::<Collider>()).join().map(|(t, c)| (*t, *c)).collect();
    assert_eq!(pairs.len(), 3);
    for (transform, collider) in pairs {
        let object = handler.collision_object(collider.collision_object_handle).unwrap();
        assert_eq!(object.position.translation, transform.position);
        assert_eq!(object.position.rotation, transform.rotation);
        assert_eq!(object.position, transform.isometry());
        assert_eq!(object.shape.half_extents, transform.size);
    }
    assert_eq!(
        handler.collision_object(CollisionObjectHandle(0)).unwrap().position,
        Isometry { translation: Vector2 { x: 1000, y: -1000 }, rotation: 7 }
    );
}

#[test]
fn run_leaves_the_world_as_it_was() {
    let mut world = new_world();
    let mut handler = CollisionHandler::new();
    Ground::default().add_to_world(&mut world, &mut handler);
    Player::default().add_to_world(&mut world, &mut handler);
    let before: Vec<(u32, Transform, Collider)> =
        (&*world.entities(), &world.read::<Transform>(), &world.read::<Collider>())
            .join()
            .map(|(e, t, c)| (e.id(), *t, *c))
            .collect();
    let mut system = SysCollide {};
    system.run(&mut world, &mut handler);
    system.run(&mut world, &mut handler);
    let after: Vec<(u32, Transform, Collider)> =
        (&*world.entities(), &world.read::<Transform>(), &world.read::<Collider>())
            .join()
            .map(|(e, t, c)| (e.id(), *t, *c))
            .collect();
    assert_eq!(before, after);
    assert_eq!(after.len(), 2);
    assert_eq!((&world.read::<Moving>()).join().count(), 1);
}

#[test]
fn independent_ticks_are_isolated() {
    let mut world = new_world();
    let mut handler = CollisionHandler::new();
    Ground::new(Vector2::new(0, 0), Vector2::new(32, 32), white())
        .add_to_world(&mut world, &mut handler);
    Player::new(Vector2::new(10, 10), Vector2::new(32, 32), white())
        .add_to_world(&mut world, &mut handler);
    let mut system = SysCollide {};

    assert!(system.run(&mut world, &mut handler).contact);

    move_movers_to(&world, 200, 100, 0);
    assert!(!handler.contacts().is_empty());
    assert!(!system.run(&mut world, &mut handler).contact);
    assert!(handler.contacts().is_empty());

    move_movers_to(&world, 64, 0, 0);
    assert!(!system.run(&mut world, &mut handler).contact);

    move_movers_to(&world, 63, 63, 0);
    assert!(system.run(&mut world, &mut handler).contact);
    assert!(system.run(&mut world, &mut handler).contact);
    assert_eq!(handler.contacts().len(), 1);
}

#[test]
fn stale_collider_is_passed_over() {
    let mut world = new_world();
    let mut handler = CollisionHandler::new();
    Ground::new(Vector2::new(0, 0), Vector2::new(32, 32), white())
        .add_to_world(&mut world, &mut handler);
    Player::new(Vector2::new(10, 10), Vector2::new(32, 32), white())
        .add_to_world(&mut world, &mut handler);
    Ground::new(Vector2::new(20, 20), Vector2::new(32, 32), white())
        .add_to_world(&mut world, &mut handler);

    let gone = handle_of_mover(&world);
    assert_eq!(gone, CollisionObjectHandle(1));
    assert_eq!(handler.remove_shape(gone), Ok(()));

    {
        let mut transforms = world.write::<Transform>();
        for transform in (&mut transforms).join() {
            transform.position.x += 1;
        }
    }
    let mut system = SysCollide {};
    let report = system.run(&mut world, &mut handler);
    assert_eq!(report, TickReport { contact: true, stale: 1 });
    assert_eq!(handler.collision_object(gone), None);
    assert_eq!(
        handler.collision_object(CollisionObjectHandle(0)).unwrap().position.translation,
        Vector2 { x: 1, y: 0 }
    );
    assert_eq!(
        handler.collision_object(CollisionObjectHandle(2)).unwrap().position.translation,
        Vector2 { x: 21, y: 20 }
    );
    assert_eq!(
        handler.contacts(),
        &vec![ContactEvent { first: CollisionObjectHandle(0), second: CollisionObjectHandle(2) }]
    );
}

#[test]
fn run_on_an_empty_world_finds_nothing() {
    let mut world = new_world();
    let mut handler = CollisionHandler::new();
    let mut system = SysCollide {};
    assert_eq!(system.run(&mut world, &mut handler), TickReport { contact: false, stale: 0 });
}

#[test]
fn entities_without_collider_or_transform_are_not_joined() {
    let mut world = new_world();
    let mut handler = CollisionHandler::new();
    Ground::default().add_to_world(&mut world, &mut handler);
    world.create_entity().with(Transform::new(Vector2::new(5, 5), Vector2::new(1, 1), 0)).build();
    world.create_entity().with(Collider::new(CollisionObjectHandle(0))).build();
    let mut system = SysCollide {};
    let report = system.run(&mut world, &mut handler);
    assert_eq!(report, TickReport { contact: false, stale: 0 });
    assert_eq!(
        handler.collision_object(CollisionObjectHandle(0)).unwrap().position.translation,
        Vector2 { x: 0, y: 0 }
    );
}

#[test]
fn push_positions_goes_front_to_back() {
    let mut handler = CollisionHandler::new();
    let mut world = new_world();
    Ground::default().add_to_world(&mut world, &mut handler);
    Player::default().add_to_world(&mut world, &mut handler);
    let a = CollisionObjectHandle(0);
    let b = CollisionObjectHandle(1);
    let missing = CollisionObjectHandle(9);
    let at = |x: i32| Transform::new(Vector2::new(x, x), Vector2::new(1, 1), x);
    let items = vec![
        (0, at(1), Collider::new(a)),
        (1, at(2), Collider::new(missing)),
        (2, at(3), Collider::new(b)),
        (3, at(4), Collider::new(a)),
        (4, at(5), Collider::new(missing)),
    ];
    let stale = SysCollide::push_positions(&mut handler, &items);
    assert_eq!(stale, 2);
    assert_eq!(handler.collision_object(a).unwrap().position, at(4).isometry());
    assert_eq!(handler.collision_object(b).unwrap().position, at(3).isometry());
    assert_eq!(handler.collision_object(missing), None);
    assert!(handler.contacts().is_empty());
}

#[test]
fn step_updates_once_after_all_positions() {
    let mut handler = CollisionHandler::new();
    let mut world = new_world();
    Ground::default().add_to_world(&mut world, &mut handler);
    Player::default().add_to_world(&mut world, &mut handler);
    let a = CollisionObjectHandle(0);
    let b = CollisionObjectHandle(1);
    let at = |x: i32, y: i32| Transform::new(Vector2::new(x, y), Vector2::new(32, 32), 0);
    let mut system = SysCollide {};

    let meet = vec![(0, at(500, 500), Collider::new(a)), (1, at(510, 510), Collider::new(b))];
    assert_eq!(system.step(&mut handler, &meet), TickReport { contact: true, stale: 0 });

    let pass = vec![
        (0, at(0, 0), Collider::new(a)),
        (1, at(10, 10), Collider::new(b)),
        (2, at(900, 900), Collider::new(a)),
    ];
    assert_eq!(system.step(&mut handler, &pass), TickReport { contact: false, stale: 0 });
    assert_eq!(system.step(&mut handler, &Vec::new()), TickReport { contact: false, stale: 0 });
}
