use relational_ecs::components::{Builder, Component};
use relational_ecs::db::{Database, XyRow};
use relational_ecs::error::EcsError;
use relational_ecs::system::System;
use relational_ecs::systems::collision::CollisionSystem;
use relational_ecs::systems::gravity::GravitySystem;
use relational_ecs::systems::movement::MovementSystem;
use relational_ecs::systems::print_position::PrintPositionSystem;

#[test]
fn systems_tick_through_the_trait() {
    let mut db = Database::new();
    db.initialize_tables().unwrap();
    assert!(db.update_velocity(2, 10, 0));
    let mut movement = *<MovementSystem as System>::new(&db).unwrap();
    movement.tick(&mut db, 1).unwrap();
    assert_eq!(db.position_of(2).unwrap().x, 110);
    let mut gravity = *<GravitySystem as System>::new(&db).unwrap();
    gravity.tick(&mut db, 1).unwrap();
    assert_eq!(db.velocity_of(2).unwrap().y, 100);
    let mut collision = *<CollisionSystem as System>::new(&db).unwrap();
    collision.tick(&mut db, 1).unwrap();
    let mut printer = *<PrintPositionSystem as System>::new(&db).unwrap();
    printer.tick(&mut db, 1).unwrap();
}

#[test]
fn update_position_with_velocity() {
    let mut db = Database::new();
    db.initialize_tables().unwrap();

    // set velocity on component
    assert!(db.update_velocity(2, 50, 25));

    assert_eq!(db.position_of(1), Some(XyRow { id: 1, x: 200, y: 400 }));
    assert_eq!(db.position_of(2), Some(XyRow { id: 2, x: 100, y: 100 }));
    assert_eq!(db.position_of(3), Some(XyRow { id: 3, x: 200, y: 100 }));

    MovementSystem::integrate(&mut db, 1).unwrap();

    assert_eq!(db.position_of(1), Some(XyRow { id: 1, x: 200, y: 400 }));
    assert_eq!(
        db.position_of(2),
        Some(XyRow { id: 2, x: 100 + 50, y: 100 + 25 })
    );
    assert_eq!(db.position_of(3), Some(XyRow { id: 3, x: 200, y: 100 }));
}

#[test]
fn update_velocity_with_gravity() {
    let mut db = Database::new();
    db.initialize_tables().unwrap();

    // set gravity on component
    assert!(db.update_gravity(2, 25));
    assert!(db.update_gravity(3, 0));

    let values = (db.velocity_of(2).unwrap(), db.velocity_of(3).unwrap());
    println!("before {:?}", values);
    assert_eq!(values.0, XyRow { id: 2, x: 0, y: 0 });
    assert_eq!(values.1, XyRow { id: 3, x: 0, y: 0 });

    println!("passed this assert");

    GravitySystem::accelerate(&mut db, 1).unwrap();

    println!("passed the system.tick()");

    let values = (db.velocity_of(2).unwrap(), db.velocity_of(3).unwrap());
    println!("after {:?}", values);
    assert_eq!(values.0, XyRow { id: 2, x: 0, y: 25 });
    assert_eq!(values.1, XyRow { id: 3, x: 0, y: 0 });
}

#[test]
fn movement_keeps_velocity_unchanged() {
    let mut db = Database::new();
    db.initialize_tables().unwrap();
    assert!(db.update_velocity(2, 50, 25));
    MovementSystem::integrate(&mut db, 1).unwrap();
    assert_eq!(db.velocity_of(2), Some(XyRow { id: 2, x: 50, y: 25 }));
}

#[test]
fn movement_and_gravity_composed() {
    let mut db = Database::new();
    db.initialize_tables().unwrap();
    // entity 2 starts at (100, 100) with velocity (0, 0); gravity 25
    assert!(db.update_gravity(2, 25));

    // frame 1: the zero velocity of the previous frame moves nothing, then
    // gravity raises the velocity
    MovementSystem::integrate(&mut db, 1).unwrap();
    GravitySystem::accelerate(&mut db, 1).unwrap();
    assert_eq!(db.position_of(2), Some(XyRow { id: 2, x: 100, y: 100 }));
    assert_eq!(db.velocity_of(2), Some(XyRow { id: 2, x: 0, y: 25 }));

    // frame 2
    MovementSystem::integrate(&mut db, 1).unwrap();
    GravitySystem::accelerate(&mut db, 1).unwrap();
    assert_eq!(db.position_of(2), Some(XyRow { id: 2, x: 100, y: 125 }));
    assert_eq!(db.velocity_of(2), Some(XyRow { id: 2, x: 0, y: 50 }));

    // frame 3
    MovementSystem::integrate(&mut db, 1).unwrap();
    GravitySystem::accelerate(&mut db, 1).unwrap();
    assert_eq!(db.position_of(2), Some(XyRow { id: 2, x: 100, y: 175 }));
    assert_eq!(db.velocity_of(2), Some(XyRow { id: 2, x: 0, y: 75 }));
}

#[test]
fn movement_linear_over_many_ticks() {
    let mut db = Database::new();
    let mut builder = Builder::new();
    builder
        .add_component(Component::Position { x: 0, y: 0 })
        .unwrap();
    builder
        .add_component(Component::Velocity { x: 7, y: -3 })
        .unwrap();
    builder.finish(&mut db).unwrap();
    for _ in 0..5 {
        MovementSystem::integrate(&mut db, 2).unwrap();
    }
    // 5 ticks of delta 2: the position advances by 5 * v * 2
    assert_eq!(db.position_of(1), Some(XyRow { id: 1, x: 70, y: -30 }));
    assert_eq!(db.velocity_of(1), Some(XyRow { id: 1, x: 7, y: -3 }));
}

#[test]
fn gravity_strictly_increases_velocity() {
    let mut db = Database::new();
    db.initialize_tables().unwrap();
    assert!(db.update_gravity(2, 5));
    let mut last = db.velocity_of(2).unwrap().y;
    for _ in 0..4 {
        GravitySystem::accelerate(&mut db, 3).unwrap();
        let now = db.velocity_of(2).unwrap().y;
        assert!(now > last);
        last = now;
    }
    assert_eq!(last, 4 * 5 * 3);
}

#[test]
fn gravity_zero_delta_keeps_velocity() {
    let mut db = Database::new();
    db.initialize_tables().unwrap();
    GravitySystem::accelerate(&mut db, 0).unwrap();
    assert_eq!(db.velocity_of(2), Some(XyRow { id: 2, x: 0, y: 0 }));
}

#[test]
fn movement_overflow_is_a_store_error() {
    let mut db = Database::new();
    let mut builder = Builder::new();
    builder
        .add_component(Component::Position { x: i64::MAX, y: 0 })
        .unwrap();
    builder
        .add_component(Component::Velocity { x: 1, y: 0 })
        .unwrap();
    builder.finish(&mut db).unwrap();
    let r = MovementSystem::integrate(&mut db, 1);
    assert_eq!(r, Err(EcsError::Store));
    // the failed update left the store untouched
    assert_eq!(db.position_of(1), Some(XyRow { id: 1, x: i64::MAX, y: 0 }));
}

#[test]
fn gravity_overflow_is_a_store_error() {
    let mut db = Database::new();
    let mut builder = Builder::new();
    builder
        .add_component(Component::Velocity { x: 0, y: i64::MAX })
        .unwrap();
    builder
        .add_component(Component::Gravity(1))
        .unwrap();
    builder.finish(&mut db).unwrap();
    let r = GravitySystem::accelerate(&mut db, 1);
    assert_eq!(r, Err(EcsError::Store));
    assert_eq!(db.velocity_of(1), Some(XyRow { id: 1, x: 0, y: i64::MAX }));
}

#[test]
fn printer_counts_down_and_dumps() {
    let mut db = Database::new();
    db.initialize_tables().unwrap();
    let mut printer = PrintPositionSystem::default();
    printer.set_interval(2);
    assert_eq!(printer.sample(&db, 1), None);
    let rows = printer.sample(&db, 1).unwrap();
    // one line per entity with both position and velocity: entities 2 and 3
    assert_eq!(rows.len(), 2);
    assert_eq!(rows[0].id, 2);
    assert_eq!((rows[0].x, rows[0].y, rows[0].vx, rows[0].vy), (100, 100, 0, 0));
    assert_eq!(rows[1].id, 3);
    assert_eq!((rows[1].x, rows[1].y, rows[1].vx, rows[1].vy), (200, 100, 0, 0));
    // the countdown was reset to the interval
    assert_eq!(printer.sample(&db, 1), None);
}

#[test]
fn printer_with_zero_interval_dumps_every_tick() {
    let mut db = Database::new();
    db.initialize_tables().unwrap();
    let mut printer = PrintPositionSystem::default();
    assert!(printer.sample(&db, 0).is_some());
    assert!(printer.sample(&db, 7).is_some());
}
