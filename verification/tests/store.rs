use relational_ecs::components::{Builder, Component, ComponentKind};
use relational_ecs::db::{Database, XyRow};
use relational_ecs::error::EcsError;

#[test]
fn schema_round_trip() {
    let mut db = Database::new();
    db.initialize_tables().unwrap();
    assert!(db.entity_exists(1));
    assert!(db.entity_exists(2));
    assert!(db.entity_exists(3));
    assert!(!db.entity_exists(4));
    assert_eq!(db.entity_count(), 3);
    assert_eq!(db.position_count(), 3);
    assert_eq!(db.velocity_count(), 2);
    assert_eq!(db.gravity_count(), 2);
    assert_eq!(db.graphics_count(), 3);
    assert_eq!(db.position_of(1), Some(XyRow { id: 1, x: 200, y: 400 }));
    assert_eq!(db.position_of(2), Some(XyRow { id: 2, x: 100, y: 100 }));
    assert_eq!(db.position_of(3), Some(XyRow { id: 3, x: 200, y: 100 }));
    assert_eq!(db.velocity_of(1), None);
    assert_eq!(db.velocity_of(2), Some(XyRow { id: 2, x: 0, y: 0 }));
    assert_eq!(db.velocity_of(3), Some(XyRow { id: 3, x: 0, y: 0 }));
    assert_eq!(db.gravity_of(1), None);
    assert_eq!(db.gravity_of(2).unwrap().amount, 100);
    assert_eq!(db.gravity_of(3).unwrap().amount, 100);
    let platform = db.graphics_of(1).unwrap();
    assert_eq!(platform.width, 128);
    assert_eq!(platform.height, 8);
    assert_eq!(platform.color, "green".to_owned());
    assert_eq!(db.graphics_of(2).unwrap().color, "red".to_owned());
    assert_eq!(db.graphics_of(3).unwrap().color, "blue".to_owned());
}

#[test]
fn builder_rejects_duplicates() {
    let db = Database::new();
    let mut builder = Builder::new();
    builder
        .add_component(Component::Position { x: 0, y: 0 })
        .unwrap();
    let second = builder.add_component(Component::Position { x: 0, y: 0 });
    assert_eq!(
        second,
        Err(EcsError::DuplicateComponent(ComponentKind::Position))
    );
    // `finish` was never called, so no rows reached the store.
    assert_eq!(db.entity_count(), 0);
    assert_eq!(db.position_count(), 0);
}

#[test]
fn finish_without_components_is_invalid() {
    let mut db = Database::new();
    let mut builder = Builder::new();
    assert_eq!(builder.finish(&mut db), Err(EcsError::InvalidEntity));
    assert_eq!(db.entity_count(), 0);
}

#[test]
fn finish_with_unknown_pinned_entity_is_invalid() {
    let mut db = Database::new();
    db.initialize_tables().unwrap();
    let mut builder = Builder::new();
    builder.set_entity(42);
    builder
        .add_component(Component::Velocity { x: 1, y: 1 })
        .unwrap();
    assert_eq!(builder.finish(&mut db), Err(EcsError::InvalidEntity));
    assert_eq!(db.velocity_count(), 2);
}

#[test]
fn finish_on_pinned_entity_keeps_component_uniqueness() {
    let mut db = Database::new();
    db.initialize_tables().unwrap();
    // Entity 2 already has a position: attaching another must be refused
    // before anything is inserted.
    let mut builder = Builder::new();
    builder.set_entity(2);
    builder
        .add_component(Component::Gravity(7))
        .unwrap();
    builder
        .add_component(Component::Position { x: 1, y: 1 })
        .unwrap();
    assert_eq!(
        builder.finish(&mut db),
        Err(EcsError::DuplicateComponent(ComponentKind::Gravity))
    );
    assert_eq!(db.position_count(), 3);
    assert_eq!(db.gravity_count(), 2);
    assert_eq!(db.gravity_of(2).unwrap().amount, 100);
}

#[test]
fn finish_on_pinned_entity_attaches_missing_kinds() {
    let mut db = Database::new();
    db.initialize_tables().unwrap();
    // Entity 1, the platform, has no velocity; pin it and give it one.
    let mut builder = Builder::new();
    builder.set_entity(1);
    builder
        .add_component(Component::Velocity { x: 4, y: 5 })
        .unwrap();
    builder.finish(&mut db).unwrap();
    assert_eq!(db.velocity_of(1), Some(XyRow { id: 1, x: 4, y: 5 }));
    assert_eq!(db.velocity_count(), 3);
    assert_eq!(db.entity_count(), 3);
}

#[test]
fn set_entity_negative_unpins() {
    let mut db = Database::new();
    db.initialize_tables().unwrap();
    let mut builder = Builder::new();
    builder.set_entity(2);
    builder.set_entity(-1);
    builder
        .add_component(Component::Gravity(9))
        .unwrap();
    // Unpinned again, so finish creates a fresh entity: the next id, 4.
    builder.finish(&mut db).unwrap();
    assert_eq!(db.entity_count(), 4);
    assert!(db.entity_exists(4));
    assert_eq!(db.gravity_of(4).unwrap().amount, 9);
}

#[test]
fn component_uniqueness_across_tables() {
    let mut db = Database::new();
    db.initialize_tables().unwrap();
    // Grow the scene through the builder and check that every entity still
    // has at most one row per table, by row counts against distinct ids.
    let mut builder = Builder::new();
    builder
        .add_component(Component::Position { x: 1, y: 2 })
        .unwrap();
    builder
        .add_component(Component::Gravity(3))
        .unwrap();
    builder.finish(&mut db).unwrap();
    assert_eq!(db.entity_count(), 4);
    assert_eq!(db.position_count(), 4);
    assert_eq!(db.gravity_count(), 3);
    for id in 1..=4 {
        // each lookup returns the single row of that entity, keyed by its id
        if let Some(row) = db.position_of(id) {
            assert_eq!(row.id, id);
        }
        if let Some(row) = db.gravity_of(id) {
            assert_eq!(row.id, id);
        }
    }
}
