use relational_ecs::db::Database;
use relational_ecs::systems::collision::{Block, CollisionSystem};

#[test]
fn block_borders() {
    let a = Block {
        x: 10,
        y: 10,
        width: 20,
        height: 20,
    };
    assert_eq!(a.top(), 0);
    assert_eq!(a.left(), 0);
    assert_eq!(a.bottom(), 20);
    assert_eq!(a.right(), 20);
    let a = Block {
        x: 100,
        y: 100,
        width: 20,
        height: 20,
    };
    assert_eq!(a.top(), 90);
    assert_eq!(a.left(), 90);
    assert_eq!(a.bottom(), 110);
    assert_eq!(a.right(), 110);
}

#[test]
fn overlap_blocks() {
    let a = Block {
        x: 10,
        y: 10,
        width: 20,
        height: 20,
    };
    let b = Block {
        x: 20,
        y: 10,
        width: 20,
        height: 20,
    };
    let c = Block {
        x: 40,
        y: 10,
        width: 20,
        height: 20,
    };
    assert!(a.overlaps(&b), "A overlaps B ...");
    assert!(b.overlaps(&c), "and B overlaps C ...");
    assert!(!a.overlaps(&c), "but A does NOT overlap C");
}

#[test]
fn overlap_symmetric_for_equal_blocks() {
    // blocks shaped like the seeded falling blocks, strictly overlapping
    let red = Block { x: 100, y: 100, width: 32, height: 32 };
    let blue = Block { x: 110, y: 90, width: 32, height: 32 };
    assert_eq!(red.overlaps(&blue), blue.overlaps(&red));
    assert!(red.overlaps(&blue));
    let apart = Block { x: 200, y: 100, width: 32, height: 32 };
    assert_eq!(red.overlaps(&apart), apart.overlaps(&red));
    assert!(!red.overlaps(&apart));
}

#[test]
fn detect_reports_overlapping_pairs() {
    let mut db = Database::new();
    db.initialize_tables().unwrap();
    // the seeded scene has no overlaps: platform at y 400, blocks at y 100
    let report = CollisionSystem::detect(&db);
    assert_eq!(report.blocks.len(), 3);
    assert_eq!(report.pairs, Vec::<(usize, usize)>::new());
    // move the blue block onto the red one
    let mut db = Database::new();
    db.initialize_tables().unwrap();
    assert!(db.update_velocity(3, -90, 0));
    relational_ecs::systems::movement::MovementSystem::integrate(&mut db, 1).unwrap();
    let report = CollisionSystem::detect(&db);
    assert_eq!(report.blocks[2], Block { x: 110, y: 100, width: 32, height: 32 });
    assert_eq!(report.pairs, vec![(1, 2)]);
}
