use relational_ecs::components::{Builder, Component};
use relational_ecs::db::Database;
use relational_ecs::game::{past_budget, Game, RUN_BUDGET_MILLIS};
use relational_ecs::systems::renderer::{RenderSystem, Rgb};

#[test]
fn renderer_projects_without_mutating() {
    let mut db = Database::new();
    db.initialize_tables().unwrap();
    let renderer = RenderSystem::new(400, 400);
    let before = (
        db.entity_count(),
        db.position_count(),
        db.velocity_count(),
        db.gravity_count(),
        db.graphics_count(),
        db.position_of(2),
        db.velocity_of(3),
    );
    let frame = renderer.render(&db);
    let after = (
        db.entity_count(),
        db.position_count(),
        db.velocity_count(),
        db.gravity_count(),
        db.graphics_count(),
        db.position_of(2),
        db.velocity_of(3),
    );
    assert_eq!(before, after);
    assert_eq!(frame.background, Rgb { r: 255, g: 255, b: 255 });
    assert_eq!(frame.rects.len(), 3);
    let platform = frame.rects[0];
    assert_eq!(
        (platform.x, platform.y, platform.width, platform.height),
        (200, 400, 128, 8)
    );
    assert_eq!(platform.color, Rgb { r: 0, g: 255, b: 0 });
    assert_eq!(frame.rects[1].color, Rgb { r: 255, g: 0, b: 0 });
    assert_eq!(frame.rects[2].color, Rgb { r: 0, g: 0, b: 255 });
}

#[test]
fn unknown_color_renders_gray() {
    let mut db = Database::new();
    let mut builder = Builder::new();
    builder
        .add_component(Component::Position { x: 5, y: 5 })
        .unwrap();
    builder
        .add_component(Component::Graphics {
            width: 4,
            height: 4,
            color: "purple".to_owned(),
        })
        .unwrap();
    builder.finish(&mut db).unwrap();
    let frame = RenderSystem::new(100, 100).render(&db);
    assert_eq!(frame.rects[0].color, Rgb { r: 136, g: 136, b: 136 });
}

#[test]
fn run_budget_is_five_seconds() {
    assert_eq!(RUN_BUDGET_MILLIS, 5000);
    assert!(!past_budget(0));
    assert!(!past_budget(5000));
    assert!(past_budget(5001));
}

#[test]
fn frame_ticks_systems_in_order() {
    let mut game = Game::new(400, 400).unwrap();
    // frame 1 with a whole time unit: movement sees zero velocity, gravity
    // then raises it; the printer's countdown of 1 runs out and dumps
    let out = game.frame(1).unwrap();
    assert_eq!(game.db.position_of(2).unwrap().y, 100);
    assert_eq!(game.db.velocity_of(2).unwrap().y, 100);
    let rows = out.status.unwrap();
    assert_eq!(rows.len(), 2);
    assert_eq!((rows[0].id, rows[1].id), (2, 3));
    assert_eq!(out.collisions.pairs, Vec::<(usize, usize)>::new());
    assert_eq!(out.frame.rects.len(), 3);
    // frame 2: the previous frame's velocity lands on the position
    let out = game.frame(1).unwrap();
    assert_eq!(game.db.position_of(2).unwrap().y, 200);
    assert_eq!(game.db.velocity_of(2).unwrap().y, 200);
    assert_eq!(out.frame.rects[1].y, 200);
}
