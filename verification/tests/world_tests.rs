use bounce_world::color::Color;
use bounce_world::entity::Entity;
use bounce_world::world::World;
use bounce_world::{DEFAULT_WORLD_HEIGHT, DEFAULT_WORLD_WIDTH};

fn entity(x: i32, y: i32, w: i32, h: i32, hex: &str) -> Entity {
    Entity::new_custom(w, h, x, y, 0, 0, hex).unwrap()
}

fn pixel(frame: &[u8], world_width: i32, x: i32, y: i32) -> [u8; 4] {
    let base = ((y * world_width + x) * 4) as usize;
    [frame[base], frame[base + 1], frame[base + 2], frame[base + 3]]
}

#[test]
fn new_world_defaults() {
    let w = World::new();
    assert_eq!(w.width, DEFAULT_WORLD_WIDTH);
    assert_eq!(w.height, DEFAULT_WORLD_HEIGHT);
    assert!(w.entities.is_empty());
    assert_eq!(w.background_color, Color { red: 255, green: 255, blue: 255, alpha: 255 });
}

#[test]
fn new_custom_world_rejects_bad_color() {
    assert!(World::new_custom(4, 4, "ffffff").is_err());
    assert!(World::new_custom(4, 4, "fffffffff").is_err());
    assert!(World::new_custom(4, 4, "ffffffzz").is_err());
    assert!(World::new_custom(4, 4, "ffffffff").is_ok());
}

#[test]
fn update_advances_every_entity_in_order() {
    let mut w = World::new_custom(100, 100, "ffffffff").unwrap();
    w.entities.push(Entity::new_custom(10, 10, 40, 30, 3, -2, "ff0000ff").unwrap());
    w.entities.push(Entity::new_custom(10, 10, 0, 20, -5, 0, "00ff00ff").unwrap());
    assert!(w.can_update());
    w.update();
    assert_eq!(w.entities.len(), 2);
    // Clear of the boundary: plain motion.
    assert_eq!(w.entities[0].x_position, 43);
    assert_eq!(w.entities[0].y_position, 28);
    // At the left edge: reflected, then moved.
    assert_eq!(w.entities[1].x_velocity, 5);
    assert_eq!(w.entities[1].x_position, 5);
    // Dimensions and background stay fixed.
    assert_eq!((w.width, w.height), (100, 100));
    assert_eq!(w.background_color, Color { red: 255, green: 255, blue: 255, alpha: 255 });
}

#[test]
fn can_update_spots_a_stuck_entity() {
    let mut w = World::new_custom(100, 100, "ffffffff").unwrap();
    w.entities.push(Entity::new_custom(10, 10, 0, 5, i32::MIN, 0, "000000ff").unwrap());
    assert!(!w.can_update());
}

#[test]
fn draw_empty_world_is_all_background() {
    let w = World::new_custom(3, 2, "ff9d00ff").unwrap();
    let mut frame = vec![0u8; 3 * 2 * 4];
    w.draw(&mut frame);
    assert_eq!(frame.len(), 24);
    for y in 0..2 {
        for x in 0..3 {
            assert_eq!(pixel(&frame, 3, x, y), [255, 157, 0, 255]);
        }
    }
}

#[test]
fn full_frame_scenario() {
    // A 4x4 white world with one opaque black 2x2 entity at (0, 0): the
    // entity's footprint is inclusive on the far edges, so it covers the
    // pixel indices 0..=2 on each axis; (3, 3) stays white.
    let mut w = World::new_custom(4, 4, "ffffffff").unwrap();
    w.entities.push(entity(0, 0, 2, 2, "000000ff"));
    let mut frame = vec![0u8; 4 * 4 * 4];
    w.draw(&mut frame);
    assert_eq!(pixel(&frame, 4, 1, 1), [0, 0, 0, 255]);
    assert_eq!(pixel(&frame, 4, 2, 2), [0, 0, 0, 255]);
    assert_eq!(pixel(&frame, 4, 3, 3), [255, 255, 255, 255]);
    assert_eq!(pixel(&frame, 4, 0, 3), [255, 255, 255, 255]);
    assert_eq!(pixel(&frame, 4, 3, 0), [255, 255, 255, 255]);
}

#[test]
fn inclusive_bounding_box() {
    // An entity at (10, 10) with width 5 and height 5 contains pixel (15, 15)
    // — the far edge is inclusive, one pixel beyond width/height — while
    // (16, 16) is outside and shows the background.
    let mut w = World::new_custom(20, 20, "ffffffff").unwrap();
    w.entities.push(entity(10, 10, 5, 5, "00ff00ff"));
    let mut frame = vec![0u8; 20 * 20 * 4];
    w.draw(&mut frame);
    assert_eq!(pixel(&frame, 20, 15, 15), [0, 255, 0, 255]);
    assert_eq!(pixel(&frame, 20, 16, 16), [255, 255, 255, 255]);
    assert_eq!(pixel(&frame, 20, 9, 10), [255, 255, 255, 255]);
    assert_eq!(pixel(&frame, 20, 10, 9), [255, 255, 255, 255]);
    assert_eq!(pixel(&frame, 20, 10, 10), [0, 255, 0, 255]);
}

#[test]
fn later_entity_wins_overlap() {
    // A red entity added first, a blue one added second, overlapping: every
    // shared pixel shows blue; pixels only the red one covers stay red.
    let mut w = World::new_custom(10, 10, "ffffffff").unwrap();
    w.entities.push(entity(0, 0, 4, 4, "ff0000ff"));
    w.entities.push(entity(2, 2, 4, 4, "0000ffff"));
    let mut frame = vec![0u8; 10 * 10 * 4];
    w.draw(&mut frame);
    for x in 2..=4 {
        for y in 2..=4 {
            assert_eq!(pixel(&frame, 10, x, y), [0, 0, 255, 255]);
        }
    }
    assert_eq!(pixel(&frame, 10, 0, 0), [255, 0, 0, 255]);
    assert_eq!(pixel(&frame, 10, 1, 2), [255, 0, 0, 255]);
    assert_eq!(pixel(&frame, 10, 7, 7), [255, 255, 255, 255]);
}

#[test]
fn draw_after_update_moves_the_footprint() {
    let mut w = World::new_custom(16, 16, "ffffffff").unwrap();
    w.entities.push(Entity::new_custom(2, 2, 5, 5, 2, 1, "000000ff").unwrap());
    assert!(w.can_update());
    w.update();
    let mut frame = vec![0u8; 16 * 16 * 4];
    w.draw(&mut frame);
    // The entity moved to (7, 6); its old top-left corner is uncovered now.
    assert_eq!(pixel(&frame, 16, 5, 5), [255, 255, 255, 255]);
    assert_eq!(pixel(&frame, 16, 7, 6), [0, 0, 0, 255]);
    assert_eq!(pixel(&frame, 16, 9, 8), [0, 0, 0, 255]);
    assert_eq!(pixel(&frame, 16, 10, 8), [255, 255, 255, 255]);
}
