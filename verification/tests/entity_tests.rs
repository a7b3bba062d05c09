use bounce_world::color::{Color, ColorError};
use bounce_world::entity::Entity;
use bounce_world::{
    DEFAULT_ENTITY_HEIGHT, DEFAULT_ENTITY_VELOCITY, DEFAULT_ENTITY_WIDTH, DEFAULT_WORLD_HEIGHT,
    DEFAULT_WORLD_WIDTH,
};

fn black_square(x: i32, y: i32, vx: i32, vy: i32) -> Entity {
    Entity::new_custom(10, 10, x, y, vx, vy, "000000ff").unwrap()
}

#[test]
fn new_custom_keeps_parameters() {
    let e = Entity::new_custom(50, 60, 7, 8, -5, 5, "ff9d00ff").unwrap();
    assert_eq!(e.width, 50);
    assert_eq!(e.height, 60);
    assert_eq!(e.x_position, 7);
    assert_eq!(e.y_position, 8);
    assert_eq!(e.x_velocity, -5);
    assert_eq!(e.y_velocity, 5);
    assert_eq!(e.color, Color { red: 255, green: 157, blue: 0, alpha: 255 });
}

#[test]
fn new_custom_rejects_short_color() {
    // A 7-character color string fails with a color-format error: no entity.
    let r = Entity::new_custom(50, 50, 0, 0, 5, 5, "ff0000f");
    assert_eq!(r, Err(ColorError::InvalidEncoding));
}

#[test]
fn new_custom_rejects_long_color() {
    // A 9-character color string fails with a color-format error: no entity.
    let r = Entity::new_custom(50, 50, 0, 0, 5, 5, "ff0000fff");
    assert_eq!(r, Err(ColorError::InvalidEncoding));
}

#[test]
fn new_stays_in_default_ranges() {
    for _ in 0..100 {
        let e = Entity::new();
        assert_eq!(e.width, DEFAULT_ENTITY_WIDTH);
        assert_eq!(e.height, DEFAULT_ENTITY_HEIGHT);
        assert!(0 <= e.x_position && e.x_position < DEFAULT_WORLD_WIDTH - DEFAULT_ENTITY_HEIGHT);
        assert!(0 <= e.y_position && e.y_position < DEFAULT_WORLD_HEIGHT - DEFAULT_ENTITY_HEIGHT);
        assert!(e.x_velocity == DEFAULT_ENTITY_VELOCITY || e.x_velocity == -DEFAULT_ENTITY_VELOCITY);
        assert!(e.y_velocity == DEFAULT_ENTITY_VELOCITY || e.y_velocity == -DEFAULT_ENTITY_VELOCITY);
        assert_eq!(e.color, Color { red: 0, green: 0, blue: 0, alpha: 255 });
    }
}

#[test]
fn left_edge_reflects_x() {
    // x <= 0 before the tick: the horizontal velocity is negated, and the
    // entity moves away from the edge in the same tick.
    let mut e = black_square(0, 20, -5, 0);
    e.update(100, 100);
    assert_eq!(e.x_velocity, 5);
    assert_eq!(e.x_position, 5);
    assert_eq!(e.y_velocity, 0);
    assert_eq!(e.y_position, 20);
}

#[test]
fn right_edge_reflects_x() {
    // x + width > world_width before the tick: the horizontal velocity is
    // negated.
    let mut e = black_square(91, 20, 5, 0);
    e.update(100, 100);
    assert_eq!(e.x_velocity, -5);
    assert_eq!(e.x_position, 86);
}

#[test]
fn top_edge_reflects_y_independently() {
    // Only the vertical axis stands at an edge: x_velocity is untouched.
    let mut e = black_square(20, 0, 5, -3);
    e.update(100, 100);
    assert_eq!(e.x_velocity, 5);
    assert_eq!(e.x_position, 25);
    assert_eq!(e.y_velocity, 3);
    assert_eq!(e.y_position, 3);
}

#[test]
fn bottom_edge_reflects_y() {
    let mut e = black_square(20, 91, 0, 5);
    e.update(100, 100);
    assert_eq!(e.y_velocity, -5);
    assert_eq!(e.y_position, 86);
}

#[test]
fn no_boundary_moves_by_velocity() {
    // Away from every boundary one tick adds exactly the velocities.
    let mut e = black_square(40, 30, 3, -2);
    e.update(100, 100);
    assert_eq!(e.x_velocity, 3);
    assert_eq!(e.y_velocity, -2);
    assert_eq!(e.x_position, 43);
    assert_eq!(e.y_position, 28);
}

#[test]
fn near_world_sized_entity_oscillates() {
    // An entity within one velocity step of the world size bounces every few
    // ticks by design: width 9 in a 10-wide world, speed 1.
    let mut e = Entity::new_custom(9, 9, 1, 1, 1, 1, "000000ff").unwrap();
    let mut xs = Vec::new();
    for _ in 0..6 {
        e.update(10, 10);
        xs.push(e.x_position);
    }
    assert_eq!(xs, vec![2, 1, 0, 1, 2, 1]);
}

#[test]
fn update_fits_rejects_unrepresentable_negation() {
    // At the left edge the velocity must be negated, and -i32::MIN does not
    // exist: this tick cannot be taken.
    let e = Entity::new_custom(10, 10, 0, 5, i32::MIN, 0, "000000ff").unwrap();
    assert!(!e.update_fits(100, 100));
    // The same magnitude one step in is fine to reflect.
    let e = Entity::new_custom(10, 10, 0, 5, i32::MIN + 1, 0, "000000ff").unwrap();
    assert!(e.update_fits(100, 100));
}

#[test]
fn update_fits_rejects_position_overflow() {
    // No reflection (the entity is clear of both vertical edges), but moving
    // by the velocity would leave i32.
    let e = Entity::new_custom(10, 10, i32::MAX - 11, 5, 100, 0, "000000ff").unwrap();
    assert!(!e.update_fits(i32::MAX, 100));
}
