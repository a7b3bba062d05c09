//! Moving rectangles: one `Entity` is an axis-aligned rectangle with a fixed
//! size and color that advances at constant velocity and reflects off the
//! world boundary.
//!
//! The per-tick step, in this order: negate the horizontal velocity if the
//! rectangle touches or crosses the left edge or sticks out past the right
//! edge; likewise the vertical velocity against top and bottom; then move by
//! the possibly-just-flipped velocities. Reflection and motion happen in the
//! same tick, so a boundary-touching entity turns and moves away in one step.

use vstd::prelude::*;

use crate::color::{Color, ColorError, decoded_color, valid_rgba_hex};
use crate::{DEFAULT_ENTITY_HEIGHT, DEFAULT_ENTITY_VELOCITY, DEFAULT_ENTITY_WIDTH};
use crate::{DEFAULT_WORLD_HEIGHT, DEFAULT_WORLD_WIDTH};

verus! {

/// One moving rectangle: top-left corner at `(x_position, y_position)` in
/// world coordinates, extent `width` by `height`, advancing by
/// `(x_velocity, y_velocity)` pixels per tick, drawn in `color`.
#[derive(Clone, Copy, Debug, PartialEq, Eq, Structural)]
pub struct Entity {
    pub width: i32,
    pub height: i32,
    pub x_position: i32,
    pub y_position: i32,
    pub x_velocity: i32,
    pub y_velocity: i32,
    pub color: Color,
}

/// Relies on `rand::random` of the `rand` crate; nothing is assumed of the
/// value drawn.
pub assume_specification<T>[ rand::random::<T> ]() -> (r: T)
    where
        rand::distributions::Standard: rand::distributions::Distribution<T>,
;

/// The entity touches or crosses the left edge, or sticks out past the right
/// edge: its horizontal velocity reflects this tick.
pub open spec fn reflects_x(e: Entity, world_width: int) -> bool {
    e.x_position <= 0 || e.x_position + e.width > world_width
}

/// The entity touches or crosses the top edge, or sticks out past the bottom
/// edge: its vertical velocity reflects this tick.
pub open spec fn reflects_y(e: Entity, world_height: int) -> bool {
    e.y_position <= 0 || e.y_position + e.height > world_height
}

/// The horizontal velocity after one tick: negated exactly when the entity
/// stood against a vertical world edge.
pub open spec fn stepped_x_velocity(e: Entity, world_width: int) -> int {
    if reflects_x(e, world_width) {
        -e.x_velocity
    } else {
        e.x_velocity as int
    }
}

/// The vertical velocity after one tick.
pub open spec fn stepped_y_velocity(e: Entity, world_height: int) -> int {
    if reflects_y(e, world_height) {
        -e.y_velocity
    } else {
        e.y_velocity as int
    }
}

/// The arithmetic of one tick stays inside `i32`: the possibly-negated
/// velocities and the new positions are all representable.
pub open spec fn step_fits(e: Entity, world_width: int, world_height: int) -> bool {
    &&& i32::MIN <= stepped_x_velocity(e, world_width) <= i32::MAX
    &&& i32::MIN <= stepped_y_velocity(e, world_height) <= i32::MAX
    &&& i32::MIN <= e.x_position + stepped_x_velocity(e, world_width) <= i32::MAX
    &&& i32::MIN <= e.y_position + stepped_y_velocity(e, world_height) <= i32::MAX
}

/// Every entity of the sequence can take its next tick inside `i32`.
pub open spec fn all_step_fits(entities: Seq<Entity>, world_width: int, world_height: int) -> bool {
    forall|i: int|
        0 <= i < entities.len() ==> step_fits(#[trigger] entities[i], world_width, world_height)
}

/// The whole entity after one tick against the given bounding box: size and
/// color are kept, each velocity is negated exactly when its axis reflects,
/// and the position advances by the possibly-just-flipped velocity.
pub open spec fn stepped_entity(e: Entity, world_width: int, world_height: int) -> Entity
    recommends
        step_fits(e, world_width, world_height),
{
    Entity {
        width: e.width,
        height: e.height,
        x_position: (e.x_position + stepped_x_velocity(e, world_width)) as i32,
        y_position: (e.y_position + stepped_y_velocity(e, world_height)) as i32,
        x_velocity: stepped_x_velocity(e, world_width) as i32,
        y_velocity: stepped_y_velocity(e, world_height) as i32,
        color: e.color,
    }
}

impl Entity {
    /// A default entity: the default size and color, a uniformly random
    /// position inside the default world, and each velocity component the
    /// default magnitude with a random sign.
    pub fn new() -> (e: Entity)
        ensures
            e.width == DEFAULT_ENTITY_WIDTH,
            e.height == DEFAULT_ENTITY_HEIGHT,
            0 <= e.x_position < DEFAULT_WORLD_WIDTH - DEFAULT_ENTITY_HEIGHT,
            0 <= e.y_position < DEFAULT_WORLD_HEIGHT - DEFAULT_ENTITY_HEIGHT,
            e.x_velocity == DEFAULT_ENTITY_VELOCITY || e.x_velocity == -DEFAULT_ENTITY_VELOCITY,
            e.y_velocity == DEFAULT_ENTITY_VELOCITY || e.y_velocity == -DEFAULT_ENTITY_VELOCITY,
            e.color == (Color { red: 0, green: 0, blue: 0, alpha: 255 }),
    {
        proof {
            reveal_strlit("000000ff");
            assert(valid_rgba_hex("000000ff"@));
        }
        let color = match Color::from_hex("000000ff") {
            Ok(c) => c,
            Err(_) => unreached(),
        };
        let x_range: u32 = (DEFAULT_WORLD_WIDTH - DEFAULT_ENTITY_HEIGHT) as u32;
        let y_range: u32 = (DEFAULT_WORLD_HEIGHT - DEFAULT_ENTITY_HEIGHT) as u32;
        let x_sign: i32 = if rand::random::<bool>() { 1 } else { -1 };
        let y_sign: i32 = if rand::random::<bool>() { 1 } else { -1 };
        Entity {
            width: DEFAULT_ENTITY_WIDTH,
            height: DEFAULT_ENTITY_HEIGHT,
            x_position: (rand::random::<u32>() % x_range) as i32,
            y_position: (rand::random::<u32>() % y_range) as i32,
            x_velocity: DEFAULT_ENTITY_VELOCITY * x_sign,
            y_velocity: DEFAULT_ENTITY_VELOCITY * y_sign,
            color,
        }
    }

    /// An entity with explicit parameters; fails, creating nothing, exactly
    /// when the color string is not 8 hexadecimal digits.
    pub fn new_custom(
        width: i32,
        height: i32,
        x_position: i32,
        y_position: i32,
        x_velocity: i32,
        y_velocity: i32,
        rgba_hex_str: &str,
    ) -> (r: Result<Entity, ColorError>)
        requires
            width > 0,
            height > 0,
        ensures
            r is Ok <==> valid_rgba_hex(rgba_hex_str@),
            r is Ok ==> r->Ok_0 == (Entity {
                width,
                height,
                x_position,
                y_position,
                x_velocity,
                y_velocity,
                color: decoded_color(rgba_hex_str@),
            }),
            r is Err ==> r->Err_0 == ColorError::InvalidEncoding,
    {
        match Color::from_hex(rgba_hex_str) {
            Ok(color) => Ok(
                Entity { width, height, x_position, y_position, x_velocity, y_velocity, color },
            ),
            Err(e) => Err(e),
        }
    }

    /// Whether this entity's next tick stays inside `i32` arithmetic, so
    /// `update` may be called on it.
    pub fn update_fits(&self, world_width: i32, world_height: i32) -> (b: bool)
        ensures
            b == step_fits(*self, world_width as int, world_height as int),
    {
        let min: i64 = i32::MIN as i64;
        let max: i64 = i32::MAX as i64;
        let vx2: i64 = if self.x_position <= 0 || (self.x_position as i64) + (self.width as i64)
            > (world_width as i64) {
            -(self.x_velocity as i64)
        } else {
            self.x_velocity as i64
        };
        let vy2: i64 = if self.y_position <= 0 || (self.y_position as i64) + (self.height as i64)
            > (world_height as i64) {
            -(self.y_velocity as i64)
        } else {
            self.y_velocity as i64
        };
        min <= vx2 && vx2 <= max && min <= (self.x_position as i64) + vx2 && (self.x_position
            as i64) + vx2 <= max && min <= vy2 && vy2 <= max && min <= (self.y_position as i64)
            + vy2 && (self.y_position as i64) + vy2 <= max
    }

    /// Advance this entity one tick inside the given bounding box: reflect
    /// each velocity whose axis stands against a world edge, then move by the
    /// possibly-just-flipped velocity.
    pub fn update(&mut self, world_width: i32, world_height: i32)
        requires
            step_fits(*old(self), world_width as int, world_height as int),
        ensures
            *final(self) == stepped_entity(*old(self), world_width as int, world_height as int),
    {
        if self.x_position <= 0 || (self.x_position as i64) + (self.width as i64) > (
        world_width as i64) {
            self.x_velocity = -self.x_velocity;
        }
        if self.y_position <= 0 || (self.y_position as i64) + (self.height as i64) > (
        world_height as i64) {
            self.y_velocity = -self.y_velocity;
        }
        self.x_position = self.x_position + self.x_velocity;
        self.y_position = self.y_position + self.y_velocity;
    }
}

/// One axis of an entity sits where the bouncing dynamics keep it: within one
/// velocity step of the span the world leaves it, and, when it is past an
/// edge, with its stored velocity pointing at that edge (the tick's reflection
/// then turns it back inside).
pub open spec fn contained_axis(pos: int, vel: int, size: int, bound: int) -> bool {
    &&& -vstd::math::abs(vel) <= pos <= bound - size + vstd::math::abs(vel)
    &&& pos < 0 ==> vel <= 0
    &&& pos > bound - size ==> vel >= 0
}

/// Both axes of the entity sit where the bouncing dynamics keep them.
pub open spec fn contained(e: Entity, world_width: int, world_height: int) -> bool {
    &&& contained_axis(e.x_position as int, e.x_velocity as int, e.width as int, world_width)
    &&& contained_axis(e.y_position as int, e.y_velocity as int, e.height as int, world_height)
}

/// One axis of the per-tick step keeps `contained_axis`: reflect the velocity
/// if the position stands at or past an edge, then move by it, and the
/// position is still within one velocity step of the world.
proof fn lemma_containment_axis(pos: int, vel: int, size: int, bound: int)
    requires
        0 < size <= bound,
        contained_axis(pos, vel, size, bound),
    ensures
        ({
            let vel2 = if pos <= 0 || pos + size > bound {
                -vel
            } else {
                vel
            };
            contained_axis(pos + vel2, vel2, size, bound)
        }),
{
}

/// Everything the bouncing dynamics ask of one entity in a given world, and
/// preserve: a positive size no larger than the world, a contained position,
/// and room in `i32` for the world bound plus the velocity magnitude on each
/// axis.
pub open spec fn bounce_invariant(e: Entity, world_width: int, world_height: int) -> bool {
    &&& 0 < e.width <= world_width
    &&& 0 < e.height <= world_height
    &&& contained(e, world_width, world_height)
    &&& world_width + vstd::math::abs(e.x_velocity as int) <= i32::MAX
    &&& world_height + vstd::math::abs(e.y_velocity as int) <= i32::MAX
}

/// One tick keeps an entity contained, and its arithmetic stays inside `i32`;
/// size is kept and the velocity magnitudes are unchanged (only their signs
/// can flip).
pub proof fn lemma_containment_step(e: Entity, world_width: int, world_height: int)
    requires
        bounce_invariant(e, world_width, world_height),
    ensures
        step_fits(e, world_width, world_height),
        bounce_invariant(stepped_entity(e, world_width, world_height), world_width, world_height),
        stepped_entity(e, world_width, world_height).width == e.width,
        stepped_entity(e, world_width, world_height).height == e.height,
        vstd::math::abs(stepped_entity(e, world_width, world_height).x_velocity as int)
            == vstd::math::abs(e.x_velocity as int),
        vstd::math::abs(stepped_entity(e, world_width, world_height).y_velocity as int)
            == vstd::math::abs(e.y_velocity as int),
{
    lemma_containment_axis(e.x_position as int, e.x_velocity as int, e.width as int, world_width);
    lemma_containment_axis(
        e.y_position as int,
        e.y_velocity as int,
        e.height as int,
        world_height,
    );
}

/// The entity after `n` ticks inside the given bounding box.
pub open spec fn run_ticks(e: Entity, world_width: int, world_height: int, n: nat) -> Entity
    decreases n,
{
    if n == 0 {
        e
    } else {
        stepped_entity(run_ticks(e, world_width, world_height, (n - 1) as nat), world_width,
        world_height)
    }
}

/// Boundary containment: an entity that starts contained, no larger than the
/// world on either axis and with room for its velocities in `i32`, stays
/// within one velocity step of the world after any number of ticks — it never
/// drifts without bound. Its size and velocity magnitudes never change.
pub proof fn lemma_boundary_containment(e: Entity, world_width: int, world_height: int, n: nat)
    requires
        bounce_invariant(e, world_width, world_height),
    ensures
        ({
            let r = run_ticks(e, world_width, world_height, n);
            &&& bounce_invariant(r, world_width, world_height)
            &&& r.width == e.width
            &&& r.height == e.height
            &&& vstd::math::abs(r.x_velocity as int) == vstd::math::abs(e.x_velocity as int)
            &&& vstd::math::abs(r.y_velocity as int) == vstd::math::abs(e.y_velocity as int)
            &&& -vstd::math::abs(e.x_velocity as int) <= r.x_position <= world_width
                + vstd::math::abs(e.x_velocity as int)
            &&& -vstd::math::abs(e.y_velocity as int) <= r.y_position <= world_height
                + vstd::math::abs(e.y_velocity as int)
        }),
    decreases n,
{
    if n > 0 {
        lemma_boundary_containment(e, world_width, world_height, (n - 1) as nat);
        lemma_containment_step(
            run_ticks(e, world_width, world_height, (n - 1) as nat),
            world_width,
            world_height,
        );
    }
}

/// Reflection correctness: on either axis, an entity that stands against a
/// world edge before a tick has exactly the negated velocity on that axis
/// after it, and an entity clear of both edges of an axis keeps that
/// velocity — the two axes independently.
pub proof fn lemma_reflection(e: Entity, world_width: int, world_height: int)
    ensures
        reflects_x(e, world_width) ==> stepped_x_velocity(e, world_width) == -e.x_velocity,
        !reflects_x(e, world_width) ==> stepped_x_velocity(e, world_width) == e.x_velocity,
        reflects_y(e, world_height) ==> stepped_y_velocity(e, world_height) == -e.y_velocity,
        !reflects_y(e, world_height) ==> stepped_y_velocity(e, world_height) == e.y_velocity,
{
}

/// Motion determinism: away from every boundary, one tick moves the entity by
/// exactly its velocity and changes nothing else.
pub proof fn lemma_motion_determinism(e: Entity, world_width: int, world_height: int)
    requires
        !reflects_x(e, world_width),
        !reflects_y(e, world_height),
        step_fits(e, world_width, world_height),
    ensures
        stepped_entity(e, world_width, world_height) == (Entity {
            x_position: (e.x_position + e.x_velocity) as i32,
            y_position: (e.y_position + e.y_velocity) as i32,
            ..e
        }),
        stepped_entity(e, world_width, world_height).x_position == e.x_position + e.x_velocity,
        stepped_entity(e, world_width, world_height).y_position == e.y_position + e.y_velocity,
{
}

} // verus!
