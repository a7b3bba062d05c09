//! A minimal real-time 2D simulation: a rectangular world of axis-aligned
//! rectangular entities that move at constant velocity, bounce elastically off
//! the world boundary, and are rasterized each frame into a raw RGBA buffer by
//! painter's-algorithm compositing (later entities overwrite earlier ones).

use vstd::prelude::*;

pub mod color;
pub mod entity;
pub mod world;

verus! {

// Default world settings.
pub const DEFAULT_WORLD_WIDTH: i32 = 600;

pub const DEFAULT_WORLD_HEIGHT: i32 = 400;

// Default entity settings.
pub const DEFAULT_ENTITY_WIDTH: i32 = 50;

pub const DEFAULT_ENTITY_HEIGHT: i32 = 50;

pub const DEFAULT_ENTITY_VELOCITY: i32 = 5;

} // verus!
