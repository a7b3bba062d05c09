//! The world: a fixed-size canvas, a background color and an ordered
//! collection of entities. Each frame the world advances every entity one
//! tick, then rasterizes the whole scene into a caller-supplied byte buffer:
//! row-major, four bytes per pixel in red, green, blue, alpha order, each
//! pixel taking the color of the last entity in the collection whose
//! (edge-inclusive) bounding box contains it, or the background color where
//! none does.

use vstd::prelude::*;

use crate::color::{Color, ColorError, decoded_color, valid_rgba_hex};
use crate::entity::{Entity, all_step_fits, bounce_invariant, lemma_containment_step, step_fits, stepped_entity};
use crate::{DEFAULT_WORLD_HEIGHT, DEFAULT_WORLD_WIDTH};

verus! {

/// The whole simulated canvas: fixed dimensions, a background color, and the
/// entities in insertion order (the order decides which overlapping entity
/// shows: the later one).
#[derive(Debug)]
pub struct World {
    pub width: i32,
    pub height: i32,
    pub entities: Vec<Entity>,
    pub background_color: Color,
}

/// The entity's bounding box contains the pixel, inclusively on all four
/// edges — so an entity's footprint is one pixel wider and taller than its
/// stated size, a deliberate convention of this renderer.
pub open spec fn covers(e: Entity, px: int, py: int) -> bool {
    &&& e.x_position <= px <= e.x_position + e.width
    &&& e.y_position <= py <= e.y_position + e.height
}

/// The color a pixel takes: the color of the last entity in the sequence
/// whose box covers it, or the background color if none does.
pub open spec fn pixel_color(entities: Seq<Entity>, background: Color, px: int, py: int) -> Color
    decreases entities.len(),
{
    if entities.len() == 0 {
        background
    } else if covers(entities.last(), px, py) {
        entities.last().color
    } else {
        pixel_color(entities.drop_last(), background, px, py)
    }
}

/// The four channel bytes of color `c` stand at pixel `(px, py)` of a
/// row-major frame that is `world_width` pixels wide.
pub open spec fn pixel_written(
    frame: Seq<u8>,
    world_width: int,
    px: int,
    py: int,
    c: Color,
) -> bool {
    let base = (py * world_width + px) * 4;
    &&& frame[base] == c.red
    &&& frame[base + 1] == c.green
    &&& frame[base + 2] == c.blue
    &&& frame[base + 3] == c.alpha
}

/// Row-major pixel indices follow the raster order: a pixel on an earlier
/// row, or earlier on the same row, has the smaller index.
proof fn lemma_pixel_index_order(world_width: int, ax: int, ay: int, bx: int, by: int)
    by (nonlinear_arith)
    requires
        0 < world_width,
        0 <= ax < world_width,
        0 <= bx,
        0 <= ay,
        ay < by || (ay == by && ax < bx),
    ensures
        ay * world_width + ax < by * world_width + bx,
{
}

impl World {
    /// A world with the default settings: the default dimensions, a white
    /// background, and no entities yet.
    pub fn new() -> (w: World)
        ensures
            w.width == DEFAULT_WORLD_WIDTH,
            w.height == DEFAULT_WORLD_HEIGHT,
            w.entities@.len() == 0,
            w.background_color == (Color { red: 255, green: 255, blue: 255, alpha: 255 }),
    {
        proof {
            reveal_strlit("ffffffff");
            assert(valid_rgba_hex("ffffffff"@));
        }
        let background_color = match Color::from_hex("ffffffff") {
            Ok(c) => c,
            Err(_) => unreached(),
        };
        World {
            width: DEFAULT_WORLD_WIDTH,
            height: DEFAULT_WORLD_HEIGHT,
            entities: Vec::new(),
            background_color,
        }
    }

    /// A world with explicit dimensions and background color, and no entities
    /// yet; fails, creating nothing, exactly when the color string is not 8
    /// hexadecimal digits.
    pub fn new_custom(width: i32, height: i32, rgba_hex_str: &str) -> (r: Result<
        World,
        ColorError,
    >)
        requires
            width > 0,
            height > 0,
        ensures
            r is Ok <==> valid_rgba_hex(rgba_hex_str@),
            r is Ok ==> ({
                let w = r->Ok_0;
                &&& w.width == width
                &&& w.height == height
                &&& w.entities@.len() == 0
                &&& w.background_color == decoded_color(rgba_hex_str@)
            }),
            r is Err ==> r->Err_0 == ColorError::InvalidEncoding,
    {
        match Color::from_hex(rgba_hex_str) {
            Ok(background_color) => Ok(
                World { width, height, entities: Vec::new(), background_color },
            ),
            Err(e) => Err(e),
        }
    }

    /// Every entity's next tick stays inside `i32` arithmetic, so `update`
    /// may be called.
    pub fn can_update(&self) -> (b: bool)
        ensures
            b == all_step_fits(self.entities@, self.width as int, self.height as int),
    {
        let mut i: usize = 0;
        while i < self.entities.len()
            invariant
                i <= self.entities@.len(),
                forall|j: int|
                    0 <= j < i ==> step_fits(
                        #[trigger] self.entities@[j],
                        self.width as int,
                        self.height as int,
                    ),
            decreases self.entities@.len() - i,
        {
            if !self.entities[i].update_fits(self.width, self.height) {
                return false;
            }
            i += 1;
        }
        true
    }

    /// Advance every entity by exactly one tick, in collection order; the
    /// dimensions, the background and the number of entities do not change.
    pub fn update(&mut self)
        requires
            all_step_fits(old(self).entities@, old(self).width as int, old(self).height as int),
        ensures
            final(self).width == old(self).width,
            final(self).height == old(self).height,
            final(self).background_color == old(self).background_color,
            final(self).entities@.len() == old(self).entities@.len(),
            forall|i: int|
                0 <= i < old(self).entities@.len() ==> #[trigger] final(self).entities@[i]
                    == stepped_entity(
                    old(self).entities@[i],
                    old(self).width as int,
                    old(self).height as int,
                ),
    {
        let world_width: i32 = self.width;
        let world_height: i32 = self.height;
        let n: usize = self.entities.len();
        let mut i: usize = 0;
        while i < n
            invariant
                i <= n,
                n == self.entities@.len(),
                self.width == old(self).width,
                self.height == old(self).height,
                self.background_color == old(self).background_color,
                world_width == old(self).width,
                world_height == old(self).height,
                self.entities@.len() == old(self).entities@.len(),
                all_step_fits(old(self).entities@, old(self).width as int, old(self).height as int),
                forall|j: int|
                    0 <= j < i ==> #[trigger] self.entities@[j] == stepped_entity(
                        old(self).entities@[j],
                        old(self).width as int,
                        old(self).height as int,
                    ),
                forall|j: int| i <= j < n ==> #[trigger] self.entities@[j] == old(self).entities@[j],
            decreases n - i,
        {
            let mut e = self.entities[i];
            e.update(world_width, world_height);
            self.entities.set(i, e);
            i += 1;
        }
    }

    /// Rasterize the whole scene into `frame`: row-major, four bytes per
    /// pixel in red, green, blue, alpha order; every pixel gets the color of
    /// the last entity in the collection that covers it, or the background
    /// color where none does. The buffer must hold exactly
    /// `width * height * 4` bytes, and its length does not change.
    pub fn draw(&self, frame: &mut Vec<u8>)
        requires
            self.width > 0,
            self.height > 0,
            old(frame)@.len() == self.width as int * self.height as int * 4,
        ensures
            final(frame)@.len() == old(frame)@.len(),
            forall|px: int, py: int|
                0 <= px < self.width && 0 <= py < self.height ==> pixel_written(
                    final(frame)@,
                    self.width as int,
                    px,
                    py,
                    #[trigger] pixel_color(self.entities@, self.background_color, px, py),
                ),
    {
        let world_width: i32 = self.width;
        let world_height: i32 = self.height;
        let frame_len: usize = frame.len();
        let width_us = world_width as usize;
        let n: usize = self.entities.len();
        let mut py: i32 = 0;
        while py < world_height
            invariant
                0 <= py <= world_height,
                world_width == self.width,
                world_height == self.height,
                width_us == self.width as usize,
                n == self.entities@.len(),
                self.width > 0,
                self.height > 0,
                frame@.len() == self.width as int * self.height as int * 4,
                frame_len == frame@.len(),
                forall|qx: int, qy: int|
                    0 <= qx < self.width && 0 <= qy < py ==> pixel_written(
                        frame@,
                        self.width as int,
                        qx,
                        qy,
                        #[trigger] pixel_color(self.entities@, self.background_color, qx, qy),
                    ),
            decreases world_height - py,
        {
            let mut px: i32 = 0;
            while px < world_width
                invariant
                    0 <= px <= world_width,
                    0 <= py < world_height,
                    world_width == self.width,
                    world_height == self.height,
                    width_us == self.width as usize,
                    n == self.entities@.len(),
                    self.width > 0,
                    self.height > 0,
                    frame@.len() == self.width as int * self.height as int * 4,
                    frame_len == frame@.len(),
                    forall|qx: int, qy: int|
                        0 <= qx < self.width && 0 <= qy < py ==> pixel_written(
                            frame@,
                            self.width as int,
                            qx,
                            qy,
                            #[trigger] pixel_color(self.entities@, self.background_color, qx, qy),
                        ),
                    forall|qx: int|
                        0 <= qx < px ==> pixel_written(
                            frame@,
                            self.width as int,
                            qx,
                            py as int,
                            #[trigger] pixel_color(
                                self.entities@,
                                self.background_color,
                                qx,
                                py as int,
                            ),
                        ),
                decreases world_width - px,
            {
                let mut color = self.background_color;
                let mut k: usize = 0;
                while k < n
                    invariant
                        k <= n,
                        n == self.entities@.len(),
                        color == pixel_color(
                            self.entities@.take(k as int),
                            self.background_color,
                            px as int,
                            py as int,
                        ),
                    decreases n - k,
                {
                    let e = self.entities[k];
                    if (px as i64) >= (e.x_position as i64) && (px as i64) <= (e.x_position as i64)
                        + (e.width as i64) && (py as i64) >= (e.y_position as i64) && (py as i64)
                        <= (e.y_position as i64) + (e.height as i64) {
                        color = e.color;
                    }
                    proof {
                        assert(self.entities@.take(k + 1).drop_last() =~= self.entities@.take(
                            k as int,
                        ));
                        assert(self.entities@.take(k + 1).last() == self.entities@[k as int]);
                    }
                    k += 1;
                }
                proof {
                    assert(self.entities@.take(n as int) =~= self.entities@);
                    lemma_pixel_index_order(
                        self.width as int,
                        px as int,
                        py as int,
                        0,
                        self.height as int,
                    );
                    assert((self.height as int) * (self.width as int) * 4 == (self.width as int)
                        * (self.height as int) * 4) by (nonlinear_arith);
                }
                let base: usize = ((py as usize) * width_us + (px as usize)) * 4;
                frame.set(base, color.red);
                frame.set(base + 1, color.green);
                frame.set(base + 2, color.blue);
                frame.set(base + 3, color.alpha);
                proof {
                    assert forall|qx: int, qy: int| 0 <= qx < self.width && 0 <= qy < py implies
                        pixel_written(
                            frame@,
                            self.width as int,
                            qx,
                            qy,
                            #[trigger] pixel_color(self.entities@, self.background_color, qx, qy),
                        ) by {
                        lemma_pixel_index_order(self.width as int, qx, qy, px as int, py as int);
                    };
                    assert forall|qx: int| 0 <= qx < px + 1 implies pixel_written(
                        frame@,
                        self.width as int,
                        qx,
                        py as int,
                        #[trigger] pixel_color(self.entities@, self.background_color, qx, py as int),
                    ) by {
                        if qx < px {
                            lemma_pixel_index_order(
                                self.width as int,
                                qx,
                                py as int,
                                px as int,
                                py as int,
                            );
                        }
                    };
                }
                px += 1;
            }
            py += 1;
        }
    }
}

/// Boundary containment across a whole world: where every entity satisfies
/// the bounce invariant, the world may take its tick (`update`'s precondition
/// holds), and afterwards every entity satisfies the invariant still — so, by
/// induction, after any number of ticks no entity ever leaves the world by
/// more than one velocity step.
pub proof fn lemma_world_containment_step(
    entities: Seq<Entity>,
    world_width: int,
    world_height: int,
)
    requires
        forall|i: int|
            0 <= i < entities.len() ==> bounce_invariant(
                #[trigger] entities[i],
                world_width,
                world_height,
            ),
    ensures
        all_step_fits(entities, world_width, world_height),
        forall|i: int|
            0 <= i < entities.len() ==> bounce_invariant(
                #[trigger] stepped_entity(entities[i], world_width, world_height),
                world_width,
                world_height,
            ),
{
    assert forall|i: int| 0 <= i < entities.len() implies step_fits(
        #[trigger] entities[i],
        world_width,
        world_height,
    ) by {
        lemma_containment_step(entities[i], world_width, world_height);
    };
    assert forall|i: int| 0 <= i < entities.len() implies bounce_invariant(
        #[trigger] stepped_entity(entities[i], world_width, world_height),
        world_width,
        world_height,
    ) by {
        lemma_containment_step(entities[i], world_width, world_height);
    };
}

/// Painter's-algorithm precedence: at any pixel, the color drawn is the color
/// of the last entity in the collection that covers it — whichever earlier
/// entities, overlapping or not, stand before it.
pub proof fn lemma_painters_precedence(
    entities: Seq<Entity>,
    background: Color,
    j: int,
    px: int,
    py: int,
)
    requires
        0 <= j < entities.len(),
        covers(entities[j], px, py),
        forall|k: int| j < k < entities.len() ==> !covers(#[trigger] entities[k], px, py),
    ensures
        pixel_color(entities, background, px, py) == entities[j].color,
    decreases entities.len(),
{
    if j < entities.len() - 1 {
        assert(!covers(entities.last(), px, py));
        lemma_painters_precedence(entities.drop_last(), background, j, px, py);
    }
}

/// A pixel that no entity covers shows the background color.
pub proof fn lemma_background_shows(entities: Seq<Entity>, background: Color, px: int, py: int)
    requires
        forall|k: int| 0 <= k < entities.len() ==> !covers(#[trigger] entities[k], px, py),
    ensures
        pixel_color(entities, background, px, py) == background,
    decreases entities.len(),
{
    if entities.len() > 0 {
        lemma_background_shows(entities.drop_last(), background, px, py);
    }
}

} // verus!
