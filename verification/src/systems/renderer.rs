//! The renderer: projects the store into draw commands each frame.
//!
//! The actual rasterizer and window are external collaborators; the renderer
//! computes what to draw — a clear to opaque white and one filled rectangle
//! per drawable entity — and the presenting caller executes the commands. It
//! takes the store by shared reference, so rendering cannot mutate it.

use crate::db::{graphics_at, has_graphics, Database, GraphicsRow, XyRow};
use vstd::prelude::*;

verus! {

/// A fully opaque color, by its red, green and blue components.
#[derive(Clone, Copy, Debug, PartialEq, Eq, Structural)]
pub struct Rgb {
    pub r: u8,
    pub g: u8,
    pub b: u8,
}

/// One filled rectangle: an axis-aligned box centered at `(x, y)` with the
/// given extents and fill color.
#[derive(Clone, Copy, Debug, PartialEq, Eq, Structural)]
pub struct RectCmd {
    pub x: i64,
    pub y: i64,
    pub width: i64,
    pub height: i64,
    pub color: Rgb,
}

/// Everything one frame draws: a background clear followed by rectangles.
pub struct RenderFrame {
    /// The color the buffer is cleared to before anything is drawn.
    pub background: Rgb,
    /// The rectangles, one per drawable entity, in position-table order.
    pub rects: Vec<RectCmd>,
}

/// The fill color a named color maps to: the three primaries by name, and a
/// neutral gray for anything else (not an error).
pub open spec fn spec_rgb(name: Seq<char>) -> Rgb {
    if name == "red"@ {
        Rgb { r: 255, g: 0, b: 0 }
    } else if name == "green"@ {
        Rgb { r: 0, g: 255, b: 0 }
    } else if name == "blue"@ {
        Rgb { r: 0, g: 0, b: 255 }
    } else {
        Rgb { r: 136, g: 136, b: 136 }
    }
}

/// Returns the fill color for a named color.
pub fn color_rgb(name: &String) -> (c: Rgb)
    ensures
        c == spec_rgb(name@),
{
    if *name == "red".to_owned() {
        Rgb { r: 255, g: 0, b: 0 }
    } else if *name == "green".to_owned() {
        Rgb { r: 0, g: 255, b: 0 }
    } else if *name == "blue".to_owned() {
        Rgb { r: 0, g: 0, b: 255 }
    } else {
        Rgb { r: 136, g: 136, b: 136 }
    }
}

/// The rectangle of every entity that has both `position` and `graphics`, in
/// position-table order, with its color mapped by [`spec_rgb`].
pub open spec fn spec_render_rects(pos: Seq<XyRow>, gfx: Seq<GraphicsRow>) -> Seq<RectCmd> {
    pos.filter_map(
        |p: XyRow|
            if has_graphics(gfx, p.id) {
                Some(
                    RectCmd {
                        x: p.x,
                        y: p.y,
                        width: graphics_at(gfx, p.id).width,
                        height: graphics_at(gfx, p.id).height,
                        color: spec_rgb(graphics_at(gfx, p.id).color@),
                    },
                )
            } else {
                None
            },
    )
}

/// Taking one more position row appends exactly its rectangle, if any.
proof fn lemma_rects_take_step(pos: Seq<XyRow>, gfx: Seq<GraphicsRow>, i: int)
    requires
        0 <= i < pos.len(),
    ensures
        spec_render_rects(pos.take(i + 1), gfx) == spec_render_rects(pos.take(i), gfx) + (
        if has_graphics(gfx, pos[i].id) {
            seq![
                RectCmd {
                    x: pos[i].x,
                    y: pos[i].y,
                    width: graphics_at(gfx, pos[i].id).width,
                    height: graphics_at(gfx, pos[i].id).height,
                    color: spec_rgb(graphics_at(gfx, pos[i].id).color@),
                },
            ]
        } else {
            Seq::<RectCmd>::empty()
        }),
{
    let t = pos.take(i + 1);
    assert(t.drop_last() =~= pos.take(i));
    assert(t.last() == pos[i]);
    if has_graphics(gfx, pos[i].id) {
        assert(spec_render_rects(t, gfx) =~= spec_render_rects(pos.take(i), gfx) + seq![
            RectCmd {
                x: pos[i].x,
                y: pos[i].y,
                width: graphics_at(gfx, pos[i].id).width,
                height: graphics_at(gfx, pos[i].id).height,
                color: spec_rgb(graphics_at(gfx, pos[i].id).color@),
            },
        ]);
    } else {
        assert(spec_render_rects(t, gfx) =~= spec_render_rects(pos.take(i), gfx) + Seq::<
            RectCmd,
        >::empty());
    }
}

/// Projects position and graphics into draw commands. Owns only the buffer
/// dimensions; the pixel buffer itself lives with the presenting caller.
pub struct RenderSystem {
    /// The width of the target buffer, in pixels.
    pub width: usize,
    /// The height of the target buffer, in pixels.
    pub height: usize,
}

impl RenderSystem {
    /// A renderer for a buffer of the given dimensions.
    pub fn new(width: usize, height: usize) -> (s: RenderSystem)
        ensures
            s.width == width,
            s.height == height,
    {
        RenderSystem { width, height }
    }

    /// Computes the draw commands for the current state: clear to opaque
    /// white, then one rectangle per entity having both `position` and
    /// `graphics`. Reads the store through a shared reference and mutates
    /// nothing.
    pub fn render(&self, db: &Database) -> (frame: RenderFrame)
        requires
            db.wf(),
        ensures
            frame.background == (Rgb { r: 255, g: 255, b: 255 }),
            frame.rects@ == spec_render_rects(db.positions@, db.graphics@),
    {
        let n = db.positions.len();
        let mut rects: Vec<RectCmd> = Vec::new();
        let mut i: usize = 0;
        while i < n
            invariant
                db.wf(),
                0 <= i <= n,
                n == db.positions@.len(),
                rects@ == spec_render_rects(db.positions@.take(i as int), db.graphics@),
            decreases n - i,
        {
            let p = db.positions[i];
            proof {
                lemma_rects_take_step(db.positions@, db.graphics@, i as int);
            }
            match db.graphics_of(p.id) {
                Some(g) => {
                    let color = color_rgb(&g.color);
                    rects.push(
                        RectCmd { x: p.x, y: p.y, width: g.width, height: g.height, color },
                    );
                    proof {
                        assert(rects@ =~= spec_render_rects(db.positions@.take(i as int + 1),
                        db.graphics@));
                    }
                },
                None => {
                    proof {
                        assert(rects@ =~= spec_render_rects(db.positions@.take(i as int + 1),
                        db.graphics@));
                    }
                },
            }
            i = i + 1;
        }
        proof {
            assert(db.positions@.take(n as int) =~= db.positions@);
        }
        RenderFrame { background: Rgb { r: 255, g: 255, b: 255 }, rects }
    }
}

} // verus!
