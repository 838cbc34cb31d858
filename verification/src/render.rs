use vstd::prelude::*;

use crate::color::{
    Color, black, black_color, bright_green, bright_green_color, dim_green, dim_green_color,
    no_color, transparent,
};
use crate::codec::empty_ch;
use crate::grid::{RevealGrid, dims_ok, MAX_GRID_WIDTH, MAX_GRID_HEIGHT};

verus! {

/// One filled-rectangle drawing operation, in pixels.
#[derive(Clone, Copy, PartialEq, Eq, Structural, Debug)]
pub struct RectOp {
    pub x: u32,
    pub y: u32,
    pub w: u32,
    pub h: u32,
    pub color: Color,
}

/// One glyph drawing operation: draw `ch` in `color` with the pen at pixel
/// `(x, y)`.
#[derive(Clone, Copy, PartialEq, Eq, Structural, Debug)]
pub struct GlyphOp {
    pub x: u32,
    pub y: u32,
    pub color: Color,
    pub ch: char,
}

/// One rendered tick: the canvas size and clear color, the rectangles and
/// then the glyphs to draw in order, and the frame's display duration.
pub struct FrameOps {
    pub width_px: u32,
    pub height_px: u32,
    pub background: Color,
    pub rects: Vec<RectOp>,
    pub glyphs: Vec<GlyphOp>,
    pub duration_ms: u32,
}

/// The glyph operations one cell contributes. A cell shows the revealed
/// (foreground) character when there is one, else the rolling (background)
/// character, else nothing. Monochrome mode paints foreground glyphs bright
/// green and background glyphs dim green; colored mode uses the cell's own
/// colors and lays a transparent shadow duplicate one pixel off under the
/// main glyph.
pub open spec fn cell_glyphs(g: RevealGrid, colored: bool, c: int, r: int) -> Seq<GlyphOp> {
    let fg = g.revealed_at(c, r);
    let bg = g.rolling_at(c, r);
    let is_fg = fg.ch != empty_ch();
    if !is_fg && bg.ch == empty_ch() {
        Seq::<GlyphOp>::empty()
    } else {
        let ch = if is_fg {
            fg.ch
        } else {
            bg.ch
        };
        let color = if colored {
            if is_fg {
                fg.color
            } else {
                bg.color
            }
        } else {
            if is_fg {
                bright_green()
            } else {
                dim_green()
            }
        };
        let main = GlyphOp { x: (c * 32 + 8) as u32, y: (r * 32) as u32, color, ch };
        if colored {
            seq![
                GlyphOp { x: (c * 32 + 9) as u32, y: (r * 32 + 1) as u32, color: no_color(), ch },
                main,
            ]
        } else {
            seq![main]
        }
    }
}

/// The glyph operations of column `c`, rows `0 .. r`.
pub open spec fn col_glyphs(g: RevealGrid, colored: bool, c: int, r: int) -> Seq<GlyphOp>
    decreases r,
{
    if r <= 0 {
        Seq::<GlyphOp>::empty()
    } else {
        col_glyphs(g, colored, c, r - 1) + cell_glyphs(g, colored, c, r - 1)
    }
}

/// The glyph operations of columns `0 .. c`, whole columns each.
pub open spec fn grid_glyphs_upto(g: RevealGrid, colored: bool, c: int) -> Seq<GlyphOp>
    decreases c,
{
    if c <= 0 {
        Seq::<GlyphOp>::empty()
    } else {
        grid_glyphs_upto(g, colored, c - 1) + col_glyphs(g, colored, c - 1, g.height as int)
    }
}

/// All glyph operations of one frame, column-major.
pub open spec fn frame_glyphs(g: RevealGrid, colored: bool) -> Seq<GlyphOp> {
    grid_glyphs_upto(g, colored, g.width())
}

/// The full-column background band of column `c` in colored mode.
pub open spec fn column_rect(g: RevealGrid, c: int) -> RectOp {
    RectOp {
        x: (c * 32) as u32,
        y: 0,
        w: 32,
        h: (g.height * 1024) as u32,
        color: g.col_color(c),
    }
}

/// The column bands of columns `0 .. c`.
pub open spec fn rects_upto(g: RevealGrid, c: int) -> Seq<RectOp>
    decreases c,
{
    if c <= 0 {
        Seq::<RectOp>::empty()
    } else {
        rects_upto(g, c - 1).push(column_rect(g, c - 1))
    }
}

/// The rectangles of one frame: one band per column in colored mode, none in
/// monochrome mode.
pub open spec fn frame_rects(g: RevealGrid, colored: bool) -> Seq<RectOp> {
    if colored {
        rects_upto(g, g.width())
    } else {
        Seq::<RectOp>::empty()
    }
}

/// What one rendered frame of state `g` holds: a canvas of exactly
/// `width * 32` by `height * 32` pixels cleared to opaque black, the column
/// bands, the glyphs, and a 10 ms display duration.
pub open spec fn frame_ops_for(f: FrameOps, g: RevealGrid, colored: bool) -> bool {
    &&& f.width_px == g.width() * 32
    &&& f.height_px == g.height * 32
    &&& f.background == black()
    &&& f.duration_ms == 10
    &&& f.rects@ == frame_rects(g, colored)
    &&& f.glyphs@ == frame_glyphs(g, colored)
}

/// Rasterizes the current state into one frame's drawing operations.
pub fn rasterize_frame(g: &RevealGrid, colored: bool) -> (f: FrameOps)
    requires
        g.wf(),
        dims_ok(g.width(), g.height as int),
    ensures
        frame_ops_for(f, *g, colored),
{
    let w = g.target.len();
    let h = g.height;
    let width_px: u32 = (w * 32) as u32;
    let height_px: u32 = (h * 32) as u32;

    let mut rects: Vec<RectOp> = Vec::new();
    if colored {
        let rect_h: u32 = (h * 1024) as u32;
        let mut c: usize = 0;
        while c < w
            invariant
                c <= w,
                w == g.width(),
                h == g.height,
                g.wf(),
                dims_ok(g.width(), g.height as int),
                rect_h == g.height * 1024,
                rects@ == rects_upto(*g, c as int),
            decreases w - c,
        {
            rects.push(
                RectOp { x: (c * 32) as u32, y: 0, w: 32, h: rect_h, color: g.column_colors[c] },
            );
            c += 1;
        }
    }

    let mut glyphs: Vec<GlyphOp> = Vec::new();
    let mut c: usize = 0;
    while c < w
        invariant
            c <= w,
            w == g.width(),
            h == g.height,
            g.wf(),
            dims_ok(g.width(), g.height as int),
            glyphs@ == grid_glyphs_upto(*g, colored, c as int),
        decreases w - c,
    {
        let mut r: usize = 0;
        while r < h
            invariant
                c < w,
                r <= h,
                w == g.width(),
                h == g.height,
                g.wf(),
                dims_ok(g.width(), g.height as int),
                glyphs@ == grid_glyphs_upto(*g, colored, c as int) + col_glyphs(
                    *g,
                    colored,
                    c as int,
                    r as int,
                ),
            decreases h - r,
        {
            let fg = g.revealed[c][r];
            let bg = g.rolling[c][r];
            let is_fg = fg.ch != '\0';
            if is_fg || bg.ch != '\0' {
                let ch = if is_fg {
                    fg.ch
                } else {
                    bg.ch
                };
                let color = if colored {
                    if is_fg {
                        fg.color
                    } else {
                        bg.color
                    }
                } else {
                    if is_fg {
                        bright_green_color()
                    } else {
                        dim_green_color()
                    }
                };
                if colored {
                    glyphs.push(
                        GlyphOp {
                            x: (c * 32 + 9) as u32,
                            y: (r * 32 + 1) as u32,
                            color: transparent(),
                            ch,
                        },
                    );
                }
                glyphs.push(GlyphOp { x: (c * 32 + 8) as u32, y: (r * 32) as u32, color, ch });
            }
            proof {
                assert(glyphs@ =~= grid_glyphs_upto(*g, colored, c as int) + col_glyphs(
                    *g,
                    colored,
                    c as int,
                    r as int + 1,
                ));
            }
            r += 1;
        }
        proof {
            assert(glyphs@ =~= grid_glyphs_upto(*g, colored, c as int + 1));
        }
        c += 1;
    }

    FrameOps { width_px, height_px, background: black_color(), rects, glyphs, duration_ms: 10 }
}

/// One step of the whole pipeline, as the sequence builder runs it: advance
/// the grid by one random tick, then rasterize the resulting state. Returns
/// the frame's drawing operations — exactly one frame per tick — and whether
/// unresolved cells remain; the caller stops after the first frame whose
/// flag is false, so every tick contributes a frame.
pub fn run_tick(g: &mut RevealGrid, colored: bool) -> (out: (FrameOps, bool))
    requires
        old(g).wf(),
        dims_ok(old(g).width(), old(g).height as int),
    ensures
        final(g).wf(),
        dims_ok(final(g).width(), final(g).height as int),
        final(g).width() == old(g).width(),
        final(g).height == old(g).height,
        final(g).target == old(g).target,
        frame_ops_for(out.0, *final(g), colored),
        out.1 == !final(g).all_revealed(),
{
    let unresolved = g.advance_tick_random();
    let frame = rasterize_frame(g, colored);
    (frame, unresolved)
}

/// Checks at run time that a state is well-formed and within the pixel
/// bounds. The unverified front end guards its calls on the simulation with
/// this.
pub fn check_state(g: &RevealGrid) -> (ok: bool)
    ensures
        ok == (g.wf() && dims_ok(g.width(), g.height as int)),
{
    let w = g.target.len();
    let h = g.height;
    if h < 5 || g.rolling.len() != w || g.revealed.len() != w || g.column_colors.len() != w {
        return false;
    }
    if w > MAX_GRID_WIDTH || h > MAX_GRID_HEIGHT {
        return false;
    }
    let mut c: usize = 0;
    while c < w
        invariant
            c <= w,
            w == g.width(),
            h == g.height,
            g.rolling@.len() == w,
            g.revealed@.len() == w,
            forall|cc: int| 0 <= cc < c ==> (#[trigger] g.target@[cc])@.len() == h,
            forall|cc: int| 0 <= cc < c ==> (#[trigger] g.rolling@[cc])@.len() == h,
            forall|cc: int| 0 <= cc < c ==> (#[trigger] g.revealed@[cc])@.len() == h,
        decreases w - c,
    {
        if g.target[c].len() != h || g.rolling[c].len() != h || g.revealed[c].len() != h {
            return false;
        }
        c += 1;
    }
    true
}

} // verus!
