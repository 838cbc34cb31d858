use vstd::prelude::*;

use crate::rng::random_below;

verus! {

/// One RGBA display color, eight bits per channel.
#[derive(Clone, Copy, PartialEq, Eq, Structural, Debug)]
pub struct Color {
    pub r: u8,
    pub g: u8,
    pub b: u8,
    pub a: u8,
}

/// The fixed palette of pastel hues used for flickering glyphs and column
/// color bands.
pub open spec fn palette() -> Seq<Color> {
    seq![
        Color { r: 0xff, g: 0xd1, b: 0x75, a: 0xff },
        Color { r: 0x75, g: 0xff, b: 0xc6, a: 0xff },
        Color { r: 0x75, g: 0xdd, b: 0xff, a: 0xff },
        Color { r: 0x81, g: 0x75, b: 0xff, a: 0xff },
        Color { r: 0xdd, g: 0x75, b: 0xff, a: 0xff },
    ]
}

/// The neutral "no color" value, excluded when the first column picks its
/// initial color.
pub open spec fn no_color() -> Color {
    Color { r: 0, g: 0, b: 0, a: 0 }
}

/// Executable counterpart of `no_color`.
pub fn transparent() -> (c: Color)
    ensures
        c == no_color(),
{
    Color { r: 0, g: 0, b: 0, a: 0 }
}

/// The palette as an executable vector, in palette order.
pub fn palette_colors() -> (v: Vec<Color>)
    ensures
        v@ == palette(),
{
    let mut v: Vec<Color> = Vec::new();
    v.push(Color { r: 0xff, g: 0xd1, b: 0x75, a: 0xff });
    v.push(Color { r: 0x75, g: 0xff, b: 0xc6, a: 0xff });
    v.push(Color { r: 0x75, g: 0xdd, b: 0xff, a: 0xff });
    v.push(Color { r: 0x81, g: 0x75, b: 0xff, a: 0xff });
    v.push(Color { r: 0xdd, g: 0x75, b: 0xff, a: 0xff });
    proof {
        assert(v@ =~= palette());
    }
    v
}

/// The dim green that backgrounds flickering glyphs in monochrome mode and
/// fills fresh cells.
pub open spec fn dim_green() -> Color {
    Color { r: 0, g: 160, b: 0, a: 255 }
}

/// Executable counterpart of `dim_green`.
pub fn dim_green_color() -> (c: Color)
    ensures
        c == dim_green(),
{
    Color { r: 0, g: 160, b: 0, a: 255 }
}

/// The bright green of revealed glyphs in monochrome mode.
pub open spec fn bright_green() -> Color {
    Color { r: 0, g: 255, b: 0, a: 255 }
}

/// Executable counterpart of `bright_green`.
pub fn bright_green_color() -> (c: Color)
    ensures
        c == bright_green(),
{
    Color { r: 0, g: 255, b: 0, a: 255 }
}

/// The opaque black every canvas is cleared to.
pub open spec fn black() -> Color {
    Color { r: 0, g: 0, b: 0, a: 255 }
}

/// Executable counterpart of `black`.
pub fn black_color() -> (c: Color)
    ensures
        c == black(),
{
    Color { r: 0, g: 0, b: 0, a: 255 }
}

/// What `darken` returns: each color channel scaled down to 60% (by integer
/// division), the alpha channel kept.
pub open spec fn darken_spec(c: Color) -> Color {
    Color {
        r: (c.r / 10 * 6) as u8,
        g: (c.g / 10 * 6) as u8,
        b: (c.b / 10 * 6) as u8,
        a: c.a,
    }
}

/// Scales each color channel of `color` down to 60%, preserving alpha; marks
/// a just-revealed cell as settled.
pub fn darken(color: Color) -> (d: Color)
    ensures
        d == darken_spec(color),
{
    Color { r: color.r / 10 * 6, g: color.g / 10 * 6, b: color.b / 10 * 6, a: color.a }
}

/// Darkening strictly lowers a positive channel.
pub proof fn lemma_darken_reduces_channel(x: u8)
    requires
        x >= 1,
    ensures
        x / 10 * 6 < x,
{
}

/// Law: `darken` applied to any palette color strictly reduces each of the
/// red, green and blue channels and leaves the alpha channel unchanged.
pub proof fn lemma_darken_palette(c: Color)
    requires
        palette().contains(c),
    ensures
        darken_spec(c).r < c.r,
        darken_spec(c).g < c.g,
        darken_spec(c).b < c.b,
        darken_spec(c).a == c.a,
{
    let i = choose|i: int| 0 <= i < palette().len() && palette()[i] == c;
    assert(c.r >= 1 && c.g >= 1 && c.b >= 1);
    lemma_darken_reduces_channel(c.r);
    lemma_darken_reduces_channel(c.g);
    lemma_darken_reduces_channel(c.b);
}

/// Picks a palette color different from `excluded`, by one random draw over
/// the palette entries that remain after `excluded` is left out. The palette
/// holds at least two distinct colors, so a candidate always exists.
pub fn random_color_excluded(excluded: Color) -> (c: Color)
    ensures
        palette().contains(c),
        c != excluded,
{
    let pal = palette_colors();
    let mut candidates: Vec<Color> = Vec::new();
    let mut i: usize = 0;
    while i < pal.len()
        invariant
            i <= pal.len(),
            pal@ == palette(),
            forall|k: int|
                0 <= k < candidates@.len() ==> palette().contains(#[trigger] candidates@[k])
                    && candidates@[k] != excluded,
            forall|j: int|
                0 <= j < i && palette()[j] != excluded ==> candidates@.contains(
                    #[trigger] palette()[j],
                ),
        decreases pal.len() - i,
    {
        let ghost pre = candidates@;
        if pal[i] != excluded {
            candidates.push(pal[i]);
        }
        proof {
            assert forall|j: int|
                0 <= j < i + 1 && palette()[j] != excluded implies candidates@.contains(
                #[trigger] palette()[j],
            ) by {
                if j < i {
                    assert(pre.contains(palette()[j]));
                    let k = choose|k: int| 0 <= k < pre.len() && pre[k] == palette()[j];
                    assert(candidates@[k] == palette()[j]);
                } else {
                    assert(candidates@.last() == palette()[j]);
                }
            }
        }
        i += 1;
    }
    proof {
        assert(palette()[0] != palette()[1]);
        if palette()[0] == excluded {
            assert(candidates@.contains(palette()[1]));
        } else {
            assert(candidates@.contains(palette()[0]));
        }
    }
    let idx = random_below(candidates.len());
    candidates[idx]
}

} // verus!
