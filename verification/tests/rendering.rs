use decrypt_reveal::color::palette_colors;
use decrypt_reveal::grid::build;
use decrypt_reveal::render::{check_state, rasterize_frame, run_tick};
use decrypt_reveal::Cell;

#[test]
fn canvas_dimensions_and_duration() {
    let g = build("HI THERE").unwrap();
    let f = rasterize_frame(&g, false);
    assert_eq!(f.width_px, 5 * 32);
    assert_eq!(f.height_px, 7 * 32);
    assert_eq!(f.duration_ms, 10);
    assert_eq!((f.background.r, f.background.g, f.background.b, f.background.a), (0, 0, 0, 255));
}

#[test]
fn one_frame_per_tick() {
    let mut g = build("HI THERE").unwrap();
    let mut frames = Vec::new();
    for _ in 0..5 {
        let (f, _) = run_tick(&mut g, true);
        frames.push(f);
    }
    assert_eq!(frames.len(), 5);
    for f in &frames {
        assert_eq!(f.duration_ms, 10);
        assert_eq!(f.width_px, 160);
        assert_eq!(f.height_px, 224);
    }
}

#[test]
fn blank_grid_renders_no_glyphs() {
    let g = build("A").unwrap();
    let f = rasterize_frame(&g, false);
    assert_eq!(f.glyphs.len(), 0);
    assert_eq!(f.rects.len(), 0);
}

#[test]
fn monochrome_glyph_colors() {
    let mut g = build("A").unwrap();
    let pal = palette_colors();
    g.advance_tick(&vec![Cell { ch: 'Z', color: pal[0] }]);
    let f = rasterize_frame(&g, false);
    assert_eq!(f.glyphs.len(), 1);
    let gl = f.glyphs[0];
    assert_eq!(gl.ch, 'Z');
    assert_eq!((gl.x, gl.y), (8, 0));
    assert_eq!((gl.color.r, gl.color.g, gl.color.b, gl.color.a), (0, 160, 0, 255));
    assert_eq!(f.rects.len(), 0);
}

#[test]
fn revealed_glyph_is_bright_and_wins() {
    let mut g = build("A").unwrap();
    let pal = palette_colors();
    g.advance_tick(&vec![Cell { ch: 'A', color: pal[0] }]);
    g.advance_tick(&vec![Cell { ch: 'x', color: pal[1] }]);
    g.advance_tick(&vec![Cell { ch: 'y', color: pal[2] }]);
    let f = rasterize_frame(&g, false);
    assert_eq!(f.glyphs.len(), 3);
    let third = f.glyphs[2];
    assert_eq!(third.ch, 'A');
    assert_eq!((third.x, third.y), (8, 64));
    assert_eq!((third.color.r, third.color.g, third.color.b, third.color.a), (0, 255, 0, 255));
}

#[test]
fn colored_mode_shadow_and_bands() {
    let mut g = build("AB").unwrap();
    let pal = palette_colors();
    g.advance_tick(&vec![Cell { ch: 'P', color: pal[0] }, Cell { ch: 'Q', color: pal[1] }]);
    let f = rasterize_frame(&g, true);
    assert_eq!(f.rects.len(), 2);
    let r0 = f.rects[0];
    assert_eq!((r0.x, r0.y, r0.w, r0.h), (0, 0, 32, 6 * 1024));
    assert_eq!(r0.color, pal[0]);
    let r1 = f.rects[1];
    assert_eq!(r1.x, 32);
    assert_eq!(r1.color, pal[1]);
    assert_eq!(f.glyphs.len(), 4);
    let shadow = f.glyphs[0];
    assert_eq!((shadow.x, shadow.y, shadow.ch), (9, 1, 'P'));
    assert_eq!((shadow.color.r, shadow.color.g, shadow.color.b, shadow.color.a), (0, 0, 0, 0));
    let main = f.glyphs[1];
    assert_eq!((main.x, main.y, main.ch), (8, 0, 'P'));
    assert_eq!(main.color, pal[0]);
    let shadow2 = f.glyphs[2];
    assert_eq!((shadow2.x, shadow2.y, shadow2.ch), (32 + 9, 1, 'Q'));
}

#[test]
fn check_state_detects_corruption() {
    let mut g = build("HI").unwrap();
    assert!(check_state(&g));
    g.rolling[0].push(Cell { ch: '\0', color: palette_colors()[0] });
    assert!(!check_state(&g));
}
