use decrypt_reveal::codec::{glyph_of_byte, normalize};
use decrypt_reveal::color::{darken, palette_colors, random_color_excluded, transparent};
use decrypt_reveal::grid::build;
use decrypt_reveal::layout::{max_row_len, split_rows};
use decrypt_reveal::{Cell, Color, RevealGrid};

fn chars(s: &str) -> Vec<char> {
    s.chars().collect()
}

fn fresh(g: &RevealGrid, chs: &[char]) -> Vec<Cell> {
    let pal = palette_colors();
    assert_eq!(chs.len(), g.target.len());
    chs.iter()
        .enumerate()
        .map(|(i, ch)| Cell { ch: *ch, color: pal[i % pal.len()] })
        .collect()
}

#[test]
fn darken_exact_values() {
    let d = darken(Color { r: 0xff, g: 0xd1, b: 0x75, a: 0xff });
    assert_eq!((d.r, d.g, d.b, d.a), (150, 120, 66, 255));
    let d2 = darken(Color { r: 0, g: 160, b: 0, a: 255 });
    assert_eq!((d2.r, d2.g, d2.b, d2.a), (0, 96, 0, 255));
}

#[test]
fn darken_reduces_palette_channels() {
    for c in palette_colors() {
        let d = darken(c);
        assert!(d.r < c.r && d.g < c.g && d.b < c.b);
        assert_eq!(d.a, c.a);
    }
}

#[test]
fn random_color_excluded_avoids_excluded() {
    let pal = palette_colors();
    for e in &pal {
        for _ in 0..20 {
            let c = random_color_excluded(*e);
            assert!(c != *e);
            assert!(pal.iter().any(|p| *p == c));
        }
    }
    let c = random_color_excluded(transparent());
    assert!(pal.iter().any(|p| *p == c));
}

#[test]
fn normalize_keeps_ascii() {
    assert_eq!(normalize("HI THERE"), chars("HI THERE"));
}

#[test]
fn normalize_replaces_unsupported() {
    assert_eq!(normalize("\u{65e5}"), chars("?"));
    assert_eq!(normalize("A\u{65e5}B"), chars("A?B"));
}

#[test]
fn glyph_of_byte_decodes_table() {
    assert_eq!(glyph_of_byte(b'A'), 'A');
    assert_eq!(glyph_of_byte(0x80), '\u{0410}');
    assert_eq!(glyph_of_byte(0xff), '\u{20ac}');
}

#[test]
fn split_rows_on_spaces() {
    let rows = split_rows(&chars("HI THERE"));
    assert_eq!(rows.len(), 2);
    assert_eq!(rows[0], chars("HI"));
    assert_eq!(rows[1], chars("THERE"));
}

#[test]
fn split_rows_empty_and_doubled() {
    let rows = split_rows(&chars(""));
    assert_eq!(rows, vec![Vec::<char>::new()]);
    let rows = split_rows(&chars("A  B "));
    assert_eq!(rows, vec![chars("A"), chars(""), chars("B"), chars("")]);
}

#[test]
fn max_row_len_is_widest() {
    assert_eq!(max_row_len(&vec![chars("HI"), chars("THERE")]), 5);
    assert_eq!(max_row_len(&vec![]), 0);
}

#[test]
fn build_lays_out_target() {
    let g = build("HI THERE").unwrap();
    assert_eq!(g.target.len(), 5);
    assert_eq!(g.height, 7);
    let expect = [
        (0, 2, 'H'),
        (1, 2, 'I'),
        (0, 3, 'T'),
        (1, 3, 'H'),
        (2, 3, 'E'),
        (3, 3, 'R'),
        (4, 3, 'E'),
    ];
    for c in 0..5 {
        assert_eq!(g.target[c].len(), 7);
        for r in 0..7 {
            let want = expect
                .iter()
                .find(|&&(cc, rr, _)| cc == c && rr == r)
                .map(|&(_, _, ch)| ch)
                .unwrap_or('\0');
            assert_eq!(g.target[c][r].ch, want);
            assert_eq!(g.rolling[c][r].ch, '\0');
            assert_eq!(g.revealed[c][r].ch, '\0');
        }
    }
}

#[test]
fn build_adjacent_column_colors_differ() {
    let pal = palette_colors();
    for _ in 0..10 {
        let g = build("WIDE GRID HERE").unwrap();
        let w = g.column_colors.len();
        assert_eq!(w, 4);
        for i in 0..w {
            assert!(pal.iter().any(|p| *p == g.column_colors[i]));
            if i > 0 {
                assert!(g.column_colors[i] != g.column_colors[i - 1]);
            }
        }
    }
}

#[test]
fn rolling_grid_slides() {
    let mut g = build("AB").unwrap();
    assert_eq!(g.height, 6);
    let ticks = ['a', 'b', 'c', 'd', 'e', 'f', 'g', 'h'];
    for (k, ch) in ticks.iter().enumerate() {
        g.advance_tick(&fresh(&g, &[*ch, *ch]));
        assert_eq!(g.rolling[0][0].ch, *ch);
        assert_eq!(g.rolling[1][0].ch, *ch);
        let filled = if k + 1 < 6 { k + 1 } else { 6 };
        for r in 1..filled {
            assert_eq!(g.rolling[0][r].ch, ticks[k - r]);
        }
        for r in (k + 1)..6 {
            assert_eq!(g.rolling[0][r].ch, '\0');
        }
    }
    assert_eq!(g.rolling[1][5].ch, 'c');
}

#[test]
fn reveal_monotonic_and_color_refresh() {
    let mut g = build("A").unwrap();
    let pal = palette_colors();
    g.advance_tick(&vec![Cell { ch: 'A', color: pal[0] }]);
    g.advance_tick(&vec![Cell { ch: 'x', color: pal[1] }]);
    let unresolved = g.advance_tick(&vec![Cell { ch: 'y', color: pal[2] }]);
    assert_eq!(g.revealed[0][2].ch, 'A');
    assert_eq!(g.revealed[0][2].color, darken(pal[0]));
    assert!(!unresolved);
    for _ in 0..5 {
        g.advance_tick(&vec![Cell { ch: 'z', color: pal[3] }]);
        assert_eq!(g.revealed[0][2].ch, 'A');
        assert_eq!(g.revealed[0][2].color, darken(pal[0]));
    }
    g.advance_tick(&vec![Cell { ch: 'A', color: pal[4] }]);
    g.advance_tick(&vec![Cell { ch: 'q', color: pal[0] }]);
    g.advance_tick(&vec![Cell { ch: 'q', color: pal[0] }]);
    assert_eq!(g.revealed[0][2].ch, 'A');
    assert_eq!(g.revealed[0][2].color, darken(pal[4]));
}

#[test]
fn full_reveal_scenario() {
    let mut g = build("HI THERE").unwrap();
    let h = g.height;
    let w = g.target.len();
    let pal = palette_colors();
    let mut ticks = 0;
    loop {
        let mut cells = Vec::new();
        for c in 0..w {
            cells.push(Cell { ch: g.target[c][ticks % h].ch, color: pal[c % pal.len()] });
        }
        let unresolved = g.advance_tick(&cells);
        ticks += 1;
        if !unresolved {
            break;
        }
        assert!(ticks < 100, "deterministic schedule failed to reveal");
    }
    for c in 0..w {
        for r in 0..h {
            let want = if g.target[c][r].ch != '\0' { g.target[c][r].ch } else { '\0' };
            assert_eq!(g.revealed[c][r].ch, want);
        }
    }
}

#[test]
fn empty_input_resolves_immediately() {
    let mut g = build("").unwrap();
    assert_eq!(g.target.len(), 0);
    assert_eq!(g.height, 6);
    let unresolved = g.advance_tick(&Vec::new());
    assert!(!unresolved);
}

#[test]
fn random_tick_keeps_shape_and_palette_colors() {
    let mut g = build("HELLO WORLD").unwrap();
    let pal = palette_colors();
    for _ in 0..10 {
        let before = g.column_colors.clone();
        g.advance_tick_random();
        assert_eq!(g.column_colors.len(), 5);
        for (i, c) in g.column_colors.iter().enumerate() {
            assert!(pal.iter().any(|p| p == c));
            assert!(*c != before[i]);
        }
        for col in &g.rolling {
            assert_eq!(col.len(), g.height);
        }
    }
}
