use backsnap::nexus::{Rgba, WidgetColor};
use backsnap::pixels::{
    glyph, render_hbar, render_text, render_text_scaled, render_widget_divider, render_widget_page_dots,
};

const W: [u8; 4] = [255, 255, 255, 255];
const F: [u8; 4] = [1, 2, 3, 4];
const B: [u8; 4] = [9, 9, 9, 9];

fn px(buf: &[u8], p: usize) -> [u8; 4] {
    [buf[4 * p], buf[4 * p + 1], buf[4 * p + 2], buf[4 * p + 3]]
}

#[test]
fn glyphs_follow_the_font() {
    assert_eq!(glyph('1'), [0x04, 0x0C, 0x04, 0x04, 0x04, 0x04, 0x0E]);
    assert_eq!(glyph('a'), glyph('A'));
    assert_eq!(glyph('z'), glyph('Z'));
    assert_eq!(glyph(' '), [0; 7]);
    assert_eq!(glyph('%'), [0x18, 0x19, 0x02, 0x04, 0x08, 0x13, 0x03]);
    let boxed = [0x1F, 0x11, 0x11, 0x11, 0x11, 0x11, 0x1F];
    assert_eq!(glyph('~'), boxed);
    assert_eq!(glyph('ä'), boxed);
    assert_eq!(glyph('\n'), boxed);
}

#[test]
fn text_draws_lit_dots_only() {
    let (iw, ih) = (12usize, 8usize);
    let mut buf = vec![0u8; iw * ih * 4];
    render_text(&mut buf, iw, ih, "1", 0, 0, Rgba(W));
    let rows = glyph('1');
    for row in 0..7 {
        for col in 0..5 {
            let on = rows[row] & (1 << (4 - col)) != 0;
            assert_eq!(px(&buf, row * iw + col), if on { W } else { [0; 4] }, "row {row} col {col}");
        }
    }
    // the second character would pass the right edge (6 + 5 > 10) and is not drawn
    let mut buf2 = vec![0u8; 10 * 8 * 4];
    render_text(&mut buf2, 10, 8, "11", 0, 0, Rgba(W));
    assert!((0..8).all(|r| px(&buf2, r * 10 + 6 + 2) == [0; 4]));
    // rows below the image are left out
    let mut buf3 = vec![0u8; 12 * 3 * 4];
    render_text(&mut buf3, 12, 3, ".", 0, 0, Rgba(W));
    assert!(buf3.iter().all(|b| *b == 0));
}

#[test]
fn scaled_text_draws_blocks() {
    let (iw, ih) = (12usize, 14usize);
    let mut buf = vec![0u8; iw * ih * 4];
    render_text_scaled(&mut buf, iw, ih, "-", 0, 0, 2, Rgba(W));
    // '-' lights row 3, columns 0..5: at scale 2 that is rows 6..8, columns 0..10
    for y in 0..ih {
        for x in 0..iw {
            let on = (6..8).contains(&y) && x < 10;
            assert_eq!(px(&buf, y * iw + x), if on { W } else { [0; 4] }, "x {x} y {y}");
        }
    }
}

#[test]
fn hbar_fills_then_background() {
    let iw = 6usize;
    let mut buf = vec![0u8; iw * 3 * 4];
    render_hbar(&mut buf, iw, 1, 1, 3, 1, 2, Rgba(F), Rgba(B));
    for r in 1..3 {
        assert_eq!(px(&buf, r * iw + 1), F);
        assert_eq!(px(&buf, r * iw + 2), B);
        assert_eq!(px(&buf, r * iw + 3), B);
        assert_eq!(px(&buf, r * iw + 4), [0; 4]);
    }
    assert!((0..iw).all(|c| px(&buf, c) == [0; 4]));
    // wider than the image: the next row is drawn later and wins where they meet
    let mut wrap = vec![0u8; 2 * 3 * 4];
    render_hbar(&mut wrap, 2, 0, 0, 3, 1, 2, Rgba(F), Rgba(B));
    assert_eq!(px(&wrap, 0), F);
    assert_eq!(px(&wrap, 1), B);
    assert_eq!(px(&wrap, 2), F);
    assert_eq!(px(&wrap, 3), B);
    assert_eq!(px(&wrap, 4), B);
    // a fill wider than the bar fills all of it
    let mut full = vec![0u8; 4 * 4];
    render_hbar(&mut full, 4, 0, 0, 4, 9, 1, Rgba(F), Rgba(B));
    assert!((0..4).all(|p| px(&full, p) == F));
}

#[test]
fn divider_stops_at_the_bottom() {
    let (iw, ih) = (4usize, 3usize);
    let mut buf = vec![0u8; iw * ih * 4];
    render_widget_divider(&mut buf, iw, ih, 2, 1, 10, WidgetColor::Cyan);
    let cyan = [0, 200, 220, 255];
    assert_eq!(px(&buf, iw + 2), cyan);
    assert_eq!(px(&buf, 2 * iw + 2), cyan);
    assert_eq!(px(&buf, 2), [0; 4]);
    assert_eq!(buf.iter().filter(|b| **b != 0).count(), 2 * 3);
}

#[test]
fn page_dots_mark_the_current_page() {
    let (iw, ih) = (30usize, 4usize);
    let mut buf = vec![0u8; iw * ih * 4];
    render_widget_page_dots(&mut buf, iw, ih, 1, 0, 0, 1, 3, WidgetColor::Amber);
    let dim = [100, 100, 100, 255];
    let amber = [251, 191, 36, 255];
    for (i, c) in [(0usize, dim), (1, amber), (2, dim)] {
        let x0 = 8 * i + 3;
        for y in 0..3 {
            for x in x0..x0 + 3 {
                assert_eq!(px(&buf, y * iw + x), c, "dot {i}");
            }
        }
    }
    assert_eq!(px(&buf, 3 * iw + 3), [0; 4]);
    assert_eq!(px(&buf, 0), [0; 4]);
}
