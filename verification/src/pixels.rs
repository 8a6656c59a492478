//! Pixel primitives of the LCD renderer: runs, rectangles, bars, dividers,
//! page dots and 5×7 bitmap text, drawn into an RGBA byte buffer.
//!
//! A pixel `p` occupies bytes `4p .. 4p + 4`; it is drawn only when all four
//! bytes lie inside the buffer.

use vstd::prelude::*;
use crate::nexus::{rgba_of, Rgba, WidgetColor};

verus! {

/// `buf` with every pixel `p` for which `on(p)` holds set to colour `c`.
pub open spec fn paint_where(buf: Seq<u8>, on: spec_fn(int) -> bool, c: Seq<u8>) -> Seq<u8> {
    Seq::new(buf.len(), |i: int| if on(i / 4) && (i / 4) * 4 + 3 < buf.len() { c[i % 4] } else { buf[i] })
}

/// Painting two pixel sets in one colour paints their union.
pub proof fn lemma_paint_union(buf: Seq<u8>, a: spec_fn(int) -> bool, b: spec_fn(int) -> bool, c: Seq<u8>)
    ensures
        paint_where(paint_where(buf, a, c), b, c) == paint_where(buf, |p: int| a(p) || b(p), c),
{
    assert(paint_where(paint_where(buf, a, c), b, c) =~= paint_where(buf, |p: int| a(p) || b(p), c));
}

/// Painting with two descriptions of the same pixel set gives one image.
pub proof fn lemma_paint_same(buf: Seq<u8>, a: spec_fn(int) -> bool, b: spec_fn(int) -> bool, c: Seq<u8>)
    requires
        forall|p: int| #[trigger] a(p) == b(p),
    ensures
        paint_where(buf, a, c) == paint_where(buf, b, c),
{
    assert(paint_where(buf, a, c) =~= paint_where(buf, b, c));
}

/// Set pixel `p` to `c` when it lies inside the buffer.
fn put_px(rgba: &mut [u8], p: usize, c: &Rgba)
    requires
        p * 4 + 3 <= usize::MAX,
    ensures
        final(rgba)@ == paint_where(old(rgba)@, |q: int| q == p, c.0@),
{
    let px = p * 4;
    if px + 3 < rgba.len() {
        rgba[px] = c.0[0];
        rgba[px + 1] = c.0[1];
        rgba[px + 2] = c.0[2];
        rgba[px + 3] = c.0[3];
    }
    assert forall|i: int| 0 <= i < rgba@.len() implies rgba@[i] == paint_where(old(rgba)@, |q: int| q == p, c.0@)[i] by {
        if px <= i < px + 4 {
            assert(i / 4 == p as int);
            assert(i % 4 == i - px);
        } else {
            assert(i / 4 != p as int);
        }
    }
    assert(rgba@ =~= paint_where(old(rgba)@, |q: int| q == p, c.0@));
}

/// Pixels `start .. start + n`.
pub open spec fn in_run(start: int, n: int, p: int) -> bool {
    start <= p < start + n
}

/// Paint the pixels `start .. start + n`.
fn fill_run(rgba: &mut [u8], start: usize, n: usize, c: &Rgba)
    requires
        n == 0 || (start + n) * 4 <= usize::MAX + 1,
    ensures
        final(rgba)@ == paint_where(old(rgba)@, |p: int| in_run(start as int, n as int, p), c.0@),
{
    let mut k: usize = 0;
    proof {
        lemma_paint_same(old(rgba)@, |p: int| false, |p: int| in_run(start as int, 0, p), c.0@);
        assert(paint_where(old(rgba)@, |p: int| false, c.0@) =~= old(rgba)@);
    }
    while k < n
        invariant
            k <= n,
            n == 0 || (start + n) * 4 <= usize::MAX + 1,
            rgba@ == paint_where(old(rgba)@, |p: int| in_run(start as int, k as int, p), c.0@),
        decreases n - k,
    {
        let ghost before = rgba@;
        put_px(rgba, start + k, c);
        proof {
            lemma_paint_union(old(rgba)@, |p: int| in_run(start as int, k as int, p), |q: int| q == (start + k) as int, c.0@);
            lemma_paint_same(
                old(rgba)@,
                |p: int| in_run(start as int, k as int, p) || p == (start + k) as int,
                |p: int| in_run(start as int, k + 1, p),
                c.0@,
            );
        }
        k = k + 1;
    }
}

/// Pixel `p` lies in image row `r` between columns `x0` and `x0 + w`.
pub open spec fn row_run(iw: int, x0: int, w: int, r: int, p: int) -> bool {
    r * iw + x0 <= p < r * iw + x0 + w
}

/// Pixel `p` lies in the `w`×`h` rectangle at (`x0`, `y0`), counting only
/// rows above `ih`. A run that passes the right edge continues on the next
/// row, as the byte layout has it.
pub open spec fn rect_on(iw: int, ih: int, x0: int, y0: int, w: int, h: int, p: int) -> bool {
    exists|r: int| y0 <= r < y0 + h && r < ih && #[trigger] row_run(iw, x0, w, r, p)
}

proof fn lemma_row_bound(r: int, ih: int, iw: int)
    requires
        0 <= r < ih,
        0 <= iw,
    ensures
        r * iw <= (ih - 1) * iw,
{
    assert(r * iw <= (ih - 1) * iw) by (nonlinear_arith)
        requires
            0 <= r <= ih - 1,
            0 <= iw,
    ;
}

/// Paint a `w`×`h` rectangle, rows at or below `ih` left out.
fn fill_rect(rgba: &mut [u8], iw: usize, ih: usize, x0: usize, y0: usize, w: usize, h: usize, c: &Rgba)
    requires
        ih == 0 || ((ih - 1) * iw + x0 + w) * 4 <= usize::MAX,
    ensures
        final(rgba)@ == paint_where(old(rgba)@, |p: int| rect_on(iw as int, ih as int, x0 as int, y0 as int, w as int, h as int, p), c.0@),
{
    let mut dy: usize = 0;
    proof {
        lemma_paint_same(
            old(rgba)@,
            |p: int| false,
            |p: int| rect_on(iw as int, ih as int, x0 as int, y0 as int, w as int, 0, p),
            c.0@,
        );
        assert(paint_where(old(rgba)@, |p: int| false, c.0@) =~= old(rgba)@);
    }
    while dy < h && y0 < ih && dy < ih - y0
        invariant
            dy <= h,
            ih == 0 || ((ih - 1) * iw + x0 + w) * 4 <= usize::MAX,
            rgba@ == paint_where(
                old(rgba)@,
                |p: int| rect_on(iw as int, ih as int, x0 as int, y0 as int, w as int, dy as int, p),
                c.0@,
            ),
        decreases h - dy,
    {
        let r = y0 + dy;
        proof {
            lemma_row_bound(r as int, ih as int, iw as int);
        }
        let start = r * iw + x0;
        fill_run(rgba, start, w, c);
        proof {
            lemma_paint_union(
                old(rgba)@,
                |p: int| rect_on(iw as int, ih as int, x0 as int, y0 as int, w as int, dy as int, p),
                |p: int| in_run(start as int, w as int, p),
                c.0@,
            );
            assert forall|p: int|
                #![trigger rect_on(iw as int, ih as int, x0 as int, y0 as int, w as int, dy + 1, p)]
                (rect_on(iw as int, ih as int, x0 as int, y0 as int, w as int, dy as int, p) || in_run(start as int, w as int, p))
                == rect_on(iw as int, ih as int, x0 as int, y0 as int, w as int, dy + 1, p) by {
                if in_run(start as int, w as int, p) {
                    assert(row_run(iw as int, x0 as int, w as int, r as int, p));
                }
                if rect_on(iw as int, ih as int, x0 as int, y0 as int, w as int, dy + 1, p) {
                    let rr = choose|rr: int| y0 <= rr < y0 + dy + 1 && rr < ih && #[trigger] row_run(iw as int, x0 as int, w as int, rr, p);
                    if rr < y0 + dy {
                        assert(rect_on(iw as int, ih as int, x0 as int, y0 as int, w as int, dy as int, p));
                    }
                }
            }
            lemma_paint_same(
                old(rgba)@,
                |p: int| rect_on(iw as int, ih as int, x0 as int, y0 as int, w as int, dy as int, p) || in_run(start as int, w as int, p),
                |p: int| rect_on(iw as int, ih as int, x0 as int, y0 as int, w as int, dy + 1, p),
                c.0@,
            );
        }
        dy = dy + 1;
    }
    proof {
        assert forall|p: int|
            #![trigger rect_on(iw as int, ih as int, x0 as int, y0 as int, w as int, h as int, p)]
            rect_on(iw as int, ih as int, x0 as int, y0 as int, w as int, dy as int, p)
            == rect_on(iw as int, ih as int, x0 as int, y0 as int, w as int, h as int, p) by {
            if rect_on(iw as int, ih as int, x0 as int, y0 as int, w as int, h as int, p) {
                let rr = choose|rr: int| y0 <= rr < y0 + h && rr < ih && #[trigger] row_run(iw as int, x0 as int, w as int, rr, p);
                assert(rect_on(iw as int, ih as int, x0 as int, y0 as int, w as int, dy as int, p));
            }
        }
        lemma_paint_same(
            old(rgba)@,
            |p: int| rect_on(iw as int, ih as int, x0 as int, y0 as int, w as int, dy as int, p),
            |p: int| rect_on(iw as int, ih as int, x0 as int, y0 as int, w as int, h as int, p),
            c.0@,
        );
    }
}

/// Vertical divider: `h` pixels down from (`x`, `y`), stopping at the image
/// bottom.
pub fn render_widget_divider(rgba: &mut [u8], iw: usize, ih: usize, x: usize, y: usize, h: usize, color: WidgetColor)
    requires
        ih == 0 || ((ih - 1) * iw + x + 1) * 4 <= usize::MAX,
    ensures
        final(rgba)@ == paint_where(old(rgba)@, |p: int| rect_on(iw as int, ih as int, x as int, y as int, 1, h as int, p), rgba_of(color)),
{
    let c = color.to_rgba();
    fill_rect(rgba, iw, ih, x, y, 1, h, &c);
}

/// The image after the first `k` rows of a horizontal bar: each row is
/// `max_w` pixels from (`x`, `y + row`), the first `fill_w` of them in `fill`
/// and the rest in `bg`. Rows are drawn top to bottom.
pub open spec fn hbar_image(
    buf: Seq<u8>,
    iw: int,
    x: int,
    y: int,
    max_w: int,
    fill_w: int,
    k: int,
    fill: Seq<u8>,
    bg: Seq<u8>,
) -> Seq<u8>
    decreases k,
{
    if k <= 0 {
        buf
    } else {
        let prev = hbar_image(buf, iw, x, y, max_w, fill_w, k - 1, fill, bg);
        let start = (y + k - 1) * iw + x;
        let f = if fill_w < max_w { fill_w } else { max_w };
        paint_where(
            paint_where(prev, |p: int| in_run(start, f, p), fill),
            |p: int| in_run(start + f, max_w - f, p),
            bg,
        )
    }
}

/// Horizontal bar of `h` rows, `max_w` wide, the first `fill_w` pixels of
/// each row in the fill colour.
pub fn render_hbar(
    rgba: &mut [u8],
    iw: usize,
    x: usize,
    y: usize,
    max_w: usize,
    fill_w: usize,
    h: usize,
    fill_color: Rgba,
    bg_color: Rgba,
)
    requires
        h == 0 || max_w == 0 || (y + h <= usize::MAX + 1 && ((y + h - 1) * iw + x + max_w) * 4 <= usize::MAX),
    ensures
        final(rgba)@ == hbar_image(old(rgba)@, iw as int, x as int, y as int, max_w as int, fill_w as int, h as int, fill_color.0@, bg_color.0@),
{
    if max_w == 0 {
        let mut k: usize = 0;
        while k < h
            invariant
                k <= h,
                max_w == 0,
                rgba@ == old(rgba)@,
                rgba@ == hbar_image(old(rgba)@, iw as int, x as int, y as int, 0, fill_w as int, k as int, fill_color.0@, bg_color.0@),
            decreases h - k,
        {
            proof {
                let prev = hbar_image(old(rgba)@, iw as int, x as int, y as int, 0, fill_w as int, k as int, fill_color.0@, bg_color.0@);
                let start = (y + k) * iw + x;
                assert(paint_where(prev, |p: int| in_run(start, 0, p), fill_color.0@) =~= prev);
                assert(paint_where(prev, |p: int| in_run(start + 0, 0, p), bg_color.0@) =~= prev);
            }
            k = k + 1;
        }
        return;
    }
    let f = if fill_w < max_w { fill_w } else { max_w };
    let mut dy: usize = 0;
    while dy < h
        invariant
            dy <= h,
            max_w > 0,
            f == (if fill_w < max_w { fill_w } else { max_w }),
            h == 0 || (y + h <= usize::MAX + 1 && ((y + h - 1) * iw + x + max_w) * 4 <= usize::MAX),
            rgba@ == hbar_image(old(rgba)@, iw as int, x as int, y as int, max_w as int, fill_w as int, dy as int, fill_color.0@, bg_color.0@),
        decreases h - dy,
    {
        let r = y + dy;
        proof {
            assert(r * iw <= (y + h - 1) * iw) by (nonlinear_arith)
                requires
                    r <= y + h - 1,
                    0 <= iw,
            ;
        }
        let start = r * iw + x;
        fill_run(rgba, start, f, &fill_color);
        fill_run(rgba, start + f, max_w - f, &bg_color);
        dy = dy + 1;
    }
}


// ─── 5×7 bitmap font ──────────────────────────────────────────

/// The glyph shown for characters the font lacks: an empty box.
pub open spec fn box_glyph() -> Seq<u8> {
    seq![0x1Fu8, 0x11, 0x11, 0x11, 0x11, 0x11, 0x1F]
}

/// The rows of letter `k` of the alphabet (0 = A); bit 4 is the leftmost column.
pub open spec fn letter_glyph(k: u32) -> Seq<u8> {
    if k == 0 {
        seq![0x0Eu8, 0x11, 0x11, 0x1F, 0x11, 0x11, 0x11]
    } else if k == 1 {
        seq![0x1Eu8, 0x11, 0x11, 0x1E, 0x11, 0x11, 0x1E]
    } else if k == 2 {
        seq![0x0Eu8, 0x11, 0x10, 0x10, 0x10, 0x11, 0x0E]
    } else if k == 3 {
        seq![0x1Eu8, 0x11, 0x11, 0x11, 0x11, 0x11, 0x1E]
    } else if k == 4 {
        seq![0x1Fu8, 0x10, 0x10, 0x1E, 0x10, 0x10, 0x1F]
    } else if k == 5 {
        seq![0x1Fu8, 0x10, 0x10, 0x1E, 0x10, 0x10, 0x10]
    } else if k == 6 {
        seq![0x0Eu8, 0x11, 0x10, 0x17, 0x11, 0x11, 0x0E]
    } else if k == 7 {
        seq![0x11u8, 0x11, 0x11, 0x1F, 0x11, 0x11, 0x11]
    } else if k == 8 {
        seq![0x0Eu8, 0x04, 0x04, 0x04, 0x04, 0x04, 0x0E]
    } else if k == 9 {
        seq![0x07u8, 0x02, 0x02, 0x02, 0x02, 0x12, 0x0C]
    } else if k == 10 {
        seq![0x11u8, 0x12, 0x14, 0x18, 0x14, 0x12, 0x11]
    } else if k == 11 {
        seq![0x10u8, 0x10, 0x10, 0x10, 0x10, 0x10, 0x1F]
    } else if k == 12 {
        seq![0x11u8, 0x1B, 0x15, 0x15, 0x11, 0x11, 0x11]
    } else if k == 13 {
        seq![0x11u8, 0x19, 0x15, 0x13, 0x11, 0x11, 0x11]
    } else if k == 14 {
        seq![0x0Eu8, 0x11, 0x11, 0x11, 0x11, 0x11, 0x0E]
    } else if k == 15 {
        seq![0x1Eu8, 0x11, 0x11, 0x1E, 0x10, 0x10, 0x10]
    } else if k == 16 {
        seq![0x0Eu8, 0x11, 0x11, 0x11, 0x15, 0x12, 0x0D]
    } else if k == 17 {
        seq![0x1Eu8, 0x11, 0x11, 0x1E, 0x14, 0x12, 0x11]
    } else if k == 18 {
        seq![0x0Eu8, 0x11, 0x10, 0x0E, 0x01, 0x11, 0x0E]
    } else if k == 19 {
        seq![0x1Fu8, 0x04, 0x04, 0x04, 0x04, 0x04, 0x04]
    } else if k == 20 {
        seq![0x11u8, 0x11, 0x11, 0x11, 0x11, 0x11, 0x0E]
    } else if k == 21 {
        seq![0x11u8, 0x11, 0x11, 0x11, 0x0A, 0x0A, 0x04]
    } else if k == 22 {
        seq![0x11u8, 0x11, 0x11, 0x15, 0x15, 0x1B, 0x11]
    } else if k == 23 {
        seq![0x11u8, 0x11, 0x0A, 0x04, 0x0A, 0x11, 0x11]
    } else if k == 24 {
        seq![0x11u8, 0x11, 0x0A, 0x04, 0x04, 0x04, 0x04]
    } else {
        seq![0x1Fu8, 0x01, 0x02, 0x04, 0x08, 0x10, 0x1F]
    }
}

/// The rows of the other characters the font has: space, `%`, `-`, `.`,
/// `/`, the digits and `:`; the box for everything else.
pub open spec fn symbol_glyph(code: u32) -> Seq<u8> {
    if code == 0x20 {
        seq![0x00u8, 0x00, 0x00, 0x00, 0x00, 0x00, 0x00]
    } else if code == 0x25 {
        seq![0x18u8, 0x19, 0x02, 0x04, 0x08, 0x13, 0x03]
    } else if code == 0x2D {
        seq![0x00u8, 0x00, 0x00, 0x1F, 0x00, 0x00, 0x00]
    } else if code == 0x2E {
        seq![0x00u8, 0x00, 0x00, 0x00, 0x00, 0x00, 0x04]
    } else if code == 0x2F {
        seq![0x01u8, 0x01, 0x02, 0x04, 0x08, 0x10, 0x10]
    } else if code == 0x30 {
        seq![0x0Eu8, 0x11, 0x13, 0x15, 0x19, 0x11, 0x0E]
    } else if code == 0x31 {
        seq![0x04u8, 0x0C, 0x04, 0x04, 0x04, 0x04, 0x0E]
    } else if code == 0x32 {
        seq![0x0Eu8, 0x11, 0x01, 0x02, 0x04, 0x08, 0x1F]
    } else if code == 0x33 {
        seq![0x0Eu8, 0x11, 0x01, 0x06, 0x01, 0x11, 0x0E]
    } else if code == 0x34 {
        seq![0x02u8, 0x06, 0x0A, 0x12, 0x1F, 0x02, 0x02]
    } else if code == 0x35 {
        seq![0x1Fu8, 0x10, 0x1E, 0x01, 0x01, 0x11, 0x0E]
    } else if code == 0x36 {
        seq![0x06u8, 0x08, 0x10, 0x1E, 0x11, 0x11, 0x0E]
    } else if code == 0x37 {
        seq![0x1Fu8, 0x01, 0x02, 0x04, 0x08, 0x08, 0x08]
    } else if code == 0x38 {
        seq![0x0Eu8, 0x11, 0x11, 0x0E, 0x11, 0x11, 0x0E]
    } else if code == 0x39 {
        seq![0x0Eu8, 0x11, 0x11, 0x0F, 0x01, 0x02, 0x0C]
    } else if code == 0x3A {
        seq![0x00u8, 0x04, 0x04, 0x00, 0x04, 0x04, 0x00]
    } else {
        box_glyph()
    }
}

/// The 5×7 bitmap of a character; lower-case letters look like upper-case ones.
pub open spec fn glyph_rows(ch: char) -> Seq<u8> {
    let code = ch as u32;
    if 0x41 <= code <= 0x5A {
        letter_glyph((code - 0x41) as u32)
    } else if 0x61 <= code <= 0x7A {
        letter_glyph((code - 0x61) as u32)
    } else {
        symbol_glyph(code)
    }
}

fn letter_glyph_exec(k: u32) -> (r: [u8; 7])
    requires
        k < 26,
    ensures
        r@ == letter_glyph(k),
{
    let r: [u8; 7] = 
        if k == 0 {
            [0x0E, 0x11, 0x11, 0x1F, 0x11, 0x11, 0x11]
        } else if k == 1 {
            [0x1E, 0x11, 0x11, 0x1E, 0x11, 0x11, 0x1E]
        } else if k == 2 {
            [0x0E, 0x11, 0x10, 0x10, 0x10, 0x11, 0x0E]
        } else if k == 3 {
            [0x1E, 0x11, 0x11, 0x11, 0x11, 0x11, 0x1E]
        } else if k == 4 {
            [0x1F, 0x10, 0x10, 0x1E, 0x10, 0x10, 0x1F]
        } else if k == 5 {
            [0x1F, 0x10, 0x10, 0x1E, 0x10, 0x10, 0x10]
        } else if k == 6 {
            [0x0E, 0x11, 0x10, 0x17, 0x11, 0x11, 0x0E]
        } else if k == 7 {
            [0x11, 0x11, 0x11, 0x1F, 0x11, 0x11, 0x11]
        } else if k == 8 {
            [0x0E, 0x04, 0x04, 0x04, 0x04, 0x04, 0x0E]
        } else if k == 9 {
            [0x07, 0x02, 0x02, 0x02, 0x02, 0x12, 0x0C]
        } else if k == 10 {
            [0x11, 0x12, 0x14, 0x18, 0x14, 0x12, 0x11]
        } else if k == 11 {
            [0x10, 0x10, 0x10, 0x10, 0x10, 0x10, 0x1F]
        } else if k == 12 {
            [0x11, 0x1B, 0x15, 0x15, 0x11, 0x11, 0x11]
        } else if k == 13 {
            [0x11, 0x19, 0x15, 0x13, 0x11, 0x11, 0x11]
        } else if k == 14 {
            [0x0E, 0x11, 0x11, 0x11, 0x11, 0x11, 0x0E]
        } else if k == 15 {
            [0x1E, 0x11, 0x11, 0x1E, 0x10, 0x10, 0x10]
        } else if k == 16 {
            [0x0E, 0x11, 0x11, 0x11, 0x15, 0x12, 0x0D]
        } else if k == 17 {
            [0x1E, 0x11, 0x11, 0x1E, 0x14, 0x12, 0x11]
        } else if k == 18 {
            [0x0E, 0x11, 0x10, 0x0E, 0x01, 0x11, 0x0E]
        } else if k == 19 {
            [0x1F, 0x04, 0x04, 0x04, 0x04, 0x04, 0x04]
        } else if k == 20 {
            [0x11, 0x11, 0x11, 0x11, 0x11, 0x11, 0x0E]
        } else if k == 21 {
            [0x11, 0x11, 0x11, 0x11, 0x0A, 0x0A, 0x04]
        } else if k == 22 {
            [0x11, 0x11, 0x11, 0x15, 0x15, 0x1B, 0x11]
        } else if k == 23 {
            [0x11, 0x11, 0x0A, 0x04, 0x0A, 0x11, 0x11]
        } else if k == 24 {
            [0x11, 0x11, 0x0A, 0x04, 0x04, 0x04, 0x04]
        } else {
            [0x1F, 0x01, 0x02, 0x04, 0x08, 0x10, 0x1F]
        };
    assert(r@ =~= letter_glyph(k));
    r
}

fn symbol_glyph_exec(code: u32) -> (r: [u8; 7])
    ensures
        r@ == symbol_glyph(code),
{
    let r: [u8; 7] = 
        if code == 0x20 {
            [0x00, 0x00, 0x00, 0x00, 0x00, 0x00, 0x00]
        } else if code == 0x25 {
            [0x18, 0x19, 0x02, 0x04, 0x08, 0x13, 0x03]
        } else if code == 0x2D {
            [0x00, 0x00, 0x00, 0x1F, 0x00, 0x00, 0x00]
        } else if code == 0x2E {
            [0x00, 0x00, 0x00, 0x00, 0x00, 0x00, 0x04]
        } else if code == 0x2F {
            [0x01, 0x01, 0x02, 0x04, 0x08, 0x10, 0x10]
        } else if code == 0x30 {
            [0x0E, 0x11, 0x13, 0x15, 0x19, 0x11, 0x0E]
        } else if code == 0x31 {
            [0x04, 0x0C, 0x04, 0x04, 0x04, 0x04, 0x0E]
        } else if code == 0x32 {
            [0x0E, 0x11, 0x01, 0x02, 0x04, 0x08, 0x1F]
        } else if code == 0x33 {
            [0x0E, 0x11, 0x01, 0x06, 0x01, 0x11, 0x0E]
        } else if code == 0x34 {
            [0x02, 0x06, 0x0A, 0x12, 0x1F, 0x02, 0x02]
        } else if code == 0x35 {
            [0x1F, 0x10, 0x1E, 0x01, 0x01, 0x11, 0x0E]
        } else if code == 0x36 {
            [0x06, 0x08, 0x10, 0x1E, 0x11, 0x11, 0x0E]
        } else if code == 0x37 {
            [0x1F, 0x01, 0x02, 0x04, 0x08, 0x08, 0x08]
        } else if code == 0x38 {
            [0x0E, 0x11, 0x11, 0x0E, 0x11, 0x11, 0x0E]
        } else if code == 0x39 {
            [0x0E, 0x11, 0x11, 0x0F, 0x01, 0x02, 0x0C]
        } else if code == 0x3A {
            [0x00, 0x04, 0x04, 0x00, 0x04, 0x04, 0x00]
        } else {
            [0x1F, 0x11, 0x11, 0x11, 0x11, 0x11, 0x1F]
        };
    assert(r@ =~= symbol_glyph(code));
    r
}

/// The bitmap of `ch`: seven rows of five columns, bit 4 leftmost.
pub fn glyph(ch: char) -> (r: [u8; 7])
    ensures
        r@ == glyph_rows(ch),
{
    let code = ch as u32;
    if 0x41 <= code && code <= 0x5A {
        letter_glyph_exec(code - 0x41)
    } else if 0x61 <= code && code <= 0x7A {
        letter_glyph_exec(code - 0x61)
    } else {
        symbol_glyph_exec(code)
    }
}

/// Column `col` (0 = leftmost) of a glyph row is lit.
pub open spec fn lit(bits: u8, col: u8) -> bool {
    bits & (1u8 << (4u8 - col)) != 0u8
}


// ─── Text ─────────────────────────────────────────────────────

/// Where and how a text is drawn: its characters, the image size, the top
/// left corner and the scale (each glyph dot a `s`×`s` block).
pub struct TextPlace {
    pub text: Seq<char>,
    pub iw: int,
    pub ih: int,
    pub sx: int,
    pub sy: int,
    pub s: int,
}

/// Left edge of character `ci`; characters are six dots apart.
pub open spec fn char_left(t: TextPlace, ci: int) -> int {
    t.sx + ci * (6 * t.s)
}

/// Character `ci` ends left of the image's right edge. Drawing stops at the
/// first character that does not.
pub open spec fn char_fits(t: TextPlace, ci: int) -> bool {
    char_left(t, ci) + 5 * t.s <= t.iw
}

/// Pixel `p` belongs to the lit dot (`row`, `col`) of character `ci`.
pub open spec fn text_dot(t: TextPlace, ci: int, row: int, col: int, p: int) -> bool {
    &&& 0 <= ci < t.text.len()
    &&& char_fits(t, ci)
    &&& 0 <= row < 7
    &&& 0 <= col < 5
    &&& lit(glyph_rows(t.text[ci])[row], col as u8)
    &&& rect_on(t.iw, t.ih, char_left(t, ci) + col * t.s, t.sy + row * t.s, t.s, t.s, p)
}

/// Pixel `p` is part of the drawn text.
pub open spec fn text_on(t: TextPlace, p: int) -> bool {
    exists|ci: int, row: int, col: int| #[trigger] text_dot(t, ci, row, col, p)
}

/// Pixel `p` belongs to a dot drawn before dot (`row0`, `col0`) of character `ci0`.
spec fn dots_before(t: TextPlace, ci0: int, row0: int, col0: int, p: int) -> bool {
    exists|ci: int, row: int, col: int|
        #[trigger] text_dot(t, ci, row, col, p) && (ci < ci0 || (ci == ci0 && (row < row0 || (row == row0 && col < col0))))
}

proof fn lemma_col_step(t: TextPlace, ci0: int, row0: int, col0: int)
    ensures
        forall|p: int| #[trigger] dots_before(t, ci0, row0, col0 + 1, p)
            == (dots_before(t, ci0, row0, col0, p) || text_dot(t, ci0, row0, col0, p)),
{
    assert forall|p: int| #[trigger] dots_before(t, ci0, row0, col0 + 1, p)
        == (dots_before(t, ci0, row0, col0, p) || text_dot(t, ci0, row0, col0, p)) by {
        if dots_before(t, ci0, row0, col0 + 1, p) {
            let (ci, row, col) = choose|ci: int, row: int, col: int|
                #[trigger] text_dot(t, ci, row, col, p) && (ci < ci0 || (ci == ci0 && (row < row0 || (row == row0 && col < col0 + 1))));
            if !(ci == ci0 && row == row0 && col == col0) {
                assert(dots_before(t, ci0, row0, col0, p));
            }
        }
        if text_dot(t, ci0, row0, col0, p) {
            assert(text_dot(t, ci0, row0, col0, p) && (ci0 < ci0 || (ci0 == ci0 && (row0 < row0 || (row0 == row0 && col0 < col0 + 1)))));
        }
        if dots_before(t, ci0, row0, col0, p) {
            let (ci, row, col) = choose|ci: int, row: int, col: int|
                #[trigger] text_dot(t, ci, row, col, p) && (ci < ci0 || (ci == ci0 && (row < row0 || (row == row0 && col < col0))));
            assert(text_dot(t, ci, row, col, p) && (ci < ci0 || (ci == ci0 && (row < row0 || (row == row0 && col < col0 + 1)))));
        }
    }
}

proof fn lemma_col_end(t: TextPlace, ci0: int, row0: int)
    ensures
        forall|p: int| #[trigger] dots_before(t, ci0, row0, 5, p) == dots_before(t, ci0, row0 + 1, 0, p),
{
    assert forall|p: int| #[trigger] dots_before(t, ci0, row0, 5, p) == dots_before(t, ci0, row0 + 1, 0, p) by {
        if dots_before(t, ci0, row0, 5, p) {
            let (ci, row, col) = choose|ci: int, row: int, col: int|
                #[trigger] text_dot(t, ci, row, col, p) && (ci < ci0 || (ci == ci0 && (row < row0 || (row == row0 && col < 5))));
            assert(text_dot(t, ci, row, col, p) && (ci < ci0 || (ci == ci0 && (row < row0 + 1 || (row == row0 + 1 && col < 0)))));
        }
        if dots_before(t, ci0, row0 + 1, 0, p) {
            let (ci, row, col) = choose|ci: int, row: int, col: int|
                #[trigger] text_dot(t, ci, row, col, p) && (ci < ci0 || (ci == ci0 && (row < row0 + 1 || (row == row0 + 1 && col < 0))));
            assert(text_dot(t, ci, row, col, p) && (ci < ci0 || (ci == ci0 && (row < row0 || (row == row0 && col < 5)))));
        }
    }
}

proof fn lemma_row_end(t: TextPlace, ci0: int)
    ensures
        forall|p: int| #[trigger] dots_before(t, ci0, 7, 0, p) == dots_before(t, ci0 + 1, 0, 0, p),
{
    assert forall|p: int| #[trigger] dots_before(t, ci0, 7, 0, p) == dots_before(t, ci0 + 1, 0, 0, p) by {
        if dots_before(t, ci0, 7, 0, p) {
            let (ci, row, col) = choose|ci: int, row: int, col: int|
                #[trigger] text_dot(t, ci, row, col, p) && (ci < ci0 || (ci == ci0 && (row < 7 || (row == 7 && col < 0))));
            assert(text_dot(t, ci, row, col, p) && (ci < ci0 + 1 || (ci == ci0 + 1 && (row < 0 || (row == 0 && col < 0)))));
        }
        if dots_before(t, ci0 + 1, 0, 0, p) {
            let (ci, row, col) = choose|ci: int, row: int, col: int|
                #[trigger] text_dot(t, ci, row, col, p) && (ci < ci0 + 1 || (ci == ci0 + 1 && (row < 0 || (row == 0 && col < 0))));
            assert(text_dot(t, ci, row, col, p) && (ci < ci0 || (ci == ci0 && (row < 7 || (row == 7 && col < 0)))));
        }
    }
}

proof fn lemma_fits_monotone(t: TextPlace, a: int, b: int)
    requires
        0 <= a <= b,
        t.s >= 0,
        !char_fits(t, a),
    ensures
        !char_fits(t, b),
{
    assert(a * (6 * t.s) <= b * (6 * t.s)) by (nonlinear_arith)
        requires
            0 <= a <= b,
            t.s >= 0,
    ;
}

proof fn lemma_text_end(t: TextPlace, ci0: int)
    requires
        0 <= ci0,
        t.s >= 0,
        ci0 >= t.text.len() || !char_fits(t, ci0),
    ensures
        forall|p: int| #[trigger] dots_before(t, ci0, 0, 0, p) == text_on(t, p),
{
    assert forall|p: int| #[trigger] dots_before(t, ci0, 0, 0, p) == text_on(t, p) by {
        if text_on(t, p) {
            let (ci, row, col) = choose|ci: int, row: int, col: int| #[trigger] text_dot(t, ci, row, col, p);
            if ci >= ci0 && ci0 < t.text.len() {
                lemma_fits_monotone(t, ci0, ci);
            }
            assert(text_dot(t, ci, row, col, p) && (ci < ci0 || (ci == ci0 && (row < 0 || (row == 0 && col < 0)))));
        }
    }
}

/// Draw `text` at (`start_x`, `start_y`) in the 5×7 font, each dot a
/// `scale`×`scale` block. Characters are six dots apart; drawing stops at the
/// first character that would pass the right edge, and rows at or below the
/// image bottom are left out.
pub fn render_text_scaled(
    rgba: &mut [u8],
    img_width: usize,
    img_height: usize,
    text: &str,
    start_x: usize,
    start_y: usize,
    scale: usize,
    color: Rgba,
)
    requires
        6 * scale <= usize::MAX,
        text@.len() == 0 || (start_x + 5 * scale <= usize::MAX && img_width + 6 * scale <= usize::MAX),
        start_y + 7 * scale <= usize::MAX + 1,
        img_height * img_width * 4 <= usize::MAX,
    ensures
        final(rgba)@ == paint_where(
            old(rgba)@,
            |p: int| text_on(TextPlace { text: text@, iw: img_width as int, ih: img_height as int, sx: start_x as int, sy: start_y as int, s: scale as int }, p),
            color.0@,
        ),
{
    let ghost t = TextPlace { text: text@, iw: img_width as int, ih: img_height as int, sx: start_x as int, sy: start_y as int, s: scale as int };
    let chars = crate::text::chars_of(text);
    let n = chars.len();
    let cw = 6 * scale;
    let fw = 5 * scale;
    let mut ci: usize = 0;
    let mut x_off: usize = start_x;
    proof {
        assert forall|p: int| #[trigger] dots_before(t, 0, 0, 0, p) == false by {
            if dots_before(t, 0, 0, 0, p) {
                let (a, b, c) = choose|a: int, b: int, c: int|
                    #[trigger] text_dot(t, a, b, c, p) && (a < 0 || (a == 0 && (b < 0 || (b == 0 && c < 0))));
            }
        }
        lemma_paint_same(old(rgba)@, |p: int| false, |p: int| dots_before(t, 0, 0, 0, p), color.0@);
        assert(paint_where(old(rgba)@, |p: int| false, color.0@) =~= old(rgba)@);
    }
    while ci < n && x_off <= img_width && img_width - x_off >= fw
        invariant
            t == (TextPlace { text: text@, iw: img_width as int, ih: img_height as int, sx: start_x as int, sy: start_y as int, s: scale as int }),
            chars@ == text@,
            n == chars@.len(),
            cw == 6 * scale,
            fw == 5 * scale,
            ci <= n,
            x_off == char_left(t, ci as int),
            n == 0 || (start_x + 5 * scale <= usize::MAX && img_width + 6 * scale <= usize::MAX),
            start_y + 7 * scale <= usize::MAX + 1,
            img_height * img_width * 4 <= usize::MAX,
            rgba@ == paint_where(old(rgba)@, |p: int| dots_before(t, ci as int, 0, 0, p), color.0@),
        decreases n - ci,
    {
        let g = glyph(chars[ci]);
        let mut row: usize = 0;
        while row < 7
            invariant
                t == (TextPlace { text: text@, iw: img_width as int, ih: img_height as int, sx: start_x as int, sy: start_y as int, s: scale as int }),
                chars@ == text@,
                ci < n,
                n == chars@.len(),
                g@ == glyph_rows(text@[ci as int]),
                x_off == char_left(t, ci as int),
                x_off + 5 * scale <= img_width,
                row <= 7,
                start_y + 7 * scale <= usize::MAX + 1,
                img_height * img_width * 4 <= usize::MAX,
                rgba@ == paint_where(old(rgba)@, |p: int| dots_before(t, ci as int, row as int, 0, p), color.0@),
            decreases 7 - row,
        {
            let bits = g[row];
            let mut col: u8 = 0;
            while col < 5
                invariant
                    t == (TextPlace { text: text@, iw: img_width as int, ih: img_height as int, sx: start_x as int, sy: start_y as int, s: scale as int }),
                    ci < n,
                    n == text@.len(),
                    bits == glyph_rows(text@[ci as int])[row as int],
                    x_off == char_left(t, ci as int),
                    x_off + 5 * scale <= img_width,
                    row < 7,
                    col <= 5,
                    start_y + 7 * scale <= usize::MAX + 1,
                    img_height * img_width * 4 <= usize::MAX,
                    rgba@ == paint_where(old(rgba)@, |p: int| dots_before(t, ci as int, row as int, col as int, p), color.0@),
                decreases 5 - col,
            {
                proof {
                    lemma_col_step(t, ci as int, row as int, col as int);
                }
                if bits & (1u8 << (4u8 - col)) != 0 {
                    proof {
                        assert((col as int) * scale <= 4 * scale) by (nonlinear_arith)
                            requires
                                col < 5,
                        ;
                        assert((row as int) * scale <= 6 * scale) by (nonlinear_arith)
                            requires
                                row < 7,
                        ;
                        if img_height > 0 {
                            assert((img_height - 1) * img_width + img_width == img_height * img_width) by (nonlinear_arith);
                        }
                    }
                    let x0 = x_off + (col as usize) * scale;
                    let y0 = start_y + row * scale;
                    fill_rect(rgba, img_width, img_height, x0, y0, scale, scale, &color);
                    proof {
                        lemma_paint_union(
                            old(rgba)@,
                            |p: int| dots_before(t, ci as int, row as int, col as int, p),
                            |p: int| rect_on(img_width as int, img_height as int, x0 as int, y0 as int, scale as int, scale as int, p),
                            color.0@,
                        );
                        lemma_paint_same(
                            old(rgba)@,
                            |p: int| dots_before(t, ci as int, row as int, col as int, p)
                                || rect_on(img_width as int, img_height as int, x0 as int, y0 as int, scale as int, scale as int, p),
                            |p: int| dots_before(t, ci as int, row as int, col + 1, p),
                            color.0@,
                        );
                    }
                } else {
                    proof {
                        lemma_paint_same(
                            old(rgba)@,
                            |p: int| dots_before(t, ci as int, row as int, col as int, p),
                            |p: int| dots_before(t, ci as int, row as int, col + 1, p),
                            color.0@,
                        );
                    }
                }
                col = col + 1;
            }
            proof {
                lemma_col_end(t, ci as int, row as int);
                lemma_paint_same(
                    old(rgba)@,
                    |p: int| dots_before(t, ci as int, row as int, 5, p),
                    |p: int| dots_before(t, ci as int, row + 1, 0, p),
                    color.0@,
                );
            }
            row = row + 1;
        }
        proof {
            lemma_row_end(t, ci as int);
            lemma_paint_same(
                old(rgba)@,
                |p: int| dots_before(t, ci as int, 7, 0, p),
                |p: int| dots_before(t, ci + 1, 0, 0, p),
                color.0@,
            );
            assert((ci + 1) * cw == ci * cw + cw) by (nonlinear_arith);
        }
        ci = ci + 1;
        x_off = x_off + cw;
    }
    proof {
        lemma_text_end(t, ci as int);
        lemma_paint_same(
            old(rgba)@,
            |p: int| dots_before(t, ci as int, 0, 0, p),
            |p: int| text_on(t, p),
            color.0@,
        );
    }
}


/// Draw `text` at (`start_x`, `start_y`) in the 5×7 font at scale 1.
pub fn render_text(rgba: &mut [u8], img_width: usize, img_height: usize, text: &str, start_x: usize, start_y: usize, color: Rgba)
    requires
        text@.len() == 0 || (start_x + 5 <= usize::MAX && img_width + 6 <= usize::MAX),
        img_height * img_width * 4 <= usize::MAX,
    ensures
        final(rgba)@ == paint_where(
            old(rgba)@,
            |p: int| text_on(TextPlace { text: text@, iw: img_width as int, ih: img_height as int, sx: start_x as int, sy: start_y as int, s: 1 }, p),
            color.0@,
        ),
{
    let ghost t = TextPlace { text: text@, iw: img_width as int, ih: img_height as int, sx: start_x as int, sy: start_y as int, s: 1 };
    if start_y >= img_height || img_width < 5 {
        proof {
            assert forall|p: int| #[trigger] text_on(t, p) == false by {
                if text_on(t, p) {
                    let (ci, row, col) = choose|ci: int, row: int, col: int| #[trigger] text_dot(t, ci, row, col, p);
                    let r = choose|r: int|
                        t.sy + row * t.s <= r < t.sy + row * t.s + t.s && r < t.ih
                            && #[trigger] row_run(t.iw, char_left(t, ci) + col * t.s, t.s, r, p);
                }
            }
            lemma_paint_same(old(rgba)@, |p: int| false, |p: int| text_on(t, p), color.0@);
            assert(paint_where(old(rgba)@, |p: int| false, color.0@) =~= old(rgba)@);
        }
        return;
    }
    proof {
        assert(img_height * 20 <= img_height * img_width * 4) by (nonlinear_arith)
            requires
                img_width >= 5,
        ;
    }
    render_text_scaled(rgba, img_width, img_height, text, start_x, start_y, 1, color);
}

// ─── Page dots ────────────────────────────────────────────────

/// The colour of page dot `i`: the base colour for the current page, dim
/// otherwise. Indices past 255 count as page 0.
pub open spec fn page_dot_color(i: int, current: u8, active: Seq<u8>) -> Seq<u8> {
    if (if i < 256 { i } else { 0 }) == current as int {
        active
    } else {
        rgba_of(WidgetColor::Dim)
    }
}

/// The image after the first `k` page dots: dot `i` is a square of side
/// `3s` at (`x + 8s·i + 3s`, `y`), rows at or below `ih` left out.
pub open spec fn page_dots_image(
    buf: Seq<u8>,
    iw: int,
    ih: int,
    s: int,
    x: int,
    y: int,
    current: u8,
    k: int,
    active: Seq<u8>,
) -> Seq<u8>
    decreases k,
{
    if k <= 0 {
        buf
    } else {
        let prev = page_dots_image(buf, iw, ih, s, x, y, current, k - 1, active);
        paint_where(
            prev,
            |p: int| rect_on(iw, ih, x + (k - 1) * (8 * s) + 3 * s, y, 3 * s, 3 * s, p),
            page_dot_color(k - 1, current, active),
        )
    }
}

/// Page indicator: `page_count` dots, the current page's in the base colour.
pub fn render_widget_page_dots(
    rgba: &mut [u8],
    iw: usize,
    ih: usize,
    s: usize,
    x: usize,
    y: usize,
    current: u8,
    page_count: usize,
    base_color: WidgetColor,
)
    requires
        8 * s <= usize::MAX,
        page_count == 0 || (x + page_count * (8 * s) <= usize::MAX && y + 3 * s <= usize::MAX + 1 && (ih == 0
            || ((ih - 1) * iw + x + page_count * (8 * s)) * 4 <= usize::MAX)),
    ensures
        final(rgba)@ == page_dots_image(old(rgba)@, iw as int, ih as int, s as int, x as int, y as int, current, page_count as int, rgba_of(base_color)),
{
    let dot_size = 3 * s;
    let dot_spacing = 8 * s;
    let dot_off = 3 * s;
    let active = base_color.to_rgba();
    let dim = WidgetColor::Dim.to_rgba();
    let mut i: usize = 0;
    while i < page_count
        invariant
            i <= page_count,
            dot_size == 3 * s,
            dot_spacing == 8 * s,
            dot_off == 3 * s,
            active.0@ == rgba_of(base_color),
            dim.0@ == rgba_of(WidgetColor::Dim),
            page_count == 0 || (x + page_count * (8 * s) <= usize::MAX && (ih == 0
                || ((ih - 1) * iw + x + page_count * (8 * s)) * 4 <= usize::MAX)),
            rgba@ == page_dots_image(old(rgba)@, iw as int, ih as int, s as int, x as int, y as int, current, i as int, rgba_of(base_color)),
        decreases page_count - i,
    {
        proof {
            assert(i * (8 * s) + 8 * s <= page_count * (8 * s)) by (nonlinear_arith)
                requires
                    i < page_count,
            ;
        }
        let dot_x = x + i * dot_spacing + dot_off;
        let page: u8 = if i < 256 { i as u8 } else { 0 };
        let color = if page == current { active } else { dim };
        fill_rect(rgba, iw, ih, dot_x, y, dot_size, dot_size, &color);
        i = i + 1;
    }
}

} // verus!
