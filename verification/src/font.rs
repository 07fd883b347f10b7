//! Text in a frame buffer, in a bitmap font of five by seven pixels.
//!
//! A font holds seven bytes for each character from the space on, one per row. The lowest bit of
//! a row is its leftmost pixel.

use crate::text::chars_of;
use vstd::prelude::*;
use vstd::string::*;
use vstd::utf8::*;

verus! {

/// How many bytes describe a character.
pub const GLYPH_ROWS: usize = 7;

/// How far apart characters stand: five pixels and a gap.
pub const ADVANCE: usize = 6;

/// The rows of a character: those of the font, or empty ones where the font does not have it.
pub open spec fn glyph(font: Seq<u8>, c: char) -> Seq<u8> {
    let code = c as int;
    let offset = (code - 32) * 7;
    if 32 <= code < 128 && offset + 7 <= font.len() {
        font.subrange(offset, offset + 7)
    } else {
        seq![0u8, 0u8, 0u8, 0u8, 0u8, 0u8, 0u8]
    }
}

/// The rows of a character in a font.
pub fn char_bitmap(font: &[u8], c: char) -> (r: [u8; 7])
    ensures
        r@ == glyph(font@, c),
{
    let code: u32 = c as u32;
    if 32 <= code && code < 128 {
        let offset: usize = (code as usize - 32) * 7;
        if offset + 7 <= font.len() {
            let rows = [
                font[offset],
                font[offset + 1],
                font[offset + 2],
                font[offset + 3],
                font[offset + 4],
                font[offset + 5],
                font[offset + 6],
            ];
            proof {
                assert(rows@ =~= font@.subrange(offset as int, offset + 7));
            }
            return rows;
        }
    }
    let blank = [0u8, 0u8, 0u8, 0u8, 0u8, 0u8, 0u8];
    proof {
        assert(blank@ =~= seq![0u8, 0u8, 0u8, 0u8, 0u8, 0u8, 0u8]);
    }
    blank
}

/// The weight of the pixel in a column of a row.
pub open spec fn column_weight(col: int) -> int {
    if col == 0 {
        1
    } else if col == 1 {
        2
    } else if col == 2 {
        4
    } else if col == 3 {
        8
    } else {
        16
    }
}

/// Whether the pixel in a column of a row is set.
pub open spec fn is_set(row: u8, col: int) -> bool {
    0 <= col < 5 && row as int / column_weight(col) % 2 == 1
}

fn pixel_set(row: u8, col: usize) -> (r: bool)
    requires
        col < 5,
    ensures
        r == is_set(row, col as int),
{
    let weight: u8 = match col {
        0 => 1,
        1 => 2,
        2 => 4,
        3 => 8,
        _ => 16,
    };
    row / weight % 2 == 1
}

/// Whether a text whose top left corner is at `x`, `y` covers the pixel at `px`, `py`.
pub open spec fn covers(font: Seq<u8>, text: Seq<char>, x: int, y: int, px: int, py: int) -> bool {
    let i = (px - x) / 6;
    &&& px >= x
    &&& i < text.len()
    &&& y <= py < y + 7
    &&& is_set(glyph(font, text[i])[py - y], (px - x) % 6)
}

/// Whether a text covers the item `k` of a frame buffer with rows of `w` pixels and `h` complete
/// rows.
pub open spec fn covers_item(
    font: Seq<u8>,
    text: Seq<char>,
    x: int,
    y: int,
    w: int,
    h: int,
    k: int,
) -> bool {
    k / w < h && covers(font, text, x, y, k % w, k / w)
}

/// A frame buffer with a text drawn into it. What lies beyond the right or the bottom edge is left
/// out.
pub open spec fn with_text(
    buf: Seq<u32>,
    w: int,
    font: Seq<u8>,
    x: int,
    y: int,
    text: Seq<char>,
    color: u32,
) -> Seq<u32> {
    Seq::new(
        buf.len(),
        |k: int|
            if covers_item(font, text, x, y, w, buf.len() as int / w, k) {
                color
            } else {
                buf[k]
            },
    )
}

/// A frame buffer with the first `cols` pixels of one row of a character drawn into it.
spec fn with_row(buf: Seq<u32>, w: int, x: int, py: int, bits: u8, color: u32, cols: int) -> Seq<u32> {
    Seq::new(
        buf.len(),
        |k: int|
            if k / w == py && x <= k % w < x + cols && is_set(bits, k % w - x) {
                color
            } else {
                buf[k]
            },
    )
}

/// A frame buffer with the first `n` rows of a character drawn into it.
spec fn with_glyph(buf: Seq<u32>, w: int, x: int, y: int, rows: Seq<u8>, color: u32, n: int) -> Seq<u32> {
    let h = buf.len() as int / w;
    Seq::new(
        buf.len(),
        |k: int|
            if k / w < h && y <= k / w < y + n && x <= k % w && is_set(rows[k / w - y], k % w - x) {
                color
            } else {
                buf[k]
            },
    )
}

/// The item of a pixel is the only one at its place.
proof fn lemma_item(w: int, px: int, py: int)
    requires
        0 <= px < w,
        0 <= py,
    ensures
        (py * w + px) / w == py,
        (py * w + px) % w == px,
        py * w + px >= 0,
        forall|k: int| #![trigger k / w] k / w == py && k % w == px ==> k == py * w + px,
{
    assert(py * w >= 0) by (nonlinear_arith)
        requires
            py >= 0,
            w > 0,
    ;
    vstd::arithmetic::div_mod::lemma_fundamental_div_mod_converse(py * w + px, w, py, px);
    assert forall|k: int| #![trigger k / w] k / w == py && k % w == px implies k == py * w + px by {
        vstd::arithmetic::div_mod::lemma_fundamental_div_mod(k, w);
        assert(w * py == py * w) by (nonlinear_arith);
    }
}

/// A pixel of a complete row lies in the buffer.
proof fn lemma_item_fits(len: int, w: int, px: int, py: int)
    requires
        0 <= px < w,
        0 <= py < len / w,
    ensures
        py * w + px < len,
        py * w <= len,
{
    let h = len / w;
    vstd::arithmetic::div_mod::lemma_fundamental_div_mod(len, w);
    assert(py * w + w <= w * h) by (nonlinear_arith)
        requires
            py + 1 <= h,
            w > 0,
    ;
    assert(0 <= len % w);
    vstd::arithmetic::div_mod::lemma_mod_bound(len, w);
}

fn draw_row(buf: &mut [u32], buf_w: usize, x: usize, py: usize, bits: u8, color: u32)
    requires
        buf_w > 0,
        py < old(buf)@.len() as int / buf_w as int,
        x + 5 <= usize::MAX,
        old(buf)@.len() <= usize::MAX,
    ensures
        final(buf)@ == with_row(old(buf)@, buf_w as int, x as int, py as int, bits, color, 5),
{
    let ghost before = buf@;
    let ghost w = buf_w as int;
    proof {
        assert(before =~= with_row(before, w, x as int, py as int, bits, color, 0));
    }
    for col in 0usize..5usize
        invariant
            buf_w > 0,
            w == buf_w,
            before.len() <= usize::MAX,
            py < before.len() as int / w,
            x + 5 <= usize::MAX,
            buf@ == with_row(before, w, x as int, py as int, bits, color, col as int),
    {
        let ghost here = buf@;
        let px: usize = x + col;
        if pixel_set(bits, col) && px < buf_w {
            proof {
                lemma_item(w, px as int, py as int);
                lemma_item_fits(before.len() as int, w, px as int, py as int);
            }
            let idx: usize = py * buf_w + px;
            buf[idx] = color;
        }
        proof {
            let next = with_row(before, w, x as int, py as int, bits, color, col + 1);
            assert forall|k: int| 0 <= k < buf@.len() implies buf@[k] == next[k] by {
                vstd::arithmetic::div_mod::lemma_mod_bound(k, w);
                if k / w == py && k % w == px {
                    lemma_item(w, px as int, py as int);
                }
            }
            assert(buf@ =~= next);
        }
    }
}

fn draw_glyph(buf: &mut [u32], buf_w: usize, x: usize, y: usize, rows: &[u8; 7], color: u32)
    requires
        buf_w > 0,
        x + 5 <= usize::MAX,
    ensures
        final(buf)@ == with_glyph(old(buf)@, buf_w as int, x as int, y as int, rows@, color, 7),
{
    let ghost before = buf@;
    let ghost w = buf_w as int;
    let h: usize = buf.len() / buf_w;
    proof {
        assert(before =~= with_glyph(before, w, x as int, y as int, rows@, color, 0));
    }
    for row in 0usize..7usize
        invariant
            buf_w > 0,
            w == buf_w,
            before.len() <= usize::MAX,
            h == before.len() as int / w,
            x + 5 <= usize::MAX,
            buf@ == with_glyph(before, w, x as int, y as int, rows@, color, row as int),
    {
        let ghost here = buf@;
        if y < h && row < h - y {
            draw_row(buf, buf_w, x, y + row, rows[row], color);
        }
        proof {
            let next = with_glyph(before, w, x as int, y as int, rows@, color, row + 1);
            assert forall|k: int| 0 <= k < buf@.len() implies buf@[k] == next[k] by {
                if k / w == y + row {
                    assert(k / w - y == row);
                }
            }
            assert(buf@ =~= next);
        }
    }
}

/// Draws a text into a frame buffer with rows of `buf_w` pixels, its top left corner at `x`, `y`.
pub fn draw_string(
    buf: &mut [u32],
    buf_w: usize,
    font: &[u8],
    x: usize,
    y: usize,
    text: &str,
    color: u32,
)
    requires
        buf_w > 0,
        x + 6 * text@.len() <= usize::MAX,
    ensures
        final(buf)@ == with_text(
            old(buf)@,
            buf_w as int,
            font@,
            x as int,
            y as int,
            text@,
            color,
        ),
{
    let ghost before = buf@;
    let ghost w = buf_w as int;
    let chars = chars_of(text);
    let mut cx: usize = x;
    proof {
        assert(before =~= with_text(
            before,
            w,
            font@,
            x as int,
            y as int,
            chars@.take(0),
            color,
        ));
    }
    for i in 0..chars.len()
        invariant
            buf_w > 0,
            w == buf_w,
            chars@ == text@,
            x + 6 * text@.len() <= usize::MAX,
            cx == x + 6 * i,
            buf@ == with_text(
                before,
                w,
                font@,
                x as int,
                y as int,
                chars@.take(i as int),
                color,
            ),
    {
        let ghost here = buf@;
        let rows = char_bitmap(font, chars[i]);
        draw_glyph(buf, buf_w, cx, y, &rows, color);
        proof {
            let done = chars@.take(i as int);
            let more = chars@.take(i + 1);
            let next = with_text(before, w, font@, x as int, y as int, more, color);
            assert forall|k: int| 0 <= k < buf@.len() implies buf@[k] == next[k] by {
                let px = k % w;
                let j = (px - x) / 6;
                let h = before.len() as int / w;
                if px >= x && j < i {
                    assert(done[j] == more[j]);
                    assert(!(cx <= px));
                }
                if px >= x && j == i {
                    assert(more[j] == chars@[i as int]);
                    assert(px - cx == (px - x) % 6);
                }
                if px >= x && j > i {
                    assert(px - cx >= 6);
                }
            }
            assert(buf@ =~= next);
        }
        cx = cx + 6;
    }
    proof {
        assert(chars@.take(chars@.len() as int) =~= text@);
    }
}

/// Whether the pixel at `px`, `py` lies in the box behind a text: nine rows high, and six pixels
/// wide for each byte of the text, with a margin of two.
pub open spec fn in_box(text: Seq<char>, x: int, y: int, px: int, py: int) -> bool {
    x <= px < x + encode_utf8(text).len() * 6 + 2 && y <= py < y + 9
}

/// A frame buffer with the first `n` rows of a box of the given width filled.
spec fn with_box(buf: Seq<u32>, w: int, x: int, y: int, width: int, n: int, color: u32) -> Seq<u32> {
    let h = buf.len() as int / w;
    Seq::new(
        buf.len(),
        |k: int|
            if k / w < h && y <= k / w < y + n && x <= k % w < x + width {
                color
            } else {
                buf[k]
            },
    )
}

/// A frame buffer with a text in a box drawn into it.
pub open spec fn with_boxed_text(
    buf: Seq<u32>,
    w: int,
    font: Seq<u8>,
    x: int,
    y: int,
    text: Seq<char>,
    fg: u32,
    bg: u32,
) -> Seq<u32> {
    let h = buf.len() as int / w;
    Seq::new(
        buf.len(),
        |k: int|
            if covers_item(font, text, x + 1, y + 1, w, h, k) {
                fg
            } else if k / w < h && in_box(text, x, y, k % w, k / w) {
                bg
            } else {
                buf[k]
            },
    )
}

/// Fills `width` pixels of a row from `x` on, as far as they lie in the buffer.
fn fill_span(buf: &mut [u32], buf_w: usize, x: usize, py: usize, width: usize, color: u32)
    requires
        buf_w > 0,
        py < old(buf)@.len() as int / buf_w as int,
        x + width <= usize::MAX + 1,
        old(buf)@.len() <= usize::MAX,
    ensures
        final(buf)@ == Seq::new(
            old(buf)@.len(),
            |k: int|
                if k / buf_w as int == py && x <= k % buf_w as int && k % (buf_w as int) < x + width {
                    color
                } else {
                    old(buf)@[k]
                },
        ),
{
    let ghost before = buf@;
    let ghost w = buf_w as int;
    let ghost goal = |n: int|
        Seq::new(
            before.len(),
            |k: int|
                if k / w == py && x <= k % w < x + n {
                    color
                } else {
                    before[k]
                },
        );
    proof {
        assert(before =~= goal(0));
    }
    for col in 0..width
        invariant
            buf_w > 0,
            w == buf_w,
            before.len() <= usize::MAX,
            py < before.len() as int / w,
            x + width <= usize::MAX + 1,
            goal == (|n: int|
                Seq::new(
                    before.len(),
                    |k: int|
                        if k / w == py && x <= k % w < x + n {
                            color
                        } else {
                            before[k]
                        },
                )),
            buf@ == goal(col as int),
    {
        let px: usize = x + col;
        if px < buf_w {
            proof {
                lemma_item(w, px as int, py as int);
                lemma_item_fits(before.len() as int, w, px as int, py as int);
            }
            let idx: usize = py * buf_w + px;
            buf[idx] = color;
        }
        proof {
            assert forall|k: int| 0 <= k < buf@.len() implies buf@[k] == goal(col + 1)[k] by {
                vstd::arithmetic::div_mod::lemma_mod_bound(k, w);
                if k / w == py && k % w == px {
                    lemma_item(w, px as int, py as int);
                }
            }
            assert(buf@ =~= goal(col + 1));
        }
    }
    proof {
        assert(buf@ =~= goal(width as int));
    }
}

/// Fills a box, as far as it lies in the buffer.
fn fill_box(
    buf: &mut [u32],
    buf_w: usize,
    x: usize,
    y: usize,
    width: usize,
    rows: usize,
    color: u32,
)
    requires
        buf_w > 0,
        x + width <= usize::MAX + 1,
    ensures
        final(buf)@ == with_box(
            old(buf)@,
            buf_w as int,
            x as int,
            y as int,
            width as int,
            rows as int,
            color,
        ),
{
    let ghost before = buf@;
    let ghost w = buf_w as int;
    let h: usize = buf.len() / buf_w;
    proof {
        assert(before =~= with_box(before, w, x as int, y as int, width as int, 0, color));
    }
    for row in 0..rows
        invariant
            buf_w > 0,
            w == buf_w,
            before.len() <= usize::MAX,
            h == before.len() as int / w,
            x + width <= usize::MAX + 1,
            buf@ == with_box(before, w, x as int, y as int, width as int, row as int, color),
    {
        if y < h && row < h - y {
            fill_span(buf, buf_w, x, y + row, width, color);
        }
        proof {
            let next = with_box(before, w, x as int, y as int, width as int, row + 1, color);
            assert(buf@ =~= next);
        }
    }
}

/// Draws a text with a box behind it.
pub fn draw_string_bg(
    buf: &mut [u32],
    buf_w: usize,
    font: &[u8],
    x: usize,
    y: usize,
    text: &str,
    fg: u32,
    bg: u32,
)
    requires
        buf_w > 0,
        6 * encode_utf8(text@).len() + 2 <= usize::MAX,
        x + 6 * encode_utf8(text@).len() + 1 <= usize::MAX,
        x + 6 * text@.len() + 1 <= usize::MAX,
        y + 1 <= usize::MAX,
    ensures
        final(buf)@ == with_boxed_text(
            old(buf)@,
            buf_w as int,
            font@,
            x as int,
            y as int,
            text@,
            fg,
            bg,
        ),
{
    let ghost before = buf@;
    let text_w: usize = text.as_bytes().len() * 6;
    fill_box(buf, buf_w, x, y, text_w + 2, 9, bg);
    draw_string(buf, buf_w, font, x + 1, y + 1, text, fg);
    proof {
        assert(buf@ =~= with_boxed_text(
            before,
            buf_w as int,
            font@,
            x as int,
            y as int,
            text@,
            fg,
            bg,
        ));
    }
}

/// Fills the rows from `y` on over their whole width, as far as they lie in the buffer.
pub fn fill_rows(buf: &mut [u32], buf_w: usize, y: usize, rows: usize, color: u32)
    requires
        buf_w > 0,
    ensures
        final(buf)@.len() == old(buf)@.len(),
        forall|k: int|
            0 <= k < old(buf)@.len() ==> #[trigger] final(buf)@[k] == if k / buf_w as int >= y
                && k / (buf_w as int) < y + rows && k / (buf_w as int) < old(buf)@.len()
                / buf_w as nat {
                color
            } else {
                old(buf)@[k]
            },
{
    let ghost before = buf@;
    fill_box(buf, buf_w, 0, y, buf_w, rows, color);
    proof {
        assert forall|k: int| 0 <= k < before.len() implies 0 <= #[trigger] (k % buf_w as int)
            < buf_w by {
            vstd::arithmetic::div_mod::lemma_mod_bound(k, buf_w as int);
        }
    }
}

// ---------------------------------------------------------------------------------------------
// Laws
// ---------------------------------------------------------------------------------------------

/// A text never changes a pixel outside its own rows, nor the size of the buffer.
pub proof fn text_stays_in_its_rows(
    buf: Seq<u32>,
    w: int,
    font: Seq<u8>,
    x: int,
    y: int,
    text: Seq<char>,
    color: u32,
    k: int,
)
    requires
        0 <= k < buf.len(),
        k / w < y || k / w >= y + 7,
    ensures
        with_text(buf, w, font, x, y, text, color).len() == buf.len(),
        with_text(buf, w, font, x, y, text, color)[k] == buf[k],
{
}

/// Drawing a text twice is drawing it once.
pub proof fn drawing_is_idempotent(
    buf: Seq<u32>,
    w: int,
    font: Seq<u8>,
    x: int,
    y: int,
    text: Seq<char>,
    color: u32,
)
    ensures
        with_text(with_text(buf, w, font, x, y, text, color), w, font, x, y, text, color)
            == with_text(buf, w, font, x, y, text, color),
{
    assert(with_text(with_text(buf, w, font, x, y, text, color), w, font, x, y, text, color)
        =~= with_text(buf, w, font, x, y, text, color));
}

/// Characters outside the font leave no mark.
pub proof fn unknown_characters_are_blank(font: Seq<u8>, c: char, row: int, col: int)
    requires
        (c as int) < 32 || c as int >= 128,
        0 <= row < 7,
    ensures
        !is_set(glyph(font, c)[row], col),
{
}

/// A column of a row is set where its bit is: the first column has the lowest bit, and there are five.
pub proof fn columns_are_bits(row: u8, col: u8)
    ensures
        col < 5 ==> (is_set(row, col as int) <==> (row >> col) & 1 == 1),
        col >= 5 ==> !is_set(row, col as int),
{
    assert((row >> 0) & 1 == row % 2) by (bit_vector);
    assert((row >> 1) & 1 == row / 2 % 2) by (bit_vector);
    assert((row >> 2) & 1 == row / 4 % 2) by (bit_vector);
    assert((row >> 3) & 1 == row / 8 % 2) by (bit_vector);
    assert((row >> 4) & 1 == row / 16 % 2) by (bit_vector);
    assert(col < 5 ==> col == 0 || col == 1 || col == 2 || col == 3 || col == 4);
}

/// The character at a place of a text stands six pixels behind the one before it. Its pixels are the
/// bits of its seven rows in the font, and the sixth column is left free.
pub proof fn characters_stand_side_by_side(
    font: Seq<u8>,
    text: Seq<char>,
    x: int,
    y: int,
    i: int,
    row: int,
    col: int,
)
    requires
        0 <= i < text.len(),
        0 <= row < 7,
        0 <= col < 6,
        32 <= text[i] as int,
        (text[i] as int) < 128,
        font.len() == 96 * 7,
    ensures
        col < 5 ==> (covers(font, text, x, y, x + 6 * i + col, y + row) <==> is_set(
            font[(text[i] as int - 32) * 7 + row],
            col,
        )),
        col == 5 ==> !covers(font, text, x, y, x + 6 * i + col, y + row),
{
    assert((6 * i + col) / 6 == i && (6 * i + col) % 6 == col);
    let offset = (text[i] as int - 32) * 7;
    assert(glyph(font, text[i]) == font.subrange(offset, offset + 7));
    assert(glyph(font, text[i])[row] == font[offset + row]);
}

/// A text in a box stands one pixel below and behind the corner of the box. The box is nine pixels
/// high, and six pixels wide for each byte of the text and two more; what lies outside it stays, as
/// far as the text does not cover it.
pub proof fn boxes_surround_their_text(
    buf: Seq<u32>,
    w: int,
    font: Seq<u8>,
    x: int,
    y: int,
    text: Seq<char>,
    fg: u32,
    bg: u32,
    px: int,
    py: int,
)
    requires
        w > 0,
        0 <= px < w,
        0 <= py,
        py < buf.len() as int / w,
    ensures
        ({
            let pixel = with_boxed_text(buf, w, font, x, y, text, fg, bg)[py * w + px];
            let covered = covers(font, text, x + 1, y + 1, px, py);
            let inside = x <= px < x + 6 * encode_utf8(text).len() + 2 && y <= py < y + 9;
            &&& covered ==> pixel == fg
            &&& !covered && inside ==> pixel == bg
            &&& !covered && !inside ==> pixel == buf[py * w + px]
        }),
{
    lemma_place(w, buf.len() as int, px, py);
}

/// A text without a box changes the pixels that it covers, and no others.
pub proof fn texts_change_what_they_cover(
    buf: Seq<u32>,
    w: int,
    font: Seq<u8>,
    x: int,
    y: int,
    text: Seq<char>,
    color: u32,
    px: int,
    py: int,
)
    requires
        w > 0,
        0 <= px < w,
        0 <= py,
        py < buf.len() as int / w,
    ensures
        ({
            let pixel = with_text(buf, w, font, x, y, text, color)[py * w + px];
            &&& covers(font, text, x, y, px, py) ==> pixel == color
            &&& !covers(font, text, x, y, px, py) ==> pixel == buf[py * w + px]
        }),
{
    lemma_place(w, buf.len() as int, px, py);
}

proof fn lemma_place(w: int, len: int, px: int, py: int)
    requires
        w > 0,
        0 <= px < w,
        0 <= py < len / w,
        len >= 0,
    ensures
        0 <= py * w + px < len,
        (py * w + px) / w == py,
        (py * w + px) % w == px,
{
    assert(0 <= py * w + px < len && (py * w + px) / w == py && (py * w + px) % w == px)
        by (nonlinear_arith)
        requires
            w > 0,
            0 <= px < w,
            0 <= py < len / w,
            len >= 0,
    ;
}

} // verus!
