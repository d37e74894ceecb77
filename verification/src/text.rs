//! Bitmap text: a fixed font of 5x5 glyphs for the digits and a few letters.

use vstd::prelude::*;
use crate::framebuffer::{Canvas, Framebuffer};

verus! {

/// Number of glyphs in the font.
pub const GLYPH_COUNT: usize = 21;

/// Number of rows, and of columns, of a glyph.
pub const GLYPH_SIZE: usize = 5;

/// Distance, in glyph columns, from one glyph of a text to the next.
pub const GLYPH_ADVANCE: usize = 6;

/// The rows of the glyph `index`, top row first. Each row holds its five
/// columns in its five lowest bits, the leftmost column in the highest of
/// them. The glyphs are the digits `0` to `9`, then `F P S W E L O M N C I`.
pub open spec fn glyph_rows(index: int) -> Seq<u8> {
    if index == 0 {
        seq![0b01110u8, 0b10001u8, 0b10001u8, 0b10001u8, 0b01110u8]
    } else if index == 1 {
        seq![0b00100u8, 0b01100u8, 0b00100u8, 0b00100u8, 0b01110u8]
    } else if index == 2 {
        seq![0b01110u8, 0b10001u8, 0b00110u8, 0b01000u8, 0b11111u8]
    } else if index == 3 {
        seq![0b01110u8, 0b10001u8, 0b00110u8, 0b10001u8, 0b01110u8]
    } else if index == 4 {
        seq![0b00010u8, 0b00110u8, 0b01010u8, 0b11111u8, 0b00010u8]
    } else if index == 5 {
        seq![0b11111u8, 0b10000u8, 0b11110u8, 0b00001u8, 0b11110u8]
    } else if index == 6 {
        seq![0b01110u8, 0b10000u8, 0b11110u8, 0b10001u8, 0b01110u8]
    } else if index == 7 {
        seq![0b11111u8, 0b00010u8, 0b00100u8, 0b01000u8, 0b10000u8]
    } else if index == 8 {
        seq![0b01110u8, 0b10001u8, 0b01110u8, 0b10001u8, 0b01110u8]
    } else if index == 9 {
        seq![0b01110u8, 0b10001u8, 0b01111u8, 0b00001u8, 0b01110u8]
    } else if index == 10 {
        seq![0b11111u8, 0b10000u8, 0b11110u8, 0b10000u8, 0b10000u8]
    } else if index == 11 {
        seq![0b11110u8, 0b10001u8, 0b11110u8, 0b10000u8, 0b10000u8]
    } else if index == 12 {
        seq![0b01111u8, 0b10000u8, 0b01110u8, 0b00001u8, 0b11110u8]
    } else if index == 13 {
        seq![0b10001u8, 0b10001u8, 0b10101u8, 0b10101u8, 0b01010u8]
    } else if index == 14 {
        seq![0b01110u8, 0b10000u8, 0b11110u8, 0b10000u8, 0b01110u8]
    } else if index == 15 {
        seq![0b10000u8, 0b10000u8, 0b10000u8, 0b10000u8, 0b11110u8]
    } else if index == 16 {
        seq![0b01110u8, 0b10001u8, 0b10001u8, 0b10001u8, 0b01110u8]
    } else if index == 17 {
        seq![0b11110u8, 0b10001u8, 0b10001u8, 0b10001u8, 0b10001u8]
    } else if index == 18 {
        seq![0b10001u8, 0b11001u8, 0b10101u8, 0b10011u8, 0b10001u8]
    } else if index == 19 {
        seq![0b01010u8, 0b11111u8, 0b10001u8, 0b10001u8, 0b10001u8]
    } else {
        seq![0b11111u8, 0b00100u8, 0b00100u8, 0b00100u8, 0b11111u8]
    }
}

/// The rows of the glyph `index`.
pub fn glyph(index: usize) -> (rows: [u8; 5])
    requires
        index < GLYPH_COUNT,
    ensures
        rows@ == glyph_rows(index as int),
{
    let rows: [u8; 5] = match index {
        0 => [0b01110, 0b10001, 0b10001, 0b10001, 0b01110],
        1 => [0b00100, 0b01100, 0b00100, 0b00100, 0b01110],
        2 => [0b01110, 0b10001, 0b00110, 0b01000, 0b11111],
        3 => [0b01110, 0b10001, 0b00110, 0b10001, 0b01110],
        4 => [0b00010, 0b00110, 0b01010, 0b11111, 0b00010],
        5 => [0b11111, 0b10000, 0b11110, 0b00001, 0b11110],
        6 => [0b01110, 0b10000, 0b11110, 0b10001, 0b01110],
        7 => [0b11111, 0b00010, 0b00100, 0b01000, 0b10000],
        8 => [0b01110, 0b10001, 0b01110, 0b10001, 0b01110],
        9 => [0b01110, 0b10001, 0b01111, 0b00001, 0b01110],
        10 => [0b11111, 0b10000, 0b11110, 0b10000, 0b10000],
        11 => [0b11110, 0b10001, 0b11110, 0b10000, 0b10000],
        12 => [0b01111, 0b10000, 0b01110, 0b00001, 0b11110],
        13 => [0b10001, 0b10001, 0b10101, 0b10101, 0b01010],
        14 => [0b01110, 0b10000, 0b11110, 0b10000, 0b01110],
        15 => [0b10000, 0b10000, 0b10000, 0b10000, 0b11110],
        16 => [0b01110, 0b10001, 0b10001, 0b10001, 0b01110],
        17 => [0b11110, 0b10001, 0b10001, 0b10001, 0b10001],
        18 => [0b10001, 0b11001, 0b10101, 0b10011, 0b10001],
        19 => [0b01010, 0b11111, 0b10001, 0b10001, 0b10001],
        _ => [0b11111, 0b00100, 0b00100, 0b00100, 0b11111],
    };
    assert(rows@ =~= glyph_rows(index as int));
    rows
}

/// Whether the column `col` of a glyph row is set.
pub open spec fn row_has(bits: u8, col: int) -> bool {
    bits & (1u8 << ((4 - col) as u8)) != 0
}

/// Whether the pixel at `(rx, ry)` from the corner of a glyph drawn at the
/// given scale lies in a cell of the glyph that is set. A glyph outside the
/// font, and a scale of zero, cover nothing.
pub open spec fn glyph_covers(index: int, scale: int, rx: int, ry: int) -> bool {
    &&& 0 <= index < GLYPH_COUNT
    &&& scale > 0
    &&& rx >= 0
    &&& ry >= 0
    &&& rx / scale < GLYPH_SIZE
    &&& ry / scale < GLYPH_SIZE
    &&& row_has(glyph_rows(index)[ry / scale], rx / scale)
}

/// Whether the pixel at `(rx, ry)` from a corner lies in the cell `(col, row)`
/// of a raster of squares of side `scale` that starts at that corner.
pub open spec fn in_cell(scale: int, col: int, row: int, rx: int, ry: int) -> bool {
    &&& scale > 0
    &&& rx >= 0
    &&& ry >= 0
    &&& rx / scale == col
    &&& ry / scale == row
}

/// A number lies in the `k`-th stretch of length `scale` exactly when its
/// quotient by `scale` is `k`.
proof fn lemma_stretch(v: int, scale: int, k: int)
    by (nonlinear_arith)
    requires
        scale > 0,
    ensures
        (k * scale <= v < k * scale + scale) <==> v / scale == k,
{
}

/// Fills the cell `(col, row)` of the raster that starts at `(x, y)`.
fn draw_cell(
    framebuffer: &mut Framebuffer,
    x: usize,
    y: usize,
    col: usize,
    row: usize,
    color: u32,
    scale: usize,
)
    ensures
        final(framebuffer)@.same_size(old(framebuffer)@),
        forall|i: int, j: int|
            old(framebuffer)@.contains(i, j) ==> #[trigger] final(framebuffer)@.at(i, j) == (
            if in_cell(scale as int, col as int, row as int, i - x, j - y) {
                color
            } else {
                old(framebuffer)@.at(i, j)
            }),
{
    proof {
        use_type_invariant(&*framebuffer);
    }
    let width: usize = framebuffer.width();
    let height: usize = framebuffer.height();
    let ghost before = framebuffer@;
    let left: Option<usize> = match col.checked_mul(scale) {
        Some(shift) => x.checked_add(shift),
        None => None,
    };
    let top: Option<usize> = match row.checked_mul(scale) {
        Some(shift) => y.checked_add(shift),
        None => None,
    };
    proof {
        assert forall|i: int, j: int| before.contains(i, j) implies (in_cell(
            scale as int,
            col as int,
            row as int,
            i - x,
            j - y,
        ) <==> scale > 0 && Canvas::in_rect(
            i,
            j,
            x + col * scale,
            y + row * scale,
            scale as int,
            scale as int,
        )) by {
            if scale > 0 {
                lemma_stretch(i - x, scale as int, col as int);
                lemma_stretch(j - y, scale as int, row as int);
            }
        }
    }
    match (left, top) {
        (Some(left), Some(top)) => {
            framebuffer.fill_rect(left, top, scale, scale, color);
        },
        _ => {},
    }
}

/// Colour of a pixel after the glyph `index` was drawn over it in `color`,
/// where `prev` was its colour before and `(rx, ry)` is its position from
/// the corner of the glyph.
pub open spec fn glyph_pixel(prev: u32, index: int, scale: int, color: u32, rx: int, ry: int) -> u32 {
    if glyph_covers(index, scale, rx, ry) {
        color
    } else {
        prev
    }
}

/// Draws the glyph `index` with its top-left corner at `(x, y)`, every cell
/// of the glyph as a square of side `scale`. An index outside the font
/// draws nothing; what falls outside the framebuffer is ignored.
pub fn draw_digit(
    framebuffer: &mut Framebuffer,
    x: usize,
    y: usize,
    index: usize,
    color: u32,
    scale: usize,
)
    ensures
        final(framebuffer)@.same_size(old(framebuffer)@),
        forall|i: int, j: int|
            old(framebuffer)@.contains(i, j) ==> #[trigger] final(framebuffer)@.at(i, j)
                == glyph_pixel(
                old(framebuffer)@.at(i, j),
                index as int,
                scale as int,
                color,
                i - x,
                j - y,
            ),
{
    proof {
        use_type_invariant(&*framebuffer);
    }
    if index >= GLYPH_COUNT {
        return ;
    }
    let rows: [u8; 5] = glyph(index);
    let mut row: usize = 0;
    while row < GLYPH_SIZE
        invariant
            framebuffer@.same_size(old(framebuffer)@),
            index < GLYPH_COUNT,
            rows@ == glyph_rows(index as int),
            row <= GLYPH_SIZE,
            forall|i: int, j: int|
                old(framebuffer)@.contains(i, j) ==> #[trigger] framebuffer@.at(i, j) == (
                if glyph_covers(index as int, scale as int, i - x, j - y) && (j - y) / (
                scale as int) < row {
                    color
                } else {
                    old(framebuffer)@.at(i, j)
                }),
        decreases GLYPH_SIZE - row,
    {
        let bits: u8 = rows[row];
        let mut col: usize = 0;
        while col < GLYPH_SIZE
            invariant
                framebuffer@.same_size(old(framebuffer)@),
                index < GLYPH_COUNT,
                rows@ == glyph_rows(index as int),
                row < GLYPH_SIZE,
                col <= GLYPH_SIZE,
                bits == glyph_rows(index as int)[row as int],
                forall|i: int, j: int|
                    old(framebuffer)@.contains(i, j) ==> #[trigger] framebuffer@.at(i, j) == (
                    if glyph_covers(index as int, scale as int, i - x, j - y) && ((j - y) / (
                    scale as int) < row || ((j - y) / (scale as int) == row && (i - x) / (
                    scale as int) < col)) {
                        color
                    } else {
                        old(framebuffer)@.at(i, j)
                    }),
            decreases GLYPH_SIZE - col,
        {
            let mask: u8 = 1u8 << ((4 - col) as u8);
            if bits & mask != 0 {
                draw_cell(framebuffer, x, y, col, row, color, scale);
            }
            col = col + 1;
        }
        row = row + 1;
    }
}

/// The glyph that stands for a character: the digits and the capital
/// letters `F P S W E L O M N C I` have one, no other character has.
pub open spec fn glyph_of(ch: char) -> Option<usize> {
    if '0' <= ch && ch <= '9' {
        Some((ch as int - '0' as int) as usize)
    } else if ch == 'F' {
        Some(10)
    } else if ch == 'P' {
        Some(11)
    } else if ch == 'S' {
        Some(12)
    } else if ch == 'W' {
        Some(13)
    } else if ch == 'E' {
        Some(14)
    } else if ch == 'L' {
        Some(15)
    } else if ch == 'O' {
        Some(16)
    } else if ch == 'M' {
        Some(17)
    } else if ch == 'N' {
        Some(18)
    } else if ch == 'C' {
        Some(19)
    } else if ch == 'I' {
        Some(20)
    } else {
        None
    }
}

/// The glyph that stands for a character, if it has one.
pub fn glyph_index(ch: char) -> (index: Option<usize>)
    ensures
        index == glyph_of(ch),
        index is Some ==> index->0 < GLYPH_COUNT,
{
    if '0' <= ch && ch <= '9' {
        Some((ch as u32 - '0' as u32) as usize)
    } else {
        match ch {
            'F' => Some(10),
            'P' => Some(11),
            'S' => Some(12),
            'W' => Some(13),
            'E' => Some(14),
            'L' => Some(15),
            'O' => Some(16),
            'M' => Some(17),
            'N' => Some(18),
            'C' => Some(19),
            'I' => Some(20),
            _ => None,
        }
    }
}

/// Colour of a pixel after `text` was drawn over it in `color`, where `prev`
/// was its colour before and `(rx, ry)` is its position from the corner of
/// the text. Each character that has a glyph is drawn `GLYPH_ADVANCE * scale`
/// pixels to the right of the one before; a character without a glyph is
/// skipped and takes no room.
pub open spec fn text_pixel(
    prev: u32,
    text: Seq<char>,
    scale: int,
    color: u32,
    rx: int,
    ry: int,
) -> u32
    decreases text.len(),
{
    if text.len() == 0 {
        prev
    } else {
        match glyph_of(text[0]) {
            Some(index) => text_pixel(
                glyph_pixel(prev, index as int, scale, color, rx, ry),
                text.drop_first(),
                scale,
                color,
                rx - GLYPH_ADVANCE * scale,
                ry,
            ),
            None => text_pixel(prev, text.drop_first(), scale, color, rx, ry),
        }
    }
}

/// A text leaves every pixel to the left of its corner as it was.
pub proof fn lemma_text_leaves_left(
    prev: u32,
    text: Seq<char>,
    scale: int,
    color: u32,
    rx: int,
    ry: int,
)
    requires
        rx < 0,
        scale >= 0,
    ensures
        text_pixel(prev, text, scale, color, rx, ry) == prev,
    decreases text.len(),
{
    if text.len() > 0 {
        assert(GLYPH_ADVANCE * scale >= 0) by (nonlinear_arith)
            requires
                scale >= 0,
        ;
        match glyph_of(text[0]) {
            Some(index) => {
                lemma_text_leaves_left(
                    prev,
                    text.drop_first(),
                    scale,
                    color,
                    rx - GLYPH_ADVANCE * scale,
                    ry,
                );
            },
            None => {
                lemma_text_leaves_left(prev, text.drop_first(), scale, color, rx, ry);
            },
        }
    }
}

/// Draws the characters `chars` from the top-left corner `(x, y)` on.
fn draw_chars(
    framebuffer: &mut Framebuffer,
    x: usize,
    y: usize,
    chars: &Vec<char>,
    color: u32,
    scale: usize,
)
    ensures
        final(framebuffer)@.same_size(old(framebuffer)@),
        forall|i: int, j: int|
            old(framebuffer)@.contains(i, j) ==> #[trigger] final(framebuffer)@.at(i, j)
                == text_pixel(old(framebuffer)@.at(i, j), chars@, scale as int, color, i - x, j - y),
{
    proof {
        use_type_invariant(&*framebuffer);
    }
    let width: usize = framebuffer.width();
    let mut left: usize = x;
    let ghost mut shift: int = 0;
    let mut k: usize = 0;
    assert(chars@.skip(0) =~= chars@);
    while k < chars.len()
        invariant
            framebuffer@.same_size(old(framebuffer)@),
            k <= chars@.len(),
            left == x + shift,
            shift >= 0,
            width == framebuffer@.width,
            forall|i: int, j: int|
                old(framebuffer)@.contains(i, j) ==> text_pixel(
                    #[trigger] framebuffer@.at(i, j),
                    chars@.skip(k as int),
                    scale as int,
                    color,
                    i - x - shift,
                    j - y,
                ) == text_pixel(old(framebuffer)@.at(i, j), chars@, scale as int, color, i - x, j - y),
        decreases chars@.len() - k,
    {
        let ghost rest = chars@.skip(k as int);
        assert(rest.len() > 0 && rest[0] == chars@[k as int]);
        assert(rest.drop_first() =~= chars@.skip(k + 1));
        match glyph_index(chars[k]) {
            Some(index) => {
                let ghost before = framebuffer@;
                draw_digit(framebuffer, left, y, index, color, scale);
                let next: Option<usize> = match GLYPH_ADVANCE.checked_mul(scale) {
                    Some(advance) => left.checked_add(advance),
                    None => None,
                };
                match next {
                    Some(next) => {
                        left = next;
                        proof {
                            shift = shift + GLYPH_ADVANCE * scale;
                        }
                    },
                    None => {
                        proof {
                            assert forall|i: int, j: int| old(framebuffer)@.contains(i, j) implies #[trigger] framebuffer@.at(
                                i,
                                j,
                            ) == text_pixel(
                                old(framebuffer)@.at(i, j),
                                chars@,
                                scale as int,
                                color,
                                i - x,
                                j - y,
                            ) by {
                                assert(left + GLYPH_ADVANCE * scale > usize::MAX);
                                assert(i < width);
                                lemma_text_leaves_left(
                                    framebuffer@.at(i, j),
                                    chars@.skip(k + 1),
                                    scale as int,
                                    color,
                                    i - x - shift - GLYPH_ADVANCE * scale,
                                    j - y,
                                );
                            }
                        }
                        return ;
                    },
                }
            },
            None => {},
        }
        k = k + 1;
    }
    assert(chars@.skip(k as int).len() == 0);
}

/// The characters of a string slice.
fn chars_of(text: &str) -> (chars: Vec<char>)
    ensures
        chars@ == text@,
{
    let count: usize = text.unicode_len();
    let mut chars: Vec<char> = Vec::new();
    let mut k: usize = 0;
    while k < count
        invariant
            count == text@.len(),
            k <= count,
            chars@ == text@.subrange(0, k as int),
        decreases count - k,
    {
        chars.push(text.get_char(k));
        assert(chars@ =~= text@.subrange(0, k + 1));
        k = k + 1;
    }
    assert(chars@ =~= text@);
    chars
}

/// Draws `text` with the top-left corner of its first glyph at `(x, y)`,
/// every glyph cell as a square of side `scale`. Characters without a glyph
/// are skipped; what falls outside the framebuffer is ignored.
pub fn draw_text(
    framebuffer: &mut Framebuffer,
    x: usize,
    y: usize,
    text: &str,
    color: u32,
    scale: usize,
)
    ensures
        final(framebuffer)@.same_size(old(framebuffer)@),
        forall|i: int, j: int|
            old(framebuffer)@.contains(i, j) ==> #[trigger] final(framebuffer)@.at(i, j)
                == text_pixel(old(framebuffer)@.at(i, j), text@, scale as int, color, i - x, j - y),
{
    let chars: Vec<char> = chars_of(text);
    draw_chars(framebuffer, x, y, &chars, color, scale);
}

/// Whether a text of `length` bytes drawn at `scale` is no wider and no
/// higher than the canvas.
pub open spec fn fits(canvas: Canvas, length: int, scale: int) -> bool {
    length * (GLYPH_ADVANCE * scale) <= canvas.width && GLYPH_SIZE * scale <= canvas.height
}

/// Column of the left edge of a centred text of `length` bytes.
pub open spec fn centered_left(canvas: Canvas, length: int, scale: int) -> int {
    (canvas.width - length * (GLYPH_ADVANCE * scale)) / 2
}

/// Row of the top edge of a centred text.
pub open spec fn centered_top(canvas: Canvas, scale: int) -> int {
    (canvas.height - GLYPH_SIZE * scale) / 2
}

/// Draws `text` in the middle of the framebuffer. The width of the text is
/// taken as `GLYPH_ADVANCE * scale` pixels for each of its bytes, its height
/// as `GLYPH_SIZE * scale` pixels. A text wider or higher than the
/// framebuffer is not drawn.
pub fn draw_centered_text(framebuffer: &mut Framebuffer, text: &str, color: u32, scale: usize)
    ensures
        final(framebuffer)@.same_size(old(framebuffer)@),
        forall|i: int, j: int|
            old(framebuffer)@.contains(i, j) ==> #[trigger] final(framebuffer)@.at(i, j) == (
            if fits(old(framebuffer)@, text.len() as int, scale as int) {
                text_pixel(
                    old(framebuffer)@.at(i, j),
                    text@,
                    scale as int,
                    color,
                    i - centered_left(old(framebuffer)@, text.len() as int, scale as int),
                    j - centered_top(old(framebuffer)@, scale as int),
                )
            } else {
                old(framebuffer)@.at(i, j)
            }),
{
    proof {
        use_type_invariant(&*framebuffer);
    }
    let width: usize = framebuffer.width();
    let height: usize = framebuffer.height();
    let length: usize = text.len();
    let text_width: Option<usize> = match GLYPH_ADVANCE.checked_mul(scale) {
        Some(char_width) => length.checked_mul(char_width),
        None => {
            proof {
                if length > 0 {
                    assert(length * (GLYPH_ADVANCE * scale) >= GLYPH_ADVANCE * scale)
                        by (nonlinear_arith)
                        requires
                            length >= 1,
                            GLYPH_ADVANCE * scale >= 0,
                    ;
                }
            }
            if length == 0 {
                Some(0)
            } else {
                None
            }
        },
    };
    let text_height: Option<usize> = GLYPH_SIZE.checked_mul(scale);
    match (text_width, text_height) {
        (Some(text_width), Some(text_height)) => {
            if text_width <= width && text_height <= height {
                let x_start: usize = (width - text_width) / 2;
                let y_start: usize = (height - text_height) / 2;
                draw_text(framebuffer, x_start, y_start, text, color, scale);
            }
        },
        _ => {},
    }
}

/// The character of a decimal digit.
pub open spec fn digit_char(digit: int) -> char {
    if digit == 0 {
        '0'
    } else if digit == 1 {
        '1'
    } else if digit == 2 {
        '2'
    } else if digit == 3 {
        '3'
    } else if digit == 4 {
        '4'
    } else if digit == 5 {
        '5'
    } else if digit == 6 {
        '6'
    } else if digit == 7 {
        '7'
    } else if digit == 8 {
        '8'
    } else {
        '9'
    }
}

/// The decimal digits of a number, most significant first.
pub open spec fn decimal(n: nat) -> Seq<char>
    decreases n,
{
    if n < 10 {
        seq![digit_char(n as int)]
    } else {
        decimal(n / 10).push(digit_char((n % 10) as int))
    }
}

/// The label of the frame counter: the number in decimal, then `FPS`.
pub open spec fn fps_label(fps: nat) -> Seq<char> {
    decimal(fps) + seq!['F', 'P', 'S']
}

/// Appends the decimal digits of `n` to `chars`.
fn push_decimal(chars: &mut Vec<char>, n: usize)
    ensures
        final(chars)@ == old(chars)@ + decimal(n as nat),
    decreases n,
{
    if n >= 10 {
        push_decimal(chars, n / 10);
    }
    let digit: char = match n % 10 {
        0 => '0',
        1 => '1',
        2 => '2',
        3 => '3',
        4 => '4',
        5 => '5',
        6 => '6',
        7 => '7',
        8 => '8',
        _ => '9',
    };
    chars.push(digit);
    assert(chars@ =~= old(chars)@ + decimal(n as nat));
}

/// Distance of the frame counter from the right edge of the framebuffer.
pub const FPS_MARGIN: usize = 70;

/// Row of the top edge of the frame counter.
pub const FPS_TOP: usize = 10;

/// Colour of the frame counter.
pub const FPS_COLOR: u32 = 0xFFFFFF;

/// Draws the frame counter, `fps` in decimal followed by `FPS`, at scale one
/// near the top-right corner. A framebuffer narrower than `FPS_MARGIN`
/// pixels is left as it was.
pub fn draw_fps(framebuffer: &mut Framebuffer, fps: usize)
    ensures
        final(framebuffer)@.same_size(old(framebuffer)@),
        forall|i: int, j: int|
            old(framebuffer)@.contains(i, j) ==> #[trigger] final(framebuffer)@.at(i, j) == (
            if old(framebuffer)@.width >= FPS_MARGIN {
                text_pixel(
                    old(framebuffer)@.at(i, j),
                    fps_label(fps as nat),
                    1,
                    FPS_COLOR,
                    i - (old(framebuffer)@.width - FPS_MARGIN),
                    j - FPS_TOP,
                )
            } else {
                old(framebuffer)@.at(i, j)
            }),
{
    proof {
        use_type_invariant(&*framebuffer);
    }
    let width: usize = framebuffer.width();
    if width >= FPS_MARGIN {
        let mut label: Vec<char> = Vec::new();
        push_decimal(&mut label, fps);
        label.push('F');
        label.push('P');
        label.push('S');
        assert(label@ =~= fps_label(fps as nat));
        draw_chars(framebuffer, width - FPS_MARGIN, FPS_TOP, &label, FPS_COLOR, 1);
    }
}

} // verus!
