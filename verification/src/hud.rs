//! The label that shows the size of the selection.

use vstd::prelude::*;

use crate::color;
use crate::font;
use crate::raster;
use crate::text;

verus! {

/// Glyphs are drawn with blocks of this many pixels a side.
pub const SCALE: i64 = 2;

/// From the start of one glyph to the start of the next: its five columns and a
/// gap of one, drawn in blocks.
pub const ADVANCE: i64 = 12;

/// Width of a glyph on screen.
pub const GLYPH_SCREEN_W: i64 = 10;

/// Height of a glyph on screen.
pub const GLYPH_SCREEN_H: i64 = 14;

/// Space kept around the text, on the left and on the right.
pub const MARGIN: i64 = 8;

/// Space kept above the text, and below it.
pub const HALF_MARGIN: i64 = 4;

/// Distance between the selection and the label.
pub const GAP: i64 = 4;

/// A label for a selection, in a buffer of `buf_w` by `buf_h` pixels. The
/// selection starts at `sx`, `sy` and is `sw` wide and `sh` high.
pub struct Hud {
    pub buf_w: usize,
    pub buf_h: usize,
    pub sx: i32,
    pub sy: i32,
    pub sw: i32,
    pub sh: i32,
}

impl Hud {
    /// The text: width, an `x`, height.
    pub open spec fn label(self) -> Seq<char> {
        text::decimal(self.sw as int) + seq!['x'] + text::decimal(self.sh as int)
    }

    /// Width of the text on screen: no gap follows the last glyph.
    pub open spec fn text_w(self) -> int {
        ADVANCE * self.label().len() - (ADVANCE - GLYPH_SCREEN_W)
    }

    /// Left edge of the background: the text ends near the right edge of the
    /// selection, moved back when it would leave the buffer.
    pub open spec fn left(self) -> int {
        let wanted = vstd::math::max(self.sx + self.sw - self.text_w() - MARGIN, 0);
        let buf_w = raster::i32_of(self.buf_w as int);
        if wanted + self.text_w() + 2 * MARGIN > buf_w {
            vstd::math::max(buf_w - self.text_w() - 2 * MARGIN, 0)
        } else {
            wanted
        }
    }

    /// Top edge of the background: just below the selection, or above it when
    /// there is no room below.
    pub open spec fn top(self) -> int {
        let wanted = self.sy + self.sh + GAP;
        if wanted + GLYPH_SCREEN_H + MARGIN > raster::i32_of(self.buf_h as int) {
            vstd::math::max(self.sy - GLYPH_SCREEN_H - MARGIN - GAP, 0)
        } else {
            wanted
        }
    }

    /// Whether a pixel belongs to the background of the label.
    pub open spec fn in_pill(self, x: int, y: int) -> bool {
        &&& self.left() <= x < self.left() + self.text_w() + 2 * MARGIN
        &&& x < raster::i32_of(self.buf_w as int)
        &&& self.top() <= y < self.top() + GLYPH_SCREEN_H + MARGIN
        &&& y < raster::i32_of(self.buf_h as int)
    }

    /// Whether a pixel belongs to a glyph of the label.
    pub open spec fn lit(self, x: int, y: int) -> bool {
        let dx = x - (self.left() + MARGIN);
        let dy = y - (self.top() + HALF_MARGIN);
        &&& 0 <= dx < ADVANCE * self.label().len()
        &&& 0 <= dy < GLYPH_SCREEN_H
        &&& dx % (ADVANCE as int) < GLYPH_SCREEN_W
        &&& font::inked(
            self.label()[dx / (ADVANCE as int)],
            dx % (ADVANCE as int) / (SCALE as int),
            dy / (SCALE as int),
        )
    }

    /// The colour of a pixel once the label is drawn over `before`.
    pub open spec fn pixel(self, x: int, y: int, before: u32, bg_pill: u32, fg_color: u32) -> u32 {
        if self.lit(x, y) {
            fg_color
        } else if self.in_pill(x, y) {
            pill_color(bg_pill)
        } else {
            before
        }
    }

    /// A whole buffer once the label is drawn over `before`.
    pub open spec fn drawn(self, before: Seq<u32>, bg_pill: u32, fg_color: u32) -> Seq<u32> {
        Seq::new(
            before.len(),
            |i: int|
                {
                    let w = self.buf_w as int;
                    if w > 0 && raster::row_of(i, w) < self.buf_h {
                        self.pixel(
                            raster::col_of(i, w),
                            raster::row_of(i, w),
                            before[i],
                            bg_pill,
                            fg_color,
                        )
                    } else {
                        before[i]
                    }
                },
        )
    }

    /// The text of the label.
    fn write_label(&self) -> (label: Vec<char>)
        ensures
            label@ == self.label(),
            3 <= label@.len() <= 23,
    {
        let mut label: Vec<char> = Vec::new();
        text::push_decimal(&mut label, self.sw);
        label.push('x');
        text::push_decimal(&mut label, self.sh);
        proof {
            text::lemma_decimal_len(self.sw as int);
            text::lemma_decimal_len(self.sh as int);
            assert(label@ =~= self.label());
        }
        label
    }

    /// Whether a pixel belongs to a glyph, for a label at `left`, `top`.
    fn is_lit(&self, label: &Vec<char>, left: i64, top: i64, x: u64, y: u64) -> (r: bool)
        requires
            label@ == self.label(),
            label@.len() <= 23,
            left == self.left(),
            top == self.top(),
            0 <= left <= 0x1_0000_0000,
            -0x1_0000_0000 <= top <= 0x1_0000_0000,
            x <= 0x2_0000_0000,
            y <= 0x2_0000_0000,
        ensures
            r == self.lit(x as int, y as int),
    {
        let dx: i64 = x as i64 - (left + MARGIN);
        let dy: i64 = y as i64 - (top + HALF_MARGIN);
        if dx < 0 || dx >= ADVANCE * label.len() as i64 || dy < 0 || dy >= GLYPH_SCREEN_H {
            return false;
        }
        let across: u64 = dx as u64 % 12;
        let down: u64 = dy as u64;
        if across >= 10 {
            return false;
        }
        let ch: char = label[(dx as u64 / 12) as usize];
        font::has_ink(ch, (across / 2) as usize, (down / 2) as usize)
    }
}

/// The background colour of a label: the colour of `bg`, barely transparent.
pub open spec fn pill_color(bg: u32) -> u32 {
    color::packed(0xDD, color::red_of(bg), color::green_of(bg), color::blue_of(bg)) as u32
}

/// The label stays on its background: every pixel that drawing it can change, in
/// a buffer whose sides fit 31 bits, is a pixel of the background.
pub proof fn law_label_on_background(hud: Hud, x: int, y: int, before: u32, bg: u32, fg: u32)
    requires
        hud.buf_w <= i32::MAX,
        hud.buf_h <= i32::MAX,
        0 <= x < hud.buf_w,
        0 <= y < hud.buf_h,
    ensures
        hud.lit(x, y) ==> hud.in_pill(x, y),
        hud.pixel(x, y, before, bg, fg) != before ==> hud.in_pill(x, y),
{
}

/// The label lies beside the selection, not on it: below it where the buffer has
/// room there, else above it where there is room above.
pub proof fn law_label_beside_selection(hud: Hud, x: int, y: int)
    requires
        hud.buf_h <= i32::MAX,
        hud.in_pill(x, y),
    ensures
        hud.sy + hud.sh + GAP + GLYPH_SCREEN_H + MARGIN <= hud.buf_h ==> hud.sy + hud.sh < y,
        hud.sy + hud.sh + GAP + GLYPH_SCREEN_H + MARGIN > hud.buf_h && hud.sy >= GLYPH_SCREEN_H
            + MARGIN + GAP ==> y < hud.sy,
{
}

/// The label shows the decimal digits of the width, a cross, and the decimal digits
/// of the height, and nothing else.
pub proof fn law_label_shows_the_size(hud: Hud, at: int)
    requires
        hud.sw >= 0,
        hud.sh >= 0,
        at == text::digits(hud.sw as nat).len(),
    ensures
        0 < at < hud.label().len() - 1,
        hud.label()[at] == 'x',
        hud.label().take(at) == text::digits(hud.sw as nat),
        hud.label().skip(at + 1) == text::digits(hud.sh as nat),
        text::number(hud.label().take(at)) == hud.sw,
        text::number(hud.label().skip(at + 1)) == hud.sh,
{
    text::lemma_digits_read(hud.sw as nat);
    text::lemma_digits_read(hud.sh as nat);
    assert(hud.label().take(at) =~= text::digits(hud.sw as nat));
    assert(hud.label().skip(at + 1) =~= text::digits(hud.sh as nat));
}

/// Where the label stands. Each character takes twelve columns but for the last,
/// which takes ten, with eight columns of background on either side. The text ends
/// where the selection does, unless the label would leave the buffer; it stands four
/// rows below the selection, or four above it if there is no room below.
pub proof fn law_label_place(hud: Hud)
    requires
        hud.buf_w <= i32::MAX,
        hud.buf_h <= i32::MAX,
    ensures
        ({
            let w = 12 * hud.label().len() - 2;
            let end = hud.sx + hud.sw;
            let below = hud.sy + hud.sh;
            &&& hud.text_w() == w
            &&& end <= w + 8 ==> hud.left() == 0
            &&& end >= w + 8 && end + 8 <= hud.buf_w ==> hud.left() + 8 + w == end
            &&& end >= w + 8 && end + 8 > hud.buf_w && w + 16 <= hud.buf_w ==> hud.left() + w + 16
                == hud.buf_w
            &&& end >= w + 8 && end + 8 > hud.buf_w && w + 16 > hud.buf_w ==> hud.left() == 0
            &&& below + 26 <= hud.buf_h ==> hud.top() == below + 4
            &&& below + 26 > hud.buf_h && hud.sy >= 26 ==> hud.top() + 26 == hud.sy
            &&& below + 26 > hud.buf_h && hud.sy < 26 ==> hud.top() == 0
        }),
{
}

/// The background is the text with eight columns on either side and four rows above
/// and below, as far as the buffer reaches.
pub proof fn law_background_surrounds_text(hud: Hud, x: int, y: int)
    requires
        hud.buf_w <= i32::MAX,
        hud.buf_h <= i32::MAX,
    ensures
        hud.in_pill(x, y) <==> {
            &&& 0 <= x - hud.left() < 12 * hud.label().len() + 14
            &&& 0 <= y - hud.top() < 22
            &&& x < hud.buf_w
            &&& y < hud.buf_h
        },
{
}

/// The `i`-th character is drawn with its own glyph, each dot as a block of two by
/// two pixels, and with a gap of two columns after it.
pub proof fn law_characters_are_drawn(
    hud: Hud,
    i: int,
    col: int,
    row: int,
    across: int,
    down: int,
)
    requires
        0 <= i < hud.label().len(),
        0 <= row < 7,
        0 <= across < 2,
        0 <= down < 2,
    ensures
        ({
            let x = hud.left() + 8 + 12 * i + 2 * col + across;
            let y = hud.top() + 4 + 2 * row + down;
            &&& 0 <= col < 5 ==> (hud.lit(x, y) <==> font::inked(hud.label()[i], col, row))
            &&& col == 5 ==> !hud.lit(x, y)
        }),
{
    let dx = 12 * i + 2 * col + across;
    if 0 <= col < 6 {
        assert(dx / 12 == i);
        assert(dx % 12 == 2 * col + across);
        assert((2 * col + across) / 2 == col);
        assert((2 * row + down) / 2 == row);
    }
}

/// No pixel outside the text belongs to a character.
pub proof fn law_characters_stay_in_text(hud: Hud, x: int, y: int)
    requires
        hud.lit(x, y),
    ensures
        0 <= x - hud.left() - 8 < 12 * hud.label().len(),
        0 <= y - hud.top() - 4 < 14,
{
}

/// Drawing the label writes the given colour where there is a character, the colour
/// of `bg`, barely transparent, on the rest of its background, and nothing anywhere
/// else.
pub proof fn law_label_is_drawn(hud: Hud, before: Seq<u32>, bg: u32, fg: u32, x: int, y: int)
    requires
        0 <= x < hud.buf_w,
        0 <= y < hud.buf_h,
        hud.buf_w * hud.buf_h <= before.len(),
    ensures
        ({
            let px = hud.drawn(before, bg, fg)[y * hud.buf_w + x];
            &&& hud.drawn(before, bg, fg).len() == before.len()
            &&& hud.lit(x, y) ==> px == fg
            &&& !hud.lit(x, y) && hud.in_pill(x, y) ==> px == 0xDD00_0000 + bg as int % 0x100_0000
            &&& !hud.lit(x, y) && !hud.in_pill(x, y) ==> px == before[y * hud.buf_w + x]
        }),
{
    raster::lemma_index(x, y, hud.buf_w as int);
    raster::lemma_index_in_range(x, y, hud.buf_w as int, hud.buf_h as int);
    color::lemma_shift_reads(bg);
    color::law_channels_round_trip(bg, 0, 0, 0, 0);
    color::lemma_packed_reads(0xDD, color::red_of(bg), color::green_of(bg), color::blue_of(bg));
}

/// Drawing the label leaves what lies past the end of the buffer.
pub proof fn law_label_stays_in_buffer(hud: Hud, before: Seq<u32>, bg: u32, fg: u32, k: int)
    requires
        hud.buf_w * hud.buf_h <= k < before.len(),
    ensures
        hud.drawn(before, bg, fg)[k] == before[k],
{
    let (w, h) = (hud.buf_w as int, hud.buf_h as int);
    assert(0 <= w * h) by (nonlinear_arith)
        requires
            0 <= w,
            0 <= h,
    ;
    if w > 0 {
        raster::lemma_row_col(k, w);
        let y = raster::row_of(k, w);
        let x = raster::col_of(k, w);
        assert(y >= h) by (nonlinear_arith)
            requires
                w * h <= k,
                k == y * w + x,
                x < w,
                w > 0,
        ;
    }
}

/// Render a `WxH` label just below the selection rectangle's bottom-right corner,
/// above it where there is no room. The 5x7 font is drawn at twice its size.
///
/// Positions are computed in 64 bits, so no selection makes them overflow.
pub fn render_dimensions_hud(
    pixels: &mut [u32],
    buf_w: usize,
    buf_h: usize,
    sx: i32,
    sy: i32,
    sw: i32,
    sh: i32,
    bg_pill: u32,
    fg_color: u32,
)
    requires
        buf_w * buf_h <= old(pixels)@.len(),
    ensures
        final(pixels)@ == (Hud { buf_w, buf_h, sx, sy, sw, sh }).drawn(
            old(pixels)@,
            bg_pill,
            fg_color,
        ),
{
    let hud: Hud = Hud { buf_w, buf_h, sx, sy, sw, sh };
    let label: Vec<char> = hud.write_label();
    let text_w: i64 = ADVANCE * label.len() as i64 - (ADVANCE - GLYPH_SCREEN_W);
    let narrow_w: i64 = raster::narrow(buf_w as u64) as i64;
    let narrow_h: i64 = raster::narrow(buf_h as u64) as i64;

    let mut left: i64 = sx as i64 + sw as i64 - text_w - MARGIN;
    if left < 0 {
        left = 0;
    }
    if left + text_w + 2 * MARGIN > narrow_w {
        left = narrow_w - text_w - 2 * MARGIN;
        if left < 0 {
            left = 0;
        }
    }
    let mut top: i64 = sy as i64 + sh as i64 + GAP;
    if top + GLYPH_SCREEN_H + MARGIN > narrow_h {
        top = sy as i64 - GLYPH_SCREEN_H - MARGIN - GAP;
        if top < 0 {
            top = 0;
        }
    }
    assert(left == hud.left());
    assert(top == hud.top());

    proof {
        color::lemma_shift_reads(bg_pill);
    }
    let pill_bg: u32 = color::argb(
        0xDD,
        ((bg_pill >> 16) & 0xFF) as u8,
        ((bg_pill >> 8) & 0xFF) as u8,
        (bg_pill & 0xFF) as u8,
    );
    assert(pill_bg == pill_color(bg_pill));

    let x_start: u64 = left as u64;
    let mut x_end: u64 = (left + text_w + 2 * MARGIN) as u64;
    if x_end > buf_w as u64 {
        x_end = buf_w as u64;
    }
    let y_start: u64 = if top < 0 {
        0
    } else {
        top as u64
    };
    let mut y_end: u64 = if top + GLYPH_SCREEN_H + MARGIN < 0 {
        0
    } else {
        (top + GLYPH_SCREEN_H + MARGIN) as u64
    };
    if y_end > buf_h as u64 {
        y_end = buf_h as u64;
    }

    let len: usize = pixels.len();
    let ghost before = pixels@;
    let ghost target = hud.drawn(before, bg_pill, fg_color);
    let ghost w = buf_w as int;
    let mut y: u64 = y_start;
    while y < y_end
        invariant
            hud == (Hud { buf_w, buf_h, sx, sy, sw, sh }),
            label@ == hud.label(),
            3 <= label@.len() <= 23,
            text_w == hud.text_w(),
            left == hud.left(),
            top == hud.top(),
            narrow_w == raster::i32_of(buf_w as int),
            narrow_h == raster::i32_of(buf_h as int),
            0 <= left <= 0x1_0000_0000,
            -0x1_0000_0000 <= top <= 0x1_0000_0000,
            pill_bg == pill_color(bg_pill),
            x_start == left,
            x_end <= buf_w,
            x_end <= left + text_w + 2 * MARGIN,
            x_end == buf_w || x_end == left + text_w + 2 * MARGIN,
            y_start >= top,
            y_start == 0 || y_start == top,
            y_end <= buf_h,
            y_end <= 0x2_0000_0000,
            y_end == 0 || y_end <= top + GLYPH_SCREEN_H + MARGIN,
            y_end == 0 || y_end == buf_h || y_end == top + GLYPH_SCREEN_H + MARGIN,
            y_end == 0 ==> top + GLYPH_SCREEN_H + MARGIN <= 0 || buf_h == 0,
            y_start <= y,
            y <= y_end || y == y_start,
            w == buf_w,
            buf_w * buf_h <= before.len(),
            before.len() == pixels@.len() == len,
            target == hud.drawn(before, bg_pill, fg_color),
            forall|i: int|
                0 <= i < before.len() ==> #[trigger] pixels@[i] == (if w > 0 && raster::row_of(i, w)
                    < y {
                    target[i]
                } else {
                    before[i]
                }),
        decreases y_end - y,
    {
        let mut x: u64 = x_start;
        while x < x_end
            invariant
                hud == (Hud { buf_w, buf_h, sx, sy, sw, sh }),
                label@ == hud.label(),
                3 <= label@.len() <= 23,
                text_w == hud.text_w(),
                left == hud.left(),
                top == hud.top(),
                narrow_w == raster::i32_of(buf_w as int),
                narrow_h == raster::i32_of(buf_h as int),
                0 <= left <= 0x1_0000_0000,
                -0x1_0000_0000 <= top <= 0x1_0000_0000,
                pill_bg == pill_color(bg_pill),
                x_start == left,
                x_end <= buf_w,
                x_end <= left + text_w + 2 * MARGIN,
                x_start <= x,
                x <= x_end || x == x_start,
                y < y_end,
                top <= y,
                y_end <= buf_h,
                y_end <= 0x2_0000_0000,
                y_end <= top + GLYPH_SCREEN_H + MARGIN,
                w == buf_w,
                buf_w * buf_h <= before.len(),
                before.len() == pixels@.len() == len,
                target == hud.drawn(before, bg_pill, fg_color),
                forall|i: int|
                    0 <= i < before.len() ==> #[trigger] pixels@[i] == (if w > 0 && (raster::row_of(
                        i,
                        w,
                    ) < y || raster::row_of(i, w) == y && raster::col_of(i, w) < x) {
                        target[i]
                    } else {
                        before[i]
                    }),
            decreases x_end - x,
        {
            let lit: bool = hud.is_lit(&label, left, top, x, y);
            let in_pill: bool = (x as i64) < narrow_w && (y as i64) < narrow_h;
            proof {
                raster::lemma_index_in_range(x as int, y as int, w, buf_h as int);
                raster::lemma_index(x as int, y as int, w);
                assert(0 <= y * buf_w) by (nonlinear_arith);
            }
            let at: usize = y as usize * buf_w + x as usize;
            let ghost held = pixels@;
            assert(target[at as int] == hud.pixel(
                x as int,
                y as int,
                before[at as int],
                bg_pill,
                fg_color,
            ));
            if lit {
                pixels[at] = fg_color;
            } else if in_pill {
                pixels[at] = pill_bg;
            }
            assert forall|i: int| 0 <= i < before.len() implies #[trigger] pixels@[i] == (if w > 0
                && (raster::row_of(i, w) < y || raster::row_of(i, w) == y && raster::col_of(i, w)
                < x + 1) {
                target[i]
            } else {
                before[i]
            }) by {
                raster::lemma_row_col(i, w);
                assert(i != at ==> pixels@[i] == held[i]);
            }
            x += 1;
        }
        assert forall|i: int| 0 <= i < before.len() implies #[trigger] pixels@[i] == (if w > 0
            && raster::row_of(i, w) < y + 1 {
            target[i]
        } else {
            before[i]
        }) by {
            if w > 0 {
                raster::lemma_row_col(i, w);
            }
        }
        y += 1;
    }
    assert(pixels@ =~= target) by {
        assert forall|i: int| 0 <= i < before.len() implies pixels@[i] == target[i] by {
            if w > 0 {
                raster::lemma_row_col(i, w);
            }
        }
    }
}

} // verus!
