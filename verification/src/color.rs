//! Packed 32-bit colours, `0xAARRGGBB`.

use vstd::prelude::*;

verus! {

/// The packed value of four channels, each in `0..=255`.
pub open spec fn packed(a: int, r: int, g: int, b: int) -> int {
    a * 0x100_0000 + r * 0x1_0000 + g * 0x100 + b
}

/// The alpha channel of a packed colour.
pub open spec fn alpha_of(px: u32) -> int {
    px as int / 0x100_0000
}

/// The red channel of a packed colour.
pub open spec fn red_of(px: u32) -> int {
    px as int / 0x1_0000 % 0x100
}

/// The green channel of a packed colour.
pub open spec fn green_of(px: u32) -> int {
    px as int / 0x100 % 0x100
}

/// The blue channel of a packed colour.
pub open spec fn blue_of(px: u32) -> int {
    px as int % 0x100
}

/// One channel of `fg` laid over `bg` with coverage `a` out of 255.
pub open spec fn mixed(bg: int, fg: int, a: int) -> int {
    (bg * (255 - a) + fg * a) / 255
}

/// The colour seen when `fg` is laid over `bg`: a fully transparent `fg` leaves
/// `bg`, an opaque one hides it, and anything between mixes the colour channels
/// and keeps the stronger alpha.
pub open spec fn blended(bg: u32, fg: u32) -> u32 {
    let a = alpha_of(fg);
    if a == 0 {
        bg
    } else if a == 255 {
        fg
    } else {
        packed(
            if alpha_of(bg) >= a {
                alpha_of(bg)
            } else {
                a
            },
            mixed(red_of(bg), red_of(fg), a),
            mixed(green_of(bg), green_of(fg), a),
            mixed(blue_of(bg), blue_of(fg), a),
        ) as u32
    }
}

/// Shifting four bytes into place packs them.
pub(crate) proof fn lemma_shift_packs(a: u32, r: u32, g: u32, b: u32)
    requires
        a < 0x100,
        r < 0x100,
        g < 0x100,
        b < 0x100,
    ensures
        (a << 24 | r << 16 | g << 8 | b) == packed(a as int, r as int, g as int, b as int),
{
    assert((a << 24 | r << 16 | g << 8 | b) == a * 0x100_0000 + r * 0x1_0000 + g * 0x100 + b)
        by (bit_vector)
        requires
            a < 0x100,
            r < 0x100,
            g < 0x100,
            b < 0x100,
    ;
}

/// Shifting and masking reads the channels back.
pub(crate) proof fn lemma_shift_reads(px: u32)
    ensures
        (px >> 24) & 0xFF == alpha_of(px),
        (px >> 16) & 0xFF == red_of(px),
        (px >> 8) & 0xFF == green_of(px),
        px & 0xFF == blue_of(px),
        0 <= alpha_of(px) < 0x100,
        0 <= red_of(px) < 0x100,
        0 <= green_of(px) < 0x100,
        0 <= blue_of(px) < 0x100,
{
    assert((px >> 24) & 0xFF == px / 0x100_0000) by (bit_vector);
    assert((px >> 16) & 0xFF == px / 0x1_0000 % 0x100) by (bit_vector);
    assert((px >> 8) & 0xFF == px / 0x100 % 0x100) by (bit_vector);
    assert(px & 0xFF == px % 0x100) by (bit_vector);
}

/// A channel mix lies between the two channels it mixes.
pub proof fn lemma_mixed_between(bg: int, fg: int, a: int)
    requires
        0 <= a <= 255,
    ensures
        bg <= fg ==> bg <= mixed(bg, fg, a) <= fg,
        fg <= bg ==> fg <= mixed(bg, fg, a) <= bg,
{
    let n = bg * (255 - a) + fg * a;
    assert(n == 255 * bg + (fg - bg) * a) by (nonlinear_arith)
        requires
            n == bg * (255 - a) + fg * a,
    ;
    if bg <= fg {
        assert(0 <= (fg - bg) * a <= (fg - bg) * 255) by (nonlinear_arith)
            requires
                0 <= a <= 255,
                bg <= fg,
        ;
    } else {
        assert((fg - bg) * 255 <= (fg - bg) * a <= 0) by (nonlinear_arith)
            requires
                0 <= a <= 255,
                fg < bg,
        ;
    }
}

/// Packing channels and reading them back is the identity, both ways.
pub proof fn law_channels_round_trip(px: u32, a: u8, r: u8, g: u8, b: u8)
    ensures
        packed(alpha_of(px), red_of(px), green_of(px), blue_of(px)) == px,
        alpha_of(packed(a as int, r as int, g as int, b as int) as u32) == a,
        red_of(packed(a as int, r as int, g as int, b as int) as u32) == r,
        green_of(packed(a as int, r as int, g as int, b as int) as u32) == g,
        blue_of(packed(a as int, r as int, g as int, b as int) as u32) == b,
{
    lemma_packed_reads(a as int, r as int, g as int, b as int);
    assert(px / 0x100_0000 * 0x100_0000 + px / 0x1_0000 % 0x100 * 0x1_0000 + px / 0x100 % 0x100
        * 0x100 + px % 0x100 == px) by (bit_vector);
}

/// A colour is a number of four digits to the base 256: alpha, red, green, blue,
/// from the most to the least significant.
pub proof fn law_channels_are_digits(px: u32)
    ensures
        px == alpha_of(px) * 0x100_0000 + red_of(px) * 0x1_0000 + green_of(px) * 0x100 + blue_of(
            px,
        ),
        0 <= alpha_of(px) <= 255,
        0 <= red_of(px) <= 255,
        0 <= green_of(px) <= 255,
        0 <= blue_of(px) <= 255,
{
    law_channels_round_trip(px, 0, 0, 0, 0);
    lemma_shift_reads(px);
}

/// A mixed channel is the weighted mean of the two channels, rounded down.
pub proof fn law_mix_is_weighted_mean(bg: int, fg: int, a: int)
    ensures
        255 * mixed(bg, fg, a) <= bg * (255 - a) + fg * a,
        bg * (255 - a) + fg * a < 255 * (mixed(bg, fg, a) + 1),
{
}

/// Laying a colour over another, written out over the channels of both: nothing for
/// a transparent one, all of it for an opaque one, and for any alpha between the
/// mean of each channel, weighted by alpha and rounded down, with the larger of the
/// two alphas.
pub proof fn law_blend_is_weighted_mean(
    bg_a: u8,
    bg_r: u8,
    bg_g: u8,
    bg_b: u8,
    a: u8,
    r: u8,
    g: u8,
    b: u8,
)
    ensures
        ({
            let bg = (bg_a * 0x100_0000 + bg_r * 0x1_0000 + bg_g * 0x100 + bg_b) as u32;
            let fg = (a * 0x100_0000 + r * 0x1_0000 + g * 0x100 + b) as u32;
            let px = blended(bg, fg) as int;
            let top = px / 0x100_0000;
            let red = px / 0x1_0000 % 0x100;
            let green = px / 0x100 % 0x100;
            let blue = px % 0x100;
            &&& a == 0 ==> px == bg
            &&& a == 255 ==> px == fg
            &&& 0 < a < 255 ==> {
                &&& top == (if bg_a < a {
                    a
                } else {
                    bg_a
                })
                &&& 255 * red <= bg_r * (255 - a) + r * a < 255 * (red + 1)
                &&& 255 * green <= bg_g * (255 - a) + g * a < 255 * (green + 1)
                &&& 255 * blue <= bg_b * (255 - a) + b * a < 255 * (blue + 1)
            }
        }),
{
    let bg = (bg_a * 0x100_0000 + bg_r * 0x1_0000 + bg_g * 0x100 + bg_b) as u32;
    let fg = (a * 0x100_0000 + r * 0x1_0000 + g * 0x100 + b) as u32;
    lemma_packed_reads(bg_a as int, bg_r as int, bg_g as int, bg_b as int);
    lemma_packed_reads(a as int, r as int, g as int, b as int);
    assert(bg == packed(bg_a as int, bg_r as int, bg_g as int, bg_b as int) as u32);
    assert(fg == packed(a as int, r as int, g as int, b as int) as u32);
    lemma_mixed_between(bg_r as int, r as int, a as int);
    lemma_mixed_between(bg_g as int, g as int, a as int);
    lemma_mixed_between(bg_b as int, b as int, a as int);
    law_mix_is_weighted_mean(bg_r as int, r as int, a as int);
    law_mix_is_weighted_mean(bg_g as int, g as int, a as int);
    law_mix_is_weighted_mean(bg_b as int, b as int, a as int);
    if 0 < a < 255 {
        lemma_packed_reads(
            if bg_a >= a {
                bg_a as int
            } else {
                a as int
            },
            mixed(bg_r as int, r as int, a as int),
            mixed(bg_g as int, g as int, a as int),
            mixed(bg_b as int, b as int, a as int),
        );
    }
}

/// Reading the channels of a packed colour.
pub(crate) proof fn lemma_packed_reads(a: int, r: int, g: int, b: int)
    requires
        0 <= a < 0x100,
        0 <= r < 0x100,
        0 <= g < 0x100,
        0 <= b < 0x100,
    ensures
        0 <= packed(a, r, g, b) <= u32::MAX,
        alpha_of(packed(a, r, g, b) as u32) == a,
        red_of(packed(a, r, g, b) as u32) == r,
        green_of(packed(a, r, g, b) as u32) == g,
        blue_of(packed(a, r, g, b) as u32) == b,
{
    let (wa, wr, wg, wb) = (a as u32, r as u32, g as u32, b as u32);
    let px = wa << 24 | wr << 16 | wg << 8 | wb;
    lemma_shift_packs(wa, wr, wg, wb);
    lemma_shift_reads(px);
    assert((px >> 24) & 0xFF == wa && (px >> 16) & 0xFF == wr && (px >> 8) & 0xFF == wg && px & 0xFF
        == wb) by (bit_vector)
        requires
            px == wa << 24 | wr << 16 | wg << 8 | wb,
            wa < 0x100,
            wr < 0x100,
            wg < 0x100,
            wb < 0x100,
    ;
}

/// Laying one colour over another never takes a channel outside the range
/// between the two, and never lowers alpha below either.
pub proof fn law_blend_between(bg: u32, fg: u32)
    ensures
        alpha_of(blended(bg, fg)) >= alpha_of(fg),
        alpha_of(blended(bg, fg)) >= alpha_of(bg),
        red_of(bg) <= red_of(blended(bg, fg)) <= red_of(fg) || red_of(fg) <= red_of(
            blended(bg, fg),
        ) <= red_of(bg),
        green_of(bg) <= green_of(blended(bg, fg)) <= green_of(fg) || green_of(fg) <= green_of(
            blended(bg, fg),
        ) <= green_of(bg),
        blue_of(bg) <= blue_of(blended(bg, fg)) <= blue_of(fg) || blue_of(fg) <= blue_of(
            blended(bg, fg),
        ) <= blue_of(bg),
{
    let a = alpha_of(fg);
    lemma_shift_reads(bg);
    lemma_shift_reads(fg);
    lemma_mixed_between(red_of(bg), red_of(fg), a);
    lemma_mixed_between(green_of(bg), green_of(fg), a);
    lemma_mixed_between(blue_of(bg), blue_of(fg), a);
    if 0 < a < 255 {
        lemma_packed_reads(
            if alpha_of(bg) >= a {
                alpha_of(bg)
            } else {
                a
            },
            mixed(red_of(bg), red_of(fg), a),
            mixed(green_of(bg), green_of(fg), a),
            mixed(blue_of(bg), blue_of(fg), a),
        );
    }
}

/// Pack components into a single ARGB8888 pixel value.
pub fn argb(a: u8, r: u8, g: u8, b: u8) -> (px: u32)
    ensures
        px == packed(a as int, r as int, g as int, b as int),
        px == a * 0x100_0000 + r * 0x1_0000 + g * 0x100 + b,
{
    proof {
        lemma_shift_packs(a as u32, r as u32, g as u32, b as u32);
    }
    (a as u32) << 24 | (r as u32) << 16 | (g as u32) << 8 | b as u32
}

/// Alpha-blend `fg` over `bg` (both ARGB8888).
pub fn blend(bg: u32, fg: u32) -> (px: u32)
    ensures
        px == blended(bg, fg),
        fg < 0x100_0000 ==> px == bg,
        fg >= 0xFF00_0000 ==> px == fg,
        0x100_0000 <= fg < 0xFF00_0000 ==> {
            let a = fg as int / 0x100_0000;
            let red = px as int / 0x1_0000 % 0x100;
            let green = px as int / 0x100 % 0x100;
            let blue = px as int % 0x100;
            &&& 255 * red <= bg as int / 0x1_0000 % 0x100 * (255 - a) + fg as int / 0x1_0000 % 0x100
                * a < 255 * (red + 1)
            &&& 255 * green <= bg as int / 0x100 % 0x100 * (255 - a) + fg as int / 0x100 % 0x100 * a
                < 255 * (green + 1)
            &&& 255 * blue <= bg as int % 0x100 * (255 - a) + fg as int % 0x100 * a < 255 * (blue
                + 1)
            &&& px as int / 0x100_0000 == vstd::math::max(bg as int / 0x100_0000, a)
        },
{
    proof {
        law_channels_are_digits(bg);
        law_channels_are_digits(fg);
        law_blend_is_weighted_mean(
            alpha_of(bg) as u8,
            red_of(bg) as u8,
            green_of(bg) as u8,
            blue_of(bg) as u8,
            alpha_of(fg) as u8,
            red_of(fg) as u8,
            green_of(fg) as u8,
            blue_of(fg) as u8,
        );
        lemma_shift_reads(bg);
        lemma_shift_reads(fg);
    }
    let fg_a: u32 = (fg >> 24) & 0xFF;
    if fg_a == 0 {
        return bg;
    }
    if fg_a == 255 {
        return fg;
    }
    let r: u32 = mix((bg >> 16) & 0xFF, (fg >> 16) & 0xFF, fg_a);
    let g: u32 = mix((bg >> 8) & 0xFF, (fg >> 8) & 0xFF, fg_a);
    let b: u32 = mix(bg & 0xFF, fg & 0xFF, fg_a);
    let bg_a: u32 = (bg >> 24) & 0xFF;
    let a: u32 = if bg_a >= fg_a {
        bg_a
    } else {
        fg_a
    };
    proof {
        lemma_shift_packs(a, r, g, b);
    }
    (a << 24) | (r << 16) | (g << 8) | b
}

/// Mix one channel, `fg` covering `a` parts of 255.
fn mix(bg: u32, fg: u32, a: u32) -> (c: u32)
    requires
        bg < 0x100,
        fg < 0x100,
        a <= 255,
    ensures
        c == mixed(bg as int, fg as int, a as int),
        c < 0x100,
{
    proof {
        lemma_mixed_between(bg as int, fg as int, a as int);
        assert(0 <= bg * (255 - a) <= 255 * 255) by (nonlinear_arith)
            requires
                bg < 0x100,
                a <= 255,
        ;
        assert(0 <= fg * a <= 255 * 255) by (nonlinear_arith)
            requires
                fg < 0x100,
                a <= 255,
        ;
    }
    (bg * (255 - a) + fg * a) / 255
}

} // verus!
