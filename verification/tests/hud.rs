use voidsnap::font::glyph_for;
use voidsnap::hud::render_dimensions_hud;

/// A place, a size and the colour of each pixel, by drawing background and glyphs
/// one after the other.
fn by_layers(buf_w: i32, buf_h: i32, rect: (i32, i32, i32, i32), bg: u32, fg: u32, back: u32) -> Vec<u32> {
    let (sx, sy, sw, sh) = rect;
    let mut out = vec![back; (buf_w * buf_h) as usize];
    let label = format!("{}x{}", sw, sh);
    let text_w = 12 * label.len() as i32 - 2;
    let mut left = (sx + sw - text_w - 8).max(0);
    let mut top = sy + sh + 4;
    if top + 14 + 8 > buf_h {
        top = (sy - 14 - 8 - 4).max(0);
    }
    if left + text_w + 16 > buf_w {
        left = (buf_w - text_w - 16).max(0);
    }
    for y in top.max(0)..(top + 22).min(buf_h) {
        for x in left..(left + text_w + 16).min(buf_w) {
            out[(y * buf_w + x) as usize] = 0xDD00_0000 | bg & 0x00FF_FFFF;
        }
    }
    for (i, ch) in label.chars().enumerate() {
        let rows = match glyph_for(ch) {
            Some(rows) => rows,
            None => continue,
        };
        for gy in 0..7 {
            for gx in 0..5 {
                if rows[gy as usize] & (1 << (4 - gx)) == 0 {
                    continue;
                }
                for k in 0..4 {
                    let x = left + 8 + 12 * i as i32 + 2 * gx + k % 2;
                    let y = top + 4 + 2 * gy + k / 2;
                    if x < buf_w && 0 <= y && y < buf_h {
                        out[(y * buf_w + x) as usize] = fg;
                    }
                }
            }
        }
    }
    out
}

fn check_label(buf_w: i32, buf_h: i32, rect: (i32, i32, i32, i32)) {
    let (bg, fg, back) = (0x6612_3456, 0xFF00_FFFF, 0x0102_0304);
    let mut pixels = vec![back; (buf_w * buf_h) as usize];
    render_dimensions_hud(
        &mut pixels,
        buf_w as usize,
        buf_h as usize,
        rect.0,
        rect.1,
        rect.2,
        rect.3,
        bg,
        fg,
    );
    assert_eq!(pixels, by_layers(buf_w, buf_h, rect, bg, fg, back));
}

#[test]
fn glyphs_of_the_font() {
    assert_eq!(
        glyph_for('0'),
        Some([0b01110, 0b10001, 0b10011, 0b10101, 0b11001, 0b10001, 0b01110])
    );
    assert_eq!(
        glyph_for('1'),
        Some([0b00100, 0b01100, 0b00100, 0b00100, 0b00100, 0b00100, 0b01110])
    );
    assert_eq!(
        glyph_for('4'),
        Some([0b00010, 0b00110, 0b01010, 0b10010, 0b11111, 0b00010, 0b00010])
    );
    assert_eq!(
        glyph_for('7'),
        Some([0b11111, 0b00001, 0b00010, 0b00100, 0b01000, 0b01000, 0b01000])
    );
    assert_eq!(
        glyph_for('9'),
        Some([0b01110, 0b10001, 0b10001, 0b01111, 0b00001, 0b00010, 0b01100])
    );
    assert_eq!(
        glyph_for('x'),
        Some([0b00000, 0b10001, 0b01010, 0b00100, 0b01010, 0b10001, 0b00000])
    );
    assert_eq!(glyph_for('\u{d7}'), glyph_for('x'));
    for c in ['-', 'X', ' ', '/', ':', '\u{d6}', '\u{d8}'] {
        assert_eq!(glyph_for(c), None);
    }
    assert!(('0'..='9').all(|c| glyph_for(c).is_some()));
}

#[test]
fn label_below_the_selection() {
    check_label(200, 150, (20, 10, 100, 80));
}

#[test]
fn label_above_where_there_is_no_room_below() {
    check_label(200, 150, (20, 60, 100, 85));
}

#[test]
fn label_inside_where_there_is_no_room_at_all() {
    check_label(200, 150, (0, 0, 200, 150));
}

#[test]
fn label_moved_into_the_buffer() {
    check_label(200, 150, (190, 10, 10, 10));
    check_label(200, 150, (0, 10, 5, 10));
}

#[test]
fn label_cut_by_a_small_buffer() {
    check_label(30, 12, (2, 2, 1234, 5));
    check_label(5, 40, (0, 0, 3, 3));
}

#[test]
fn label_partly_above_the_buffer() {
    for sy in [-60, -40, -30, -26, -20] {
        check_label(120, 90, (10, sy, 30, 10));
    }
}

#[test]
fn label_with_every_digit() {
    check_label(400, 150, (10, 10, 13579, 24680));
}

#[test]
fn label_on_background_only() {
    // Nothing outside the label's background changes.
    let mut pixels = vec![7u32; 200 * 150];
    render_dimensions_hud(&mut pixels, 200, 150, 20, 10, 100, 80, 0, 9);
    for (i, px) in pixels.iter().enumerate() {
        let (x, y) = (i % 200, i / 200);
        // "100x80" is 70 wide: from 120 - 70 - 8 on, 94 to 116 down.
        let inside = (42..128).contains(&x) && (94..116).contains(&y);
        assert_eq!(*px != 7, inside);
    }
}

#[test]
fn label_without_buffer() {
    let mut pixels: Vec<u32> = vec![5; 3];
    render_dimensions_hud(&mut pixels, 0, 0, 1, 2, 3, 4, 5, 6);
    assert_eq!(pixels, vec![5, 5, 5]);
}

#[test]
fn label_of_an_extreme_selection() {
    let mut pixels = vec![5u32; 64 * 64];
    render_dimensions_hud(&mut pixels, 64, 64, i32::MAX, i32::MAX, i32::MAX, i32::MAX, 5, 6);
    render_dimensions_hud(&mut pixels, 64, 64, i32::MIN, i32::MIN, 1, 1, 5, 6);
    assert!(pixels.iter().all(|px| *px == 5));
}
