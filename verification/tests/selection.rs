use voidsnap::selection::Selection;

fn dragged(x0: i64, y0: i64, x1: i64, y1: i64) -> Selection {
    Selection { start_x: x0, start_y: y0, end_x: x1, end_y: y1, active: true, done: false }
}

/// The rectangle worked out on positions in pixels.
fn in_pixels(s: &Selection) -> (i32, i32, i32, i32) {
    let at = |v: i64| v as f64 / 256.0;
    let x0 = at(s.start_x).min(at(s.end_x)) as i32;
    let y0 = at(s.start_y).min(at(s.end_y)) as i32;
    let x1 = at(s.start_x).max(at(s.end_x)) as i32;
    let y1 = at(s.start_y).max(at(s.end_y)) as i32;
    (x0, y0, (x1 - x0).max(1), (y1 - y0).max(1))
}

#[test]
fn rect_of_a_drag() {
    let s = dragged(10 * 256, 20 * 256, 110 * 256 + 255, 70 * 256 + 1);
    assert_eq!(s.rect(), (10, 20, 100, 50));
}

#[test]
fn rect_is_never_empty() {
    assert_eq!(Selection::default().rect(), (0, 0, 1, 1));
    assert_eq!(dragged(700, 700, 710, 710).rect(), (2, 2, 1, 1));
}

#[test]
fn rect_drops_fractions_towards_zero() {
    assert_eq!(dragged(-255, -257, 255, 257).rect(), (0, -1, 1, 2));
}

#[test]
fn rect_agrees_with_pixels() {
    let positions = [i32::MIN as i64, -70_000, -256, -255, -1, 0, 1, 255, 256, 1000, 490_000, i32::MAX as i64];
    for a in positions {
        for b in positions {
            let s = dragged(a, b, b, a);
            assert!(s.is_measurable());
            assert_eq!(s.rect(), in_pixels(&s));
        }
    }
}

#[test]
fn rect_ignores_direction() {
    let s = dragged(300, 9000, 7000, 1234);
    assert_eq!(s.rect(), dragged(7000, 9000, 300, 1234).rect());
    assert_eq!(s.rect(), dragged(300, 1234, 7000, 9000).rect());
    assert_eq!(s.rect(), dragged(7000, 1234, 300, 9000).rect());
}

#[test]
fn rect_holds_both_ends() {
    let s = dragged(300, 9000, 7000, 1234);
    let (x, y, w, h) = s.rect();
    for (px, py) in [(300 / 256, 9000 / 256), (7000 / 256, 1234 / 256)] {
        assert!(x <= px && px <= x + w);
        assert!(y <= py && py <= y + h);
    }
}

#[test]
fn rect_beyond_any_screen() {
    let far = dragged(i64::MIN, 0, i64::MAX, 0);
    assert!(!far.is_measurable());
    let right = dragged(0, 0, i64::MAX, 256 * 5);
    assert!(right.is_measurable());
    assert_eq!(right.rect(), (0, 0, i32::MAX, 5));
    assert_eq!(dragged(i64::MIN, 0, i64::MIN, 0).rect(), (i32::MIN, 0, 1, 1));
}
