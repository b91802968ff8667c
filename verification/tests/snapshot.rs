use voidsnap::config::{Opacity, ResolvedConfig};
use voidsnap::overlay::draw_overlay;
use voidsnap::pixels::crop_frozen;
use voidsnap::selection::Selection;
use voidsnap::snapshot::{
    encode_png, encoded, outcome, screenshot_filename, EncodeError, LocalTime, Outcome,
};
use voidsnap::wayland::{AppState, KeyboardEvent, KEY_A};

fn app() -> AppState {
    AppState::new(&ResolvedConfig {
        save_directory: b"/tmp".to_vec(),
        copy_to_clipboard: false,
        border_color: [0, 255, 255, 255],
        border_width: 1,
        overlay_color: [0x0D, 0x0B, 0x14],
        overlay_opacity: Opacity { bits: 0 },
        overlay_idle_opacity: Opacity { bits: 0 },
        freeze_frame: true,
        show_dimensions: false,
    })
}

fn selected(x0: i64, y0: i64, x1: i64, y1: i64) -> Selection {
    Selection {
        start_x: x0 * 256,
        start_y: y0 * 256,
        end_x: x1 * 256,
        end_y: y1 * 256,
        active: false,
        done: true,
    }
}

fn at(year: i32, month: u32, day: u32, hour: u32, minute: u32, second: u32) -> LocalTime {
    LocalTime { year, month, day, hour, minute, second, nanosecond: 0 }
}

fn name(time: LocalTime) -> String {
    screenshot_filename(&time).unwrap()
}

#[test]
fn what_to_do_in_the_end() {
    let mut state = app();
    assert_eq!(outcome(&state), Outcome::Cancelled);
    state.overlay.selection = selected(3, 4, 13, 24);
    assert_eq!(outcome(&state), Outcome::CaptureLive { rect: (3, 4, 10, 20) });
    state.frozen_buffer = Some(vec![]);
    assert_eq!(outcome(&state), Outcome::CropFrozen { rect: (3, 4, 10, 20) });
    state.overlay.selection.done = false;
    state.overlay.selection.active = true;
    assert_eq!(outcome(&state), Outcome::Cancelled);
}

#[test]
fn what_is_seen_is_saved() {
    let frozen: Vec<u32> = (0..60 * 50).map(|i| 0xFF00_0000 | i * 0x1357).collect();
    let mut state = app();
    state.overlay.width = 60;
    state.overlay.height = 50;
    state.overlay.buffer_data = true;
    state.overlay.selection = selected(10, 8, 50, 40);
    state.frozen_buffer = Some(frozen.clone());
    state.frozen_width = 60;
    state.frozen_height = 50;
    let mut shown = vec![0u32; 60 * 50];
    draw_overlay(&mut state, &mut shown, 100, 200);
    let (sx, sy, sw, sh) = match outcome(&state) {
        Outcome::CropFrozen { rect } => rect,
        other => panic!("{:?}", other),
    };
    let (rgba, w, h) = crop_frozen(&frozen, 60, 50, sx, sy, sw, sh);
    assert_eq!((w, h), (40, 32));
    for y in 6..26usize {
        for x in 6..34usize {
            let px = shown[(y + 8) * 60 + x + 10];
            let i = 4 * (y * 40 + x);
            assert_eq!(rgba[i..i + 4], [(px >> 16) as u8, (px >> 8) as u8, px as u8, 255]);
        }
    }
}

#[test]
fn everything_selected_is_everything_saved() {
    let frozen: Vec<u32> = (0..20 * 10).map(|i| i * 0x0101_0305).collect();
    let mut state = app();
    state.overlay.width = 20;
    state.overlay.height = 10;
    state.frozen_buffer = Some(frozen.clone());
    state.handle_keyboard(KeyboardEvent::Key { key: KEY_A, pressed: true });
    let (sx, sy, sw, sh) = match outcome(&state) {
        Outcome::CropFrozen { rect } => rect,
        other => panic!("{:?}", other),
    };
    let (rgba, w, h) = crop_frozen(&frozen, 20, 10, sx, sy, sw, sh);
    assert_eq!((w, h), (20, 10));
    let expected: Vec<u8> = frozen
        .iter()
        .flat_map(|px| [(px >> 16) as u8, (px >> 8) as u8, *px as u8, (px >> 24) as u8])
        .collect();
    assert_eq!(rgba, expected);
}

#[test]
fn pictures_are_empty_beside_the_frame() {
    for (x0, y0, x1, y1) in [
        (0, 0, 0, 0),
        (5, 5, 300, 2),
        (100, 100, 100, 100),
        (99, 0, 7, 99),
        (-20, -20, -10, -10),
        (-20, -20, 0, 1),
        (-20, -20, 1, 0),
    ] {
        let (sx, sy, sw, sh) = selected(x0, y0, x1, y1).rect();
        let (rgba, w, h) = crop_frozen(&[0; 200], 20, 10, sx, sy, sw, sh);
        assert_eq!(rgba.len(), 4 * (w * h) as usize);
        assert_eq!(w > 0, sx < 20 && sx + sw > 0);
        assert_eq!(h > 0, sy < 10 && sy + sh > 0);
    }
}

#[test]
fn what_is_seen_is_saved_past_the_edge() {
    let frozen: Vec<u32> = (0..60 * 50).map(|i| 0xFF00_0000 | i * 0x1357).collect();
    let mut state = app();
    state.overlay.width = 60;
    state.overlay.height = 50;
    state.overlay.buffer_data = true;
    state.overlay.selection = selected(-10, -8, 50, 40);
    state.frozen_buffer = Some(frozen.clone());
    state.frozen_width = 60;
    state.frozen_height = 50;
    let mut shown = vec![0u32; 60 * 50];
    draw_overlay(&mut state, &mut shown, 100, 200);
    let (rgba, w, h) = crop_frozen(&frozen, 60, 50, -10, -8, 60, 48);
    assert_eq!((w, h), (50, 40));
    for y in 0..34usize {
        for x in 0..44usize {
            let px = shown[y * 60 + x];
            let i = 4 * (y * 50 + x);
            assert_eq!(rgba[i..i + 4], [(px >> 16) as u8, (px >> 8) as u8, px as u8, 255]);
        }
    }
}

#[test]
fn png_reads_back() {
    let rgba: Vec<u8> = (0..4 * 5 * 3).map(|i| (i * 37 + 11) as u8).collect();
    let file = encode_png(5, 3, rgba.clone()).unwrap();
    assert_eq!(file[..8], [0x89, b'P', b'N', b'G', 13, 10, 26, 10]);
    assert_ne!(file, rgba);
    let img = image::load_from_memory_with_format(&file, image::ImageFormat::Png)
        .unwrap()
        .into_rgba8();
    assert_eq!(img.dimensions(), (5, 3));
    assert_eq!(img.into_raw(), rgba);
}

#[test]
fn png_is_the_same_every_time() {
    let rgba = vec![9u8; 4 * 64 * 64];
    assert_eq!(
        encode_png(64, 64, rgba.clone()).unwrap(),
        encode_png(64, 64, rgba).unwrap()
    );
}

#[test]
fn png_of_more_bytes_than_needed() {
    let file = encode_png(1, 1, vec![1, 2, 3, 4, 5, 6, 7, 8]).unwrap();
    let img = image::load_from_memory(&file).unwrap().into_rgba8();
    assert_eq!(img.into_raw(), vec![1, 2, 3, 4]);
}

#[test]
fn png_of_too_few_bytes() {
    assert!(matches!(encode_png(2, 2, vec![0; 15]), Err(EncodeError::TooFewBytes)));
    assert!(matches!(
        encode_png(u32::MAX, u32::MAX, vec![0; 15]),
        Err(EncodeError::TooFewBytes)
    ));
}

#[test]
fn png_without_extent() {
    assert!(matches!(encode_png(0, 3, vec![]), Err(EncodeError::Refused(_))));
    assert!(matches!(encode_png(3, 0, vec![1, 2, 3]), Err(EncodeError::Refused(_))));
}

#[test]
fn answers_of_the_encoder() {
    assert!(matches!(encoded(None), Err(EncodeError::TooFewBytes)));
    assert_eq!(encoded(Some(Ok(vec![1, 2]))).unwrap(), vec![1, 2]);
    let refusal = image::ImageError::IoError(std::io::Error::from(std::io::ErrorKind::Other));
    assert!(matches!(
        encoded(Some(Err(refusal))),
        Err(EncodeError::Refused(image::ImageError::IoError(_)))
    ));
}

#[test]
fn names_of_screenshots() {
    assert_eq!(name(at(2026, 2, 28, 14, 30, 0)), "2026-02-28_14-30-00_voidsnap.png");
    assert_eq!(name(at(1999, 12, 31, 23, 59, 58)), "1999-12-31_23-59-58_voidsnap.png");
    assert_eq!(name(at(7, 1, 2, 3, 4, 5)), "0007-01-02_03-04-05_voidsnap.png");
}

#[test]
fn names_in_unusual_years() {
    assert_eq!(name(at(0, 1, 1, 0, 0, 0)), "0000-01-01_00-00-00_voidsnap.png");
    assert_eq!(name(at(9999, 1, 1, 0, 0, 0)), "9999-01-01_00-00-00_voidsnap.png");
    assert_eq!(name(at(10000, 1, 1, 0, 0, 0)), "+10000-01-01_00-00-00_voidsnap.png");
    assert_eq!(name(at(262142, 1, 1, 0, 0, 0)), "+262142-01-01_00-00-00_voidsnap.png");
    assert_eq!(name(at(-1, 1, 1, 0, 0, 0)), "-0001-01-01_00-00-00_voidsnap.png");
    assert_eq!(name(at(-262143, 1, 1, 0, 0, 0)), "-262143-01-01_00-00-00_voidsnap.png");
}

#[test]
fn name_in_a_leap_second() {
    let mut time = at(2016, 12, 31, 23, 59, 59);
    time.nanosecond = 1_999_999_999;
    assert_eq!(name(time), "2016-12-31_23-59-60_voidsnap.png");
    time.nanosecond = 999_999_999;
    assert_eq!(name(time), "2016-12-31_23-59-59_voidsnap.png");
}

#[test]
fn times_that_do_not_exist() {
    for time in [
        at(262143, 1, 1, 0, 0, 0),
        at(-262144, 1, 1, 0, 0, 0),
        at(i32::MAX, 1, 1, 0, 0, 0),
        at(i32::MIN, 1, 1, 0, 0, 0),
        at(2026, 0, 1, 0, 0, 0),
        at(2026, 13, 1, 0, 0, 0),
        at(2026, u32::MAX, 1, 0, 0, 0),
        at(2026, 1, 0, 0, 0, 0),
        at(2026, 1, 32, 0, 0, 0),
        at(2026, 1, u32::MAX, 0, 0, 0),
        at(2026, 4, 31, 0, 0, 0),
        at(2026, 2, 29, 0, 0, 0),
        at(1900, 2, 29, 0, 0, 0),
        at(2024, 2, 30, 0, 0, 0),
        at(2026, 1, 1, 24, 0, 0),
        at(2026, 1, 1, 0, 60, 0),
        at(2026, 1, 1, 0, 0, 60),
    ] {
        assert_eq!(screenshot_filename(&time), None);
    }
    let mut time = at(2026, 1, 1, 0, 0, 59);
    time.nanosecond = 2_000_000_000;
    assert_eq!(screenshot_filename(&time), None);
    time.second = 58;
    time.nanosecond = 1_000_000_000;
    assert_eq!(screenshot_filename(&time), None);
    assert!(screenshot_filename(&at(2024, 2, 29, 0, 0, 0)).is_some());
    assert!(screenshot_filename(&at(2000, 2, 29, 0, 0, 0)).is_some());
    assert!(screenshot_filename(&at(-4, 2, 29, 0, 0, 0)).is_some());
}

#[test]
fn names_tell_seconds_apart() {
    let times = [
        at(2026, 2, 28, 14, 30, 0),
        at(2026, 2, 28, 14, 30, 1),
        at(2026, 2, 28, 14, 31, 0),
        at(2026, 2, 28, 15, 30, 0),
        at(2026, 2, 27, 14, 30, 0),
        at(2026, 3, 28, 14, 30, 0),
        at(2025, 2, 28, 14, 30, 0),
    ];
    for (i, a) in times.iter().enumerate() {
        assert_eq!(name(*a).len(), 32);
        for b in &times[..i] {
            assert_ne!(name(*a), name(*b));
        }
    }
}
