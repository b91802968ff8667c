use voidsnap::color::blend;
use voidsnap::config::{Opacity, ResolvedConfig};
use voidsnap::hud::render_dimensions_hud;
use voidsnap::overlay::{
    allocate_shm_buffer, buffer_allocated, can_allocate, create_overlay, draw_overlay,
    request_frame, shm_name, Damage, OverlayRequest, OverlayState, ShmError,
};
use voidsnap::pixels::{PixelError, PixelFormat};
use voidsnap::selection::Selection;
use voidsnap::wayland::{AppState, OutputInfo};

const DIM: u8 = 0x66;
const BORDER: u8 = 0xCC;

fn app() -> AppState {
    AppState::new(&ResolvedConfig {
        save_directory: b"/tmp".to_vec(),
        copy_to_clipboard: false,
        border_color: [0x10, 0x20, 0x30, 255],
        border_width: 3,
        overlay_color: [0x0D, 0x0B, 0x14],
        overlay_opacity: Opacity { bits: 0.70f64.to_bits() },
        overlay_idle_opacity: Opacity { bits: 0.40f64.to_bits() },
        freeze_frame: true,
        show_dimensions: false,
    })
}

/// An overlay that is shown, of some size, with a selection in whole pixels.
fn shown(width: u32, height: u32, selection: Option<(i64, i64, i64, i64)>) -> AppState {
    let mut state = app();
    state.overlay.width = width;
    state.overlay.height = height;
    state.overlay.surface = true;
    state.overlay.buffer_data = true;
    state.overlay.wl_buffer = true;
    if let Some((x0, y0, x1, y1)) = selection {
        state.overlay.selection = Selection {
            start_x: x0 * 256,
            start_y: y0 * 256,
            end_x: x1 * 256,
            end_y: y1 * 256,
            active: true,
            done: false,
        };
    }
    state
}

/// The picture, worked out place by place.
fn expected(state: &AppState) -> Vec<u32> {
    let (w, h) = (state.overlay.width as i32, state.overlay.height as i32);
    let selection = state.overlay.selection;
    let has_sel = selection.active || selection.done;
    let (sx, sy, sw, sh) = if has_sel { selection.rect() } else { (0, 0, 0, 0) };
    let bw = state.border_width as i32;
    let [r, g, b] = state.overlay_color;
    let dim_px = u32::from_be_bytes([DIM, r, g, b]);
    let [r, g, b, _] = state.border_color;
    let border_px = u32::from_be_bytes([BORDER, r, g, b]);
    let mut out = Vec::new();
    for y in 0..h {
        for x in 0..w {
            let inside = has_sel && sx <= x && x < sx + sw && sy <= y && y < sy + sh;
            let corner_x = x - sx < 6 || sx + sw - x <= 6;
            let corner_y = y - sy < 6 || sy + sh - y <= 6;
            let layer = if !inside {
                dim_px
            } else if sw >= 18 && sh >= 18 && corner_x && corner_y {
                0xFFFF_4500
            } else if x < sx + bw || x >= sx + sw - bw || y < sy + bw || y >= sy + sh - bw {
                border_px
            } else {
                0
            };
            out.push(match &state.frozen_buffer {
                Some(frame) => {
                    let at = y as usize * state.frozen_width as usize + x as usize;
                    blend(frame.get(at).copied().unwrap_or(0xFF00_0000), layer)
                }
                None => layer,
            });
        }
    }
    if state.show_dimensions && has_sel {
        render_dimensions_hud(&mut out, w as usize, h as usize, sx, sy, sw, sh, dim_px, border_px);
    }
    out
}

fn check_picture(mut state: AppState) {
    let expected = expected(&state);
    let mut pixels = vec![0u32; expected.len()];
    draw_overlay(&mut state, &mut pixels, DIM, BORDER);
    assert_eq!(pixels, expected);
}

fn checkered(width: u32, height: u32) -> Vec<u32> {
    (0..width * height).map(|i| 0xFF00_0000 | (i * 0x0103_0507 & 0x00FF_FFFF)).collect()
}

#[test]
fn overlay_at_start() {
    let o = OverlayState::new();
    assert!(!o.surface && !o.layer_surface && !o.configured && !o.pointer && !o.keyboard);
    assert!(!o.buffer_data && !o.wl_buffer && !o.wl_shm_pool);
    assert!(!o.frame_pending && !o.needs_redraw && !o.shift_held);
    assert_eq!((o.width, o.height), (0, 0));
    assert_eq!(o.prev_rect, (0, 0, 0, 0));
    assert!(o.shm_name.is_none());
    assert_eq!(o.selection, Selection::default());
}

#[test]
fn picture_without_selection() {
    check_picture(shown(20, 10, None));
    let mut state = shown(20, 10, None);
    state.frozen_buffer = Some(checkered(20, 10));
    state.frozen_width = 20;
    state.frozen_height = 10;
    check_picture(state);
}

#[test]
fn picture_with_selection() {
    for selection in [
        (2, 3, 40, 30),
        (40, 30, 2, 3),
        (0, 0, 60, 50),
        (5, 5, 5, 5),
        (5, 5, 22, 23),
        (5, 5, 23, 23),
        (-10, -10, 20, 20),
        (50, 40, 100, 100),
        (-30, -30, -5, -5),
        (-30, 4, -5, 30),
        (100, 100, 120, 120),
    ] {
        let mut state = shown(60, 50, Some(selection));
        check_picture(shown(60, 50, Some(selection)));
        state.frozen_buffer = Some(checkered(60, 50));
        state.frozen_width = 60;
        state.frozen_height = 50;
        state.show_dimensions = true;
        check_picture(state);
    }
}

#[test]
fn selection_beside_the_surface_selects_nothing() {
    for selection in [(-30, -30, -5, -5), (-30, 4, -5, 30), (4, -30, 30, -5), (-30, 4, 0, 30)] {
        let mut state = shown(60, 50, Some(selection));
        let mut pixels = vec![0u32; 60 * 50];
        draw_overlay(&mut state, &mut pixels, DIM, BORDER);
        assert!(pixels.iter().all(|px| *px == 0x660D_0B14));
    }
}

#[test]
fn border_wider_than_any_surface() {
    for border_width in [0x7FFF_FFFF, 0x8000_0000, u32::MAX] {
        let mut state = shown(60, 50, Some((20, 20, 30, 30)));
        state.border_width = border_width;
        let mut pixels = vec![0u32; 60 * 50];
        assert_eq!(
            draw_overlay(&mut state, &mut pixels, DIM, BORDER),
            Some(Damage { x: 0, y: 0, width: 60, height: 50 })
        );
        assert_eq!(pixels[25 * 60 + 25], 0xCC10_2030);
        assert_eq!(pixels[0], 0x660D_0B14);
    }
}

#[test]
fn picture_with_a_frame_of_another_size() {
    let mut state = shown(60, 50, Some((2, 3, 40, 30)));
    state.frozen_buffer = Some(checkered(30, 20));
    state.frozen_width = 30;
    state.frozen_height = 20;
    check_picture(state);
}

#[test]
fn picture_with_wide_borders() {
    for border_width in [1, 20, 1000] {
        let mut state = shown(60, 50, Some((2, 3, 40, 30)));
        state.border_width = border_width;
        check_picture(state);
    }
}

#[test]
fn colours_of_the_picture() {
    let mut state = shown(60, 50, Some((10, 10, 50, 40)));
    state.frozen_buffer = Some(vec![0xFF80_8080; 60 * 50]);
    state.frozen_width = 60;
    state.frozen_height = 50;
    let mut pixels = vec![0u32; 60 * 50];
    draw_overlay(&mut state, &mut pixels, 255, 255);
    // The frame shows through; handles are dawn-red; the rest is covered.
    assert_eq!(pixels[25 * 60 + 30], 0xFF80_8080);
    assert_eq!(pixels[10 * 60 + 10], 0xFFFF_4500);
    assert_eq!(pixels[39 * 60 + 49], 0xFFFF_4500);
    assert_eq!(pixels[10 * 60 + 30], 0xFF10_2030);
    assert_eq!(pixels[0], 0xFF0D_0B14);
    state.frozen_buffer = None;
    draw_overlay(&mut state, &mut pixels, 255, 255);
    assert_eq!(pixels[25 * 60 + 30], 0);
    assert_eq!(pixels[10 * 60 + 10], 0xFFFF_4500);
}

#[test]
fn nothing_to_draw_on() {
    let mut pixels = vec![7u32; 4];
    let mut state = shown(0, 4, None);
    assert_eq!(draw_overlay(&mut state, &mut pixels, DIM, BORDER), None);
    let mut state = shown(2, 2, Some((0, 0, 1, 1)));
    state.overlay.buffer_data = false;
    assert_eq!(draw_overlay(&mut state, &mut pixels, DIM, BORDER), None);
    assert_eq!(state.overlay.prev_rect, (0, 0, 0, 0));
    assert!(!state.overlay.frame_pending);
    assert_eq!(pixels, vec![7; 4]);
}

#[test]
fn drawing_without_a_surface() {
    let mut pixels = vec![7u32; 100 * 100];
    let mut state = shown(100, 100, Some((10, 20, 30, 60)));
    state.overlay.surface = false;
    assert_eq!(draw_overlay(&mut state, &mut pixels, DIM, BORDER), None);
    assert!(!state.overlay.frame_pending);
    assert_eq!(state.overlay.prev_rect, (10, 20, 20, 40));
    assert_ne!(pixels[0], 7);
}

#[test]
fn damage_without_selection_is_everything() {
    let mut pixels = vec![0u32; 300 * 200];
    let mut state = shown(300, 200, None);
    assert_eq!(
        draw_overlay(&mut state, &mut pixels, DIM, BORDER),
        Some(Damage { x: 0, y: 0, width: 300, height: 200 })
    );
    assert!(state.overlay.frame_pending);
    assert_eq!(state.overlay.prev_rect, (0, 0, 0, 0));
}

#[test]
fn damage_is_both_rectangles_and_some_room() {
    let mut pixels = vec![0u32; 600 * 400];
    let mut state = shown(600, 400, Some((200, 150, 300, 250)));
    state.overlay.prev_rect = (180, 160, 50, 30);
    // 49 pixels around: 3 of border, 46 for handles and label.
    assert_eq!(
        draw_overlay(&mut state, &mut pixels, DIM, BORDER),
        Some(Damage { x: 131, y: 101, width: 218, height: 198 })
    );
    assert_eq!(state.overlay.prev_rect, (200, 150, 100, 100));
    // The old rectangle is shown anew once it is gone.
    state.overlay.selection = Selection::default();
    assert_eq!(
        draw_overlay(&mut state, &mut pixels, DIM, BORDER),
        Some(Damage { x: 0, y: 0, width: 349, height: 299 })
    );
    assert_eq!(state.overlay.prev_rect, (0, 0, 0, 0));
}

#[test]
fn damage_stays_on_the_surface() {
    let mut pixels = vec![0u32; 60 * 50];
    let mut state = shown(60, 50, Some((5, 5, 55, 45)));
    assert_eq!(
        draw_overlay(&mut state, &mut pixels, DIM, BORDER),
        Some(Damage { x: 0, y: 0, width: 60, height: 50 })
    );
    // A rectangle far outside leaves a single pixel.
    let mut state = shown(60, 50, Some((900, 900, 950, 950)));
    state.overlay.prev_rect = (900, 900, 50, 50);
    assert_eq!(
        draw_overlay(&mut state, &mut pixels, DIM, BORDER),
        Some(Damage { x: 851, y: 851, width: 1, height: 1 })
    );
}

#[test]
fn one_callback_in_flight() {
    let mut state = app();
    assert!(!request_frame(&mut state));
    assert!(!state.overlay.frame_pending);
    state.overlay.surface = true;
    assert!(request_frame(&mut state));
    assert!(state.overlay.frame_pending);
    assert!(!request_frame(&mut state));
    assert!(state.overlay.frame_pending);
}

#[test]
fn overlay_on_the_first_output() {
    let mut state = app();
    assert_eq!(create_overlay(&mut state), None);
    assert!(!state.overlay.surface);
    state.outputs.push(OutputInfo::new());
    assert_eq!(
        create_overlay(&mut state),
        Some(OverlayRequest { output: 0, track_input: false })
    );
    assert!(state.overlay.surface && state.overlay.layer_surface);
    assert!(!state.overlay.pointer && !state.overlay.keyboard);
    state.seat = true;
    assert_eq!(
        create_overlay(&mut state),
        Some(OverlayRequest { output: 0, track_input: true })
    );
    assert!(state.overlay.pointer && state.overlay.keyboard);
}

#[test]
fn shared_memory_of_the_overlay() {
    let mut state = app();
    assert!(can_allocate(&state));
    assert!(matches!(allocate_shm_buffer(&state, 1), Ok(None)));
    state.overlay.width = 1920;
    assert!(matches!(allocate_shm_buffer(&state, 1), Ok(None)));
    state.overlay.height = 1080;
    assert!(matches!(allocate_shm_buffer(&state, 1), Err(ShmError::NotBound)));
    state.shm = true;
    let request = match allocate_shm_buffer(&state, 4321) {
        Ok(Some(request)) => request,
        _ => panic!("no shared memory is asked for"),
    };
    assert_eq!(request.name, "/voidsnap-overlay-4321");
    assert_eq!((request.width, request.height), (1920, 1080));
    assert_eq!((request.stride, request.size), (7680, 8_294_400));
    buffer_allocated(&mut state, request.name);
    assert!(state.overlay.buffer_data && state.overlay.wl_buffer && state.overlay.wl_shm_pool);
    assert_eq!(state.overlay.shm_name.as_deref(), Some("/voidsnap-overlay-4321"));
}

#[test]
fn shared_memory_that_is_too_large() {
    let mut state = app();
    state.overlay.width = 0x2000_0000;
    state.overlay.height = 1;
    assert!(!can_allocate(&state));
    state.overlay.width = 0x1000_0000;
    assert!(can_allocate(&state));
    state.overlay.height = 2;
    assert!(!can_allocate(&state));
    state.overlay.width = 0;
    assert!(can_allocate(&state));
}

#[test]
fn shared_memory_names() {
    assert_eq!(shm_name("freeze", 0), "/voidsnap-freeze-0");
    assert_eq!(shm_name("capture", u32::MAX), "/voidsnap-capture-4294967295");
    assert_eq!(shm_name("overlay", 1070), "/voidsnap-overlay-1070");
}

#[test]
fn freezing_a_frame() {
    let mut state = app();
    let raw = [1, 2, 3, 4, 5, 6, 7, 8];
    assert_eq!(
        state.freeze(&raw, 3, 1, 12, PixelFormat::Argb8888),
        Err(PixelError::Underflow { x: 2, y: 0 })
    );
    assert!(state.frozen_buffer.is_none());
    assert_eq!(state.freeze(&raw, 2, 1, 8, PixelFormat::Argb8888), Ok(()));
    assert_eq!(state.frozen_buffer, Some(vec![0x0403_0201, 0x0807_0605]));
    assert_eq!((state.frozen_width, state.frozen_height), (2, 1));
}

#[test]
fn opacity_of_the_rest() {
    let mut state = app();
    assert_eq!(f64::from_bits(state.dim_opacity().bits), 0.40);
    state.overlay.selection.active = true;
    assert_eq!(f64::from_bits(state.dim_opacity().bits), 0.70);
    state.overlay.selection.active = false;
    state.overlay.selection.done = true;
    assert_eq!(f64::from_bits(state.dim_opacity().bits), 0.70);
}

#[test]
fn border_pulses_while_dragged() {
    let mut state = app();
    assert_eq!(state.border_alpha(0x99), 255);
    state.overlay.selection.done = true;
    assert_eq!(state.border_alpha(0x99), 255);
    state.overlay.selection.active = true;
    assert_eq!(state.border_alpha(0x99), 0x99);
}

#[test]
fn border_is_opaque_at_rest() {
    let mut state = shown(60, 50, Some((10, 10, 50, 40)));
    state.frozen_buffer = Some(checkered(60, 50));
    state.frozen_width = 60;
    state.frozen_height = 50;
    let mut pixels = vec![0u32; 60 * 50];
    let alpha = state.border_alpha(0x99);
    draw_overlay(&mut state, &mut pixels, DIM, alpha);
    assert_ne!(pixels[10 * 60 + 30], 0xFF10_2030);
    state.overlay.selection.active = false;
    state.overlay.selection.done = true;
    let alpha = state.border_alpha(0x99);
    draw_overlay(&mut state, &mut pixels, DIM, alpha);
    assert_eq!(pixels[10 * 60 + 30], 0xFF10_2030);
    state.frozen_buffer = None;
    draw_overlay(&mut state, &mut pixels, DIM, alpha);
    assert_eq!(pixels[10 * 60 + 30], 0xFF10_2030);
}
