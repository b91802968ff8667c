use voidsnap::config::{Opacity, ResolvedConfig};
use voidsnap::selection::Selection;
use voidsnap::wayland::{
    AppState, ButtonState, KeyboardEvent, LayerSurfaceEvent, PointerEvent, Reconfigure, BTN_LEFT,
    BTN_MIDDLE, BTN_RIGHT, KEY_A, KEY_DOWN, KEY_ENTER, KEY_ESC, KEY_LEFT, KEY_RIGHT, KEY_SPACE,
    KEY_UP,
};

fn app(width: u32, height: u32) -> AppState {
    let mut state = AppState::new(&ResolvedConfig {
        save_directory: b"/tmp".to_vec(),
        copy_to_clipboard: false,
        border_color: [0, 255, 255, 255],
        border_width: 3,
        overlay_color: [0x0D, 0x0B, 0x14],
        overlay_opacity: Opacity { bits: 0 },
        overlay_idle_opacity: Opacity { bits: 0 },
        freeze_frame: true,
        show_dimensions: true,
    });
    state.overlay.surface = true;
    state.overlay.width = width;
    state.overlay.height = height;
    state
}

fn left(state: ButtonState) -> PointerEvent {
    PointerEvent::Button { button: BTN_LEFT, state }
}

fn press(key: u32) -> KeyboardEvent {
    KeyboardEvent::Key { key, pressed: true }
}

#[test]
fn codes_of_buttons_and_keys() {
    assert_eq!((BTN_LEFT, BTN_RIGHT, BTN_MIDDLE), (0x110, 0x111, 0x112));
    assert_eq!((KEY_ESC, KEY_ENTER, KEY_A, KEY_SPACE), (1, 28, 30, 57));
    assert_eq!((KEY_UP, KEY_LEFT, KEY_RIGHT, KEY_DOWN), (103, 105, 106, 108));
}

#[test]
fn dragging_selects() {
    let mut state = app(800, 600);
    assert!(!state.handle_pointer(PointerEvent::Enter { x: 256, y: 256 }));
    assert!(!state.handle_pointer(PointerEvent::Motion { x: 100 * 256, y: 50 * 256 }));
    assert!(!state.overlay.needs_redraw);
    assert!(!state.handle_pointer(left(ButtonState::Pressed)));
    assert!(state.overlay.selection.active);
    // The first motion arms a callback, the next finds it armed.
    assert!(state.handle_pointer(PointerEvent::Motion { x: 90 * 256, y: 60 * 256 }));
    assert!(!state.handle_pointer(PointerEvent::Motion { x: 40 * 256, y: 80 * 256 + 128 }));
    assert!(state.overlay.needs_redraw && state.overlay.frame_pending && state.running);
    assert!(!state.handle_pointer(left(ButtonState::Released)));
    assert!(!state.running);
    assert!(state.overlay.selection.done && !state.overlay.selection.active);
    assert_eq!(state.overlay.selection.rect(), (40, 50, 60, 30));
}

#[test]
fn letting_go_without_pressing() {
    let mut state = app(800, 600);
    state.handle_pointer(left(ButtonState::Released));
    state.handle_pointer(left(ButtonState::Other));
    state.handle_pointer(PointerEvent::Button { button: 0x113, state: ButtonState::Pressed });
    state.handle_pointer(PointerEvent::Other);
    assert!(state.running);
    assert_eq!(state.overlay.selection, Selection::default());
}

#[test]
fn pressing_again_starts_over() {
    let mut state = app(800, 600);
    state.handle_keyboard(press(KEY_A));
    assert!(state.overlay.selection.done);
    state.handle_pointer(PointerEvent::Motion { x: 512, y: 768 });
    state.handle_pointer(left(ButtonState::Pressed));
    assert_eq!(
        state.overlay.selection,
        Selection { start_x: 512, start_y: 768, end_x: 512, end_y: 768, active: true, done: false }
    );
}

#[test]
fn cancelling() {
    for button in [BTN_RIGHT, BTN_MIDDLE] {
        for pressed in [ButtonState::Pressed, ButtonState::Released, ButtonState::Other] {
            let mut state = app(800, 600);
            state.handle_keyboard(press(KEY_A));
            state.handle_pointer(PointerEvent::Button { button, state: pressed });
            assert!(!state.running && !state.overlay.selection.done);
        }
    }
    let mut state = app(800, 600);
    state.handle_keyboard(press(KEY_A));
    assert!(!state.handle_keyboard(press(KEY_ESC)));
    assert!(!state.running && !state.overlay.selection.done);
}

#[test]
fn confirming() {
    for key in [KEY_ENTER, KEY_SPACE] {
        let mut state = app(800, 600);
        state.handle_keyboard(press(key));
        assert!(state.running && !state.overlay.selection.done);
        state.handle_pointer(PointerEvent::Motion { x: 256, y: 256 });
        state.handle_pointer(left(ButtonState::Pressed));
        state.handle_pointer(PointerEvent::Motion { x: 2560, y: 5120 });
        state.handle_keyboard(press(key));
        assert!(!state.running && state.overlay.selection.done && !state.overlay.selection.active);
        assert_eq!(state.overlay.selection.rect(), (1, 1, 9, 19));
    }
}

#[test]
fn selecting_everything() {
    let mut state = app(800, 600);
    assert!(state.handle_keyboard(press(KEY_A)));
    assert!(state.running && state.overlay.needs_redraw && state.overlay.selection.done);
    assert_eq!(state.overlay.selection.rect(), (0, 0, 800, 600));
}

#[test]
fn arrow_starts_at_the_centre() {
    let mut state = app(801, 600);
    assert!(state.handle_keyboard(press(KEY_UP)));
    assert!(state.overlay.selection.active);
    assert_eq!(state.overlay.selection.start_x, 102_528);
    assert_eq!(state.overlay.selection.end_x, 102_528);
    assert_eq!(state.overlay.selection.rect(), (400, 300, 1, 1));
}

#[test]
fn arrows_move_the_end() {
    let mut state = app(800, 600);
    state.handle_keyboard(press(KEY_LEFT));
    for key in [KEY_RIGHT, KEY_RIGHT, KEY_DOWN, KEY_DOWN, KEY_DOWN, KEY_UP, KEY_LEFT] {
        state.handle_keyboard(press(key));
    }
    assert_eq!(state.overlay.selection.end_x, 401 * 256);
    assert_eq!(state.overlay.selection.end_y, 302 * 256);
    state.handle_keyboard(KeyboardEvent::Modifiers { depressed: 5 });
    assert!(state.overlay.shift_held);
    state.handle_keyboard(press(KEY_LEFT));
    state.handle_keyboard(press(KEY_DOWN));
    assert_eq!(state.overlay.selection.end_x, 391 * 256);
    assert_eq!(state.overlay.selection.end_y, 312 * 256);
    // The opposite keys take it back.
    state.handle_keyboard(press(KEY_RIGHT));
    state.handle_keyboard(press(KEY_UP));
    assert_eq!(state.overlay.selection.end_x, 401 * 256);
    assert_eq!(state.overlay.selection.end_y, 302 * 256);
    state.handle_keyboard(KeyboardEvent::Modifiers { depressed: 4 });
    assert!(!state.overlay.shift_held);
    assert_eq!((state.overlay.selection.start_x, state.overlay.selection.start_y), (400 * 256, 300 * 256));
}

#[test]
fn arrows_stay_on_the_surface() {
    let mut state = app(8, 6);
    state.overlay.shift_held = true;
    state.handle_keyboard(press(KEY_A));
    state.handle_keyboard(press(KEY_RIGHT));
    assert_eq!(state.overlay.selection.end_x, 8 * 256);
    state.handle_keyboard(press(KEY_UP));
    assert_eq!(state.overlay.selection.end_y, 0);
    // An end off the surface comes back to it, on both axes.
    state.handle_pointer(PointerEvent::Motion { x: -500, y: 90_000 });
    state.overlay.shift_held = false;
    state.handle_keyboard(press(KEY_LEFT));
    assert_eq!((state.overlay.selection.end_x, state.overlay.selection.end_y), (0, 6 * 256));
}

#[test]
fn arrows_keep_fractions() {
    let mut state = app(800, 600);
    state.handle_pointer(PointerEvent::Motion { x: 1000, y: 1001 });
    state.handle_pointer(left(ButtonState::Pressed));
    state.handle_keyboard(press(KEY_RIGHT));
    assert_eq!((state.overlay.selection.end_x, state.overlay.selection.end_y), (1256, 1001));
}

#[test]
fn keys_without_meaning() {
    let mut state = app(800, 600);
    state.handle_keyboard(KeyboardEvent::Key { key: KEY_A, pressed: false });
    state.handle_keyboard(KeyboardEvent::Key { key: KEY_ESC, pressed: false });
    assert!(!state.handle_keyboard(press(2)));
    state.handle_keyboard(KeyboardEvent::Other);
    assert!(state.running && !state.overlay.needs_redraw);
    assert_eq!(state.overlay.selection, Selection::default());
}

#[test]
fn redraws_wait_for_the_callback() {
    let mut state = app(800, 600);
    state.handle_keyboard(press(KEY_A));
    assert!(state.overlay.needs_redraw && state.overlay.frame_pending);
    state.handle_pointer(PointerEvent::Motion { x: 1, y: 1 });
    assert!(state.overlay.needs_redraw);
    assert!(state.handle_frame_done());
    assert!(!state.overlay.needs_redraw && !state.overlay.frame_pending);
    assert!(!state.handle_frame_done());
}

#[test]
fn no_callback_without_a_surface() {
    let mut state = app(800, 600);
    state.overlay.surface = false;
    assert!(!state.handle_keyboard(press(KEY_A)));
    assert!(state.overlay.needs_redraw && !state.overlay.frame_pending);
}

#[test]
fn stopped_stays_stopped() {
    let mut state = app(800, 600);
    state.handle_keyboard(press(KEY_ESC));
    state.handle_keyboard(press(KEY_A));
    state.handle_pointer(left(ButtonState::Pressed));
    assert!(!state.running);
}

#[test]
fn selection_is_dragged_or_final() {
    let mut state = app(800, 600);
    let mut seed: u32 = 7;
    for _ in 0..5000 {
        seed = seed.wrapping_mul(1_664_525).wrapping_add(1_013_904_223);
        let v = (seed >> 8) as i32;
        match seed >> 28 {
            0 => state.handle_pointer(left(ButtonState::Pressed)),
            1 => state.handle_pointer(left(ButtonState::Released)),
            2 => state.handle_pointer(PointerEvent::Motion { x: v, y: -v }),
            3 => state.handle_pointer(PointerEvent::Enter { x: i32::MIN, y: i32::MAX }),
            4 => state.handle_keyboard(press(KEY_A)),
            5 => state.handle_keyboard(press(KEY_UP)),
            6 => state.handle_keyboard(press(KEY_LEFT)),
            7 => state.handle_keyboard(press(KEY_ENTER)),
            8 => state.handle_keyboard(press(KEY_ESC)),
            9 => state.handle_keyboard(KeyboardEvent::Modifiers { depressed: seed }),
            _ => state.handle_keyboard(press(KEY_DOWN)),
        };
        assert!(!(state.overlay.selection.active && state.overlay.selection.done));
        assert!(state.overlay.selection.is_measurable());
    }
}

#[test]
fn surface_events() {
    let mut state = app(0, 0);
    state.overlay.buffer_data = true;
    state.overlay.wl_buffer = true;
    state.overlay.wl_shm_pool = true;
    assert_eq!(
        state.handle_layer_surface(LayerSurfaceEvent::Configure { serial: 5, width: 0, height: 9 }),
        Some(Reconfigure { serial: 5, reallocate: false })
    );
    assert!(state.overlay.configured && state.overlay.buffer_data && state.overlay.wl_buffer);
    assert_eq!((state.overlay.width, state.overlay.height), (0, 9));
    assert_eq!(
        state.handle_layer_surface(LayerSurfaceEvent::Configure { serial: 6, width: 8, height: 9 }),
        Some(Reconfigure { serial: 6, reallocate: true })
    );
    assert!(!state.overlay.buffer_data && !state.overlay.wl_buffer && !state.overlay.wl_shm_pool);
    assert_eq!(state.handle_layer_surface(LayerSurfaceEvent::Other), None);
    assert!(state.running);
    assert_eq!(state.handle_layer_surface(LayerSurfaceEvent::Closed), None);
    assert!(!state.running);
}
