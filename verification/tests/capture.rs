use voidsnap::capture::{
    capture_full_output, capture_region, Capture, CaptureBuffer, CaptureError, CaptureFrame,
    CaptureRequest, CaptureStep, FrameEvent, MAX_ROUNDTRIPS,
};
use voidsnap::config::{Opacity, ResolvedConfig};
use voidsnap::pixels::PixelFormat;
use voidsnap::wayland::{
    output_bindings, AppState, Global, OutputBinding, OutputEvent, OutputInfo,
};

fn app() -> AppState {
    AppState::new(&ResolvedConfig {
        save_directory: b"/tmp".to_vec(),
        copy_to_clipboard: false,
        border_color: [1, 2, 3, 255],
        border_width: 4,
        overlay_color: [5, 6, 7],
        overlay_opacity: Opacity { bits: 8 },
        overlay_idle_opacity: Opacity { bits: 9 },
        freeze_frame: true,
        show_dimensions: true,
    })
}

fn frame(format: Option<PixelFormat>, ready: bool, failed: bool) -> CaptureFrame {
    CaptureFrame { format, width: 3, height: 5, stride: 16, ready, failed }
}

#[test]
fn state_at_start() {
    let state = app();
    assert!(!state.shm && !state.seat && !state.screencopy_manager);
    assert!(state.outputs.is_empty());
    assert_eq!(state.border_color, [1, 2, 3, 255]);
    assert_eq!(state.border_width, 4);
    assert_eq!(state.overlay_color, [5, 6, 7]);
    assert_eq!(state.overlay_opacity.bits, 8);
    assert_eq!(state.overlay_idle_opacity.bits, 9);
    assert!(state.show_dimensions && state.running);
    assert!(state.frozen_buffer.is_none());
    assert_eq!((state.frozen_width, state.frozen_height), (0, 0));
    assert!(state.capture_frame.format.is_none());
}

#[test]
fn capture_needs_manager_output_and_memory() {
    let mut state = app();
    state.capture_frame.ready = true;
    assert_eq!(capture_full_output(&mut state), Err(CaptureError::NoManager));
    state.screencopy_manager = true;
    assert_eq!(capture_region(&mut state, 1, 2, 3, 4), Err(CaptureError::NoOutput));
    assert!(state.capture_frame.ready);
    state.outputs.push(OutputInfo::new());
    assert_eq!(capture_full_output(&mut state), Err(CaptureError::NoShm));
    assert_eq!(capture_region(&mut state, 1, 2, 3, 4), Err(CaptureError::NoShm));
    assert!(!state.capture_frame.ready);
    state.shm = true;
    state.capture_frame.ready = true;
    assert_eq!(
        capture_full_output(&mut state),
        Ok(CaptureRequest { output: 0, region: None })
    );
    assert!(!state.capture_frame.ready);
    state.capture_frame.failed = true;
    assert_eq!(
        capture_region(&mut state, 1, 2, 3, 4),
        Ok(CaptureRequest { output: 0, region: Some((1, 2, 3, 4)) })
    );
    assert!(!state.capture_frame.failed);
}

#[test]
fn frame_events() {
    let mut f = CaptureFrame::default();
    f.handle(FrameEvent::Other);
    assert!(f.format.is_none() && !f.ready && !f.failed);
    f.handle(FrameEvent::Buffer {
        format: Some(PixelFormat::Xrgb8888),
        width: 7,
        height: 8,
        stride: 28,
    });
    assert_eq!(f.format, Some(PixelFormat::Xrgb8888));
    assert_eq!((f.width, f.height, f.stride), (7, 8, 28));
    // A format that is not known leaves the one before.
    f.handle(FrameEvent::Buffer { format: None, width: 1, height: 2, stride: 4 });
    assert_eq!(f.format, Some(PixelFormat::Xrgb8888));
    assert_eq!((f.width, f.height, f.stride), (1, 2, 4));
    f.handle(FrameEvent::Ready);
    assert!(f.ready && !f.failed);
    f.handle(FrameEvent::Failed);
    assert!(f.ready && f.failed);
}

#[test]
fn negotiation_names_the_buffer() {
    let mut capture = Capture::Negotiating;
    assert_eq!(
        capture.step(&frame(None, false, false)),
        CaptureStep::GiveUp(CaptureError::NoFormat)
    );
    let buffer = CaptureBuffer {
        format: PixelFormat::Abgr8888,
        width: 3,
        height: 5,
        stride: 16,
        size: 80,
    };
    assert_eq!(
        capture.step(&frame(Some(PixelFormat::Abgr8888), false, false)),
        CaptureStep::Copy(buffer)
    );
    assert_eq!(capture, Capture::Copying { buffer, attempt: 0 });
}

#[test]
fn buffer_size_in_64_bits() {
    let mut capture = Capture::Negotiating;
    let huge = CaptureFrame {
        format: Some(PixelFormat::Argb8888),
        width: 1,
        height: u32::MAX,
        stride: u32::MAX,
        ready: false,
        failed: false,
    };
    match capture.step(&huge) {
        CaptureStep::Copy(buffer) => {
            assert_eq!(buffer.size, u32::MAX as u64 * u32::MAX as u64)
        }
        other => panic!("{:?}", other),
    }
}

#[test]
fn copying_ends_with_the_negotiated_buffer() {
    let format = Some(PixelFormat::Argb8888);
    let mut capture = Capture::Negotiating;
    let buffer = match capture.step(&frame(format, false, false)) {
        CaptureStep::Copy(buffer) => buffer,
        other => panic!("{:?}", other),
    };
    assert_eq!(capture.step(&frame(format, false, false)), CaptureStep::Again);
    let mut renegotiated = frame(format, true, false);
    renegotiated.width = 99;
    assert_eq!(capture.step(&renegotiated), CaptureStep::Ready(buffer));
}

#[test]
fn failure_wins_over_pixels() {
    let format = Some(PixelFormat::Argb8888);
    let mut capture = Capture::Negotiating;
    capture.step(&frame(format, false, false));
    assert_eq!(
        capture.step(&frame(format, true, true)),
        CaptureStep::GiveUp(CaptureError::Failed)
    );
}

#[test]
fn waiting_ends_after_a_hundred_round_trips() {
    let format = Some(PixelFormat::Argb8888);
    let mut capture = Capture::Negotiating;
    capture.step(&frame(format, false, false));
    assert_eq!(MAX_ROUNDTRIPS, 100);
    for _ in 0..99 {
        assert_eq!(capture.step(&frame(format, false, false)), CaptureStep::Again);
    }
    let mut last = capture;
    assert_eq!(
        last.step(&frame(format, false, false)),
        CaptureStep::GiveUp(CaptureError::TimedOut)
    );
    // Pixels in the last round trip still count.
    assert!(matches!(capture.step(&frame(format, true, false)), CaptureStep::Ready(_)));
}

#[test]
fn outputs_are_bound_in_order() {
    let global = |name: u32, interface: &str, version: u32| Global {
        name,
        interface: interface.to_string(),
        version,
    };
    let globals = vec![
        global(10, "wl_shm", 1),
        global(11, "wl_output", 3),
        global(12, "wl_output_manager", 9),
        global(13, "wl_output", 9),
        global(14, "", 1),
        global(15, "wl_output", 4),
    ];
    assert_eq!(
        output_bindings(&globals),
        vec![
            OutputBinding { name: 11, version: 3, index: 0 },
            OutputBinding { name: 13, version: 4, index: 1 },
            OutputBinding { name: 15, version: 4, index: 2 },
        ]
    );
    assert_eq!(output_bindings(&vec![]), vec![]);
}

#[test]
fn output_events() {
    let mut state = app();
    state.outputs.push(OutputInfo::new());
    state.outputs.push(OutputInfo::new());
    state.handle_output(1, OutputEvent::Mode { width: 1920, height: 1080 });
    state.handle_output(1, OutputEvent::Scale { factor: 2 });
    state.handle_output(1, OutputEvent::Name { name: "DP-1".to_string() });
    state.handle_output(1, OutputEvent::Other);
    state.handle_output(2, OutputEvent::Scale { factor: 9 });
    let o = &state.outputs[1];
    assert_eq!((o.width, o.height, o.scale), (1920, 1080, 2));
    assert_eq!(o.name.as_deref(), Some("DP-1"));
    let o = &state.outputs[0];
    assert_eq!((o.width, o.height, o.scale), (0, 0, 1));
    assert!(o.name.is_none());
}
