//! Asking the compositor for a picture of the output.

use vstd::prelude::*;

use crate::pixels::PixelFormat;
use crate::wayland::AppState;

verus! {

/// Per-frame state for the screencopy buffer negotiation.
#[derive(Debug)]
pub struct CaptureFrame {
    /// Format + dimensions advertised by the compositor.
    pub format: Option<PixelFormat>,
    pub width: u32,
    pub height: u32,
    pub stride: u32,
    /// Whether the frame is ready (pixels written).
    pub ready: bool,
    /// Whether the frame capture failed.
    pub failed: bool,
}

/// What the compositor says about a frame.
pub enum FrameEvent {
    /// The buffer that it wants; the format is missing where it is not a known one.
    Buffer { format: Option<PixelFormat>, width: u32, height: u32, stride: u32 },
    /// The pixels are written.
    Ready,
    /// There will be no pixels.
    Failed,
    /// Anything else.
    Other,
}

/// Why a capture failed.
#[derive(Debug, Clone, Copy, PartialEq, Eq, Structural)]
pub enum CaptureError {
    /// The compositor offers no screen copies.
    NoManager,
    /// There is no output to capture.
    NoOutput,
    /// There is no shared memory to capture into.
    NoShm,
    /// The compositor did not say which format it writes.
    NoFormat,
    /// The compositor reported a failure.
    Failed,
    /// Neither pixels nor a failure came for too long.
    TimedOut,
}

/// What to ask of the compositor: an output by its index, and a region of it
/// (left, top, width, height) unless all of it is wanted.
#[derive(Debug, Clone, Copy, PartialEq, Eq)]
pub struct CaptureRequest {
    pub output: usize,
    pub region: Option<(i32, i32, i32, i32)>,
}

/// The buffer to hand to the compositor.
#[derive(Debug, Clone, Copy, PartialEq, Eq, Structural)]
pub struct CaptureBuffer {
    pub format: PixelFormat,
    pub width: u32,
    pub height: u32,
    pub stride: u32,
    /// Size in bytes, in 64 bits so that it always fits.
    pub size: u64,
}

/// What to do after one round trip to the compositor.
#[derive(Debug, Clone, Copy, PartialEq, Eq, Structural)]
pub enum CaptureStep {
    /// Have the pixels copied into this buffer, then make another round trip.
    Copy(CaptureBuffer),
    /// Make another round trip.
    Again,
    /// The pixels are in this buffer.
    Ready(CaptureBuffer),
    /// Give up.
    GiveUp(CaptureError),
}

/// How far a capture has come.
#[derive(Debug, Clone, Copy, PartialEq, Eq, Structural)]
pub enum Capture {
    /// The compositor was asked for a frame.
    Negotiating,
    /// The compositor was asked to copy into this buffer, and so many round trips
    /// brought nothing.
    Copying { buffer: CaptureBuffer, attempt: usize },
}

/// Round trips after which waiting for the pixels is given up.
pub const MAX_ROUNDTRIPS: usize = 100;

impl Default for CaptureFrame {
    fn default() -> (r: CaptureFrame)
        ensures
            r == CaptureFrame::blank(),
            r.format is None && !r.ready && !r.failed,
            r.width == 0 && r.height == 0 && r.stride == 0,
    {
        CaptureFrame { format: None, width: 0, height: 0, stride: 0, ready: false, failed: false }
    }
}

impl CaptureFrame {
    /// A frame of which nothing is known.
    pub open spec fn blank() -> CaptureFrame {
        CaptureFrame { format: None, width: 0, height: 0, stride: 0, ready: false, failed: false }
    }

    /// The frame after an event.
    pub open spec fn after(self, event: FrameEvent) -> CaptureFrame {
        match event {
            FrameEvent::Buffer { format, width, height, stride } => CaptureFrame {
                format: if format is Some {
                    format
                } else {
                    self.format
                },
                width,
                height,
                stride,
                ..self
            },
            FrameEvent::Ready => CaptureFrame { ready: true, ..self },
            FrameEvent::Failed => CaptureFrame { failed: true, ..self },
            FrameEvent::Other => self,
        }
    }

    /// Take in what the compositor says.
    pub fn handle(&mut self, event: FrameEvent)
        ensures
            *final(self) == old(self).after(event),
            event matches FrameEvent::Buffer { format, width, height, stride } ==> {
                &&& final(self).width == width
                &&& final(self).height == height
                &&& final(self).stride == stride
                &&& format is Some ==> final(self).format == format
                &&& format is None ==> final(self).format == old(self).format
                &&& final(self).ready == old(self).ready
                &&& final(self).failed == old(self).failed
            },
            event is Ready ==> *final(self) == (CaptureFrame { ready: true, ..*old(self) }),
            event is Failed ==> *final(self) == (CaptureFrame { failed: true, ..*old(self) }),
            event is Other ==> *final(self) == *old(self),
    {
        match event {
            FrameEvent::Buffer { format, width, height, stride } => {
                if format.is_some() {
                    self.format = format;
                }
                self.width = width;
                self.height = height;
                self.stride = stride;
            },
            FrameEvent::Ready => {
                self.ready = true;
            },
            FrameEvent::Failed => {
                self.failed = true;
            },
            FrameEvent::Other => {},
        }
    }

    /// Whether this is the buffer that the compositor asked for.
    pub open spec fn requested(self, buffer: CaptureBuffer) -> bool {
        &&& self.format == Some(buffer.format)
        &&& buffer.width == self.width
        &&& buffer.height == self.height
        &&& buffer.stride == self.stride
        &&& buffer.size == self.stride * self.height
    }
}

impl Capture {
    /// Whether there are round trips left.
    pub open spec fn patient(self) -> bool {
        self.round_trips_left() > 0
    }

    /// How many more round trips there can be.
    pub open spec fn round_trips_left(self) -> int {
        match self {
            Capture::Negotiating => MAX_ROUNDTRIPS + 1,
            Capture::Copying { buffer, attempt } => MAX_ROUNDTRIPS - attempt,
        }
    }

    /// Whether a round trip that left the frame in this state brings the capture to
    /// `next`, with `step` to do.
    pub open spec fn stepped(self, frame: CaptureFrame, next: Capture, step: CaptureStep) -> bool {
        match self {
            Capture::Negotiating => if frame.format is None {
                next == self && step == CaptureStep::GiveUp(CaptureError::NoFormat)
            } else {
                &&& step matches CaptureStep::Copy(buffer)
                &&& frame.requested(buffer)
                &&& next == (Capture::Copying { buffer, attempt: 0 })
            },
            Capture::Copying { buffer, attempt } => if frame.failed {
                next == self && step == CaptureStep::GiveUp(CaptureError::Failed)
            } else if frame.ready {
                next == self && step == CaptureStep::Ready(buffer)
            } else if attempt == MAX_ROUNDTRIPS - 1 {
                next == self && step == CaptureStep::GiveUp(CaptureError::TimedOut)
            } else {
                &&& step == CaptureStep::Again
                &&& next == (Capture::Copying { buffer, attempt: (attempt + 1) as usize })
            },
        }
    }

    /// Take in a round trip. Says what to do next.
    pub fn step(&mut self, frame: &CaptureFrame) -> (r: CaptureStep)
        requires
            old(self).patient(),
        ensures
            old(self).stepped(*frame, *final(self), r),
            final(self).patient(),
            *old(self) is Negotiating ==> match frame.format {
                Some(format) => r == CaptureStep::Copy(
                    (CaptureBuffer {
                        format,
                        width: frame.width,
                        height: frame.height,
                        stride: frame.stride,
                        size: (frame.stride * frame.height) as u64,
                    }),
                ),
                None => r == CaptureStep::GiveUp(CaptureError::NoFormat),
            },
            *old(self) matches Capture::Copying { buffer, attempt } ==> {
                &&& frame.failed ==> r == CaptureStep::GiveUp(CaptureError::Failed)
                &&& !frame.failed && frame.ready ==> r == CaptureStep::Ready(buffer)
                &&& !frame.failed && !frame.ready && attempt >= 99 ==> r == CaptureStep::GiveUp(
                    CaptureError::TimedOut,
                )
                &&& !frame.failed && !frame.ready && attempt < 99 ==> r == CaptureStep::Again
            },
            r is Again ==> *final(self) == (Capture::Copying {
                buffer: old(self)->buffer,
                attempt: (old(self)->attempt + 1) as usize,
            }),
            r matches CaptureStep::Copy(buffer) ==> *final(self) == (Capture::Copying {
                buffer,
                attempt: 0,
            }),
            r is Ready || r is GiveUp ==> *final(self) == *old(self),
    {
        match *self {
            Capture::Negotiating => match frame.format {
                Some(format) => {
                    proof {
                        assert(0 <= frame.stride * frame.height <= 0xFFFF_FFFF * 0xFFFF_FFFF)
                            by (nonlinear_arith)
                            requires
                                0 <= frame.stride <= 0xFFFF_FFFF,
                                0 <= frame.height <= 0xFFFF_FFFF,
                        ;
                    }
                    let buffer: CaptureBuffer = CaptureBuffer {
                        format,
                        width: frame.width,
                        height: frame.height,
                        stride: frame.stride,
                        size: frame.stride as u64 * frame.height as u64,
                    };
                    *self = Capture::Copying { buffer, attempt: 0 };
                    CaptureStep::Copy(buffer)
                },
                None => CaptureStep::GiveUp(CaptureError::NoFormat),
            },
            Capture::Copying { buffer, attempt } => {
                if frame.failed {
                    CaptureStep::GiveUp(CaptureError::Failed)
                } else if frame.ready {
                    CaptureStep::Ready(buffer)
                } else if attempt == MAX_ROUNDTRIPS - 1 {
                    CaptureStep::GiveUp(CaptureError::TimedOut)
                } else {
                    *self = Capture::Copying { buffer, attempt: attempt + 1 };
                    CaptureStep::Again
                }
            },
        }
    }
}

/// What starting a capture answers.
pub open spec fn capture_answer(
    state: AppState,
    region: Option<(i32, i32, i32, i32)>,
) -> Result<CaptureRequest, CaptureError> {
    if !state.screencopy_manager {
        Err(CaptureError::NoManager)
    } else if state.outputs@.len() == 0 {
        Err(CaptureError::NoOutput)
    } else if !state.shm {
        Err(CaptureError::NoShm)
    } else {
        Ok(CaptureRequest { output: 0, region })
    }
}

/// The state once a capture was started: with something to capture, and a way to,
/// what is known of an earlier frame is gone.
pub open spec fn capture_started(state: AppState) -> AppState {
    if state.screencopy_manager && state.outputs@.len() > 0 {
        AppState { capture_frame: CaptureFrame::blank(), ..state }
    } else {
        state
    }
}

/// Start a capture of the first output.
fn begin(state: &mut AppState, region: Option<(i32, i32, i32, i32)>) -> (r: Result<
    CaptureRequest,
    CaptureError,
>)
    ensures
        r == capture_answer(*old(state), region),
        *final(state) == capture_started(*old(state)),
{
    if !state.screencopy_manager {
        return Err(CaptureError::NoManager);
    }
    if state.outputs.len() == 0 {
        return Err(CaptureError::NoOutput);
    }
    state.capture_frame = CaptureFrame::default();
    if !state.shm {
        return Err(CaptureError::NoShm);
    }
    Ok(CaptureRequest { output: 0, region })
}

/// Start a capture of the full output (no region) for freeze-frame mode.
pub fn capture_full_output(state: &mut AppState) -> (r: Result<CaptureRequest, CaptureError>)
    ensures
        r == capture_answer(*old(state), None),
        *final(state) == capture_started(*old(state)),
        r is Ok <==> old(state).screencopy_manager && old(state).outputs@.len() > 0 && old(state).shm,
        r matches Ok(request) ==> request.output == 0 && request.region == None::<(i32, i32, i32, i32)>,
        r == Err::<CaptureRequest, CaptureError>(CaptureError::NoManager) <==> !old(
            state,
        ).screencopy_manager,
        r == Err::<CaptureRequest, CaptureError>(CaptureError::NoOutput) <==> old(
            state,
        ).screencopy_manager && old(state).outputs@.len() == 0,
        r == Err::<CaptureRequest, CaptureError>(CaptureError::NoShm) <==> old(
            state,
        ).screencopy_manager && old(state).outputs@.len() > 0 && !old(state).shm,
        final(state).outputs == old(state).outputs,
        r is Ok ==> final(state).capture_frame.format is None && !final(state).capture_frame.ready
            && !final(state).capture_frame.failed,
{
    begin(state, None)
}

/// Start a capture of the selected region of the first output.
pub fn capture_region(state: &mut AppState, x: i32, y: i32, width: i32, height: i32) -> (r: Result<
    CaptureRequest,
    CaptureError,
>)
    ensures
        r == capture_answer(*old(state), Some((x, y, width, height))),
        *final(state) == capture_started(*old(state)),
        r is Ok <==> old(state).screencopy_manager && old(state).outputs@.len() > 0 && old(state).shm,
        r matches Ok(request) ==> request.output == 0 && request.region == Some((x, y, width, height)),
        r == Err::<CaptureRequest, CaptureError>(CaptureError::NoManager) <==> !old(
            state,
        ).screencopy_manager,
        r == Err::<CaptureRequest, CaptureError>(CaptureError::NoOutput) <==> old(
            state,
        ).screencopy_manager && old(state).outputs@.len() == 0,
        r == Err::<CaptureRequest, CaptureError>(CaptureError::NoShm) <==> old(
            state,
        ).screencopy_manager && old(state).outputs@.len() > 0 && !old(state).shm,
        final(state).outputs == old(state).outputs,
        r is Ok ==> final(state).capture_frame.format is None && !final(state).capture_frame.ready
            && !final(state).capture_frame.failed,
{
    begin(state, Some((x, y, width, height)))
}

/// A capture ends: every round trip after which it goes on leaves fewer to make.
pub proof fn law_capture_ends(
    capture: Capture,
    frame: CaptureFrame,
    next: Capture,
    step: CaptureStep,
)
    requires
        capture.patient(),
        capture.stepped(frame, next, step),
        step is Copy || step is Again,
    ensures
        0 < next.round_trips_left() < capture.round_trips_left(),
{
}

/// While pixels are copied the buffer stays the one that was negotiated, a capture
/// that ends well ends with that buffer, and a failure is reported even where
/// pixels came too.
pub proof fn law_capture_keeps_buffer(
    buffer: CaptureBuffer,
    attempt: usize,
    frame: CaptureFrame,
    next: Capture,
    step: CaptureStep,
)
    requires
        (Capture::Copying { buffer, attempt }).stepped(frame, next, step),
    ensures
        next is Copying,
        next->buffer == buffer,
        step is Ready <==> frame.ready && !frame.failed,
        step matches CaptureStep::Ready(filled) ==> filled == buffer,
        step == CaptureStep::GiveUp(CaptureError::Failed) <==> frame.failed,
{
}

/// Once a frame is ready or has failed, no event takes that back.
pub proof fn law_frame_outcome_stays(frame: CaptureFrame, event: FrameEvent)
    ensures
        frame.ready ==> frame.after(event).ready,
        frame.failed ==> frame.after(event).failed,
        frame.format is Some ==> frame.after(event).format is Some,
{
}

/// Whatever is captured, it is captured from the first output, the one that the overlay
/// is on, however many outputs there are; and the region asked for is the one given.
pub proof fn law_capture_asks_for_first_output(
    state: AppState,
    region: Option<(i32, i32, i32, i32)>,
)
    ensures
        capture_answer(state, region) is Ok <==> state.screencopy_manager && state.outputs@.len()
            > 0 && state.shm,
        capture_answer(state, region) matches Ok(request) ==> request.output == 0 && request.region
            == region,
        capture_answer(state, region) matches Err(e) ==> match e {
            CaptureError::NoManager => !state.screencopy_manager,
            CaptureError::NoOutput => state.screencopy_manager && state.outputs@.len() == 0,
            CaptureError::NoShm => state.screencopy_manager && state.outputs@.len() > 0
                && !state.shm,
            _ => false,
        },
{
}

/// What starting a capture does to the state: what was known of a frame is forgotten
/// once there is something to capture, and nothing else changes.
pub proof fn law_capture_forgets_last_frame(state: AppState)
    ensures
        ({
            let after = capture_started(state);
            &&& state.screencopy_manager && state.outputs@.len() > 0 ==> {
                &&& after.capture_frame.format is None
                &&& after.capture_frame.width == 0
                &&& after.capture_frame.height == 0
                &&& after.capture_frame.stride == 0
                &&& !after.capture_frame.ready
                &&& !after.capture_frame.failed
            }
            &&& !state.screencopy_manager || state.outputs@.len() == 0 ==> after.capture_frame
                == state.capture_frame
            &&& after == (AppState { capture_frame: after.capture_frame, ..state })
        }),
{
}

/// A frame event changes what it speaks of, as it says, and nothing else.
pub proof fn law_frame_events(
    frame: CaptureFrame,
    format: Option<PixelFormat>,
    width: u32,
    height: u32,
    stride: u32,
)
    ensures
        ({
            let told = frame.after(FrameEvent::Buffer { format, width, height, stride });
            let ready = frame.after(FrameEvent::Ready);
            let failed = frame.after(FrameEvent::Failed);
            &&& told.width == width && told.height == height && told.stride == stride
            &&& format is Some ==> told.format == format
            &&& format is None ==> told.format == frame.format
            &&& told.ready == frame.ready && told.failed == frame.failed
            &&& ready.ready && ready == (CaptureFrame { ready: true, ..frame })
            &&& failed.failed && failed == (CaptureFrame { failed: true, ..frame })
            &&& frame.after(FrameEvent::Other) == frame
        }),
{
}

/// The buffer asked for has the format and sides that the compositor named, and a row
/// of `stride` bytes for each of its rows.
pub proof fn law_buffer_is_what_was_named(frame: CaptureFrame, buffer: CaptureBuffer)
    requires
        frame.requested(buffer),
    ensures
        frame.format == Some(buffer.format),
        buffer.width == frame.width,
        buffer.height == frame.height,
        buffer.stride == frame.stride,
        buffer.size == frame.stride * frame.height,
{
}

/// A copy that brings nothing is waited for through a hundred round trips.
pub proof fn law_hundred_round_trips(buffer: CaptureBuffer, attempt: usize)
    ensures
        (Capture::Copying { buffer, attempt }).round_trips_left() == 100 - attempt,
        Capture::Negotiating.round_trips_left() == 101,
        (Capture::Copying { buffer, attempt }).patient() <==> attempt < 100,
{
}

/// What a round trip leads to. The negotiation ends with the buffer that was named, or is
/// given up without a format. A copy is given up if it failed, is done if it is ready, and
/// is otherwise waited for once more, up to a hundred times, always with the same buffer.
pub proof fn law_capture_steps(
    frame: CaptureFrame,
    buffer: CaptureBuffer,
    attempt: usize,
    next: Capture,
    step: CaptureStep,
)
    requires
        attempt < 100,
    ensures
        Capture::Negotiating.stepped(frame, next, step) ==> {
            &&& frame.format is None ==> step == CaptureStep::GiveUp(CaptureError::NoFormat) && next
                is Negotiating
            &&& frame.format is Some ==> {
                &&& step is Copy
                &&& step->Copy_0.format == frame.format->0
                &&& step->Copy_0.width == frame.width
                &&& step->Copy_0.height == frame.height
                &&& step->Copy_0.stride == frame.stride
                &&& step->Copy_0.size == frame.stride * frame.height
                &&& next == (Capture::Copying { buffer: step->Copy_0, attempt: 0 })
            }
        },
        (Capture::Copying { buffer, attempt }).stepped(frame, next, step) ==> {
            &&& frame.failed ==> step == CaptureStep::GiveUp(CaptureError::Failed)
            &&& !frame.failed && frame.ready ==> step == CaptureStep::Ready(buffer)
            &&& !frame.failed && !frame.ready && attempt == 99 ==> step == CaptureStep::GiveUp(
                CaptureError::TimedOut,
            )
            &&& !frame.failed && !frame.ready && attempt < 99 ==> step == CaptureStep::Again && next
                == (Capture::Copying { buffer, attempt: (attempt + 1) as usize })
        },
{
}

} // verus!
