//! The overlay: its state, and what it looks like.

use vstd::prelude::*;

use crate::color;
use crate::hud;
use crate::hud::Hud;
use crate::raster;
use crate::selection::Selection;
use crate::text;
use crate::wayland::AppState;

verus! {

/// State associated with the layer-shell overlay surface.
#[derive(Debug)]
pub struct OverlayState {
    /// Whether the surface exists.
    pub surface: bool,
    /// Whether the layer surface exists.
    pub layer_surface: bool,
    pub configured: bool,
    pub width: u32,
    pub height: u32,
    pub selection: Selection,
    /// Whether pointer events are received.
    pub pointer: bool,
    /// Whether keyboard events are received.
    pub keyboard: bool,
    /// Name of the shared memory behind the buffer.
    pub shm_name: Option<String>,
    /// Whether the pixels of the buffer can be written.
    pub buffer_data: bool,
    /// Whether the compositor knows the buffer.
    pub wl_buffer: bool,
    /// Whether the compositor knows the shared memory.
    pub wl_shm_pool: bool,
    /// Frame-callback pacing: true when a callback is in flight.
    pub frame_pending: bool,
    /// Set by input handlers; cleared by the frame callback after redraw.
    pub needs_redraw: bool,
    /// Tracks shift key for 10px arrow-key nudge.
    pub shift_held: bool,
    /// Previous selection rect for dirty-rect damage.
    pub prev_rect: (i32, i32, i32, i32),
}

impl OverlayState {
    /// The overlay before anything happened.
    pub open spec fn initial() -> OverlayState {
        OverlayState {
            surface: false,
            layer_surface: false,
            configured: false,
            width: 0,
            height: 0,
            selection: Selection::unset(),
            pointer: false,
            keyboard: false,
            shm_name: None,
            buffer_data: false,
            wl_buffer: false,
            wl_shm_pool: false,
            frame_pending: false,
            needs_redraw: false,
            shift_held: false,
            prev_rect: (0, 0, 0, 0),
        }
    }

    /// The overlay before anything happened.
    pub fn new() -> (r: OverlayState)
        ensures
            r == OverlayState::initial(),
            !r.surface && !r.layer_surface && !r.configured && !r.pointer && !r.keyboard,
            !r.buffer_data && !r.wl_buffer && !r.wl_shm_pool && r.shm_name is None,
            !r.frame_pending && !r.needs_redraw && !r.shift_held,
            r.width == 0 && r.height == 0 && r.prev_rect == (0i32, 0i32, 0i32, 0i32),
            !r.selection.active && !r.selection.done,
            r.selection.start_x == 0 && r.selection.start_y == 0,
            r.selection.end_x == 0 && r.selection.end_y == 0,
    {
        OverlayState {
            surface: false,
            layer_surface: false,
            configured: false,
            width: 0,
            height: 0,
            selection: Selection::default(),
            pointer: false,
            keyboard: false,
            shm_name: None,
            buffer_data: false,
            wl_buffer: false,
            wl_shm_pool: false,
            frame_pending: false,
            needs_redraw: false,
            shift_held: false,
            prev_rect: (0, 0, 0, 0),
        }
    }
}

impl OverlayState {
    /// The overlay with a new size. Unless it has no extent, its buffer is gone.
    pub open spec fn resized(self, width: u32, height: u32) -> OverlayState {
        let gone = width > 0 && height > 0;
        OverlayState {
            width,
            height,
            configured: true,
            buffer_data: self.buffer_data && !gone,
            wl_buffer: self.wl_buffer && !gone,
            wl_shm_pool: self.wl_shm_pool && !gone,
            ..self
        }
    }

    /// Take on a new size.
    pub(crate) fn resize(&mut self, width: u32, height: u32)
        ensures
            *final(self) == old(self).resized(width, height),
            final(self).width == width,
            final(self).height == height,
    {
        self.width = width;
        self.height = height;
        self.configured = true;
        if width > 0 && height > 0 {
            self.buffer_data = false;
            self.wl_buffer = false;
            self.wl_shm_pool = false;
        }
    }
}

/// A new size is taken on as it is given, and the buffers of the old one are gone
/// unless the new one has no extent; nothing else changes.
pub proof fn law_new_size_is_taken(overlay: OverlayState, width: u32, height: u32)
    ensures
        ({
            let after = overlay.resized(width, height);
            let kept = width == 0 || height == 0;
            &&& after.width == width
            &&& after.height == height
            &&& after.configured
            &&& after.buffer_data <==> overlay.buffer_data && kept
            &&& after.wl_buffer <==> overlay.wl_buffer && kept
            &&& after.wl_shm_pool <==> overlay.wl_shm_pool && kept
            &&& after.surface == overlay.surface
            &&& after.layer_surface == overlay.layer_surface
            &&& after.selection == overlay.selection
            &&& after.pointer == overlay.pointer
            &&& after.keyboard == overlay.keyboard
            &&& after.shm_name == overlay.shm_name
            &&& after.frame_pending == overlay.frame_pending
            &&& after.needs_redraw == overlay.needs_redraw
            &&& after.shift_held == overlay.shift_held
            &&& after.prev_rect == overlay.prev_rect
        }),
{
}

// ── Shared memory ─────────────────────────────────────────────

/// The shared memory to allocate for the overlay (ARGB8888, 4 bytes per pixel).
pub struct ShmRequest {
    /// Name of the shared memory object.
    pub name: String,
    pub width: i32,
    pub height: i32,
    /// Bytes in a row.
    pub stride: i32,
    /// Bytes in all.
    pub size: i32,
}

/// Bytes in a row of the overlay's buffer.
pub open spec fn shm_stride(width: u32) -> int {
    raster::i32_of(width as int) * 4
}

/// Bytes in the overlay's buffer.
pub open spec fn shm_size(width: u32, height: u32) -> int {
    shm_stride(width) * raster::i32_of(height as int)
}

/// Whether the sizes of the overlay's buffer are 32-bit integers.
pub open spec fn shm_fits(width: u32, height: u32) -> bool {
    width == 0 || height == 0 || {
        &&& i32::MIN <= shm_stride(width) <= i32::MAX
        &&& i32::MIN <= shm_size(width, height) <= i32::MAX
    }
}

/// Whether [`allocate_shm_buffer`] can be called.
pub fn can_allocate(state: &AppState) -> (r: bool)
    ensures
        r == shm_fits(state.overlay.width, state.overlay.height),
        state.overlay.width <= i32::MAX && state.overlay.height <= i32::MAX ==> (r <==> 4
            * state.overlay.width * state.overlay.height <= i32::MAX && (state.overlay.height > 0
            ==> 4 * state.overlay.width <= i32::MAX)),
{
    let width: u32 = state.overlay.width;
    let height: u32 = state.overlay.height;
    proof {
        if width <= i32::MAX && height <= i32::MAX {
            law_shared_memory_size(width, height);
        }
        assert(width == 0 || height == 0 ==> 4 * width * height == 0) by (nonlinear_arith);
    }
    if width == 0 || height == 0 {
        return true;
    }
    let stride: i64 = raster::narrow(width as u64) as i64 * 4;
    if stride < i32::MIN as i64 || stride > i32::MAX as i64 {
        return false;
    }
    let rows: i64 = raster::narrow(height as u64) as i64;
    proof {
        assert(-0x8000_0000 * 0x8000_0000 <= stride * rows <= 0x8000_0000 * 0x8000_0000)
            by (nonlinear_arith)
            requires
                -0x8000_0000 <= stride <= 0x8000_0000,
                -0x8000_0000 <= rows <= 0x8000_0000,
        ;
    }
    let size: i64 = stride * rows;
    i32::MIN as i64 <= size && size <= i32::MAX as i64
}

/// The shared memory object of the process `pid` for some purpose.
pub open spec fn shm_object(purpose: Seq<char>, pid: u32) -> Seq<char> {
    "/voidsnap-"@ + purpose + "-"@ + text::decimal(pid as int)
}

/// The name of the shared memory object of the process `pid` for some purpose.
pub fn shm_name(purpose: &str, pid: u32) -> (r: String)
    ensures
        r@ == shm_object(purpose@, pid),
        r@ == "/voidsnap-"@ + purpose@ + "-"@ + text::digits(pid as nat),
{
    let mut name: String = "/voidsnap-".to_owned();
    name.append(purpose);
    name.append("-");
    text::append_decimal(&mut name, pid as u64);
    name
}

/// A buffer has four bytes for each pixel of a row, and as many such rows as the
/// surface is high; it can be had as long as that is a 32-bit number.
pub proof fn law_shared_memory_size(width: u32, height: u32)
    requires
        width <= i32::MAX,
        height <= i32::MAX,
    ensures
        shm_stride(width) == 4 * width,
        shm_size(width, height) == 4 * width * height,
        width > 0 && height > 0 ==> (shm_fits(width, height) <==> 4 * width * height <= i32::MAX),
        width == 0 || height == 0 ==> shm_fits(width, height),
        width > 0 && height > 0 ==> 4 * width <= 4 * width * height,
{
    raster::law_narrowing(width as int);
    raster::law_narrowing(height as int);
    assert((width * 4) * height == 4 * width * height) by (nonlinear_arith);
    assert(width > 0 && height > 0 ==> 4 * width <= 4 * width * height) by (nonlinear_arith);
    assert(0 <= 4 * width * height) by (nonlinear_arith);
}

/// Why no shared memory can be had.
#[derive(Debug, Clone, Copy, PartialEq, Eq, Structural)]
pub enum ShmError {
    /// The compositor's shared memory is not bound.
    NotBound,
}

/// What shared memory the overlay needs, in the process `pid`. A surface without
/// extent needs none; any other cannot do without.
pub fn allocate_shm_buffer(state: &AppState, pid: u32) -> (r: Result<Option<ShmRequest>, ShmError>)
    requires
        shm_fits(state.overlay.width, state.overlay.height),
    ensures
        match r {
            Ok(Some(request)) => {
                &&& state.overlay.width > 0
                &&& state.overlay.height > 0
                &&& state.shm
                &&& request.name@ == shm_object("overlay"@, pid)
                &&& request.width == raster::i32_of(state.overlay.width as int)
                &&& request.height == raster::i32_of(state.overlay.height as int)
                &&& request.stride == shm_stride(state.overlay.width)
                &&& request.size == shm_size(state.overlay.width, state.overlay.height)
            },
            Ok(None) => state.overlay.width == 0 || state.overlay.height == 0,
            Err(e) => {
                &&& state.overlay.width > 0
                &&& state.overlay.height > 0
                &&& !state.shm
                &&& e == ShmError::NotBound
            },
        },
        r matches Ok(Some(request)) ==> state.overlay.width <= i32::MAX && state.overlay.height
            <= i32::MAX ==> {
            &&& request.width == state.overlay.width
            &&& request.height == state.overlay.height
            &&& request.stride == 4 * state.overlay.width
            &&& request.size == 4 * state.overlay.width * state.overlay.height
            &&& request.name@ == "/voidsnap-"@ + "overlay"@ + "-"@ + text::digits(pid as nat)
        },
{
    proof {
        if state.overlay.width <= i32::MAX && state.overlay.height <= i32::MAX {
            law_shared_memory_size(state.overlay.width, state.overlay.height);
        }
    }
    if state.overlay.width == 0 || state.overlay.height == 0 {
        return Ok(None);
    }
    if !state.shm {
        return Err(ShmError::NotBound);
    }
    let width: i32 = raster::narrow(state.overlay.width as u64);
    let height: i32 = raster::narrow(state.overlay.height as u64);
    let stride: i32 = width * 4;
    let size: i32 = stride * height;
    Ok(Some(ShmRequest { name: shm_name("overlay", pid), width, height, stride, size }))
}

/// Record that the shared memory of a request is mapped and known to the
/// compositor.
pub fn buffer_allocated(state: &mut AppState, name: String)
    ensures
        *final(state) == (AppState {
            overlay: OverlayState {
                buffer_data: true,
                wl_buffer: true,
                wl_shm_pool: true,
                shm_name: Some(name),
                ..old(state).overlay
            },
            ..*old(state)
        }),
{
    state.overlay.buffer_data = true;
    state.overlay.wl_buffer = true;
    state.overlay.wl_shm_pool = true;
    state.overlay.shm_name = Some(name);
}

// ── Layer-shell surface creation ──────────────────────────────

/// What to create for the overlay: a layer surface on an output, by its index,
/// and input tracking where there is a seat.
#[derive(Debug, Clone, Copy, PartialEq, Eq, Structural)]
pub struct OverlayRequest {
    pub output: usize,
    pub track_input: bool,
}

/// Create the full-screen transparent overlay on the first output, and acquire
/// pointer and keyboard if there is a seat. `None` if there is no output.
pub fn create_overlay(state: &mut AppState) -> (r: Option<OverlayRequest>)
    ensures
        r is Some <==> old(state).outputs@.len() > 0,
        r is None ==> *final(state) == *old(state),
        r matches Some(request) ==> {
            &&& request.output == 0
            &&& request.track_input == old(state).seat
            &&& *final(state) == (AppState {
                overlay: OverlayState {
                    surface: true,
                    layer_surface: true,
                    pointer: old(state).overlay.pointer || old(state).seat,
                    keyboard: old(state).overlay.keyboard || old(state).seat,
                    ..old(state).overlay
                },
                ..*old(state)
            })
        },
{
    if state.outputs.len() == 0 {
        return None;
    }
    state.overlay.surface = true;
    state.overlay.layer_surface = true;
    if state.seat {
        state.overlay.pointer = true;
        state.overlay.keyboard = true;
    }
    Some(OverlayRequest { output: 0, track_input: state.seat })
}

// ── Frame pacing ──────────────────────────────────────────────

impl OverlayState {
    /// Whether asking for a frame callback would arm one.
    pub open spec fn can_arm(self) -> bool {
        !self.frame_pending && self.surface
    }

    /// The overlay after asking for a frame callback.
    pub open spec fn armed(self) -> OverlayState {
        OverlayState { frame_pending: self.frame_pending || self.surface, ..self }
    }

    /// The overlay with another selection, and a redraw asked for or not.
    pub open spec fn noting(self, selection: Selection, redraw: bool) -> OverlayState {
        let noted = OverlayState {
            selection,
            needs_redraw: self.needs_redraw || redraw,
            ..self
        };
        if redraw {
            noted.armed()
        } else {
            noted
        }
    }

    /// Ask for a frame callback. Says whether it is to be armed.
    fn arm(&mut self) -> (arm: bool)
        ensures
            arm == old(self).can_arm(),
            *final(self) == old(self).armed(),
    {
        if self.frame_pending || !self.surface {
            return false;
        }
        self.frame_pending = true;
        true
    }

    /// Take another selection, and ask for a redraw or not. Says whether to arm a
    /// frame callback.
    pub(crate) fn note(&mut self, selection: Selection, redraw: bool) -> (arm: bool)
        ensures
            arm == (redraw && old(self).can_arm()),
            *final(self) == old(self).noting(selection, redraw),
    {
        self.selection = selection;
        if redraw {
            self.needs_redraw = true;
            self.arm()
        } else {
            false
        }
    }
}

/// Arm the compositor frame callback for vsync pacing. If a callback is
/// already pending this is a no-op. Says whether the callback is to be armed.
pub fn request_frame(state: &mut AppState) -> (arm: bool)
    ensures
        arm == old(state).overlay.can_arm(),
        *final(state) == (AppState { overlay: old(state).overlay.armed(), ..*old(state) }),
        arm <==> !old(state).overlay.frame_pending && old(state).overlay.surface,
        final(state).overlay.frame_pending <==> old(state).overlay.frame_pending || old(
            state,
        ).overlay.surface,
{
    state.overlay.arm()
}

/// At most one frame callback is in flight: asking again before it came arms
/// nothing and changes nothing.
pub proof fn law_one_callback_in_flight(overlay: OverlayState)
    ensures
        !overlay.armed().can_arm(),
        overlay.armed().armed() == overlay.armed(),
{
}

/// Asking for a callback arms one exactly if there is a surface and none is pending,
/// and leaves everything else; noting a selection keeps it, and a redraw asked for is
/// kept together with the callback.
pub proof fn law_pacing(overlay: OverlayState, selection: Selection, redraw: bool)
    ensures
        ({
            let after = overlay.noting(selection, redraw);
            &&& overlay.can_arm() <==> overlay.surface && !overlay.frame_pending
            &&& overlay.armed().frame_pending <==> overlay.surface || overlay.frame_pending
            &&& overlay.armed() == (OverlayState {
                frame_pending: overlay.armed().frame_pending,
                ..overlay
            })
            &&& after.selection == selection
            &&& after.needs_redraw <==> overlay.needs_redraw || redraw
            &&& after.frame_pending <==> overlay.frame_pending || redraw && overlay.surface
            &&& after == (OverlayState {
                selection,
                needs_redraw: after.needs_redraw,
                frame_pending: after.frame_pending,
                ..overlay
            })
        }),
{
}

// ── Overlay rendering ─────────────────────────────────────────

/// The corner handles, dawn-red.
pub const HANDLE_PX: u32 = 0xFFFF_4500;

/// Side of a corner handle.
pub const HANDLE_SIZE: i64 = 6;

/// What is seen where the frozen frame has no pixel.
pub const BLACK: u32 = 0xFF00_0000;

/// Space around the rectangles for the handles and the label, without the border.
pub const CLEARANCE: i64 = 46;

/// One picture of the overlay.
pub struct Scene {
    pub width: u32,
    pub height: u32,
    /// Whether there is a selection.
    pub shown: bool,
    /// The selection: left, top, width, height.
    pub rect: (i32, i32, i32, i32),
    pub border_width: u32,
    /// Colour over everything that is not selected.
    pub dim_px: u32,
    /// Colour of the border.
    pub border_px: u32,
    /// Length of the rows of the frozen frame.
    pub frozen_width: u32,
}

impl Scene {
    /// The frozen frame at a place.
    pub open spec fn backdrop(self, frozen: Seq<u32>, x: int, y: int) -> u32 {
        let at = y * self.frozen_width + x;
        if at < frozen.len() {
            frozen[at]
        } else {
            BLACK
        }
    }

    /// Whether a place is selected.
    pub open spec fn selected(self, x: int, y: int) -> bool {
        let (sx, sy, sw, sh) = self.rect;
        &&& self.shown
        &&& 0 <= x < self.width
        &&& 0 <= y < self.height
        &&& sx <= x < sx + sw
        &&& sy <= y < sy + sh
    }

    /// Whether a selected place is on the border.
    pub open spec fn on_border(self, x: int, y: int) -> bool {
        let (sx, sy, sw, sh) = self.rect;
        let bw = self.border_width;
        x < sx + bw || x >= sx + sw - bw || y < sy + bw || y >= sy + sh - bw
    }

    /// Whether a selected place is on a corner handle. Small selections have none.
    pub open spec fn on_handle(self, x: int, y: int) -> bool {
        let (sx, sy, sw, sh) = self.rect;
        &&& sw >= HANDLE_SIZE * 3
        &&& sh >= HANDLE_SIZE * 3
        &&& x - sx < HANDLE_SIZE || sx + sw - x <= HANDLE_SIZE
        &&& y - sy < HANDLE_SIZE || sy + sh - y <= HANDLE_SIZE
    }

    /// What is laid over a place.
    pub open spec fn layer(self, x: int, y: int) -> u32 {
        if !self.selected(x, y) {
            self.dim_px
        } else if self.on_handle(x, y) {
            HANDLE_PX
        } else if self.on_border(x, y) {
            self.border_px
        } else {
            0
        }
    }

    /// The colour of a place: the layer itself, or the layer over the frozen
    /// frame where there is one.
    pub open spec fn pixel(self, frozen: Option<Seq<u32>>, x: int, y: int) -> u32 {
        match frozen {
            Some(frame) => color::blended(self.backdrop(frame, x, y), self.layer(x, y)),
            None => self.layer(x, y),
        }
    }

    /// The whole picture, without the label.
    pub open spec fn picture(self, frozen: Option<Seq<u32>>) -> Seq<u32> {
        Seq::new(
            (self.width * self.height) as nat,
            |i: int|
                self.pixel(
                    frozen,
                    raster::col_of(i, self.width as int),
                    raster::row_of(i, self.width as int),
                ),
        )
    }

    /// What is laid over a place.
    fn layer_at(&self, x: u32, y: u32) -> (r: u32)
        requires
            x < self.width,
            y < self.height,
        ensures
            r == self.layer(x as int, y as int),
    {
        let px: i64 = x as i64;
        let py: i64 = y as i64;
        let sx: i64 = self.rect.0 as i64;
        let sy: i64 = self.rect.1 as i64;
        let sw: i64 = self.rect.2 as i64;
        let sh: i64 = self.rect.3 as i64;
        let bw: i64 = self.border_width as i64;
        if !self.shown || px < sx || px >= sx + sw || py < sy || py >= sy + sh {
            return self.dim_px;
        }
        let handles: bool = sw >= HANDLE_SIZE * 3 && sh >= HANDLE_SIZE * 3;
        if handles && (px - sx < HANDLE_SIZE || sx + sw - px <= HANDLE_SIZE) && (py - sy
            < HANDLE_SIZE || sy + sh - py <= HANDLE_SIZE) {
            HANDLE_PX
        } else if px < sx + bw || px >= sx + sw - bw || py < sy + bw || py >= sy + sh - bw {
            self.border_px
        } else {
            0
        }
    }

    /// The colour of a place.
    fn pixel_at(&self, frozen: &Option<Vec<u32>>, x: u32, y: u32) -> (r: u32)
        requires
            x < self.width,
            y < self.height,
        ensures
            r == self.pixel(view_of(*frozen), x as int, y as int),
    {
        let layer: u32 = self.layer_at(x, y);
        match frozen {
            Some(frame) => {
                proof {
                    assert(0 <= y * self.frozen_width <= 0xFFFF_FFFE * 0xFFFF_FFFF)
                        by (nonlinear_arith)
                        requires
                            0 <= y <= 0xFFFF_FFFE,
                            0 <= self.frozen_width <= 0xFFFF_FFFF,
                    ;
                }
                let at: u64 = y as u64 * self.frozen_width as u64 + x as u64;
                let base: u32 = if at < frame.len() as u64 {
                    frame[at as usize]
                } else {
                    BLACK
                };
                color::blend(base, layer)
            },
            None => layer,
        }
    }

    /// Write the whole picture, without the label.
    fn paint(&self, pixels: &mut [u32], frozen: &Option<Vec<u32>>)
        requires
            old(pixels)@.len() == self.width * self.height,
        ensures
            final(pixels)@ == self.picture(view_of(*frozen)),
    {
        let ghost target = self.picture(view_of(*frozen));
        let ghost w = self.width as int;
        let len: usize = pixels.len();
        let mut y: u32 = 0;
        while y < self.height
            invariant
                y <= self.height,
                w == self.width,
                target == self.picture(view_of(*frozen)),
                target.len() == pixels@.len() == len == w * self.height,
                forall|i: int| 0 <= i < y * w ==> #[trigger] pixels@[i] == target[i],
            decreases self.height - y,
        {
            assert(0 <= y * w) by (nonlinear_arith)
                requires
                    0 <= y,
                    0 <= w,
            ;
            let mut x: u32 = 0;
            while x < self.width
                invariant
                    x <= self.width,
                    y < self.height,
                    w == self.width,
                    0 <= y * w,
                    target == self.picture(view_of(*frozen)),
                    target.len() == pixels@.len() == len == w * self.height,
                    forall|i: int| 0 <= i < y * w + x ==> #[trigger] pixels@[i] == target[i],
                decreases self.width - x,
            {
                proof {
                    raster::lemma_index(x as int, y as int, w);
                    raster::lemma_index_in_range(x as int, y as int, w, self.height as int);
                }
                let at: usize = y as usize * self.width as usize + x as usize;
                let ghost held = pixels@;
                pixels[at] = self.pixel_at(frozen, x, y);
                assert forall|i: int| 0 <= i < y * w + x + 1 implies #[trigger] pixels@[i]
                    == target[i] by {
                    if i < y * w + x {
                        assert(pixels@[i] == held[i]);
                    }
                }
                x += 1;
            }
            assert((y + 1) * w == y * w + w) by (nonlinear_arith);
            y += 1;
        }
        assert(self.height * w == w * self.height) by (nonlinear_arith);
        assert(pixels@ =~= target);
    }
}

/// The pixels of a frozen frame, if there is one.
pub open spec fn view_of(frozen: Option<Vec<u32>>) -> Option<Seq<u32>> {
    match frozen {
        Some(frame) => Some(frame@),
        None => None,
    }
}

/// A part of the surface that has to be shown anew.
#[derive(Debug, Clone, Copy, PartialEq, Eq, Structural)]
pub struct Damage {
    pub x: i32,
    pub y: i32,
    pub width: i32,
    pub height: i32,
}

/// One side of a damaged part: where it starts and how long it is, for two
/// rectangles on a surface that is `side` long, with some room around them.
pub open spec fn damaged_span(
    start: int,
    len: int,
    prev_start: int,
    prev_len: int,
    margin: int,
    side: int,
) -> (int, int) {
    let low = vstd::math::max(vstd::math::min(start, prev_start) - margin, 0);
    let high = vstd::math::min(
        vstd::math::max(start + len, prev_start + prev_len) + margin,
        side,
    );
    (low, vstd::math::max(high - low, 1))
}

/// The part to show anew: both rectangles and some room around them, or all of
/// the surface if there was and is no selection.
pub open spec fn damage_of(scene: Scene, prev: (i32, i32, i32, i32)) -> (int, int, int, int) {
    if scene.shown || prev.2 > 0 {
        let margin = scene.border_width + CLEARANCE;
        let (x, width) = damaged_span(
            scene.rect.0 as int,
            scene.rect.2 as int,
            prev.0 as int,
            prev.2 as int,
            margin,
            scene.width as int,
        );
        let (y, height) = damaged_span(
            scene.rect.1 as int,
            scene.rect.3 as int,
            prev.1 as int,
            prev.3 as int,
            margin,
            scene.height as int,
        );
        (x, y, width, height)
    } else {
        (0, 0, scene.width as int, scene.height as int)
    }
}

/// One side of a damaged part.
fn damage_span(
    start: i32,
    len: i32,
    prev_start: i32,
    prev_len: i32,
    margin: i64,
    side: u32,
) -> (r: (i32, i32))
    requires
        0 <= margin <= 0x2_0000_0000,
        side <= i32::MAX,
    ensures
        (r.0 as int, r.1 as int) == damaged_span(
            start as int,
            len as int,
            prev_start as int,
            prev_len as int,
            margin as int,
            side as int,
        ),
{
    let first: i64 = if start <= prev_start {
        start as i64
    } else {
        prev_start as i64
    };
    let end: i64 = start as i64 + len as i64;
    let prev_end: i64 = prev_start as i64 + prev_len as i64;
    let last: i64 = if end >= prev_end {
        end
    } else {
        prev_end
    };
    let mut low: i64 = first - margin;
    if low < 0 {
        low = 0;
    }
    let mut high: i64 = last + margin;
    if high > side as i64 {
        high = side as i64;
    }
    let span: i64 = if high - low > 1 {
        high - low
    } else {
        1
    };
    (low as i32, span as i32)
}

impl Scene {
    /// The part to show anew.
    fn damage(&self, prev: (i32, i32, i32, i32)) -> (r: Damage)
        requires
            self.width <= i32::MAX,
            self.height <= i32::MAX,
        ensures
            (r.x as int, r.y as int, r.width as int, r.height as int) == damage_of(*self, prev),
    {
        if self.shown || prev.2 > 0 {
            let margin: i64 = self.border_width as i64 + CLEARANCE;
            let (x, width): (i32, i32) = damage_span(
                self.rect.0,
                self.rect.2,
                prev.0,
                prev.2,
                margin,
                self.width,
            );
            let (y, height): (i32, i32) = damage_span(
                self.rect.1,
                self.rect.3,
                prev.1,
                prev.3,
                margin,
                self.height,
            );
            Damage { x, y, width, height }
        } else {
            Damage { x: 0, y: 0, width: self.width as i32, height: self.height as i32 }
        }
    }
}

impl AppState {
    /// The rectangle of the selection, or nothing at the origin.
    pub open spec fn shown_rect(self) -> (i32, i32, i32, i32) {
        let selection = self.overlay.selection;
        if selection.shown() {
            let (x, y, w, h) = selection.bounds();
            (x as i32, y as i32, w as i32, h as i32)
        } else {
            (0, 0, 0, 0)
        }
    }

    /// What the overlay shows, with the given alphas for the dimmed part and for
    /// the border.
    pub open spec fn scene(self, dim_alpha: u8, border_alpha: u8) -> Scene {
        Scene {
            width: self.overlay.width,
            height: self.overlay.height,
            shown: self.overlay.selection.shown(),
            rect: self.shown_rect(),
            border_width: self.border_width,
            dim_px: color::packed(
                dim_alpha as int,
                self.overlay_color[0] as int,
                self.overlay_color[1] as int,
                self.overlay_color[2] as int,
            ) as u32,
            border_px: color::packed(
                border_alpha as int,
                self.border_color[0] as int,
                self.border_color[1] as int,
                self.border_color[2] as int,
            ) as u32,
            frozen_width: self.frozen_width,
        }
    }

    /// The pixels of the overlay, label included.
    pub open spec fn frame(self, dim_alpha: u8, border_alpha: u8) -> Seq<u32> {
        self.scene(dim_alpha, border_alpha).labelled(
            view_of(self.frozen_buffer),
            self.show_dimensions,
        )
    }

    /// Whether there is anything to draw on.
    pub open spec fn drawable(self) -> bool {
        self.overlay.width > 0 && self.overlay.height > 0 && self.overlay.buffer_data
    }
}

/// What the overlay shows.
fn compose(state: &AppState, dim_alpha: u8, border_alpha: u8) -> (scene: Scene)
    requires
        state.overlay.selection.shown() ==> state.overlay.selection.measurable(),
    ensures
        scene == state.scene(dim_alpha, border_alpha),
{
    let shown: bool = state.overlay.selection.active || state.overlay.selection.done;
    let rect: (i32, i32, i32, i32) = if shown {
        state.overlay.selection.rect()
    } else {
        (0, 0, 0, 0)
    };
    Scene {
        width: state.overlay.width,
        height: state.overlay.height,
        shown,
        rect,
        border_width: state.border_width,
        dim_px: color::argb(
            dim_alpha,
            state.overlay_color[0],
            state.overlay_color[1],
            state.overlay_color[2],
        ),
        border_px: color::argb(
            border_alpha,
            state.border_color[0],
            state.border_color[1],
            state.border_color[2],
        ),
        frozen_width: state.frozen_width,
    }
}

impl Scene {
    /// The label of the selection.
    pub open spec fn hud(self) -> Hud {
        Hud {
            buf_w: self.width as usize,
            buf_h: self.height as usize,
            sx: self.rect.0,
            sy: self.rect.1,
            sw: self.rect.2,
            sh: self.rect.3,
        }
    }

    /// The pixels of the scene, label included where one is wanted.
    pub open spec fn labelled(self, frozen: Option<Seq<u32>>, label: bool) -> Seq<u32> {
        if label && self.shown {
            self.hud().drawn(self.picture(frozen), self.dim_px, self.border_px)
        } else {
            self.picture(frozen)
        }
    }

    /// Write the whole picture, and the label where one is wanted.
    fn render(&self, pixels: &mut [u32], frozen: &Option<Vec<u32>>, label: bool)
        requires
            old(pixels)@.len() == self.width * self.height,
        ensures
            final(pixels)@ == self.labelled(view_of(*frozen), label),
    {
        self.paint(pixels, frozen);
        if label && self.shown {
            hud::render_dimensions_hud(
                pixels,
                self.width as usize,
                self.height as usize,
                self.rect.0,
                self.rect.1,
                self.rect.2,
                self.rect.3,
                self.dim_px,
                self.border_px,
            );
        }
    }
}

/// Render the overlay into the pixels of its buffer, with the given alphas for
/// the dimmed part and for the border. Nothing is drawn without a buffer or on a
/// surface without extent. Says what to show anew, if there is a surface and a
/// buffer to show it from; then a frame callback is in flight.
pub fn draw_overlay(
    state: &mut AppState,
    pixels: &mut [u32],
    dim_alpha: u8,
    border_alpha: u8,
) -> (r: Option<Damage>)
    requires
        old(state).drawable() ==> {
            &&& old(pixels)@.len() == old(state).overlay.width * old(state).overlay.height
            &&& old(state).overlay.width <= i32::MAX
            &&& old(state).overlay.height <= i32::MAX
            &&& old(state).overlay.selection.shown() ==> old(state).overlay.selection.measurable()
        },
    ensures
        !old(state).drawable() ==> {
            &&& r is None
            &&& final(pixels)@ == old(pixels)@
            &&& *final(state) == *old(state)
        },
        old(state).drawable() ==> {
            let shown = old(state).overlay.surface && old(state).overlay.wl_buffer;
            &&& final(pixels)@ == old(state).frame(dim_alpha, border_alpha)
            &&& r is Some <==> shown
            &&& r matches Some(d) ==> (d.x as int, d.y as int, d.width as int, d.height as int)
                == damage_of(
                old(state).scene(dim_alpha, border_alpha),
                old(state).overlay.prev_rect,
            )
            &&& *final(state) == (AppState {
                overlay: OverlayState {
                    frame_pending: old(state).overlay.frame_pending || shown,
                    prev_rect: old(state).shown_rect(),
                    ..old(state).overlay
                },
                ..*old(state)
            })
        },
{
    if state.overlay.width == 0 || state.overlay.height == 0 || !state.overlay.buffer_data {
        return None;
    }
    let scene: Scene = compose(state, dim_alpha, border_alpha);
    scene.render(pixels, &state.frozen_buffer, state.show_dimensions);
    let mut damage: Option<Damage> = None;
    if state.overlay.surface && state.overlay.wl_buffer {
        damage = Some(scene.damage(state.overlay.prev_rect));
        state.overlay.frame_pending = true;
    }
    state.overlay.prev_rect = scene.rect;
    damage
}

/// What is laid over each place: the wash where nothing is selected; over what is
/// selected, dawn-red in the four corners of six by six pixels of a selection of at
/// least eighteen pixels a side, the border's colour within the border's width of an
/// edge, and nothing anywhere else.
pub proof fn law_layers(scene: Scene, x: int, y: int)
    ensures
        ({
            let (sx, sy, sw, sh) = scene.rect;
            let bw = scene.border_width;
            let inside = scene.shown && 0 <= x < scene.width && 0 <= y < scene.height && sx <= x < sx
                + sw && sy <= y < sy + sh;
            let corner = sw >= 18 && sh >= 18 && (x < sx + 6 || x >= sx + sw - 6) && (y < sy + 6
                || y >= sy + sh - 6);
            let edge = x - sx < bw || sx + sw - x <= bw || y - sy < bw || sy + sh - y <= bw;
            &&& scene.selected(x, y) <==> inside
            &&& scene.on_handle(x, y) <==> corner
            &&& scene.on_border(x, y) <==> edge
            &&& !inside ==> scene.layer(x, y) == scene.dim_px
            &&& inside && corner ==> scene.layer(x, y) == 0xFFFF_4500
            &&& inside && !corner && edge ==> scene.layer(x, y) == scene.border_px
            &&& inside && !corner && !edge ==> scene.layer(x, y) == 0
        }),
{
}

/// Under the layers lies the frozen frame, row by row, and black where it has no more
/// pixels; without a frame only the layer is seen.
pub proof fn law_frame_lies_under_layers(scene: Scene, frame: Seq<u32>, x: int, y: int)
    ensures
        ({
            let at = y * scene.frozen_width + x;
            &&& at < frame.len() ==> scene.backdrop(frame, x, y) == frame[at]
            &&& at >= frame.len() ==> scene.backdrop(frame, x, y) == 0xFF00_0000
            &&& scene.pixel(None, x, y) == scene.layer(x, y)
            &&& scene.pixel(Some(frame), x, y) == color::blended(
                scene.backdrop(frame, x, y),
                scene.layer(x, y),
            )
        }),
{
}

/// The wash dims what is not selected: each channel of the frame moves towards the
/// wash's by the wash's alpha, for every alpha from nothing to opaque.
pub proof fn law_wash_dims_frame(
    scene: Scene,
    frame: Seq<u32>,
    x: int,
    y: int,
    a: u8,
    r: u8,
    g: u8,
    b: u8,
)
    requires
        !scene.selected(x, y),
        0 <= y * scene.frozen_width + x < frame.len(),
        scene.dim_px == a * 0x100_0000 + r * 0x1_0000 + g * 0x100 + b,
    ensures
        ({
            let under = frame[y * scene.frozen_width + x] as int;
            let px = scene.pixel(Some(frame), x, y) as int;
            let red = px / 0x1_0000 % 0x100;
            let green = px / 0x100 % 0x100;
            let blue = px % 0x100;
            &&& 255 * red <= under / 0x1_0000 % 0x100 * (255 - a) + r * a < 255 * (red + 1)
            &&& 255 * green <= under / 0x100 % 0x100 * (255 - a) + g * a < 255 * (green + 1)
            &&& 255 * blue <= under % 0x100 * (255 - a) + b * a < 255 * (blue + 1)
        }),
{
    let under = frame[y * scene.frozen_width + x];
    color::law_channels_are_digits(under);
    color::law_blend_is_weighted_mean(
        color::alpha_of(under) as u8,
        color::red_of(under) as u8,
        color::green_of(under) as u8,
        color::blue_of(under) as u8,
        a,
        r,
        g,
        b,
    );
    color::lemma_packed_reads(a as int, r as int, g as int, b as int);
    let (ur, ug, ub) = (color::red_of(under), color::green_of(under), color::blue_of(under));
    let px = scene.pixel(Some(frame), x, y);
    assert(px == color::blended(under, scene.dim_px));
    if a == 0 {
        assert(px == under);
        assert(ur * (255 - a) + r * a == 255 * ur) by (nonlinear_arith)
            requires
                a == 0,
        ;
        assert(ug * (255 - a) + g * a == 255 * ug) by (nonlinear_arith)
            requires
                a == 0,
        ;
        assert(ub * (255 - a) + b * a == 255 * ub) by (nonlinear_arith)
            requires
                a == 0,
        ;
    } else if a == 255 {
        assert(px == scene.dim_px);
        assert(ur * (255 - a) + r * a == 255 * r) by (nonlinear_arith)
            requires
                a == 255,
        ;
        assert(ug * (255 - a) + g * a == 255 * g) by (nonlinear_arith)
            requires
                a == 255,
        ;
        assert(ub * (255 - a) + b * a == 255 * b) by (nonlinear_arith)
            requires
                a == 255,
        ;
    }
}

/// The picture has a pixel for each place of the surface, row by row; where a label is
/// wanted for a selection it is drawn over the picture, in the border's colour on the
/// wash's.
pub proof fn law_picture_in_rows(
    scene: Scene,
    frozen: Option<Seq<u32>>,
    label: bool,
    x: int,
    y: int,
)
    requires
        0 <= x < scene.width <= i32::MAX,
        0 <= y < scene.height <= i32::MAX,
    ensures
        ({
            let at = y * scene.width + x;
            let px = scene.labelled(frozen, label)[at];
            let hud = scene.hud();
            let labelled = label && scene.shown;
            &&& 0 <= at < scene.width * scene.height
            &&& scene.labelled(frozen, label).len() == scene.width * scene.height
            &&& hud.buf_w == scene.width && hud.buf_h == scene.height
            &&& hud.sx == scene.rect.0 && hud.sy == scene.rect.1
            &&& hud.sw == scene.rect.2 && hud.sh == scene.rect.3
            &&& labelled && hud.lit(x, y) ==> px == scene.border_px
            &&& labelled && !hud.lit(x, y) && hud.in_pill(x, y) ==> px == 0xDD00_0000
                + scene.dim_px as int % 0x100_0000
            &&& !labelled || !hud.lit(x, y) && !hud.in_pill(x, y) ==> px == scene.pixel(
                frozen,
                x,
                y,
            )
        }),
{
    let (w, h) = (scene.width as int, scene.height as int);
    raster::lemma_index(x, y, w);
    raster::lemma_index_in_range(x, y, w, h);
    hud::law_label_is_drawn(
        scene.hud(),
        scene.picture(frozen),
        scene.dim_px,
        scene.border_px,
        x,
        y,
    );
}

/// What is shown comes from the state: the surface's sides, the selection's rectangle,
/// the configured border and colours with the given alphas, and the frozen frame.
pub proof fn law_scene_shows_state(state: AppState, dim_alpha: u8, border_alpha: u8)
    requires
        state.overlay.selection.shown() ==> state.overlay.selection.measurable(),
    ensures
        ({
            let scene = state.scene(dim_alpha, border_alpha);
            let s = state.overlay.selection;
            let tint = state.overlay_color;
            let line = state.border_color;
            let (x, y, w, h) = s.bounds();
            &&& scene.width == state.overlay.width && scene.height == state.overlay.height
            &&& scene.shown <==> s.active || s.done
            &&& scene.rect == state.shown_rect()
            &&& s.active || s.done ==> scene.rect.0 == x && scene.rect.1 == y && scene.rect.2 == w
                && scene.rect.3 == h
            &&& !s.active && !s.done ==> scene.rect == (0i32, 0i32, 0i32, 0i32)
            &&& scene.border_width == state.border_width
            &&& scene.frozen_width == state.frozen_width
            &&& scene.dim_px == dim_alpha * 0x100_0000 + tint[0] * 0x1_0000 + tint[1] * 0x100
                + tint[2]
            &&& scene.border_px == border_alpha * 0x100_0000 + line[0] * 0x1_0000 + line[1] * 0x100
                + line[2]
            &&& state.frame(dim_alpha, border_alpha) == scene.labelled(
                view_of(state.frozen_buffer),
                state.show_dimensions,
            )
            &&& state.frozen_buffer matches Some(frame) ==> view_of(state.frozen_buffer) == Some(
                frame@,
            )
            &&& state.frozen_buffer is None ==> view_of(state.frozen_buffer) is None
            &&& state.drawable() <==> state.overlay.width > 0 && state.overlay.height > 0
                && state.overlay.buffer_data
        }),
{
    let tint = state.overlay_color;
    let line = state.border_color;
    color::lemma_packed_reads(dim_alpha as int, tint[0] as int, tint[1] as int, tint[2] as int);
    color::lemma_packed_reads(border_alpha as int, line[0] as int, line[1] as int, line[2] as int);
    crate::selection::law_rect_lies_between_ends(state.overlay.selection);
}

/// Without a selection, now or before, all of the surface is shown anew.
pub proof fn law_damage_without_selection(scene: Scene, prev: (i32, i32, i32, i32))
    requires
        !scene.shown,
        prev.2 <= 0,
    ensures
        damage_of(scene, prev) == (0int, 0int, scene.width as int, scene.height as int),
{
}

/// With a selection, now or before, the part shown anew starts at the first corner of
/// both rectangles and ends at their last one, with the border's width and 46 pixels of
/// room on every side, as far as the surface reaches, and is at least one pixel large.
pub proof fn law_damage_with_selection(scene: Scene, prev: (i32, i32, i32, i32))
    requires
        scene.shown || prev.2 > 0,
    ensures
        ({
            let (x, y, w, h) = damage_of(scene, prev);
            let (sx, sy, sw, sh) = scene.rect;
            let room = scene.border_width + 46;
            let left = vstd::math::min(sx as int, prev.0 as int) - room;
            let top = vstd::math::min(sy as int, prev.1 as int) - room;
            let right = vstd::math::max(sx + sw, prev.0 + prev.2) + room;
            let bottom = vstd::math::max(sy + sh, prev.1 + prev.3) + room;
            &&& x == vstd::math::max(left, 0)
            &&& y == vstd::math::max(top, 0)
            &&& w >= 1 && h >= 1
            &&& w > 1 ==> x + w == vstd::math::min(right, scene.width as int)
            &&& w == 1 ==> vstd::math::min(right, scene.width as int) <= x + 1
            &&& h > 1 ==> y + h == vstd::math::min(bottom, scene.height as int)
            &&& h == 1 ==> vstd::math::min(bottom, scene.height as int) <= y + 1
        }),
{
}

/// Inside the selection, past border and handles, the frozen frame shows through
/// unchanged.
pub proof fn law_selection_shows_frame(scene: Scene, frame: Seq<u32>, x: int, y: int)
    requires
        scene.selected(x, y),
        !scene.on_border(x, y),
        !scene.on_handle(x, y),
    ensures
        scene.pixel(Some(frame), x, y) == scene.backdrop(frame, x, y),
        scene.pixel(None, x, y) == 0,
{
}

/// Corner handles are opaque: they look the same over any frame and over none.
pub proof fn law_handles_are_opaque(scene: Scene, frozen: Option<Seq<u32>>, x: int, y: int)
    requires
        scene.selected(x, y),
        scene.on_handle(x, y),
    ensures
        scene.pixel(frozen, x, y) == HANDLE_PX,
{
    assert(color::alpha_of(HANDLE_PX) == 255);
}

/// The border pulses only while a selection is dragged: at any other time it is
/// opaque, in the configured colour, over any frame and over none.
pub proof fn law_border_is_opaque_at_rest(
    state: AppState,
    dim_alpha: u8,
    pulsing: u8,
    frozen: Option<Seq<u32>>,
    x: int,
    y: int,
)
    requires
        !state.overlay.selection.active,
        state.scene(dim_alpha, state.border_alpha_of(pulsing)).selected(x, y),
        state.scene(dim_alpha, state.border_alpha_of(pulsing)).on_border(x, y),
        !state.scene(dim_alpha, state.border_alpha_of(pulsing)).on_handle(x, y),
    ensures
        state.scene(dim_alpha, state.border_alpha_of(pulsing)).pixel(frozen, x, y)
            == color::packed(
            255,
            state.border_color[0] as int,
            state.border_color[1] as int,
            state.border_color[2] as int,
        ),
{
    color::lemma_packed_reads(
        255,
        state.border_color[0] as int,
        state.border_color[1] as int,
        state.border_color[2] as int,
    );
}

/// Everything that is not selected is dimmed; without a selection, everything.
pub proof fn law_rest_is_dimmed(scene: Scene, frame: Seq<u32>, x: int, y: int)
    requires
        !scene.selected(x, y),
    ensures
        scene.pixel(Some(frame), x, y) == color::blended(scene.backdrop(frame, x, y), scene.dim_px),
        scene.pixel(None, x, y) == scene.dim_px,
{
}

/// The selected places are those of the selection's rectangle that are on the
/// surface; a rectangle beside the surface selects nothing.
pub proof fn law_selected_is_rect(scene: Scene, x: int, y: int)
    requires
        scene.shown,
        0 <= x < scene.width,
        0 <= y < scene.height,
    ensures
        scene.selected(x, y) <==> within(
            x,
            y,
            (
                scene.rect.0 as int,
                scene.rect.1 as int,
                scene.rect.2 as int,
                scene.rect.3 as int,
            ),
        ),
        scene.rect.0 + scene.rect.2 <= 0 || scene.rect.1 + scene.rect.3 <= 0 ==> !scene.selected(
            x,
            y,
        ),
{
}

/// Whether a place lies in a rectangle given by left, top, width and height.
pub open spec fn within(x: int, y: int, r: (int, int, int, int)) -> bool {
    r.0 <= x < r.0 + r.2 && r.1 <= y < r.1 + r.3
}

/// What is shown anew holds every place of the surface that is in the rectangle
/// shown now or in the one shown before.
pub proof fn law_damage_covers_both(scene: Scene, prev: (i32, i32, i32, i32), x: int, y: int)
    requires
        0 <= x < scene.width,
        0 <= y < scene.height,
        within(
            x,
            y,
            (
                scene.rect.0 as int,
                scene.rect.1 as int,
                scene.rect.2 as int,
                scene.rect.3 as int,
            ),
        ) || within(x, y, (prev.0 as int, prev.1 as int, prev.2 as int, prev.3 as int)),
    ensures
        within(x, y, damage_of(scene, prev)),
{
}

/// The two rectangles' common bounding box with the room around it.
pub open spec fn surroundings(scene: Scene, prev: (i32, i32, i32, i32)) -> (int, int, int, int) {
    let room = scene.border_width + CLEARANCE;
    let left = vstd::math::min(scene.rect.0 as int, prev.0 as int) - room;
    let top = vstd::math::min(scene.rect.1 as int, prev.1 as int) - room;
    let right = vstd::math::max(scene.rect.0 + scene.rect.2, prev.0 + prev.2) + room;
    let bottom = vstd::math::max(scene.rect.1 + scene.rect.3, prev.1 + prev.3) + room;
    (left, top, right - left, bottom - top)
}

/// With a selection, now or before, what is shown anew is the part of the surface
/// around the two rectangles and nothing else, if any of it, such as `seen_x`,
/// `seen_y`, is on the surface.
pub proof fn law_damage_is_local(
    scene: Scene,
    prev: (i32, i32, i32, i32),
    seen_x: int,
    seen_y: int,
    x: int,
    y: int,
)
    requires
        scene.shown || prev.2 > 0,
        0 <= seen_x < scene.width,
        0 <= seen_y < scene.height,
        within(seen_x, seen_y, surroundings(scene, prev)),
    ensures
        within(x, y, damage_of(scene, prev)) <==> {
            &&& 0 <= x < scene.width
            &&& 0 <= y < scene.height
            &&& within(x, y, surroundings(scene, prev))
        },
{
}

} // verus!
