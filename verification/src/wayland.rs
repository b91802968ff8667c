//! The state of the application, and what the compositor's events do to it.
//!
//! The handles to the compositor's objects are kept by the program; here a flag
//! says whether the program holds one.

use vstd::prelude::*;

use crate::capture::CaptureFrame;
use crate::config::{Opacity, ResolvedConfig};
use crate::overlay;
use crate::overlay::OverlayState;
use crate::pixels;
use crate::pixels::{Captured, PixelError, PixelFormat};
use crate::selection::{Selection, UNITS};

verus! {

// ── Output info ───────────────────────────────────────────────

/// Metadata for an output we discover during globals enumeration.
#[derive(Debug)]
pub struct OutputInfo {
    pub name: Option<String>,
    pub width: i32,
    pub height: i32,
    pub scale: i32,
}

/// What the compositor says about an output.
pub enum OutputEvent {
    /// Its resolution.
    Mode { width: i32, height: i32 },
    /// Its scale.
    Scale { factor: i32 },
    /// Its name.
    Name { name: String },
    /// Anything else.
    Other,
}

impl OutputInfo {
    /// An output of which nothing is known yet.
    pub fn new() -> (r: OutputInfo)
        ensures
            r == (OutputInfo { name: None, width: 0, height: 0, scale: 1 }),
    {
        OutputInfo { name: None, width: 0, height: 0, scale: 1 }
    }

    /// The output after an event.
    pub open spec fn after(self, event: OutputEvent) -> OutputInfo {
        match event {
            OutputEvent::Mode { width, height } => OutputInfo { width, height, ..self },
            OutputEvent::Scale { factor } => OutputInfo { scale: factor, ..self },
            OutputEvent::Name { name } => OutputInfo { name: Some(name), ..self },
            OutputEvent::Other => self,
        }
    }
}

/// A global object that the compositor offers.
pub struct Global {
    pub name: u32,
    pub interface: String,
    pub version: u32,
}

/// How to bind an output: the global's name, the protocol version, and the
/// index that its events carry.
#[derive(Debug, Clone, Copy, PartialEq, Eq, Structural)]
pub struct OutputBinding {
    pub name: u32,
    pub version: u32,
    pub index: usize,
}

/// The newest version of the output protocol that is used.
pub const OUTPUT_VERSION: u32 = 4;

/// The bindings for all outputs among `globals`, numbered in the order in which
/// the compositor lists them.
pub open spec fn bindings_of(globals: Seq<Global>) -> Seq<OutputBinding>
    decreases globals.len(),
{
    if globals.len() == 0 {
        Seq::empty()
    } else {
        let before = bindings_of(globals.drop_last());
        let last = globals.last();
        if last.interface@ == "wl_output"@ {
            before.push(
                OutputBinding {
                    name: last.name,
                    version: vstd::math::min(last.version as int, OUTPUT_VERSION as int) as u32,
                    index: before.len() as usize,
                },
            )
        } else {
            before
        }
    }
}

/// Which outputs to bind, and how.
pub fn output_bindings(globals: &Vec<Global>) -> (r: Vec<OutputBinding>)
    ensures
        r@ == bindings_of(globals@),
        forall|i: int| 0 <= i < r@.len() ==> (#[trigger] r@[i]).index == i,
{
    let wanted: String = "wl_output".to_owned();
    let mut out: Vec<OutputBinding> = Vec::new();
    let mut i: usize = 0;
    assert(globals@.take(0) =~= Seq::empty());
    while i < globals.len()
        invariant
            i <= globals@.len(),
            wanted@ == "wl_output"@,
            out@ == bindings_of(globals@.take(i as int)),
        decreases globals.len() - i,
    {
        assert(globals@.take(i + 1).drop_last() =~= globals@.take(i as int));
        if globals[i].interface == wanted {
            let version: u32 = if globals[i].version < OUTPUT_VERSION {
                globals[i].version
            } else {
                OUTPUT_VERSION
            };
            let index: usize = out.len();
            out.push(OutputBinding { name: globals[i].name, version, index });
        }
        i += 1;
    }
    assert(globals@.take(globals@.len() as int) =~= globals@);
    proof {
        assert(globals.len() <= usize::MAX);
        assert forall|i: int| 0 <= i < out@.len() implies (#[trigger] out@[i]).index == i by {
            law_output_indices(globals@, i);
        }
    }
    out
}

/// The events of the output bound at a place carry that place as their index.
pub proof fn law_output_indices(globals: Seq<Global>, i: int)
    requires
        globals.len() <= usize::MAX,
        0 <= i < bindings_of(globals).len(),
    ensures
        bindings_of(globals)[i].index == i,
        bindings_of(globals)[i].version <= OUTPUT_VERSION,
        bindings_of(globals).len() <= globals.len(),
    decreases globals.len(),
{
    if globals.len() > 0 {
        lemma_bindings_len(globals.drop_last());
        if i < bindings_of(globals.drop_last()).len() {
            law_output_indices(globals.drop_last(), i);
        }
    }
}

/// A global that is an output adds one binding, after those before it: by its name,
/// with its version but no newer than 4, and numbered by how many came before. Any other
/// global adds none.
pub proof fn law_each_output_is_bound(globals: Seq<Global>, last: Global)
    requires
        globals.len() <= usize::MAX,
    ensures
        bindings_of(Seq::empty()).len() == 0,
        last.interface@ != "wl_output"@ ==> bindings_of(globals.push(last)) == bindings_of(globals),
        last.interface@ == "wl_output"@ ==> {
            let before = bindings_of(globals);
            let all = bindings_of(globals.push(last));
            let n = before.len() as int;
            &&& all.len() == n + 1
            &&& all.take(n) == before
            &&& all[n].name == last.name
            &&& all[n].version == (if last.version < 4 {
                last.version
            } else {
                4
            })
            &&& all[n].index == n
        },
{
    assert(globals.push(last).drop_last() =~= globals);
    lemma_bindings_len(globals);
    let before = bindings_of(globals);
    if last.interface@ == "wl_output"@ {
        assert(bindings_of(globals.push(last)).take(before.len() as int) =~= before);
    }
}

/// There are no more bindings than globals.
proof fn lemma_bindings_len(globals: Seq<Global>)
    ensures
        bindings_of(globals).len() <= globals.len(),
    decreases globals.len(),
{
    if globals.len() > 0 {
        lemma_bindings_len(globals.drop_last());
    }
}

// ── Application state ─────────────────────────────────────────

/// The top-level application state.
#[derive(Debug)]
pub struct AppState {
    // ── Globals ──
    pub shm: bool,
    pub seat: bool,
    pub outputs: Vec<OutputInfo>,
    pub screencopy_manager: bool,
    // ── Overlay / selection ──
    pub overlay: OverlayState,
    // ── Screencopy frame ──
    pub capture_frame: CaptureFrame,
    // ── Config ──
    pub border_color: [u8; 4],
    pub border_width: u32,
    pub overlay_color: [u8; 3],
    pub overlay_opacity: Opacity,
    pub overlay_idle_opacity: Opacity,
    pub show_dimensions: bool,
    pub running: bool,
    // ── Freeze-frame buffer (pre-captured full output as ARGB8888) ──
    pub frozen_buffer: Option<Vec<u32>>,
    pub frozen_width: u32,
    pub frozen_height: u32,
}

impl AppState {
    /// The state at start: nothing bound, nothing selected, nothing frozen.
    pub fn new(cfg: &ResolvedConfig) -> (r: AppState)
        ensures
            !r.shm,
            !r.seat,
            !r.screencopy_manager,
            r.outputs@.len() == 0,
            r.overlay == OverlayState::initial(),
            r.capture_frame == CaptureFrame::blank(),
            r.border_color == cfg.border_color,
            r.border_width == cfg.border_width,
            r.overlay_color == cfg.overlay_color,
            r.overlay_opacity == cfg.overlay_opacity,
            r.overlay_idle_opacity == cfg.overlay_idle_opacity,
            r.show_dimensions == cfg.show_dimensions,
            r.running,
            r.frozen_buffer is None,
            r.frozen_width == 0,
            r.frozen_height == 0,
    {
        AppState {
            shm: false,
            seat: false,
            outputs: Vec::new(),
            screencopy_manager: false,
            overlay: OverlayState::new(),
            capture_frame: CaptureFrame::default(),
            border_color: cfg.border_color,
            border_width: cfg.border_width,
            overlay_color: cfg.overlay_color,
            overlay_opacity: cfg.overlay_opacity,
            overlay_idle_opacity: cfg.overlay_idle_opacity,
            show_dimensions: cfg.show_dimensions,
            running: true,
            frozen_buffer: None,
            frozen_width: 0,
            frozen_height: 0,
        }
    }

    /// The frozen frame, where there is one, is as large as its sides say.
    pub open spec fn frozen_fits(self) -> bool {
        self.frozen_buffer matches Some(frame) ==> frame@.len() == self.frozen_width
            * self.frozen_height
    }
}

// ── Events ────────────────────────────────────────────────────

/// The left pointer button.
pub const BTN_LEFT: u32 = 0x110;

/// The right pointer button.
pub const BTN_RIGHT: u32 = 0x111;

/// The middle pointer button.
pub const BTN_MIDDLE: u32 = 0x112;

/// Key codes.
pub const KEY_ESC: u32 = 1;

pub const KEY_ENTER: u32 = 28;

pub const KEY_A: u32 = 30;

pub const KEY_SPACE: u32 = 57;

pub const KEY_UP: u32 = 103;

pub const KEY_LEFT: u32 = 105;

pub const KEY_RIGHT: u32 = 106;

pub const KEY_DOWN: u32 = 108;

/// What happened to a pointer button.
#[derive(Debug, Clone, Copy, PartialEq, Eq, Structural)]
pub enum ButtonState {
    Pressed,
    Released,
    Other,
}

/// What the pointer does. Positions are in 1/256 of a pixel.
#[derive(Debug, Clone, Copy, PartialEq, Eq, Structural)]
pub enum PointerEvent {
    Button { button: u32, state: ButtonState },
    Motion { x: i32, y: i32 },
    Enter { x: i32, y: i32 },
    Other,
}

/// What the keyboard does.
#[derive(Debug, Clone, Copy, PartialEq, Eq, Structural)]
pub enum KeyboardEvent {
    Key { key: u32, pressed: bool },
    Modifiers { depressed: u32 },
    Other,
}

/// What the compositor does with the overlay's surface.
#[derive(Debug, Clone, Copy, PartialEq, Eq, Structural)]
pub enum LayerSurfaceEvent {
    Configure { serial: u32, width: u32, height: u32 },
    Closed,
    Other,
}

/// What to do about the overlay's surface: acknowledge its new size, then drop
/// the old buffer and allocate another if asked to, then draw.
#[derive(Debug, Clone, Copy, PartialEq, Eq, Structural)]
pub struct Reconfigure {
    pub serial: u32,
    pub reallocate: bool,
}

/// How to react to an input: the selection that results, whether to stop, and
/// whether to draw anew.
#[derive(Debug, Clone, Copy, PartialEq, Eq, Structural)]
pub struct Reaction {
    pub selection: Selection,
    pub stop: bool,
    pub redraw: bool,
}

/// The middle of a side, in pointer units.
pub open spec fn centre(side: u32) -> int {
    side * UNITS / 2
}

/// A position moved by `by` whole pixels, kept on a side that is `side` long.
pub open spec fn nudged(v: int, by: int, side: u32) -> int {
    vstd::math::max(0, vstd::math::min(v + by * UNITS, side * UNITS))
}

/// A position moved by `by` whole pixels, kept on a side that is `side` long.
fn nudge(v: i64, by: i64, side: u32) -> (r: i64)
    requires
        -10 <= by <= 10,
    ensures
        r == nudged(v as int, by as int, side),
{
    let most: i64 = side as i64 * UNITS;
    let step: i64 = by * UNITS;
    if step < 0 && v < -step || step >= 0 && v < 0 && v + step < 0 {
        0
    } else if v > most - step {
        most
    } else {
        v + step
    }
}

impl AppState {
    /// The state once an input was reacted to.
    pub open spec fn reacting(self, reaction: Reaction) -> AppState {
        AppState {
            overlay: self.overlay.noting(reaction.selection, reaction.redraw),
            running: self.running && !reaction.stop,
            ..self
        }
    }

    /// React to an input. Says whether to arm a frame callback.
    fn react(&mut self, reaction: Reaction) -> (arm: bool)
        ensures
            *final(self) == old(self).reacting(reaction),
            arm == (reaction.redraw && old(self).overlay.can_arm()),
    {
        self.running = self.running && !reaction.stop;
        self.overlay.note(reaction.selection, reaction.redraw)
    }

    /// The reaction to a pointer event.
    pub open spec fn pointer_reaction(self, event: PointerEvent) -> Reaction {
        let s = self.overlay.selection;
        match event {
            PointerEvent::Button { button, state } => if button == BTN_LEFT && state is Pressed {
                Reaction {
                    selection: Selection {
                        active: true,
                        done: false,
                        start_x: s.end_x,
                        start_y: s.end_y,
                        ..s
                    },
                    stop: false,
                    redraw: false,
                }
            } else if button == BTN_LEFT && state is Released && s.active {
                Reaction {
                    selection: Selection { active: false, done: true, ..s },
                    stop: true,
                    redraw: false,
                }
            } else if button == BTN_RIGHT || button == BTN_MIDDLE {
                Reaction { selection: Selection { done: false, ..s }, stop: true, redraw: false }
            } else {
                Reaction { selection: s, stop: false, redraw: false }
            },
            PointerEvent::Motion { x, y } => Reaction {
                selection: Selection { end_x: x as i64, end_y: y as i64, ..s },
                stop: false,
                redraw: s.active,
            },
            PointerEvent::Enter { x, y } => Reaction {
                selection: Selection { end_x: x as i64, end_y: y as i64, ..s },
                stop: false,
                redraw: false,
            },
            PointerEvent::Other => Reaction { selection: s, stop: false, redraw: false },
        }
    }

    /// Work out the reaction to a pointer event.
    fn on_pointer(&self, event: PointerEvent) -> (r: Reaction)
        ensures
            r == self.pointer_reaction(event),
    {
        let mut selection: Selection = self.overlay.selection;
        let mut stop: bool = false;
        let mut redraw: bool = false;
        match event {
            PointerEvent::Button { button, state } => {
                if button == BTN_LEFT {
                    match state {
                        ButtonState::Pressed => {
                            selection.active = true;
                            selection.done = false;
                            selection.start_x = selection.end_x;
                            selection.start_y = selection.end_y;
                        },
                        ButtonState::Released => {
                            if selection.active {
                                selection.active = false;
                                selection.done = true;
                                stop = true;
                            }
                        },
                        ButtonState::Other => {},
                    }
                }
                // Right-click or middle-click = cancel.
                if button == BTN_RIGHT || button == BTN_MIDDLE {
                    selection.done = false;
                    stop = true;
                }
            },
            PointerEvent::Motion { x, y } => {
                selection.end_x = x as i64;
                selection.end_y = y as i64;
                redraw = selection.active;
            },
            PointerEvent::Enter { x, y } => {
                selection.end_x = x as i64;
                selection.end_y = y as i64;
            },
            PointerEvent::Other => {},
        }
        Reaction { selection, stop, redraw }
    }

    /// Take in what the pointer does. Says whether to arm a frame callback.
    pub fn handle_pointer(&mut self, event: PointerEvent) -> (arm: bool)
        ensures
            *final(self) == old(self).reacting(old(self).pointer_reaction(event)),
            event matches PointerEvent::Motion { x, y } ==> final(self).overlay.selection == (
            Selection { end_x: x as i64, end_y: y as i64, ..old(self).overlay.selection })
                && final(self).running == old(self).running,
            event matches PointerEvent::Enter { x, y } ==> final(self).overlay.selection == (
            Selection { end_x: x as i64, end_y: y as i64, ..old(self).overlay.selection })
                && final(self).running == old(self).running,
            arm == (old(self).pointer_reaction(event).redraw && old(self).overlay.can_arm()),
    {
        let reaction: Reaction = self.on_pointer(event);
        self.react(reaction)
    }

    /// How many pixels an arrow key moves the selection's end.
    pub open spec fn step(self) -> int {
        if self.overlay.shift_held {
            10
        } else {
            1
        }
    }

    /// The reaction to an arrow key: the selection's end moves and is kept on the
    /// surface, or, if there is no selection, one starts at the centre.
    pub open spec fn arrow_reaction(self, dx: int, dy: int) -> Reaction {
        let s = self.overlay.selection;
        let w = self.overlay.width;
        let h = self.overlay.height;
        Reaction {
            selection: if s.shown() {
                Selection {
                    end_x: nudged(s.end_x as int, dx, w) as i64,
                    end_y: nudged(s.end_y as int, dy, h) as i64,
                    ..s
                }
            } else {
                Selection {
                    start_x: centre(w) as i64,
                    start_y: centre(h) as i64,
                    end_x: centre(w) as i64,
                    end_y: centre(h) as i64,
                    active: true,
                    ..s
                }
            },
            stop: false,
            redraw: true,
        }
    }

    /// The reaction to a key press.
    pub open spec fn key_reaction(self, key: u32) -> Reaction {
        let s = self.overlay.selection;
        if key == KEY_ESC {
            Reaction { selection: Selection { done: false, ..s }, stop: true, redraw: false }
        } else if (key == KEY_ENTER || key == KEY_SPACE) && s.shown() {
            Reaction {
                selection: Selection { active: false, done: true, ..s },
                stop: true,
                redraw: false,
            }
        } else if key == KEY_A {
            Reaction {
                selection: Selection {
                    start_x: 0,
                    start_y: 0,
                    end_x: (self.overlay.width * UNITS) as i64,
                    end_y: (self.overlay.height * UNITS) as i64,
                    active: false,
                    done: true,
                },
                stop: false,
                redraw: true,
            }
        } else if key == KEY_UP {
            self.arrow_reaction(0, -self.step())
        } else if key == KEY_DOWN {
            self.arrow_reaction(0, self.step())
        } else if key == KEY_LEFT {
            self.arrow_reaction(-self.step(), 0)
        } else if key == KEY_RIGHT {
            self.arrow_reaction(self.step(), 0)
        } else {
            Reaction { selection: s, stop: false, redraw: false }
        }
    }

    /// Work out the reaction to an arrow key.
    fn on_arrow(&self, dx: i64, dy: i64) -> (r: Reaction)
        requires
            -10 <= dx <= 10,
            -10 <= dy <= 10,
        ensures
            r == self.arrow_reaction(dx as int, dy as int),
    {
        let mut selection: Selection = self.overlay.selection;
        let w: u32 = self.overlay.width;
        let h: u32 = self.overlay.height;
        if selection.active || selection.done {
            selection.end_x = nudge(selection.end_x, dx, w);
            selection.end_y = nudge(selection.end_y, dy, h);
        } else {
            // Start a selection if there isn't one.
            selection.start_x = w as i64 * 128;
            selection.start_y = h as i64 * 128;
            selection.end_x = w as i64 * 128;
            selection.end_y = h as i64 * 128;
            selection.active = true;
        }
        Reaction { selection, stop: false, redraw: true }
    }

    /// Work out the reaction to a key press.
    fn on_key(&self, key: u32) -> (r: Reaction)
        ensures
            r == self.key_reaction(key),
    {
        let step: i64 = if self.overlay.shift_held {
            10
        } else {
            1
        };
        let mut selection: Selection = self.overlay.selection;
        let mut stop: bool = false;
        let mut redraw: bool = false;
        if key == KEY_ESC {
            // Cancel selection and exit.
            selection.done = false;
            stop = true;
        } else if key == KEY_ENTER || key == KEY_SPACE {
            // Confirm current selection.
            if selection.active || selection.done {
                selection.active = false;
                selection.done = true;
                stop = true;
            }
        } else if key == KEY_A {
            // Select entire output.
            selection.start_x = 0;
            selection.start_y = 0;
            selection.end_x = self.overlay.width as i64 * UNITS;
            selection.end_y = self.overlay.height as i64 * UNITS;
            selection.active = false;
            selection.done = true;
            redraw = true;
        } else if key == KEY_UP {
            return self.on_arrow(0, -step);
        } else if key == KEY_DOWN {
            return self.on_arrow(0, step);
        } else if key == KEY_LEFT {
            return self.on_arrow(-step, 0);
        } else if key == KEY_RIGHT {
            return self.on_arrow(step, 0);
        }
        Reaction { selection, stop, redraw }
    }

    /// The state after a keyboard event. A key that is let go does nothing.
    pub open spec fn after_keyboard(self, event: KeyboardEvent) -> AppState {
        match event {
            KeyboardEvent::Key { key, pressed } => if pressed {
                self.reacting(self.key_reaction(key))
            } else {
                self
            },
            KeyboardEvent::Modifiers { depressed } => AppState {
                overlay: OverlayState { shift_held: depressed % 2 == 1, ..self.overlay },
                ..self
            },
            KeyboardEvent::Other => self,
        }
    }

    /// Take in what the keyboard does. Says whether to arm a frame callback.
    pub fn handle_keyboard(&mut self, event: KeyboardEvent) -> (arm: bool)
        ensures
            *final(self) == old(self).after_keyboard(event),
            arm == (event matches KeyboardEvent::Key { key, pressed } && pressed && old(
                self,
            ).key_reaction(key).redraw && old(self).overlay.can_arm()),
    {
        match event {
            KeyboardEvent::Key { key, pressed } => {
                if pressed {
                    let reaction: Reaction = self.on_key(key);
                    self.react(reaction)
                } else {
                    false
                }
            },
            KeyboardEvent::Modifiers { depressed } => {
                // Bit 0 = Shift in the standard xkb modifier mask.
                self.overlay.shift_held = depressed % 2 == 1;
                false
            },
            KeyboardEvent::Other => false,
        }
    }

    /// The state after an event of the overlay's surface.
    pub open spec fn after_layer_surface(self, event: LayerSurfaceEvent) -> AppState {
        match event {
            LayerSurfaceEvent::Configure { serial, width, height } => {
                AppState { overlay: self.overlay.resized(width, height), ..self }
            },
            LayerSurfaceEvent::Closed => AppState { running: false, ..self },
            LayerSurfaceEvent::Other => self,
        }
    }

    /// Take in what the compositor does with the overlay's surface. Says what to
    /// do about a new size.
    pub fn handle_layer_surface(&mut self, event: LayerSurfaceEvent) -> (r: Option<Reconfigure>)
        ensures
            *final(self) == old(self).after_layer_surface(event),
            match event {
                LayerSurfaceEvent::Configure { serial, width, height } => r == Some(
                    Reconfigure { serial, reallocate: width > 0 && height > 0 },
                ),
                _ => r is None,
            },
            event matches LayerSurfaceEvent::Configure { serial, width, height } ==> {
                &&& final(self).overlay.width == width
                &&& final(self).overlay.height == height
                &&& final(self).overlay.configured
                &&& width > 0 && height > 0 ==> !final(self).overlay.buffer_data && !final(self).overlay.wl_buffer && !final(self).overlay.wl_shm_pool
                &&& final(self).overlay.selection == old(self).overlay.selection
                &&& final(self).running == old(self).running
            },
            event is Closed ==> !final(self).running && final(self).overlay == old(self).overlay,
            event is Other ==> *final(self) == *old(self),
    {
        match event {
            LayerSurfaceEvent::Configure { serial, width, height } => {
                let reallocate: bool = width > 0 && height > 0;
                self.overlay.resize(width, height);
                Some(Reconfigure { serial, reallocate })
            },
            LayerSurfaceEvent::Closed => {
                self.running = false;
                None
            },
            LayerSurfaceEvent::Other => None,
        }
    }

    /// Take in that the frame callback came. Says whether to draw.
    pub fn handle_frame_done(&mut self) -> (draw: bool)
        ensures
            draw == old(self).overlay.needs_redraw,
            *final(self) == (AppState {
                overlay: OverlayState {
                    frame_pending: false,
                    needs_redraw: false,
                    ..old(self).overlay
                },
                ..*old(self)
            }),
    {
        self.overlay.frame_pending = false;
        let draw: bool = self.overlay.needs_redraw;
        self.overlay.needs_redraw = false;
        draw
    }

    /// Take in what the compositor says about the output at `index`. Outputs that
    /// are not known are ignored.
    pub fn handle_output(&mut self, index: usize, event: OutputEvent)
        ensures
            index >= old(self).outputs@.len() ==> *final(self) == *old(self),
            index < old(self).outputs@.len() ==> {
                &&& final(self).outputs@ == old(self).outputs@.update(
                    index as int,
                    old(self).outputs@[index as int].after(event),
                )
                &&& *final(self) == (AppState { outputs: final(self).outputs, ..*old(self) })
                &&& event matches OutputEvent::Mode { width, height } ==> final(self).outputs@[index as int].width == width && final(self).outputs@[index as int].height
                    == height
                &&& event matches OutputEvent::Scale { factor } ==> final(self).outputs@[index as int].scale == factor
                &&& event matches OutputEvent::Name { name } ==> final(self).outputs@[index as int].name == Some(name)
            },
    {
        if index >= self.outputs.len() {
            return;
        }
        match event {
            OutputEvent::Mode { width, height } => {
                self.outputs[index].width = width;
                self.outputs[index].height = height;
            },
            OutputEvent::Scale { factor } => {
                self.outputs[index].scale = factor;
            },
            OutputEvent::Name { name } => {
                self.outputs[index].name = Some(name);
            },
            OutputEvent::Other => {},
        }
    }

    /// The opacity of everything that is not selected.
    pub fn dim_opacity(&self) -> (r: Opacity)
        ensures
            r == (if self.overlay.selection.shown() {
                self.overlay_opacity
            } else {
                self.overlay_idle_opacity
            }),
            self.overlay.selection.active || self.overlay.selection.done ==> r
                == self.overlay_opacity,
            !self.overlay.selection.active && !self.overlay.selection.done ==> r
                == self.overlay_idle_opacity,
    {
        if self.overlay.selection.active || self.overlay.selection.done {
            self.overlay_opacity
        } else {
            self.overlay_idle_opacity
        }
    }

    /// The alpha of the border, where a pulse stands at `pulsing`: opaque unless a
    /// selection is dragged.
    pub open spec fn border_alpha_of(self, pulsing: u8) -> u8 {
        if self.overlay.selection.active {
            pulsing
        } else {
            255
        }
    }

    /// The alpha of the border, where a pulse stands at `pulsing`: opaque unless a
    /// selection is dragged.
    pub fn border_alpha(&self, pulsing: u8) -> (r: u8)
        ensures
            r == self.border_alpha_of(pulsing),
            self.overlay.selection.active ==> r == pulsing,
            !self.overlay.selection.active ==> r == 255,
    {
        if self.overlay.selection.active {
            pulsing
        } else {
            255
        }
    }

    /// Keep captured pixels as the frozen frame.
    pub fn freeze(
        &mut self,
        raw: &[u8],
        width: u32,
        height: u32,
        stride: u32,
        format: PixelFormat,
    ) -> (r: Result<(), PixelError>)
        ensures
            ({
                let src = Captured { raw: raw@, width, height, stride, format };
                match r {
                    Ok(_) => {
                        &&& src.complete()
                        &&& final(self).frozen_buffer matches Some(frame)
                        &&& frame@ == src.colors()
                        &&& *final(self) == (AppState {
                            frozen_buffer: final(self).frozen_buffer,
                            frozen_width: width,
                            frozen_height: height,
                            ..*old(self)
                        })
                        &&& final(self).frozen_fits()
                    },
                    Err(e) => src.stops_with(e) && *final(self) == *old(self),
                }
            }),
    {
        match pixels::convert_to_argb8888(raw, width, height, stride, format) {
            Ok(frame) => {
                self.frozen_buffer = Some(frame);
                self.frozen_width = width;
                self.frozen_height = height;
                Ok(())
            },
            Err(e) => Err(e),
        }
    }
}

// ── What holds of every input ─────────────────────────────────

/// The largest surface side for which every selection can be measured.
pub const MAX_SIDE: u32 = 0x7F7F_FFFF;

/// Whether a position is one that the pointer can reach, or one on a surface of
/// no more than the largest side.
pub open spec fn reachable(v: i64) -> bool {
    i32::MIN <= v <= MAX_SIDE * UNITS
}

/// Whether all positions of a selection are reachable.
pub open spec fn all_reachable(s: Selection) -> bool {
    reachable(s.start_x) && reachable(s.start_y) && reachable(s.end_x) && reachable(s.end_y)
}

/// No input makes a selection both dragged and final.
pub proof fn law_never_dragged_and_final(state: AppState, event: PointerEvent, key: u32)
    requires
        state.overlay.selection.consistent(),
    ensures
        state.pointer_reaction(event).selection.consistent(),
        state.key_reaction(key).selection.consistent(),
{
}

/// On a surface whose sides are no longer than the largest side, every input
/// keeps the selection's positions reachable.
pub proof fn law_positions_stay_reachable(state: AppState, event: PointerEvent, key: u32)
    requires
        state.overlay.width <= MAX_SIDE,
        state.overlay.height <= MAX_SIDE,
        all_reachable(state.overlay.selection),
    ensures
        all_reachable(state.pointer_reaction(event).selection),
        all_reachable(state.key_reaction(key).selection),
{
}

/// A selection whose positions are reachable can be measured.
pub proof fn law_reachable_is_measurable(s: Selection)
    requires
        all_reachable(s),
    ensures
        s.measurable(),
{
}

/// Escape, right click and middle click stop without a final selection, whatever
/// came before.
pub proof fn law_cancel(state: AppState, button: ButtonState)
    ensures
        ({
            let right = PointerEvent::Button { button: BTN_RIGHT, state: button };
            let middle = PointerEvent::Button { button: BTN_MIDDLE, state: button };
            &&& !state.reacting(state.key_reaction(KEY_ESC)).running
            &&& !state.reacting(state.key_reaction(KEY_ESC)).overlay.selection.done
            &&& !state.reacting(state.pointer_reaction(right)).running
            &&& !state.reacting(state.pointer_reaction(right)).overlay.selection.done
            &&& !state.reacting(state.pointer_reaction(middle)).running
            &&& !state.reacting(state.pointer_reaction(middle)).overlay.selection.done
        }),
{
}

/// Enter and space confirm the selection that there is, where it is, and do
/// nothing if there is none.
pub proof fn law_confirm(state: AppState, key: u32)
    requires
        key == KEY_ENTER || key == KEY_SPACE,
    ensures
        ({
            let after = state.reacting(state.key_reaction(key));
            let s = state.overlay.selection;
            &&& s.shown() ==> !after.running && after.overlay.selection == (Selection {
                active: false,
                done: true,
                ..s
            })
            &&& !s.shown() ==> after == state
        }),
{
    assert(state.reacting(
        Reaction { selection: state.overlay.selection, stop: false, redraw: false },
    ) == state);
}

/// `A` selects the whole surface.
pub proof fn law_select_all(state: AppState)
    requires
        0 < state.overlay.width <= i32::MAX,
        0 < state.overlay.height <= i32::MAX,
    ensures
        ({
            let s = state.key_reaction(KEY_A).selection;
            &&& s.done
            &&& s.measurable()
            &&& s.bounds() == (
                0int,
                0int,
                state.overlay.width as int,
                state.overlay.height as int,
            )
        }),
{
}

/// Pressing the left button at one place, dragging to another and letting go
/// selects the rectangle between the two and stops.
pub proof fn law_drag_selects(state: AppState, x0: i32, y0: i32, x1: i32, y1: i32)
    ensures
        ({
            let there = state.reacting(
                state.pointer_reaction(PointerEvent::Motion { x: x0, y: y0 }),
            );
            let pressed = there.reacting(
                there.pointer_reaction(
                    PointerEvent::Button { button: BTN_LEFT, state: ButtonState::Pressed },
                ),
            );
            let dragged = pressed.reacting(
                pressed.pointer_reaction(PointerEvent::Motion { x: x1, y: y1 }),
            );
            let released = dragged.reacting(
                dragged.pointer_reaction(
                    PointerEvent::Button { button: BTN_LEFT, state: ButtonState::Released },
                ),
            );
            &&& dragged.overlay.needs_redraw
            &&& !released.running
            &&& released.overlay.selection == (Selection {
                start_x: x0 as i64,
                start_y: y0 as i64,
                end_x: x1 as i64,
                end_y: y1 as i64,
                active: false,
                done: true,
            })
        }),
{
}

/// Arrow keys keep the moved end on the surface.
pub proof fn law_arrow_stays_on_surface(state: AppState, dx: int, dy: int)
    ensures
        ({
            let s = state.arrow_reaction(dx, dy).selection;
            &&& 0 <= s.end_x <= state.overlay.width * UNITS
            &&& 0 <= s.end_y <= state.overlay.height * UNITS
        }),
{
}

/// An arrow key moves the end of a selection on the surface by one pixel, by ten
/// with shift, and the opposite key takes it back, unless the edge is in the way.
pub proof fn law_arrow_is_undone(state: AppState, key: u32, opposite: u32)
    requires
        (key, opposite) == (KEY_LEFT, KEY_RIGHT) || (key, opposite) == (KEY_RIGHT, KEY_LEFT) || (
        key,
        opposite,
    ) == (KEY_UP, KEY_DOWN) || (key, opposite) == (KEY_DOWN, KEY_UP),
        state.overlay.selection.shown(),
        0 <= state.overlay.selection.end_x <= state.overlay.width * UNITS,
        0 <= state.overlay.selection.end_y <= state.overlay.height * UNITS,
        key == KEY_LEFT ==> state.overlay.selection.end_x >= state.step() * UNITS,
        key == KEY_RIGHT ==> state.overlay.selection.end_x + state.step() * UNITS
            <= state.overlay.width * UNITS,
        key == KEY_UP ==> state.overlay.selection.end_y >= state.step() * UNITS,
        key == KEY_DOWN ==> state.overlay.selection.end_y + state.step() * UNITS
            <= state.overlay.height * UNITS,
    ensures
        ({
            let s = state.overlay.selection;
            let moved = state.reacting(state.key_reaction(key));
            let m = moved.overlay.selection;
            &&& m.end_x - s.end_x == (if key == KEY_LEFT {
                -state.step() * UNITS
            } else if key == KEY_RIGHT {
                state.step() * UNITS
            } else {
                0
            })
            &&& m.end_y - s.end_y == (if key == KEY_UP {
                -state.step() * UNITS
            } else if key == KEY_DOWN {
                state.step() * UNITS
            } else {
                0
            })
            &&& moved.key_reaction(opposite).selection == s
        }),
{
}

/// A redraw that was asked for is not forgotten: until the frame callback comes,
/// no input takes it back, and with a surface a callback is in flight.
pub proof fn law_redraw_is_kept(state: AppState, reaction: Reaction)
    ensures
        state.overlay.needs_redraw || reaction.redraw ==> state.reacting(
            reaction,
        ).overlay.needs_redraw,
        reaction.redraw && state.overlay.surface ==> state.reacting(reaction).overlay.frame_pending,
        state.overlay.frame_pending ==> state.reacting(reaction).overlay.frame_pending,
{
}

/// Once stopped, no input starts the application again.
pub proof fn law_stopped_stays_stopped(state: AppState, reaction: Reaction)
    requires
        !state.running,
    ensures
        !state.reacting(reaction).running,
{
}

// ── What each event does ──────────────────────────────────────

/// Reacting takes the selection over, stops if asked to, and asks for a redraw and its
/// callback if asked to; nothing else changes.
pub proof fn law_reacting(state: AppState, reaction: Reaction)
    ensures
        ({
            let after = state.reacting(reaction);
            let o = state.overlay;
            &&& after.overlay.selection == reaction.selection
            &&& after.running <==> state.running && !reaction.stop
            &&& after.overlay.needs_redraw <==> o.needs_redraw || reaction.redraw
            &&& after.overlay.frame_pending <==> o.frame_pending || reaction.redraw && o.surface
            &&& after == (AppState {
                running: after.running,
                overlay: OverlayState {
                    selection: reaction.selection,
                    needs_redraw: after.overlay.needs_redraw,
                    frame_pending: after.overlay.frame_pending,
                    ..o
                },
                ..state
            })
        }),
{
}

/// What pressing, letting go and other buttons do. The left button, 272, starts a
/// selection where the pointer is when pressed, and ends a dragged one for good when let
/// go; the right and the middle one, 273 and 274, cancel; no other does anything.
pub proof fn law_buttons(state: AppState, button: u32, done: ButtonState)
    ensures
        ({
            let s = state.overlay.selection;
            let r = state.pointer_reaction(PointerEvent::Button { button, state: done });
            let t = r.selection;
            &&& !r.redraw
            &&& (t.end_x, t.end_y) == (s.end_x, s.end_y)
            &&& button == 272 && done is Pressed ==> {
                &&& (t.start_x, t.start_y) == (s.end_x, s.end_y)
                &&& t.active && !t.done && !r.stop
            }
            &&& button == 272 && done is Released && s.active ==> {
                &&& (t.start_x, t.start_y) == (s.start_x, s.start_y)
                &&& !t.active && t.done && r.stop
            }
            &&& button == 272 && done is Released && !s.active ==> t == s && !r.stop
            &&& button == 272 && done is Other ==> t == s && !r.stop
            &&& button == 273 || button == 274 ==> {
                &&& (t.start_x, t.start_y) == (s.start_x, s.start_y)
                &&& t.active == s.active && !t.done && r.stop
            }
            &&& button < 272 || button > 274 ==> t == s && !r.stop
        }),
{
}

/// The pointer takes the end of the selection with it, wherever it goes, and asks for a
/// redraw only while a selection is dragged.
pub proof fn law_pointer_moves_end(state: AppState, x: i32, y: i32)
    ensures
        ({
            let s = state.overlay.selection;
            let moved = state.pointer_reaction(PointerEvent::Motion { x, y });
            let entered = state.pointer_reaction(PointerEvent::Enter { x, y });
            let other = state.pointer_reaction(PointerEvent::Other);
            &&& moved.selection == entered.selection
            &&& (moved.selection.end_x, moved.selection.end_y) == (x as i64, y as i64)
            &&& moved.selection == (Selection { end_x: x as i64, end_y: y as i64, ..s })
            &&& !moved.stop && !entered.stop && !other.stop
            &&& moved.redraw == s.active && !entered.redraw && !other.redraw
            &&& other.selection == s
        }),
{
}

/// What each key does, by its code. Escape, 1, cancels; enter, 28, and space, 57, confirm
/// what is selected; `A`, 30, selects the whole surface; up, left, right and down, 103,
/// 105, 106 and 108, move the end of the selection by one pixel, ten with shift; no other
/// key does anything.
pub proof fn law_keys(state: AppState, key: u32)
    ensures
        ({
            let s = state.overlay.selection;
            let r = state.key_reaction(key);
            let t = r.selection;
            let step = if state.overlay.shift_held {
                10int
            } else {
                1
            };
            &&& key == 1 ==> r.stop && !r.redraw && t == (Selection { done: false, ..s })
            &&& (key == 28 || key == 57) && (s.active || s.done) ==> r.stop && !r.redraw && t == (
            Selection { active: false, done: true, ..s })
            &&& (key == 28 || key == 57) && !s.active && !s.done ==> !r.stop && !r.redraw && t == s
            &&& key == 30 ==> {
                &&& !r.stop && r.redraw
                &&& t.start_x == 0 && t.start_y == 0
                &&& t.end_x == 256 * state.overlay.width
                &&& t.end_y == 256 * state.overlay.height
                &&& !t.active && t.done
            }
            &&& key == 103 ==> r == state.arrow_reaction(0, -step)
            &&& key == 105 ==> r == state.arrow_reaction(-step, 0)
            &&& key == 106 ==> r == state.arrow_reaction(step, 0)
            &&& key == 108 ==> r == state.arrow_reaction(0, step)
            &&& key != 1 && key != 28 && key != 57 && key != 30 && key != 103 && key != 105 && key
                != 106 && key != 108 ==> r == (Reaction { selection: s, stop: false, redraw: false })
        }),
{
}

/// What an arrow key does: with a selection its end moves by so many pixels, and stops at
/// the edges of the surface; without one a selection starts in the middle of it. The
/// overlay is drawn anew, and the application goes on.
pub proof fn law_arrows(state: AppState, dx: int, dy: int)
    requires
        -10 <= dx <= 10,
        -10 <= dy <= 10,
    ensures
        ({
            let s = state.overlay.selection;
            let r = state.arrow_reaction(dx, dy);
            let t = r.selection;
            let (w, h) = (256 * state.overlay.width, 256 * state.overlay.height);
            let (x, y) = (s.end_x + 256 * dx, s.end_y + 256 * dy);
            &&& !r.stop && r.redraw
            &&& s.active || s.done ==> {
                &&& (t.start_x, t.start_y) == (s.start_x, s.start_y)
                &&& t.active == s.active && t.done == s.done
                &&& 0 <= x <= w ==> t.end_x == x
                &&& x < 0 ==> t.end_x == 0
                &&& x > w ==> t.end_x == w
                &&& 0 <= y <= h ==> t.end_y == y
                &&& y < 0 ==> t.end_y == 0
                &&& y > h ==> t.end_y == h
            }
            &&& !s.active && !s.done ==> {
                &&& t.active && !t.done
                &&& 2 * t.start_x == w && 2 * t.end_x == w
                &&& 2 * t.start_y == h && 2 * t.end_y == h
            }
        }),
{
}

/// A key that is let go does nothing, and the shift key is read from the lowest bit of
/// the modifiers.
pub proof fn law_keyboard(state: AppState, key: u32, depressed: u32)
    ensures
        state.after_keyboard(KeyboardEvent::Key { key, pressed: false }) == state,
        state.after_keyboard(KeyboardEvent::Key { key, pressed: true }) == state.reacting(
            state.key_reaction(key),
        ),
        state.after_keyboard(KeyboardEvent::Other) == state,
        ({
            let after = state.after_keyboard(KeyboardEvent::Modifiers { depressed });
            &&& after.overlay.shift_held <==> depressed % 2 == 1
            &&& after == (AppState {
                overlay: OverlayState {
                    shift_held: after.overlay.shift_held,
                    ..state.overlay
                },
                ..state
            })
        }),
{
}

/// The overlay takes on the size that the compositor gives, whatever it is, and stops
/// when the compositor closes it.
pub proof fn law_surface_events(state: AppState, serial: u32, width: u32, height: u32)
    ensures
        ({
            let sized = state.after_layer_surface(
                LayerSurfaceEvent::Configure { serial, width, height },
            );
            let closed = state.after_layer_surface(LayerSurfaceEvent::Closed);
            let kept = width == 0 || height == 0;
            &&& sized.overlay.width == width
            &&& sized.overlay.height == height
            &&& sized.overlay.configured
            &&& sized.overlay.buffer_data <==> state.overlay.buffer_data && kept
            &&& sized.overlay.wl_buffer <==> state.overlay.wl_buffer && kept
            &&& sized.overlay.wl_shm_pool <==> state.overlay.wl_shm_pool && kept
            &&& sized.overlay.selection == state.overlay.selection
            &&& sized == (AppState { overlay: sized.overlay, ..state })
            &&& closed == (AppState { running: false, ..state })
            &&& state.after_layer_surface(LayerSurfaceEvent::Other) == state
        }),
{
}

/// An output event changes what it speaks of, as it says, and nothing else.
pub proof fn law_output_events(
    output: OutputInfo,
    width: i32,
    height: i32,
    factor: i32,
    name: String,
)
    ensures
        output.after(OutputEvent::Mode { width, height }) == (OutputInfo {
            width,
            height,
            name: output.name,
            scale: output.scale,
        }),
        output.after(OutputEvent::Scale { factor }) == (OutputInfo { scale: factor, ..output }),
        output.after(OutputEvent::Name { name }) == (OutputInfo { name: Some(name), ..output }),
        output.after(OutputEvent::Other) == output,
{
}

} // verus!
