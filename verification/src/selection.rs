//! The rectangle that the user drags out.
//!
//! Pointer positions are kept in the compositor's own unit, 1/256 of a pixel.

use vstd::prelude::*;

verus! {

/// Pointer units in a pixel.
pub const UNITS: i64 = 256;

/// The whole pixels in `v` pointer units: the fraction is dropped, and what a
/// signed 32-bit integer cannot hold becomes the nearest one it can.
pub open spec fn whole(v: int) -> int {
    let cut = if v >= 0 {
        v / (UNITS as int)
    } else {
        -((-v) / (UNITS as int))
    };
    if cut > i32::MAX {
        i32::MAX as int
    } else if cut < i32::MIN {
        i32::MIN as int
    } else {
        cut
    }
}

/// The whole pixels in `v` pointer units.
fn pixels(v: i64) -> (r: i32)
    ensures
        r == whole(v as int),
{
    if v >= 0 {
        let cut: i64 = v / 256;
        if cut > 0x7FFF_FFFF {
            i32::MAX
        } else {
            cut as i32
        }
    } else if v <= -0x80_0000_0000 {
        i32::MIN
    } else {
        -((-v) / 256) as i32
    }
}

/// Tracks the interactive region selection via pointer drag.
#[derive(Debug, Clone, Copy, PartialEq, Eq, Structural)]
pub struct Selection {
    /// Pointer position when the button was first pressed.
    pub start_x: i64,
    pub start_y: i64,
    /// Current pointer position (updated on motion).
    pub end_x: i64,
    pub end_y: i64,
    /// Whether we are currently dragging.
    pub active: bool,
    /// Whether the selection has been finalized (button released).
    pub done: bool,
}

impl Default for Selection {
    fn default() -> (r: Selection)
        ensures
            r == Selection::unset(),
            r.start_x == 0 && r.start_y == 0 && r.end_x == 0 && r.end_y == 0,
            !r.active && !r.done,
    {
        Selection { start_x: 0, start_y: 0, end_x: 0, end_y: 0, active: false, done: false }
    }
}

impl Selection {
    /// The selection before any input.
    pub open spec fn unset() -> Selection {
        Selection { start_x: 0, start_y: 0, end_x: 0, end_y: 0, active: false, done: false }
    }

    /// Whether there is a rectangle to show.
    pub open spec fn shown(self) -> bool {
        self.active || self.done
    }

    /// A selection is being dragged or is final, never both.
    pub open spec fn consistent(self) -> bool {
        !(self.active && self.done)
    }

    /// Left edge in pixels.
    pub open spec fn left(self) -> int {
        whole(vstd::math::min(self.start_x as int, self.end_x as int))
    }

    /// Top edge in pixels.
    pub open spec fn top(self) -> int {
        whole(vstd::math::min(self.start_y as int, self.end_y as int))
    }

    /// Distance between the left and right edges in pixels.
    pub open spec fn span_x(self) -> int {
        whole(vstd::math::max(self.start_x as int, self.end_x as int)) - self.left()
    }

    /// Distance between the top and bottom edges in pixels.
    pub open spec fn span_y(self) -> int {
        whole(vstd::math::max(self.start_y as int, self.end_y as int)) - self.top()
    }

    /// Whether width and height fit a signed 32-bit integer.
    pub open spec fn measurable(self) -> bool {
        self.span_x() <= i32::MAX && self.span_y() <= i32::MAX
    }

    /// The bounding box: left, top, and a width and height of at least one.
    pub open spec fn bounds(self) -> (int, int, int, int) {
        (
            self.left(),
            self.top(),
            vstd::math::max(self.span_x(), 1),
            vstd::math::max(self.span_y(), 1),
        )
    }

    /// Returns the axis-aligned bounding box as `(x, y, width, height)` in
    /// surface-local coordinates, clamped to positive dimensions.
    pub fn rect(&self) -> (r: (i32, i32, i32, i32))
        requires
            self.measurable(),
        ensures
            (r.0 as int, r.1 as int, r.2 as int, r.3 as int) == self.bounds(),
    {
        let (min_x, max_x): (i64, i64) = ordered(self.start_x, self.end_x);
        let (min_y, max_y): (i64, i64) = ordered(self.start_y, self.end_y);
        let x0: i32 = pixels(min_x);
        let y0: i32 = pixels(min_y);
        let x1: i32 = pixels(max_x);
        let y1: i32 = pixels(max_y);
        proof {
            lemma_whole_monotone(min_x as int, max_x as int);
            lemma_whole_monotone(min_y as int, max_y as int);
        }
        let w: i32 = x1 - x0;
        let h: i32 = y1 - y0;
        (
            x0,
            y0,
            if w > 1 {
                w
            } else {
                1
            },
            if h > 1 {
                h
            } else {
                1
            },
        )
    }

    /// Whether [`Selection::rect`] can be called.
    pub fn is_measurable(&self) -> (r: bool)
        ensures
            r == self.measurable(),
    {
        let (min_x, max_x): (i64, i64) = ordered(self.start_x, self.end_x);
        let (min_y, max_y): (i64, i64) = ordered(self.start_y, self.end_y);
        let w: i64 = pixels(max_x) as i64 - pixels(min_x) as i64;
        let h: i64 = pixels(max_y) as i64 - pixels(min_y) as i64;
        w <= i32::MAX as i64 && h <= i32::MAX as i64
    }
}

/// The smaller and the larger of two positions.
fn ordered(a: i64, b: i64) -> (r: (i64, i64))
    ensures
        r.0 == vstd::math::min(a as int, b as int),
        r.1 == vstd::math::max(a as int, b as int),
{
    if a <= b {
        (a, b)
    } else {
        (b, a)
    }
}

/// A position further along is never in an earlier pixel.
pub(crate) proof fn lemma_whole_monotone(a: int, b: int)
    requires
        a <= b,
    ensures
        whole(a) <= whole(b),
{
}

/// Dragging from one corner to the other or back selects the same rectangle,
/// whichever corners they are.
pub proof fn law_rect_ignores_direction(s: Selection)
    ensures
        s.bounds() == (Selection { start_x: s.end_x, end_x: s.start_x, ..s }).bounds(),
        s.bounds() == (Selection { start_y: s.end_y, end_y: s.start_y, ..s }).bounds(),
{
}

/// Both the pixel where the drag began and the pixel where it stands lie on the
/// rectangle or on its right or bottom edge.
pub proof fn law_rect_holds_both_ends(s: Selection)
    ensures
        s.bounds().0 <= whole(s.start_x as int) <= s.bounds().0 + s.bounds().2,
        s.bounds().0 <= whole(s.end_x as int) <= s.bounds().0 + s.bounds().2,
        s.bounds().1 <= whole(s.start_y as int) <= s.bounds().1 + s.bounds().3,
        s.bounds().1 <= whole(s.end_y as int) <= s.bounds().1 + s.bounds().3,
{
    lemma_whole_monotone(
        vstd::math::min(s.start_x as int, s.end_x as int),
        vstd::math::max(s.start_x as int, s.end_x as int),
    );
    lemma_whole_monotone(
        vstd::math::min(s.start_y as int, s.end_y as int),
        vstd::math::max(s.start_y as int, s.end_y as int),
    );
}

/// A position counts as the whole pixels that it is away from the origin, and as the
/// nearest 32-bit integer where there are too many.
pub proof fn law_whole_pixels(v: int)
    ensures
        0 <= v < 256 * 0x8000_0000 ==> 256 * whole(v) <= v < 256 * (whole(v) + 1),
        -256 * 0x8000_0000 <= v <= 0 ==> 256 * (whole(v) - 1) < v <= 256 * whole(v),
        v >= 256 * 0x8000_0000 ==> whole(v) == 0x7FFF_FFFF,
        v <= -256 * 0x8000_0000 ==> whole(v) == -0x8000_0000,
{
}

/// The rectangle starts at the pixel further left and further up of the two ends, and
/// is as wide and as high as the two pixels are apart, but at least one pixel.
pub proof fn law_rect_lies_between_ends(s: Selection)
    ensures
        ({
            let (x, y, w, h) = s.bounds();
            let (ax, bx) = (whole(s.start_x as int), whole(s.end_x as int));
            let (ay, by) = (whole(s.start_y as int), whole(s.end_y as int));
            &&& x == ax || x == bx
            &&& x <= ax && x <= bx
            &&& ax != bx ==> x + w == ax || x + w == bx
            &&& ax != bx ==> ax <= x + w && bx <= x + w
            &&& ax == bx ==> w == 1
            &&& y == ay || y == by
            &&& y <= ay && y <= by
            &&& ay != by ==> y + h == ay || y + h == by
            &&& ay != by ==> ay <= y + h && by <= y + h
            &&& ay == by ==> h == 1
            &&& s.measurable() <==> w <= 0x7FFF_FFFF && h <= 0x7FFF_FFFF
            &&& s.shown() <==> s.active || s.done
        }),
{
    lemma_whole_monotone(
        vstd::math::min(s.start_x as int, s.end_x as int),
        vstd::math::max(s.start_x as int, s.end_x as int),
    );
    lemma_whole_monotone(
        vstd::math::min(s.start_y as int, s.end_y as int),
        vstd::math::max(s.start_y as int, s.end_y as int),
    );
}

} // verus!
