//! From a selection to a picture in a file.

use vstd::prelude::*;

use crate::overlay::Scene;
use crate::pixels::{Captured, Crop};
use crate::selection::Selection;
use crate::text;
use crate::wayland::{AppState, KEY_A};

verus! {

/// How the application ends, and with which rectangle of the output.
#[derive(Debug, Clone, Copy, PartialEq, Eq)]
pub enum Outcome {
    /// Nothing was selected.
    Cancelled,
    /// Cut the rectangle out of the frozen frame.
    CropFrozen { rect: (i32, i32, i32, i32) },
    /// Capture the rectangle from the live output.
    CaptureLive { rect: (i32, i32, i32, i32) },
}

/// What to do once the event loop has ended. A frozen frame is cut, so that no
/// second capture is needed.
pub fn outcome(state: &AppState) -> (r: Outcome)
    requires
        state.overlay.selection.done ==> state.overlay.selection.measurable(),
    ensures
        r == (if !state.overlay.selection.done {
            Outcome::Cancelled
        } else if state.frozen_buffer is Some {
            Outcome::CropFrozen { rect: state.shown_rect() }
        } else {
            Outcome::CaptureLive { rect: state.shown_rect() }
        }),
        r is Cancelled <==> !state.overlay.selection.done,
        r is CropFrozen <==> state.overlay.selection.done && state.frozen_buffer is Some,
        r matches Outcome::CropFrozen { rect } ==> (
            rect.0 as int,
            rect.1 as int,
            rect.2 as int,
            rect.3 as int,
        ) == state.overlay.selection.bounds(),
        r matches Outcome::CaptureLive { rect } ==> (
            rect.0 as int,
            rect.1 as int,
            rect.2 as int,
            rect.3 as int,
        ) == state.overlay.selection.bounds(),
{
    if !state.overlay.selection.done {
        return Outcome::Cancelled;
    }
    let rect: (i32, i32, i32, i32) = state.overlay.selection.rect();
    if state.frozen_buffer.is_some() {
        Outcome::CropFrozen { rect }
    } else {
        Outcome::CaptureLive { rect }
    }
}

// ── PNG ───────────────────────────────────────────────────────

/// The error of the image library.
#[verifier::external_type_specification]
#[verifier::external_body]
pub struct ExImageError(image::ImageError);

/// The PNG file of a picture given as bytes red, green, blue, alpha.
pub uninterp spec fn png_file(width: u32, height: u32, rgba: Seq<u8>) -> Seq<u8>;

/// Encode a picture as PNG: `image::ImageBuffer::from_raw` over the bytes as
/// RGBA pixels, then `ImageBuffer::write_to` with `ImageFormat::Png` into memory.
///
/// Trusted: there is no picture exactly if the bytes are fewer than four for
/// each pixel, or if a row of four bytes for each column is longer than the machine
/// can count; a picture is refused exactly if one of its sides is zero; otherwise
/// the file depends on the sides and the bytes alone. What is in the file is left
/// unsaid.
#[verifier::external_body]
fn write_png(width: u32, height: u32, rgba: Vec<u8>) -> (r: Option<Result<Vec<u8>, image::ImageError>>)
    ensures
        r is None <==> rgba@.len() < 4 * (width * height) || 4 * width > usize::MAX,
        r matches Some(answer) ==> (answer is Err <==> width == 0 || height == 0),
        r matches Some(Ok(file)) ==> file@ == png_file(width, height, rgba@),
{
    let img: image::RgbaImage = match image::ImageBuffer::from_raw(width, height, rgba) {
        Some(img) => img,
        None => return None,
    };
    let mut file: Vec<u8> = Vec::new();
    match img.write_to(&mut std::io::Cursor::new(&mut file), image::ImageFormat::Png) {
        Ok(()) => Some(Ok(file)),
        Err(e) => Some(Err(e)),
    }
}

/// Why a picture could not be encoded.
#[derive(Debug)]
pub enum EncodeError {
    /// There are fewer bytes than the sides ask for, or the sides ask for more than
    /// the machine can count.
    TooFewBytes,
    /// The encoder refused the picture.
    Refused(image::ImageError),
}

/// The file in the encoder's answer, or why there is none.
pub fn encoded(answer: Option<Result<Vec<u8>, image::ImageError>>) -> (r: Result<
    Vec<u8>,
    EncodeError,
>)
    ensures
        match answer {
            None => r == Err::<Vec<u8>, EncodeError>(EncodeError::TooFewBytes),
            Some(Ok(file)) => r == Ok::<Vec<u8>, EncodeError>(file),
            Some(Err(e)) => r == Err::<Vec<u8>, EncodeError>(EncodeError::Refused(e)),
        },
{
    match answer {
        None => Err(EncodeError::TooFewBytes),
        Some(Ok(file)) => Ok(file),
        Some(Err(e)) => Err(EncodeError::Refused(e)),
    }
}

/// Encode a picture, given as bytes red, green, blue, alpha, as PNG.
pub fn encode_png(width: u32, height: u32, rgba: Vec<u8>) -> (r: Result<Vec<u8>, EncodeError>)
    ensures
        match r {
            Ok(file) => rgba@.len() >= 4 * (width * height) && width > 0 && height > 0 && file@
                == png_file(width, height, rgba@),
            Err(EncodeError::TooFewBytes) => rgba@.len() < 4 * (width * height) || 4 * width
                > usize::MAX,
            Err(EncodeError::Refused(_)) => {
                &&& rgba@.len() >= 4 * (width * height)
                &&& 4 * width <= usize::MAX
                &&& width == 0 || height == 0
            },
        },
{
    encoded(write_png(width, height, rgba))
}

// ── File name ─────────────────────────────────────────────────

/// A local date and time. The nanosecond runs past a second in a leap second.
#[derive(Debug, Clone, Copy, PartialEq, Eq, Structural)]
pub struct LocalTime {
    pub year: i32,
    pub month: u32,
    pub day: u32,
    pub hour: u32,
    pub minute: u32,
    pub second: u32,
    pub nanosecond: u32,
}

/// How a time is written into a file name.
pub const TIMESTAMP_FORMAT: &'static str = "%Y-%m-%d_%H-%M-%S";

impl LocalTime {
    /// Whether the year has a 29th of February.
    pub open spec fn leap_year(self) -> bool {
        self.year % 4 == 0 && (self.year % 100 != 0 || self.year % 400 == 0)
    }

    /// Days in the month.
    pub open spec fn days(self) -> int {
        if self.month == 2 {
            if self.leap_year() {
                29
            } else {
                28
            }
        } else if self.month == 4 || self.month == 6 || self.month == 9 || self.month == 11 {
            30
        } else {
            31
        }
    }

    /// Whether there is such a date and time, in the years that can be written.
    pub open spec fn valid(self) -> bool {
        &&& -262143 <= self.year <= 262142
        &&& 1 <= self.month <= 12
        &&& 1 <= self.day <= self.days()
        &&& self.hour < 24
        &&& self.minute < 60
        &&& self.second < 60
        &&& self.nanosecond < 1_000_000_000 || self.second == 59 && self.nanosecond
            < 2_000_000_000
    }

    /// The year: four digits, or a sign and at least four digits outside 0 to 9999.
    pub open spec fn year_text(self) -> Seq<char> {
        let size = if self.year < 0 {
            -self.year
        } else {
            self.year as int
        };
        let written = if size < 10_000 {
            text::last_digits(size as nat, 4)
        } else {
            text::digits(size as nat)
        };
        if self.year < 0 {
            seq!['-'] + written
        } else if self.year > 9999 {
            seq!['+'] + written
        } else {
            written
        }
    }

    /// The date and time, a dash between numbers and an underscore between the two.
    pub open spec fn stamp(self) -> Seq<char> {
        self.year_text() + seq!['-'] + text::last_digits(self.month as nat, 2) + seq!['-']
            + text::last_digits(self.day as nat, 2) + seq!['_'] + text::last_digits(
            self.hour as nat,
            2,
        ) + seq!['-'] + text::last_digits(self.minute as nat, 2) + seq!['-'] + text::last_digits(
            (self.second + self.nanosecond / 1_000_000_000) as nat,
            2,
        )
    }
}

/// Write a date and time as text: `chrono::NaiveDate::from_ymd_opt`, then
/// `NaiveDate::and_hms_nano_opt`, then `NaiveDateTime::format`.
///
/// Trusted: a text comes exactly if the date and time exist in the proleptic
/// Gregorian calendar, in the years that the library can hold; it is the year,
/// then month, day, hour, minute and second in two digits each, with the
/// format's own dashes and underscore between them; a leap second is second 60.
#[verifier::external_body]
fn write_time(at: &LocalTime, format: &str) -> (r: Option<String>)
    requires
        format@ == TIMESTAMP_FORMAT@,
    ensures
        r is Some <==> at.valid(),
        r matches Some(s) ==> s@ == at.stamp(),
{
    let date: chrono::NaiveDate = match chrono::NaiveDate::from_ymd_opt(at.year, at.month, at.day) {
        Some(date) => date,
        None => return None,
    };
    match date.and_hms_nano_opt(at.hour, at.minute, at.second, at.nanosecond) {
        Some(time) => Some(time.format(format).to_string()),
        None => None,
    }
}

/// The name of a screenshot taken at a local time, or `None` if there is no such
/// time.
pub fn screenshot_filename(at: &LocalTime) -> (r: Option<String>)
    ensures
        r is Some <==> at.valid(),
        r matches Some(name) ==> name@ == at.stamp() + "_voidsnap.png"@,
{
    match write_time(at, TIMESTAMP_FORMAT) {
        Some(stamp) => {
            let mut name: String = stamp;
            name.append("_voidsnap.png");
            Some(name)
        },
        None => None,
    }
}

/// What is seen is what is saved: with a frozen frame as large as its sides say, a
/// place of the frame inside the selection, past border and handles and not under
/// the label, is shown in the colour that it has in the picture cut out.
pub proof fn law_seen_is_saved(
    scene: Scene,
    frame: Seq<u32>,
    frame_height: int,
    label: bool,
    x: int,
    y: int,
)
    requires
        scene.width <= i32::MAX,
        scene.height <= i32::MAX,
        frame.len() == scene.frozen_width * frame_height,
        x < scene.frozen_width,
        y < frame_height,
        scene.selected(x, y),
        !scene.on_border(x, y),
        !scene.on_handle(x, y),
        !(label && scene.hud().in_pill(x, y)),
    ensures
        ({
            let crop = Crop {
                frozen: frame,
                fw: scene.frozen_width as int,
                fh: frame_height,
                sx: scene.rect.0 as int,
                sy: scene.rect.1 as int,
                sw: scene.rect.2 as int,
                sh: scene.rect.3 as int,
            };
            let left = vstd::math::max(crop.sx, 0);
            let top = vstd::math::max(crop.sy, 0);
            scene.labelled(Some(frame), label)[y * scene.width + x] == crop.color(
                (y - top) * crop.width() + (x - left),
            )
        }),
{
    let crop = Crop {
        frozen: frame,
        fw: scene.frozen_width as int,
        fh: frame_height,
        sx: scene.rect.0 as int,
        sy: scene.rect.1 as int,
        sw: scene.rect.2 as int,
        sh: scene.rect.3 as int,
    };
    let (w, h) = (scene.width as int, scene.height as int);
    crate::pixels::law_crop_keeps_pixels(crop, x, y);
    crate::raster::lemma_index_in_range(x, y, crop.fw, frame_height);
    crate::raster::lemma_index_in_range(x, y, w, h);
    crate::raster::lemma_index(x, y, w);
    let seen = scene.picture(Some(frame))[y * w + x];
    assert(seen == scene.pixel(Some(frame), x, y));
    crate::hud::law_label_on_background(scene.hud(), x, y, seen, scene.dim_px, scene.border_px);
}

/// There is something in the picture cut out exactly if some of the selection is on
/// the frame.
pub proof fn law_picture_is_empty_beside_frame(s: Selection, frame: Seq<u32>, fw: u32, fh: u32)
    ensures
        ({
            let (sx, sy, sw, sh) = s.bounds();
            let crop = Crop { frozen: frame, fw: fw as int, fh: fh as int, sx, sy, sw, sh };
            &&& crop.width() > 0 <==> sx < fw && sx + sw > 0 && fw > 0
            &&& crop.height() > 0 <==> sy < fh && sy + sh > 0 && fh > 0
        }),
{
}

/// Selecting everything saves everything: with a frozen frame as large as the
/// surface, the picture cut out after `A` is the frame, pixel by pixel.
pub proof fn law_select_all_saves_frame(state: AppState, frame: Seq<u32>, k: int)
    requires
        0 < state.overlay.width <= i32::MAX,
        0 < state.overlay.height <= i32::MAX,
        frame.len() == state.overlay.width * state.overlay.height,
        0 <= k < frame.len(),
    ensures
        ({
            let (sx, sy, sw, sh) = state.key_reaction(KEY_A).selection.bounds();
            let crop = Crop {
                frozen: frame,
                fw: state.overlay.width as int,
                fh: state.overlay.height as int,
                sx,
                sy,
                sw,
                sh,
            };
            &&& crop.width() == state.overlay.width
            &&& crop.height() == state.overlay.height
            &&& crop.color(k) == frame[k]
        }),
{
    crate::wayland::law_select_all(state);
    crate::raster::lemma_row_col(k, state.overlay.width as int);
}

/// Pictures read from a capture and pictures cut out of a frame have exactly the
/// bytes that encoding them takes.
pub proof fn law_pictures_have_all_bytes(src: Captured, crop: Crop)
    ensures
        src.bytes().len() == 4 * (src.width * src.height),
        crop.bytes().len() == 4 * (crop.width() * crop.height()),
{
    assert(0 <= src.width * src.height) by (nonlinear_arith);
    let (w, h) = (crop.width(), crop.height());
    assert(0 <= w * h) by (nonlinear_arith)
        requires
            0 <= w,
            0 <= h,
    ;
}

/// The name of a screenshot from the years 0 to 9999 is nineteen characters of
/// date and time and a fixed ending.
pub proof fn law_filename_length(at: LocalTime)
    requires
        at.valid(),
        0 <= at.year <= 9999,
    ensures
        at.stamp().len() == 19,
{
    reveal_with_fuel(text::last_digits, 5);
}

/// Screenshots of different seconds get different names.
pub proof fn law_names_tell_seconds_apart(a: LocalTime, b: LocalTime)
    requires
        a.valid(),
        b.valid(),
        a.stamp() + "_voidsnap.png"@ == b.stamp() + "_voidsnap.png"@,
    ensures
        a.year == b.year,
        a.month == b.month,
        a.day == b.day,
        a.hour == b.hour,
        a.minute == b.minute,
        a.second + a.nanosecond / 1_000_000_000 == b.second + b.nanosecond / 1_000_000_000,
{
    let name = a.stamp() + "_voidsnap.png"@;
    let n = name.len() - "_voidsnap.png"@.len();
    assert(a.stamp() =~= name.take(n));
    assert(b.stamp() =~= name.take(n));
    lemma_stamp_reads(a);
    lemma_stamp_reads(b);
}

/// The year that a string of digits, with or without a sign, stands for.
spec fn year_number(s: Seq<char>) -> int {
    if s[0] == '-' {
        -text::number(s.skip(1))
    } else if s[0] == '+' {
        text::number(s.skip(1))
    } else {
        text::number(s)
    }
}

/// Reading a date and time back from its stamp.
proof fn lemma_stamp_reads(at: LocalTime)
    requires
        at.valid(),
    ensures
        ({
            let s = at.stamp();
            let n = s.len() - 15;
            &&& n > 0
            &&& at.year == year_number(s.take(n))
            &&& at.month == text::number(s.subrange(n + 1, n + 3))
            &&& at.day == text::number(s.subrange(n + 4, n + 6))
            &&& at.hour == text::number(s.subrange(n + 7, n + 9))
            &&& at.minute == text::number(s.subrange(n + 10, n + 12))
            &&& at.second + at.nanosecond / 1_000_000_000 == text::number(
                s.subrange(n + 13, n + 15),
            )
        }),
{
    let s = at.stamp();
    let n = s.len() - 15;
    let size = if at.year < 0 {
        -at.year
    } else {
        at.year as int
    };
    let shown_second = (at.second + at.nanosecond / 1_000_000_000) as nat;
    text::lemma_digits_read(size as nat);
    text::lemma_last_digits_read(size as nat, 4);
    text::lemma_last_digits_read(at.month as nat, 2);
    text::lemma_last_digits_read(at.day as nat, 2);
    text::lemma_last_digits_read(at.hour as nat, 2);
    text::lemma_last_digits_read(at.minute as nat, 2);
    text::lemma_last_digits_read(shown_second, 2);
    let written = if size < 10_000 {
        text::last_digits(size as nat, 4)
    } else {
        text::digits(size as nat)
    };
    assert(text::number(written) == size);
    assert(at.year < 0 || at.year > 9999 ==> at.year_text().skip(1) =~= written);
    assert(s.take(n) =~= at.year_text());
    assert(s.subrange(n + 1, n + 3) =~= text::last_digits(at.month as nat, 2));
    assert(s.subrange(n + 4, n + 6) =~= text::last_digits(at.day as nat, 2));
    assert(s.subrange(n + 7, n + 9) =~= text::last_digits(at.hour as nat, 2));
    assert(s.subrange(n + 10, n + 12) =~= text::last_digits(at.minute as nat, 2));
    assert(s.subrange(n + 13, n + 15) =~= text::last_digits(shown_second, 2));
}

/// Which dates and times there are: the months have 31, 30 or 28 days, February 29 in
/// every fourth year but for the centuries that 400 does not divide; days have 24 hours,
/// hours 60 minutes, minutes 60 seconds, and the last second of a minute may run for two.
pub proof fn law_calendar(at: LocalTime)
    ensures
        at.valid() <==> {
            let leap = (at.year % 4 == 0 && at.year % 100 != 0) || at.year % 400 == 0;
            let m = at.month;
            &&& -262143 <= at.year <= 262142
            &&& at.day >= 1
            &&& (m == 1 || m == 3 || m == 5 || m == 7 || m == 8 || m == 10 || m == 12) && at.day
                <= 31 || (m == 4 || m == 6 || m == 9 || m == 11) && at.day <= 30 || m == 2 && at.day
                <= (if leap {
                29int
            } else {
                28
            })
            &&& at.hour <= 23
            &&& at.minute <= 59
            &&& at.second <= 59
            &&& at.nanosecond <= 999_999_999 || at.second == 59 && at.nanosecond <= 1_999_999_999
        },
{
}

/// How a date and time is written: the year in four digits, with a sign and as many as it
/// takes outside 0 to 9999; then month, day, hour, minute and second in two digits each,
/// with dashes between them and an underscore between date and time. A second that runs
/// over is second 60.
pub proof fn law_stamp_layout(at: LocalTime)
    requires
        at.valid(),
    ensures
        ({
            let s = at.stamp();
            let n = s.len() - 15;
            &&& 0 <= at.year <= 9999 ==> n == 4 && s.take(4) == text::last_digits(
                at.year as nat,
                4,
            )
            &&& at.year > 9999 ==> s[0] == '+' && s.subrange(1, n) == text::digits(at.year as nat)
            &&& -9999 <= at.year < 0 ==> n == 5 && s[0] == '-' && s.subrange(1, 5)
                == text::last_digits((-at.year) as nat, 4)
            &&& at.year < -9999 ==> s[0] == '-' && s.subrange(1, n) == text::digits(
                (-at.year) as nat,
            )
            &&& s[n] == '-' && s[n + 3] == '-' && s[n + 6] == '_'
            &&& s[n + 9] == '-' && s[n + 12] == '-'
            &&& s.subrange(n + 1, n + 3) == text::last_digits(at.month as nat, 2)
            &&& s.subrange(n + 4, n + 6) == text::last_digits(at.day as nat, 2)
            &&& s.subrange(n + 7, n + 9) == text::last_digits(at.hour as nat, 2)
            &&& s.subrange(n + 10, n + 12) == text::last_digits(at.minute as nat, 2)
            &&& s.subrange(n + 13, n + 15) == text::last_digits(
                (if at.nanosecond >= 1_000_000_000 {
                    60
                } else {
                    at.second as int
                }) as nat,
                2,
            )
        }),
{
    let s = at.stamp();
    let n = s.len() - 15;
    let size = if at.year < 0 {
        -at.year
    } else {
        at.year as int
    };
    let shown_second = (at.second + at.nanosecond / 1_000_000_000) as nat;
    text::lemma_digits_read(size as nat);
    text::lemma_last_digits_read(size as nat, 4);
    text::lemma_last_digits_read(at.month as nat, 2);
    text::lemma_last_digits_read(at.day as nat, 2);
    text::lemma_last_digits_read(at.hour as nat, 2);
    text::lemma_last_digits_read(at.minute as nat, 2);
    text::lemma_last_digits_read(shown_second, 2);
    let written = if size < 10_000 {
        text::last_digits(size as nat, 4)
    } else {
        text::digits(size as nat)
    };
    assert(s.take(n) =~= at.year_text());
    if at.year < 0 || at.year > 9999 {
        assert(s.subrange(1, n) =~= written);
    }
    assert(s.subrange(n + 1, n + 3) =~= text::last_digits(at.month as nat, 2));
    assert(s.subrange(n + 4, n + 6) =~= text::last_digits(at.day as nat, 2));
    assert(s.subrange(n + 7, n + 9) =~= text::last_digits(at.hour as nat, 2));
    assert(s.subrange(n + 10, n + 12) =~= text::last_digits(at.minute as nat, 2));
    assert(s.subrange(n + 13, n + 15) =~= text::last_digits(shown_second, 2));
}

} // verus!
