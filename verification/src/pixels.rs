//! Captured pixels: reading them out of a shared buffer, and cutting a region
//! out of a frozen frame.

use vstd::prelude::*;

use crate::color;
use crate::raster;

verus! {

/// How the compositor lays out a pixel of four bytes.
#[derive(Debug, Clone, Copy, PartialEq, Eq, Structural)]
pub enum PixelFormat {
    /// Bytes blue, green, red, alpha.
    Argb8888,
    /// Bytes blue, green, red, and one without meaning.
    Xrgb8888,
    /// Bytes red, green, blue, alpha.
    Abgr8888,
    /// Bytes red, green, blue, and one without meaning.
    Xbgr8888,
    /// Any other format, by its code.
    Other(u32),
}

/// Why captured pixels could not be read.
#[derive(Debug, Clone, Copy, PartialEq, Eq, Structural)]
pub enum PixelError {
    /// The data ends before this pixel.
    Underflow { x: u32, y: u32 },
    /// The format, by its code, is not one that can be read.
    Unsupported { code: u32 },
}

impl PixelFormat {
    /// Whether pixels of this format can be read.
    pub open spec fn supported(self) -> bool {
        self !is Other
    }
}

/// Where a pixel starts in data whose rows are `stride` bytes apart.
pub open spec fn offset_of(x: int, y: int, stride: int) -> int {
    y * stride + x * 4
}

/// Whether the data holds all four bytes of a pixel.
pub open spec fn readable(len: int, x: int, y: int, stride: int) -> bool {
    offset_of(x, y, stride) + 4 <= len
}

/// Red, green, blue and alpha of a pixel in captured data. Formats without alpha
/// are opaque.
pub open spec fn channel_at(raw: Seq<u8>, x: int, y: int, stride: int, format: PixelFormat, c: int) -> u8 {
    let at = offset_of(x, y, stride);
    match format {
        PixelFormat::Argb8888 => if c == 3 {
            raw[at + 3]
        } else {
            raw[at + 2 - c]
        },
        PixelFormat::Xrgb8888 => if c == 3 {
            255
        } else {
            raw[at + 2 - c]
        },
        PixelFormat::Abgr8888 => raw[at + c],
        _ => if c == 3 {
            255
        } else {
            raw[at + c]
        },
    }
}

/// A pixel in captured data as a packed colour.
pub open spec fn color_at(raw: Seq<u8>, x: int, y: int, stride: int, format: PixelFormat) -> u32 {
    color::packed(
        channel_at(raw, x, y, stride, format, 3) as int,
        channel_at(raw, x, y, stride, format, 0) as int,
        channel_at(raw, x, y, stride, format, 1) as int,
        channel_at(raw, x, y, stride, format, 2) as int,
    ) as u32
}

/// Captured data, and how to read it.
pub ghost struct Captured {
    pub raw: Seq<u8>,
    pub width: u32,
    pub height: u32,
    pub stride: u32,
    pub format: PixelFormat,
}

impl Captured {
    /// Number of pixels.
    pub open spec fn count(self) -> int {
        self.width * self.height
    }

    /// Whether the data holds the `k`-th pixel, counted row by row.
    pub open spec fn holds(self, k: int) -> bool {
        readable(
            self.raw.len() as int,
            raster::col_of(k, self.width as int),
            raster::row_of(k, self.width as int),
            self.stride as int,
        )
    }

    /// The `k`-th pixel as a packed colour.
    pub open spec fn color(self, k: int) -> u32 {
        color_at(
            self.raw,
            raster::col_of(k, self.width as int),
            raster::row_of(k, self.width as int),
            self.stride as int,
            self.format,
        )
    }

    /// A channel of the `k`-th pixel: red, green, blue, alpha.
    pub open spec fn channel(self, k: int, c: int) -> u8 {
        channel_at(
            self.raw,
            raster::col_of(k, self.width as int),
            raster::row_of(k, self.width as int),
            self.stride as int,
            self.format,
            c,
        )
    }

    /// Whether every pixel can be read.
    pub open spec fn complete(self) -> bool {
        &&& forall|k: int| 0 <= k < self.count() ==> #[trigger] self.holds(k)
        &&& self.format.supported() || self.count() == 0
    }

    /// Whether reading the pixels row by row stops with this error: at the first
    /// pixel that is cut off, or at the first of all if its format is unknown.
    pub open spec fn stops_with(self, e: PixelError) -> bool {
        match e {
            PixelError::Underflow { x, y } => {
                let k = y * self.width + x;
                &&& x < self.width
                &&& y < self.height
                &&& !readable(self.raw.len() as int, x as int, y as int, self.stride as int)
                &&& forall|j: int| 0 <= j < k ==> #[trigger] self.holds(j)
                &&& self.format.supported() || k == 0
            },
            PixelError::Unsupported { code } => {
                &&& self.format == PixelFormat::Other(code)
                &&& self.count() > 0
                &&& self.raw.len() >= 4
            },
        }
    }

    /// All pixels as packed colours, row by row.
    pub open spec fn colors(self) -> Seq<u32> {
        Seq::new(self.count() as nat, |k: int| self.color(k))
    }

    /// All pixels as bytes red, green, blue, alpha, row by row.
    pub open spec fn bytes(self) -> Seq<u8> {
        Seq::new((4 * self.count()) as nat, |i: int| self.channel(i / 4, i % 4))
    }
}

/// Pack into ARGB u32.
pub fn argb_u32(a: u8, r: u8, g: u8, b: u8) -> (px: u32)
    ensures
        px == color::packed(a as int, r as int, g as int, b as int),
        px == a * 0x100_0000 + r * 0x1_0000 + g * 0x100 + b,
{
    color::argb(a, r, g, b)
}

/// Red, green, blue and alpha of the four bytes at `at`, or the code of a format
/// that cannot be read.
fn read_pixel(raw: &[u8], at: usize, format: PixelFormat) -> (r: Result<(u8, u8, u8, u8), u32>)
    requires
        at + 4 <= raw@.len(),
    ensures
        r is Ok <==> format.supported(),
        forall|x: int, y: int, stride: int|
            r is Ok && offset_of(x, y, stride) == at ==> {
                &&& r->Ok_0.0 == #[trigger] channel_at(raw@, x, y, stride, format, 0)
                &&& r->Ok_0.1 == channel_at(raw@, x, y, stride, format, 1)
                &&& r->Ok_0.2 == channel_at(raw@, x, y, stride, format, 2)
                &&& r->Ok_0.3 == channel_at(raw@, x, y, stride, format, 3)
            },
        r matches Err(code) ==> format == PixelFormat::Other(code),
{
    assert(at + 4 <= raw.len());
    match format {
        PixelFormat::Argb8888 => Ok((raw[at + 2], raw[at + 1], raw[at], raw[at + 3])),
        PixelFormat::Xrgb8888 => Ok((raw[at + 2], raw[at + 1], raw[at], 255)),
        PixelFormat::Abgr8888 => Ok((raw[at], raw[at + 1], raw[at + 2], raw[at + 3])),
        PixelFormat::Xbgr8888 => Ok((raw[at], raw[at + 1], raw[at + 2], 255)),
        PixelFormat::Other(code) => Err(code),
    }
}

/// Where a pixel starts, if the data holds all of it.
fn locate(len: usize, x: u32, y: u32, stride: u32) -> (r: Option<usize>)
    ensures
        match r {
            Some(at) => at == offset_of(x as int, y as int, stride as int) && at + 4 <= len,
            None => !readable(len as int, x as int, y as int, stride as int),
        },
{
    proof {
        assert(0 <= y * stride <= 0xFFFF_FFFF * 0xFFFF_FFFF) by (nonlinear_arith)
            requires
                0 <= y <= 0xFFFF_FFFF,
                0 <= stride <= 0xFFFF_FFFF,
        ;
    }
    if len < 4 {
        return None;
    }
    let room: u64 = len as u64 - 4;
    let row: u64 = y as u64 * stride as u64;
    let col: u64 = x as u64 * 4;
    if row > room || col > room - row {
        None
    } else {
        Some((row + col) as usize)
    }
}

/// Convert screencopy pixels to ARGB8888 u32 values (for freeze-frame buffer).
///
/// Strips stride padding and normalises all supported formats into a
/// contiguous list of `width * height` elements in 0xAARRGGBB order. Offsets are
/// computed in 64 bits.
pub fn convert_to_argb8888(
    raw: &[u8],
    width: u32,
    height: u32,
    stride: u32,
    format: PixelFormat,
) -> (r: Result<Vec<u32>, PixelError>)
    ensures
        ({
            let src = Captured { raw: raw@, width, height, stride, format };
            match r {
                Ok(out) => src.complete() && out@ == src.colors(),
                Err(e) => src.stops_with(e),
            }
        }),
{
    let ghost src = Captured { raw: raw@, width, height, stride, format };
    let ghost w = width as int;
    let mut out: Vec<u32> = Vec::new();
    let mut y: u32 = 0;
    while y < height
        invariant
            y <= height,
            src == (Captured { raw: raw@, width, height, stride, format }),
            w == width,
            out@.len() == y * w,
            out@.len() == 0 || format.supported(),
            forall|k: int| 0 <= k < y * w ==> #[trigger] src.holds(k),
            forall|k: int| 0 <= k < y * w ==> #[trigger] out@[k] == src.color(k),
        decreases height - y,
    {
        let mut x: u32 = 0;
        assert(0 <= y * w) by (nonlinear_arith)
            requires
                0 <= y,
                0 <= w,
        ;
        while x < width
            invariant
                x <= width,
                y < height,
                src == (Captured { raw: raw@, width, height, stride, format }),
                w == width,
                0 <= y * w,
                out@.len() == y * w + x,
                out@.len() == 0 || format.supported(),
                forall|k: int| 0 <= k < y * w + x ==> #[trigger] src.holds(k),
                forall|k: int| 0 <= k < y * w + x ==> #[trigger] out@[k] == src.color(k),
            decreases width - x,
        {
            proof {
                raster::lemma_index(x as int, y as int, w);
                raster::lemma_index_in_range(x as int, y as int, w, height as int);
            }
            let at: usize = match locate(raw.len(), x, y, stride) {
                Some(at) => at,
                None => {
                    return Err(PixelError::Underflow { x, y });
                },
            };
            let (red, green, blue, alpha): (u8, u8, u8, u8) = match read_pixel(raw, at, format) {
                Ok(channels) => channels,
                Err(code) => {
                    return Err(PixelError::Unsupported { code });
                },
            };
            assert(src.holds(y * w + x));
            assert(red == channel_at(raw@, x as int, y as int, stride as int, format, 0));
            let ghost held = out@;
            out.push(argb_u32(alpha, red, green, blue));
            assert forall|k: int| 0 <= k < y * w + x + 1 implies #[trigger] out@[k] == src.color(
                k,
            ) by {
                if k < y * w + x {
                    assert(out@[k] == held[k]);
                }
            }
            x += 1;
        }
        assert((y + 1) * w == y * w + w) by (nonlinear_arith);
        y += 1;
    }
    proof {
        assert(height * w == width * height) by (nonlinear_arith)
            requires
                w == width,
        ;
        assert(out@ =~= src.colors());
    }
    Ok(out)
}

/// Convert the screencopy pixel buffer to RGBA8 byte order (for PNG encoding).
///
/// On a little-endian machine `Xrgb8888` and `Argb8888` are laid out as blue,
/// green, red, alpha. Offsets are computed in 64 bits.
pub fn convert_to_rgba(
    raw: &[u8],
    width: u32,
    height: u32,
    stride: u32,
    format: PixelFormat,
) -> (r: Result<Vec<u8>, PixelError>)
    ensures
        ({
            let src = Captured { raw: raw@, width, height, stride, format };
            match r {
                Ok(out) => src.complete() && out@ == src.bytes(),
                Err(e) => src.stops_with(e),
            }
        }),
{
    let ghost src = Captured { raw: raw@, width, height, stride, format };
    let ghost w = width as int;
    let mut out: Vec<u8> = Vec::new();
    let mut y: u32 = 0;
    while y < height
        invariant
            y <= height,
            src == (Captured { raw: raw@, width, height, stride, format }),
            w == width,
            out@.len() == 4 * (y * w),
            out@.len() == 0 || format.supported(),
            forall|k: int| 0 <= k < y * w ==> #[trigger] src.holds(k),
            forall|i: int| 0 <= i < 4 * (y * w) ==> #[trigger] out@[i] == src.channel(i / 4, i % 4),
        decreases height - y,
    {
        let mut x: u32 = 0;
        assert(0 <= y * w) by (nonlinear_arith)
            requires
                0 <= y,
                0 <= w,
        ;
        while x < width
            invariant
                x <= width,
                y < height,
                src == (Captured { raw: raw@, width, height, stride, format }),
                w == width,
                0 <= y * w,
                out@.len() == 4 * (y * w + x),
                out@.len() == 0 || format.supported(),
                forall|k: int| 0 <= k < y * w + x ==> #[trigger] src.holds(k),
                forall|i: int|
                    0 <= i < 4 * (y * w + x) ==> #[trigger] out@[i] == src.channel(i / 4, i % 4),
            decreases width - x,
        {
            proof {
                raster::lemma_index(x as int, y as int, w);
                raster::lemma_index_in_range(x as int, y as int, w, height as int);
            }
            let at: usize = match locate(raw.len(), x, y, stride) {
                Some(at) => at,
                None => {
                    return Err(PixelError::Underflow { x, y });
                },
            };
            let (red, green, blue, alpha): (u8, u8, u8, u8) = match read_pixel(raw, at, format) {
                Ok(channels) => channels,
                Err(code) => {
                    return Err(PixelError::Unsupported { code });
                },
            };
            assert(src.holds(y * w + x));
            assert(red == channel_at(raw@, x as int, y as int, stride as int, format, 0));
            let ghost held = out@;
            out.push(red);
            out.push(green);
            out.push(blue);
            out.push(alpha);
            assert forall|i: int| 0 <= i < 4 * (y * w + x + 1) implies #[trigger] out@[i]
                == src.channel(i / 4, i % 4) by {
                if i < 4 * (y * w + x) {
                    assert(out@[i] == held[i]);
                } else {
                    let c = i - 4 * (y * w + x);
                    assert(i / 4 == y * w + x && i % 4 == c);
                    assert(c == 0 || c == 1 || c == 2 || c == 3);
                }
            }
            x += 1;
        }
        assert((y + 1) * w == y * w + w) by (nonlinear_arith);
        y += 1;
    }
    proof {
        assert(height * w == width * height) by (nonlinear_arith)
            requires
                w == width,
        ;
        assert(out@ =~= src.bytes());
    }
    Ok(out)
}

/// Where an edge at `v` cuts a frame that is `n` long: the nearest place on it.
pub open spec fn cut(v: int, n: int) -> int {
    vstd::math::max(0, vstd::math::min(v, n))
}

/// A rectangle of a frozen frame that is `fw` by `fh` pixels.
pub ghost struct Crop {
    pub frozen: Seq<u32>,
    pub fw: int,
    pub fh: int,
    pub sx: int,
    pub sy: int,
    pub sw: int,
    pub sh: int,
}

impl Crop {
    /// Columns in the crop: those of the rectangle that are on the frame.
    pub open spec fn width(self) -> int {
        vstd::math::max(0, cut(self.sx + self.sw, self.fw) - cut(self.sx, self.fw))
    }

    /// Rows in the crop: those of the rectangle that are on the frame.
    pub open spec fn height(self) -> int {
        vstd::math::max(0, cut(self.sy + self.sh, self.fh) - cut(self.sy, self.fh))
    }

    /// The `k`-th pixel of the crop, counted row by row.
    pub open spec fn color(self, k: int) -> u32 {
        let x = cut(self.sx, self.fw) + raster::col_of(k, self.width());
        let y = cut(self.sy, self.fh) + raster::row_of(k, self.width());
        self.frozen[y * self.fw + x]
    }

    /// The crop as bytes red, green, blue, alpha, row by row.
    pub open spec fn bytes(self) -> Seq<u8> {
        Seq::new(
            (4 * (self.width() * self.height())) as nat,
            |i: int| channel_of(self.color(i / 4), i % 4),
        )
    }
}

/// A channel of a packed colour: red, green, blue, alpha.
pub open spec fn channel_of(px: u32, c: int) -> u8 {
    if c == 0 {
        color::red_of(px) as u8
    } else if c == 1 {
        color::green_of(px) as u8
    } else if c == 2 {
        color::blue_of(px) as u8
    } else {
        color::alpha_of(px) as u8
    }
}

/// Where an edge cuts a frame that is `n` long.
fn cut_edge(v: i64, n: u32) -> (r: u32)
    ensures
        r == cut(v as int, n as int),
{
    if v < 0 {
        0
    } else if v > n as i64 {
        n
    } else {
        v as u32
    }
}

/// Cut a rectangle, as far as it is on the frame, out of a frozen frame and convert
/// it to RGBA8 bytes, with the width and height of what was cut out.
pub fn crop_frozen(
    frozen: &[u32],
    fw: u32,
    fh: u32,
    sx: i32,
    sy: i32,
    sw: i32,
    sh: i32,
) -> (r: (Vec<u8>, u32, u32))
    requires
        fw * fh <= frozen@.len(),
    ensures
        ({
            let crop = Crop {
                frozen: frozen@,
                fw: fw as int,
                fh: fh as int,
                sx: sx as int,
                sy: sy as int,
                sw: sw as int,
                sh: sh as int,
            };
            &&& r.0@ == crop.bytes()
            &&& r.1 == crop.width()
            &&& r.2 == crop.height()
        }),
{
    let cx0: u32 = cut_edge(sx as i64, fw);
    let cy0: u32 = cut_edge(sy as i64, fh);
    let cx1: u32 = cut_edge(sx as i64 + sw as i64, fw);
    let cy1: u32 = cut_edge(sy as i64 + sh as i64, fh);
    let crop_w: u32 = if cx1 > cx0 {
        cx1 - cx0
    } else {
        0
    };
    let crop_h: u32 = if cy1 > cy0 {
        cy1 - cy0
    } else {
        0
    };
    let ghost crop = Crop {
        frozen: frozen@,
        fw: fw as int,
        fh: fh as int,
        sx: sx as int,
        sy: sy as int,
        sw: sw as int,
        sh: sh as int,
    };
    let ghost w = crop_w as int;
    let len: usize = frozen.len();
    let mut rgba: Vec<u8> = Vec::new();
    let mut row: u32 = 0;
    while row < crop_h
        invariant
            row <= crop_h,
            cx0 + crop_w <= fw,
            cy0 + crop_h <= fh,
            fw * fh <= frozen@.len(),
            len == frozen@.len(),
            crop.frozen == frozen@,
            crop.fw == fw,
            cut(crop.sx, crop.fw) == cx0,
            cut(crop.sy, crop.fh) == cy0,
            w == crop_w == crop.width(),
            crop_h == crop.height(),
            rgba@.len() == 4 * (row * w),
            forall|i: int|
                0 <= i < 4 * (row * w) ==> #[trigger] rgba@[i] == channel_of(
                    crop.color(i / 4),
                    i % 4,
                ),
        decreases crop_h - row,
    {
        let mut col: u32 = 0;
        assert(0 <= row * w) by (nonlinear_arith)
            requires
                0 <= row,
                0 <= w,
        ;
        while col < crop_w
            invariant
                col <= crop_w,
                row < crop_h,
                cx0 + crop_w <= fw,
                cy0 + crop_h <= fh,
                fw * fh <= frozen@.len(),
                len == frozen@.len(),
                crop.frozen == frozen@,
                crop.fw == fw,
                cut(crop.sx, crop.fw) == cx0,
                cut(crop.sy, crop.fh) == cy0,
                w == crop_w == crop.width(),
                crop_h == crop.height(),
                0 <= row * w,
                rgba@.len() == 4 * (row * w + col),
                forall|i: int|
                    0 <= i < 4 * (row * w + col) ==> #[trigger] rgba@[i] == channel_of(
                        crop.color(i / 4),
                        i % 4,
                    ),
            decreases crop_w - col,
        {
            proof {
                raster::lemma_index(col as int, row as int, w);
                raster::lemma_index_in_range(cx0 + col, cy0 + row, fw as int, fh as int);
                assert(0 <= (cy0 + row) * fw) by (nonlinear_arith);
            }
            let px: u32 = frozen[(cy0 + row) as usize * fw as usize + (cx0 + col) as usize];
            assert(px == crop.color(row * w + col));
            proof {
                color::lemma_shift_reads(px);
            }
            let ghost held = rgba@;
            rgba.push(((px >> 16) & 0xFF) as u8);
            rgba.push(((px >> 8) & 0xFF) as u8);
            rgba.push((px & 0xFF) as u8);
            rgba.push(((px >> 24) & 0xFF) as u8);
            assert forall|i: int| 0 <= i < 4 * (row * w + col + 1) implies #[trigger] rgba@[i]
                == channel_of(crop.color(i / 4), i % 4) by {
                if i < 4 * (row * w + col) {
                    assert(rgba@[i] == held[i]);
                } else {
                    let c = i - 4 * (row * w + col);
                    assert(i / 4 == row * w + col && i % 4 == c);
                    assert(c == 0 || c == 1 || c == 2 || c == 3);
                }
            }
            col += 1;
        }
        assert((row + 1) * w == row * w + w) by (nonlinear_arith);
        row += 1;
    }
    proof {
        assert(crop_h * w == w * crop_h) by (nonlinear_arith);
        assert(rgba@ =~= crop.bytes());
    }
    (rgba, crop_w, crop_h)
}

/// A frozen frame and a live capture give the same picture: freezing captured
/// data and cutting out the whole frame gives the bytes that converting the data
/// directly gives.
pub proof fn law_freeze_agrees_with_capture(src: Captured)
    requires
        src.complete(),
    ensures
        ({
            let crop = Crop {
                frozen: src.colors(),
                fw: src.width as int,
                fh: src.height as int,
                sx: 0,
                sy: 0,
                sw: src.width as int,
                sh: src.height as int,
            };
            &&& crop.bytes() == src.bytes()
            &&& crop.width() == src.width
            &&& crop.height() == src.height
        }),
{
    let w = src.width as int;
    let crop = Crop {
        frozen: src.colors(),
        fw: w,
        fh: src.height as int,
        sx: 0,
        sy: 0,
        sw: w,
        sh: src.height as int,
    };
    assert forall|i: int| 0 <= i < 4 * (w * src.height) implies #[trigger] crop.bytes()[i]
        == src.bytes()[i] by {
        let k = i / 4;
        assert(w > 0) by (nonlinear_arith)
            requires
                0 <= i < 4 * (w * src.height),
                0 <= w,
        ;
        raster::lemma_row_col(k, w);
        assert(crop.color(k) == src.color(k));
        color::lemma_packed_reads(
            src.channel(k, 3) as int,
            src.channel(k, 0) as int,
            src.channel(k, 1) as int,
            src.channel(k, 2) as int,
        );
    }
    assert(crop.bytes() =~= src.bytes());
}

/// Cutting out a rectangle gives the pixels of the frame that lie in it, unchanged
/// and in place, and no others.
pub proof fn law_crop_keeps_pixels(crop: Crop, x: int, y: int)
    requires
        0 <= x < crop.fw,
        0 <= y < crop.fh,
        crop.sx <= x < crop.sx + crop.sw,
        crop.sy <= y < crop.sy + crop.sh,
    ensures
        ({
            let left = vstd::math::max(crop.sx, 0);
            let top = vstd::math::max(crop.sy, 0);
            &&& crop.width() == vstd::math::min(crop.sx + crop.sw, crop.fw) - left
            &&& crop.height() == vstd::math::min(crop.sy + crop.sh, crop.fh) - top
            &&& crop.color((y - top) * crop.width() + (x - left)) == crop.frozen[y * crop.fw + x]
        }),
{
    let left = vstd::math::max(crop.sx, 0);
    let top = vstd::math::max(crop.sy, 0);
    raster::lemma_index(x - left, y - top, crop.width());
}

/// A picture read from a format without alpha is opaque.
pub proof fn law_no_alpha_is_opaque(src: Captured, k: int)
    requires
        src.format is Xrgb8888 || src.format is Xbgr8888,
    ensures
        color::alpha_of(src.color(k)) == 255,
        src.channel(k, 3) == 255,
{
    color::lemma_packed_reads(
        src.channel(k, 3) as int,
        src.channel(k, 0) as int,
        src.channel(k, 1) as int,
        src.channel(k, 2) as int,
    );
}

/// Pixel `x`, `y` of a picture is made of the four bytes from `y * stride + x * 4` on:
/// blue, green, red and alpha, or red, green, blue and alpha, or either with an opaque
/// alpha in place of the fourth byte.
pub proof fn law_pixels_are_read_in_place(src: Captured, x: int, y: int)
    requires
        src.complete(),
        0 <= x < src.width,
        0 <= y < src.height,
    ensures
        ({
            let raw = src.raw;
            let at = y * src.stride + x * 4;
            let k = y * src.width + x;
            let (red, green, blue, alpha) = match src.format {
                PixelFormat::Argb8888 => (raw[at + 2], raw[at + 1], raw[at], raw[at + 3]),
                PixelFormat::Xrgb8888 => (raw[at + 2], raw[at + 1], raw[at], 255u8),
                PixelFormat::Abgr8888 => (raw[at], raw[at + 1], raw[at + 2], raw[at + 3]),
                _ => (raw[at], raw[at + 1], raw[at + 2], 255u8),
            };
            &&& 0 <= at
            &&& at + 4 <= raw.len()
            &&& src.format !is Other
            &&& 0 <= k < src.width * src.height
            &&& src.colors().len() == src.width * src.height
            &&& src.colors()[k] == alpha * 0x100_0000 + red * 0x1_0000 + green * 0x100 + blue
            &&& src.bytes().len() == 4 * (src.width * src.height)
            &&& src.bytes()[4 * k] == red
            &&& src.bytes()[4 * k + 1] == green
            &&& src.bytes()[4 * k + 2] == blue
            &&& src.bytes()[4 * k + 3] == alpha
        }),
{
    let w = src.width as int;
    let k = y * w + x;
    raster::lemma_index(x, y, w);
    raster::lemma_index_in_range(x, y, w, src.height as int);
    assert(src.holds(k));
    assert(0 <= y * src.stride) by (nonlinear_arith)
        requires
            0 <= y,
            0 <= src.stride,
    ;
    color::lemma_packed_reads(
        src.channel(k, 3) as int,
        src.channel(k, 0) as int,
        src.channel(k, 1) as int,
        src.channel(k, 2) as int,
    );
    assert((4 * k) / 4 == k && (4 * k) % 4 == 0);
    assert((4 * k + 1) / 4 == k && (4 * k + 1) % 4 == 1);
    assert((4 * k + 2) / 4 == k && (4 * k + 2) % 4 == 2);
    assert((4 * k + 3) / 4 == k && (4 * k + 3) % 4 == 3);
}

/// Where rows do not overlap, no two pixels share a byte.
pub proof fn law_pixels_do_not_overlap(src: Captured, x: int, y: int, other_x: int, other_y: int)
    requires
        src.stride >= 4 * src.width,
        0 <= x < src.width,
        0 <= y,
        0 <= other_x < src.width,
        0 <= other_y,
        (x, y) != (other_x, other_y),
    ensures
        ({
            let at = offset_of(x, y, src.stride as int);
            let other = offset_of(other_x, other_y, src.stride as int);
            at + 4 <= other || other + 4 <= at
        }),
        offset_of(x, y + 1, src.stride as int) == offset_of(x, y, src.stride as int) + src.stride,
        offset_of(x + 1, y, src.stride as int) == offset_of(x, y, src.stride as int) + 4,
        offset_of(0, 0, src.stride as int) == 0,
{
    let stride = src.stride as int;
    assert((y + 1) * stride == y * stride + stride) by (nonlinear_arith);
    if y < other_y {
        assert(y * stride + stride <= other_y * stride) by (nonlinear_arith)
            requires
                y + 1 <= other_y,
                0 <= stride,
        ;
    }
    if other_y < y {
        assert(other_y * stride + stride <= y * stride) by (nonlinear_arith)
            requires
                other_y + 1 <= y,
                0 <= stride,
        ;
    }
}

/// A picture can be read if the data reaches to the end of its last row and its format
/// is one of the four; a picture without pixels always.
pub proof fn law_which_pictures_can_be_read(src: Captured)
    ensures
        src.complete() <==> src.width == 0 || src.height == 0 || (src.format !is Other && (
        src.height - 1) * src.stride + 4 * src.width <= src.raw.len()),
{
    let (w, h) = (src.width as int, src.height as int);
    let stride = src.stride as int;
    if w == 0 || h == 0 {
        assert(src.count() == 0) by (nonlinear_arith)
            requires
                src.count() == w * h,
                w == 0 || h == 0,
        ;
    } else {
        let last = (h - 1) * w + (w - 1);
        raster::lemma_index(w - 1, h - 1, w);
        raster::lemma_index_in_range(w - 1, h - 1, w, h);
        if (h - 1) * stride + 4 * w <= src.raw.len() {
            assert forall|k: int| 0 <= k < src.count() implies #[trigger] src.holds(k) by {
                raster::lemma_row_col(k, w);
                let y = raster::row_of(k, w);
                let x = raster::col_of(k, w);
                assert(y <= h - 1) by (nonlinear_arith)
                    requires
                        k == y * w + x,
                        0 <= x,
                        k < w * h,
                        w > 0,
                ;
                assert(y * stride <= (h - 1) * stride) by (nonlinear_arith)
                    requires
                        y <= h - 1,
                        0 <= stride,
                ;
            }
        } else {
            assert(!src.holds(last));
        }
    }
}

/// Reading stops at the first pixel, row by row, that the data does not hold in full;
/// every pixel before it is held. A format that is not one of the four is reported at
/// the first pixel, if that one is held.
pub proof fn law_reading_stops_at_first_gap(
    src: Captured,
    x: u32,
    y: u32,
    before_x: int,
    before_y: int,
)
    requires
        src.stops_with(PixelError::Underflow { x, y }),
    ensures
        x < src.width,
        y < src.height,
        y * src.stride + x * 4 + 4 > src.raw.len(),
        src.format is Other ==> x == 0 && y == 0,
        0 <= before_x < src.width && 0 <= before_y && (before_y < y || before_y == y && before_x
            < x) ==> before_y * src.stride + before_x * 4 + 4 <= src.raw.len(),
{
    let w = src.width as int;
    assert(0 <= y * w) by (nonlinear_arith)
        requires
            0 <= y,
            0 <= w,
    ;
    if src.format is Other {
        assert(y == 0) by (nonlinear_arith)
            requires
                y * w + x == 0,
                0 <= y,
                0 <= x,
                w > 0,
        ;
    }
    if 0 <= before_x < w && 0 <= before_y && (before_y < y || before_y == y && before_x < x) {
        let j = before_y * w + before_x;
        raster::lemma_index(before_x, before_y, w);
        assert(0 <= j < y * w + x) by (nonlinear_arith)
            requires
                j == before_y * w + before_x,
                0 <= before_x < w,
                0 <= before_y,
                0 <= x,
                before_y < y || before_y == y && before_x < x,
        ;
        assert(src.holds(j));
    }
}

/// A format is reported by its code, and only where there is a first pixel to read.
pub proof fn law_unknown_format_is_reported(src: Captured, code: u32)
    ensures
        src.stops_with(PixelError::Unsupported { code }) <==> {
            &&& src.format == PixelFormat::Other(code)
            &&& src.width > 0
            &&& src.height > 0
            &&& src.raw.len() >= 4
        },
{
    let (w, h) = (src.width as int, src.height as int);
    assert(w * h > 0 <==> w > 0 && h > 0) by (nonlinear_arith)
        requires
            0 <= w,
            0 <= h,
    ;
}

/// The picture cut out holds, for each place of the frame in the rectangle, its red,
/// green, blue and alpha, row by row from the rectangle's first row and column on the
/// frame.
pub proof fn law_crop_in_bytes(crop: Crop, x: int, y: int)
    requires
        0 <= x < crop.fw,
        0 <= y < crop.fh,
        crop.sx <= x < crop.sx + crop.sw,
        crop.sy <= y < crop.sy + crop.sh,
    ensures
        ({
            let left = vstd::math::max(crop.sx, 0);
            let top = vstd::math::max(crop.sy, 0);
            let right = vstd::math::min(crop.sx + crop.sw, crop.fw);
            let bottom = vstd::math::min(crop.sy + crop.sh, crop.fh);
            let at = 4 * ((y - top) * (right - left) + (x - left));
            let px = crop.frozen[y * crop.fw + x] as int;
            &&& crop.width() == right - left
            &&& crop.height() == bottom - top
            &&& crop.bytes().len() == 4 * ((right - left) * (bottom - top))
            &&& 0 <= at
            &&& at + 4 <= crop.bytes().len()
            &&& crop.bytes()[at] == px / 0x1_0000 % 0x100
            &&& crop.bytes()[at + 1] == px / 0x100 % 0x100
            &&& crop.bytes()[at + 2] == px % 0x100
            &&& crop.bytes()[at + 3] == px / 0x100_0000
        }),
{
    let left = vstd::math::max(crop.sx, 0);
    let top = vstd::math::max(crop.sy, 0);
    let k = (y - top) * crop.width() + (x - left);
    law_crop_keeps_pixels(crop, x, y);
    raster::lemma_index_in_range(x - left, y - top, crop.width(), crop.height());
    color::lemma_shift_reads(crop.frozen[y * crop.fw + x]);
    assert((4 * k) / 4 == k && (4 * k) % 4 == 0);
    assert((4 * k + 1) / 4 == k && (4 * k + 1) % 4 == 1);
    assert((4 * k + 2) / 4 == k && (4 * k + 2) % 4 == 2);
    assert((4 * k + 3) / 4 == k && (4 * k + 3) % 4 == 3);
}

/// A rectangle that shares no column with the frame gives a picture without columns,
/// and one that shares no row gives one without rows.
pub proof fn law_crop_beside_frame(crop: Crop)
    requires
        crop.fw >= 0,
        crop.fh >= 0,
    ensures
        crop.width() == vstd::math::max(
            0,
            vstd::math::min(crop.sx + crop.sw, crop.fw) - vstd::math::max(crop.sx, 0),
        ),
        crop.height() == vstd::math::max(
            0,
            vstd::math::min(crop.sy + crop.sh, crop.fh) - vstd::math::max(crop.sy, 0),
        ),
{
}

} // verus!
