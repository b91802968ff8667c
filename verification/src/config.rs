//! The configuration: its defaults, its colours and paths, and how it is made
//! ready for use.

use vstd::prelude::*;
use vstd::utf8::encode_utf8;

use crate::text;

verus! {

/// The configuration file that is written on first run.
pub const DEFAULT_CONFIG: &'static str = "# ╔══════════════════════════════════════════════════════════════╗
# ║                    VoidSnap Configuration                    ║
# ╚══════════════════════════════════════════════════════════════╝

save_directory = \"~/Pictures/Screenshots/\"
copy_to_clipboard = true
selection_border_color = \"#00FFFF\"
selection_border_width = 3
overlay_color = \"#0D0B14\"
overlay_opacity = 0.70
overlay_idle_opacity = 0.40
freeze_frame = true
show_dimensions = true
";

// ── Opacity ───────────────────────────────────────────────────

/// An opacity, held as the bits of a double-precision number.
#[derive(Debug, Clone, Copy, PartialEq, Eq, Structural)]
pub struct Opacity {
    pub bits: u64,
}

/// The bits of 1.0.
pub const ONE_BITS: u64 = 0x3FF0_0000_0000_0000;

/// The bits of positive infinity; larger magnitudes are not numbers.
pub const INFINITY_BITS: u64 = 0x7FF0_0000_0000_0000;

/// The weight of the sign bit.
pub const SIGN_BIT: u64 = 0x8000_0000_0000_0000;

impl Opacity {
    /// Whether the sign is negative.
    pub open spec fn negative(self) -> bool {
        self.bits >= SIGN_BIT
    }

    /// The bits without the sign. Numbers of the same sign are ordered as their
    /// magnitudes are.
    pub open spec fn magnitude(self) -> int {
        if self.negative() {
            self.bits - SIGN_BIT
        } else {
            self.bits as int
        }
    }

    /// Whether the bits stand for no number.
    pub open spec fn is_nan(self) -> bool {
        self.magnitude() > INFINITY_BITS
    }

    /// Whether the number is less than zero.
    pub open spec fn below_zero(self) -> bool {
        !self.is_nan() && self.negative() && self.magnitude() > 0
    }

    /// Whether the number is greater than one.
    pub open spec fn above_one(self) -> bool {
        !self.is_nan() && !self.negative() && self.magnitude() > ONE_BITS
    }

    /// Whether this is a number from zero to one.
    pub open spec fn in_range(self) -> bool {
        !self.is_nan() && !self.below_zero() && !self.above_one()
    }

    /// The nearest opacity from zero to one. What is no number becomes zero.
    pub open spec fn clamped(self) -> Opacity {
        if self.is_nan() || self.below_zero() {
            Opacity { bits: 0 }
        } else if self.above_one() {
            Opacity { bits: ONE_BITS }
        } else {
            self
        }
    }

    /// The nearest opacity from zero to one. What is no number becomes zero.
    pub fn clamp(self) -> (r: Opacity)
        ensures
            r == self.clamped(),
            r.in_range(),
    {
        if self.bits > SIGN_BIT || self.bits < SIGN_BIT && self.bits > INFINITY_BITS {
            Opacity { bits: 0 }
        } else if self.bits < SIGN_BIT && self.bits > ONE_BITS {
            Opacity { bits: ONE_BITS }
        } else {
            self
        }
    }
}

/// A clamped opacity is a number from zero to one; clamping such a number changes
/// nothing.
pub proof fn law_clamped_opacity(o: Opacity)
    ensures
        o.clamped().in_range(),
        o.clamped().clamped() == o.clamped(),
        o.in_range() ==> o.clamped() == o,
{
}

/// Which opacities are clamped to what, by their bits: from 0.0 to 1.0 and at -0.0
/// nothing changes, above 1.0 up to infinity it is 1.0, and for every other negative
/// number and for what is no number it is 0.0.
pub proof fn law_clamp_by_bits(o: Opacity)
    ensures
        o.bits <= 0x3FF0_0000_0000_0000 ==> o.clamped().bits == o.bits,
        0x3FF0_0000_0000_0000 < o.bits <= 0x7FF0_0000_0000_0000 ==> o.clamped().bits
            == 0x3FF0_0000_0000_0000,
        0x7FF0_0000_0000_0000 < o.bits < 0x8000_0000_0000_0000 ==> o.clamped().bits == 0,
        o.bits == 0x8000_0000_0000_0000 ==> o.clamped().bits == o.bits,
        o.bits > 0x8000_0000_0000_0000 ==> o.clamped().bits == 0,
        o.in_range() <==> o.bits <= 0x3FF0_0000_0000_0000 || o.bits == 0x8000_0000_0000_0000,
{
}

// ── Config struct ─────────────────────────────────────────────

/// Strongly-typed representation of `config.toml`.
#[derive(Debug)]
pub struct Config {
    /// Directory where screenshots are saved (~ is expanded at runtime).
    pub save_directory: String,
    /// Whether to inject PNG bytes into the Wayland clipboard after saving.
    pub copy_to_clipboard: bool,
    /// CSS hex color string for the selection rectangle border.
    pub selection_border_color: String,
    /// Border thickness in pixels.
    pub selection_border_width: u32,
    /// Overlay tint color (CSS hex).
    pub overlay_color: String,
    /// Overlay opacity when a selection is active (0.0-1.0).
    pub overlay_opacity: Opacity,
    /// Overlay opacity before any selection starts (0.0-1.0).
    pub overlay_idle_opacity: Opacity,
    /// Whether to capture a freeze-frame before showing the overlay.
    pub freeze_frame: bool,
    /// Whether to show a live WxH dimension label.
    pub show_dimensions: bool,
}

/// Border thickness where the file gives none.
pub fn default_border_width() -> (r: u32)
    ensures
        r == 3,
{
    3
}

/// Overlay tint where the file gives none.
pub fn default_overlay_color() -> (r: String)
    ensures
        r@ == "#0D0B14"@,
{
    "#0D0B14".to_owned()
}

/// Overlay opacity where the file gives none: the double nearest to 0.70.
pub fn default_overlay_opacity() -> (r: Opacity)
    ensures
        r.bits == 0x3FE6_6666_6666_6666,
{
    Opacity { bits: 0x3FE6_6666_6666_6666 }
}

/// Idle opacity where the file gives none: the double nearest to 0.40.
pub fn default_overlay_idle_opacity() -> (r: Opacity)
    ensures
        r.bits == 0x3FD9_9999_9999_999A,
{
    Opacity { bits: 0x3FD9_9999_9999_999A }
}

/// Switches are on where the file does not mention them.
pub fn default_true() -> (r: bool)
    ensures
        r,
{
    true
}

/// The parsed, runtime-ready configuration with fully resolved paths and
/// the border color decoded into RGBA bytes.
#[derive(Debug)]
pub struct ResolvedConfig {
    /// Fully expanded, absolute path to the save directory, as the bytes of a Unix
    /// path. The program creates the directory where it is missing.
    pub save_directory: Vec<u8>,
    /// Whether to copy the screenshot to the Wayland clipboard.
    pub copy_to_clipboard: bool,
    /// Selection border color as `[r, g, b, a]` (0-255 each, alpha always 255).
    pub border_color: [u8; 4],
    /// Selection border thickness in pixels.
    pub border_width: u32,
    /// Overlay tint color as `[r, g, b]`.
    pub overlay_color: [u8; 3],
    /// Overlay opacity (0.0-1.0) when selecting.
    pub overlay_opacity: Opacity,
    /// Overlay idle opacity (0.0-1.0) before selection.
    pub overlay_idle_opacity: Opacity,
    /// Whether to capture a freeze-frame.
    pub freeze_frame: bool,
    /// Whether to show live dimensions label.
    pub show_dimensions: bool,
}

// ── Paths ─────────────────────────────────────────────────────

/// The byte `/`.
pub const SLASH: u8 = 47;

/// The byte `~`.
pub const TILDE: u8 = 126;

/// The path `rest` as seen from the directory `base`: an absolute `rest` stands
/// for itself, any other follows `base` and a single slash.
pub open spec fn joined(base: Seq<u8>, rest: Seq<u8>) -> Seq<u8> {
    if is_absolute(rest) {
        rest
    } else if base.len() == 0 || base.last() == SLASH {
        base + rest
    } else {
        base + seq![SLASH] + rest
    }
}

/// Whether a path starts at the root.
pub open spec fn is_absolute(path: Seq<u8>) -> bool {
    path.len() > 0 && path[0] == SLASH
}

/// A path without its leading slashes.
pub open spec fn unslashed(path: Seq<u8>) -> Seq<u8>
    decreases path.len(),
{
    if is_absolute(path) {
        unslashed(path.skip(1))
    } else {
        path
    }
}

/// A path with a leading `~` replaced by the home directory. However many slashes
/// follow the `~`, what comes after them lies below the home directory.
pub open spec fn expanded(path: Seq<u8>, home: Seq<u8>) -> Seq<u8> {
    if path.len() >= 2 && path[0] == TILDE && path[1] == SLASH {
        joined(home, unslashed(path.skip(2)))
    } else if path == seq![TILDE] {
        home
    } else {
        path
    }
}

/// Append the bytes of `tail` from `from` on.
fn append_from(out: &mut Vec<u8>, tail: &[u8], from: usize)
    requires
        from <= tail@.len(),
    ensures
        final(out)@ == old(out)@ + tail@.skip(from as int),
{
    let ghost before = out@;
    let mut i: usize = from;
    while i < tail.len()
        invariant
            from <= i <= tail@.len(),
            out@ == before + tail@.subrange(from as int, i as int),
        decreases tail.len() - i,
    {
        out.push(tail[i]);
        i += 1;
        assert(out@ =~= before + tail@.subrange(from as int, i as int));
    }
    assert(tail@.subrange(from as int, tail@.len() as int) =~= tail@.skip(from as int));
}

/// The path that `rest`, from its byte `from` on, names in the directory `base`.
fn join_from(base: &[u8], rest: &[u8], from: usize) -> (r: Vec<u8>)
    requires
        from <= rest@.len(),
    ensures
        r@ == joined(base@, rest@.skip(from as int)),
{
    let mut out: Vec<u8> = Vec::new();
    let absolute: bool = from < rest.len() && rest[from] == SLASH;
    if !absolute {
        append_from(&mut out, base, 0);
        assert(base@.skip(0) =~= base@);
        if base.len() > 0 && base[base.len() - 1] != SLASH {
            out.push(SLASH);
        }
    }
    append_from(&mut out, rest, from);
    assert(out@ =~= joined(base@, rest@.skip(from as int)));
    out
}

/// The path of `name` in the directory `base`.
pub fn join_path(base: &[u8], name: &str) -> (r: Vec<u8>)
    ensures
        r@ == joined(base@, encode_utf8(name@)),
{
    let bytes: &[u8] = name.as_bytes();
    assert(bytes@.skip(0) =~= bytes@);
    join_from(base, bytes, 0)
}

/// Expand `~` at the start of a path to the user's home directory. Paths are
/// the bytes of Unix paths.
pub fn expand_tilde(path: &str, home: &[u8]) -> (r: Vec<u8>)
    ensures
        r@ == expanded(encode_utf8(path@), home@),
{
    let bytes: &[u8] = path.as_bytes();
    if bytes.len() >= 2 && bytes[0] == TILDE && bytes[1] == SLASH {
        let mut k: usize = 2;
        while k < bytes.len() && bytes[k] == SLASH
            invariant
                2 <= k <= bytes@.len(),
                unslashed(bytes@.skip(2)) == unslashed(bytes@.skip(k as int)),
            decreases bytes.len() - k,
        {
            assert(bytes@.skip(k as int).skip(1) =~= bytes@.skip(k + 1));
            k += 1;
        }
        return join_from(home, bytes, k);
    }
    let mut out: Vec<u8> = Vec::new();
    if bytes.len() == 1 && bytes[0] == TILDE {
        assert(bytes@ =~= seq![TILDE]);
        append_from(&mut out, home, 0);
        assert(home@.skip(0) =~= home@);
    } else {
        append_from(&mut out, bytes, 0);
        assert(bytes@.skip(0) =~= bytes@);
    }
    assert(out@ =~= expanded(encode_utf8(path@), home@));
    out
}

/// The directory that a path names for a user whose home directory is `home`, in a
/// process whose working directory is `cwd`.
pub fn save_location(path: &str, home: &[u8], cwd: &[u8]) -> (r: Vec<u8>)
    ensures
        r@ == joined(cwd@, expanded(encode_utf8(path@), home@)),
        is_absolute(cwd@) ==> is_absolute(r@),
{
    let expanded_path: Vec<u8> = expand_tilde(path, home);
    assert(expanded_path@.skip(0) =~= expanded_path@);
    join_from(cwd, expanded_path.as_slice(), 0)
}

/// Where the configuration lives below the user's configuration directory: its
/// own directory, and the file in it.
pub fn config_location(config_home: &[u8]) -> (r: (Vec<u8>, Vec<u8>))
    ensures
        r.0@ == joined(config_home@, encode_utf8("voidsnap"@)),
        r.1@ == joined(r.0@, encode_utf8("config.toml"@)),
{
    let dir: Vec<u8> = join_path(config_home, "voidsnap");
    let file: Vec<u8> = join_path(dir.as_slice(), "config.toml");
    (dir, file)
}

/// Only a leading `~` is special: an absolute path, or one that starts with
/// anything else, is taken as it stands.
pub proof fn law_plain_path_unchanged(path: Seq<u8>, home: Seq<u8>)
    requires
        path.len() == 0 || path[0] != TILDE,
    ensures
        expanded(path, home) == path,
{
}

/// `~` is the home directory, and every path below `~` lies below the home
/// directory, whatever follows the slash.
pub proof fn law_tilde_is_home(home: Seq<u8>, rest: Seq<u8>)
    ensures
        expanded(seq![TILDE], home) == home,
        home.is_prefix_of(expanded(seq![TILDE, SLASH] + rest, home)),
        expanded(seq![TILDE, SLASH] + rest, home) == joined(home, unslashed(rest)),
        !is_absolute(unslashed(rest)),
{
    assert((seq![TILDE, SLASH] + rest).skip(2) =~= rest);
    lemma_unslashed(rest);
    assert(home =~= joined(home, unslashed(rest)).take(home.len() as int));
}

/// No slash is left at the start.
proof fn lemma_unslashed(path: Seq<u8>)
    ensures
        !is_absolute(unslashed(path)),
    decreases path.len(),
{
    if is_absolute(path) {
        lemma_unslashed(path.skip(1));
    }
}

/// With an absolute working directory the save directory is absolute, and one that
/// was absolute already does not depend on it.
pub proof fn law_save_location_is_absolute(path: Seq<u8>, home: Seq<u8>, cwd: Seq<u8>)
    requires
        is_absolute(cwd),
    ensures
        is_absolute(joined(cwd, expanded(path, home))),
        is_absolute(expanded(path, home)) ==> joined(cwd, expanded(path, home)) == expanded(
            path,
            home,
        ),
{
}

/// A path that starts with a slash, byte 47, stands for itself; any other keeps the
/// directory before it and itself at the end, with one slash between where the
/// directory has none.
pub proof fn law_paths_are_joined(base: Seq<u8>, rest: Seq<u8>)
    ensures
        ({
            let path = joined(base, rest);
            &&& is_absolute(rest) <==> rest.len() > 0 && rest[0] == 47
            &&& rest.len() > 0 && rest[0] == 47 ==> path == rest
            &&& !(rest.len() > 0 && rest[0] == 47) ==> {
                &&& path.take(base.len() as int) == base
                &&& path.skip(path.len() - rest.len()) == rest
                &&& base.len() == 0 || base.last() == 47 ==> path.len() == base.len() + rest.len()
                &&& base.len() > 0 && base.last() != 47 ==> path.len() == base.len() + 1
                    + rest.len() && path[base.len() as int] == 47
            }
        }),
{
    let path = joined(base, rest);
    if !is_absolute(rest) {
        assert(path.take(base.len() as int) =~= base);
        assert(path.skip(path.len() - rest.len()) =~= rest);
    }
}

/// What follows `~/`, byte 126 and byte 47, is what is left of it without the slashes
/// at its start; a path that is not `~` and does not start with `~/` stays as it is.
pub proof fn law_tilde_paths(path: Seq<u8>, home: Seq<u8>, slashes: nat, name: Seq<u8>)
    requires
        name.len() == 0 || name[0] != 47,
    ensures
        expanded(seq![126u8], home) == home,
        expanded(seq![126u8, 47u8] + Seq::new(slashes, |i: int| 47u8) + name, home) == joined(
            home,
            name,
        ),
        path != seq![126u8] && !(path.len() >= 2 && path[0] == 126 && path[1] == 47) ==> expanded(
            path,
            home,
        ) == path,
{
    let rest = Seq::new(slashes, |i: int| 47u8) + name;
    assert(seq![126u8, 47u8] + Seq::new(slashes, |i: int| 47u8) + name =~= seq![126u8, 47u8]
        + rest);
    assert((seq![126u8, 47u8] + rest).skip(2) =~= rest);
    lemma_unslashed_all(slashes, name);
}

/// All slashes at the start are dropped, and nothing else.
proof fn lemma_unslashed_all(slashes: nat, name: Seq<u8>)
    requires
        name.len() == 0 || name[0] != 47,
    ensures
        unslashed(Seq::new(slashes, |i: int| 47u8) + name) == name,
    decreases slashes,
{
    let rest = Seq::new(slashes, |i: int| 47u8) + name;
    if slashes > 0 {
        assert(rest.skip(1) =~= Seq::new((slashes - 1) as nat, |i: int| 47u8) + name);
        lemma_unslashed_all((slashes - 1) as nat, name);
    } else {
        assert(rest =~= name);
    }
}

// ── Colours ───────────────────────────────────────────────────

/// Why a colour could not be read.
#[derive(Debug)]
pub enum ColorError {
    /// Not six bytes long, once leading `#` signs are dropped.
    WrongLength { hex: String },
    /// Something other than hexadecimal digits.
    InvalidDigit,
}

/// A string without its leading `#` signs.
pub open spec fn unhashed(s: Seq<char>) -> Seq<char>
    decreases s.len(),
{
    if s.len() > 0 && s[0] == '#' {
        unhashed(s.skip(1))
    } else {
        s
    }
}

/// The value of a hexadecimal digit of either case.
pub open spec fn hex_value(c: char) -> Option<int> {
    if '0' <= c <= '9' {
        Some(c as int - '0' as int)
    } else if 'a' <= c <= 'f' {
        Some(c as int - 'a' as int + 10)
    } else if 'A' <= c <= 'F' {
        Some(c as int - 'A' as int + 10)
    } else {
        None
    }
}

/// Whether a string is six hexadecimal digits.
pub open spec fn six_digits(s: Seq<char>) -> bool {
    s.len() == 6 && forall|i: int| 0 <= i < 6 ==> hex_value(#[trigger] s[i]) is Some
}

/// The value of the two digits at `at`.
pub open spec fn pair_value(s: Seq<char>, at: int) -> int {
    16 * hex_value(s[at])->0 + hex_value(s[at + 1])->0
}

/// The channels that a colour string stands for: red, green and blue of two digits
/// each, and an opaque alpha.
pub open spec fn color_value(hex: Seq<char>) -> Option<[u8; 4]> {
    let s = unhashed(hex);
    if six_digits(s) {
        Some([pair_value(s, 0) as u8, pair_value(s, 2) as u8, pair_value(s, 4) as u8, 255])
    } else {
        None
    }
}

/// Six hexadecimal digits take six bytes.
proof fn lemma_digits_are_bytes(s: Seq<char>)
    requires
        six_digits(s),
    ensures
        encode_utf8(s).len() == 6,
{
    assert(vstd::utf8::is_ascii_chars(s));
    vstd::utf8::is_ascii_chars_encode_utf8(s);
}

/// The value of a hexadecimal digit of either case.
fn digit_value(c: char) -> (r: Option<u8>)
    ensures
        match r {
            Some(v) => hex_value(c) == Some(v as int) && v < 16,
            None => hex_value(c) is None,
        },
{
    if '0' <= c && c <= '9' {
        Some((c as u32 - '0' as u32) as u8)
    } else if 'a' <= c && c <= 'f' {
        Some((c as u32 - 'a' as u32) as u8 + 10)
    } else if 'A' <= c && c <= 'F' {
        Some((c as u32 - 'A' as u32) as u8 + 10)
    } else {
        None
    }
}

/// The value of the two digits at `at`.
fn parse_pair(s: &str, at: usize) -> (r: Option<u8>)
    requires
        at + 1 < s@.len() <= usize::MAX,
    ensures
        r is Some <==> hex_value(s@[at as int]) is Some && hex_value(s@[at + 1]) is Some,
        r matches Some(v) ==> v == pair_value(s@, at as int),
{
    match (digit_value(s.get_char(at)), digit_value(s.get_char(at + 1))) {
        (Some(high), Some(low)) => Some(16 * high + low),
        _ => None,
    }
}

/// The part of a colour string that holds the digits.
fn drop_hashes(hex: &str) -> (r: &str)
    ensures
        r@ == unhashed(hex@),
{
    let n: usize = hex.unicode_len();
    let mut k: usize = 0;
    assert(hex@.skip(0) =~= hex@);
    while k < n && hex.get_char(k) == '#'
        invariant
            k <= n,
            n == hex@.len(),
            unhashed(hex@) == unhashed(hex@.skip(k as int)),
        decreases n - k,
    {
        assert(hex@.skip(k as int).skip(1) =~= hex@.skip(k + 1));
        k += 1;
    }
    assert(hex@.subrange(k as int, n as int) =~= hex@.skip(k as int));
    hex.substring_char(k, n)
}

/// Parse a CSS hex color string (`#RRGGBB`) into `[R, G, B, 255]`: six hexadecimal
/// digits, once leading `#` signs are dropped.
pub fn parse_hex_color(hex: &str) -> (r: Result<[u8; 4], ColorError>)
    ensures
        r is Ok <==> six_digits(unhashed(hex@)),
        match r {
            Ok(c) => color_value(hex@) == Some(c),
            Err(ColorError::WrongLength { hex: digits }) => encode_utf8(unhashed(hex@)).len() != 6
                && digits@ == unhashed(hex@),
            Err(ColorError::InvalidDigit) => encode_utf8(unhashed(hex@)).len() == 6,
        },
{
    let digits: &str = drop_hashes(hex);
    proof {
        if six_digits(digits@) {
            lemma_digits_are_bytes(digits@);
        }
    }
    if digits.as_bytes().len() != 6 {
        return Err(ColorError::WrongLength { hex: digits.to_owned() });
    }
    if digits.unicode_len() != 6 {
        return Err(ColorError::InvalidDigit);
    }
    match (parse_pair(digits, 0), parse_pair(digits, 2), parse_pair(digits, 4)) {
        (Some(red), Some(green), Some(blue)) => Ok([red, green, blue, 255]),
        _ => Err(ColorError::InvalidDigit),
    }
}

impl ColorError {
    /// What to tell the user.
    pub open spec fn text(self) -> Seq<char> {
        match self {
            ColorError::WrongLength { hex } => "Invalid color '#"@ + hex@
                + "': expected 6 hex digits (e.g. #A78BFA)"@,
            ColorError::InvalidDigit => "invalid digit found in string"@,
        }
    }

    /// What to tell the user.
    pub fn message(&self) -> (r: String)
        ensures
            r@ == self.text(),
            self matches ColorError::WrongLength { hex } ==> r@ == "Invalid color '#"@ + hex@
                + "': expected 6 hex digits (e.g. #A78BFA)"@,
            self is InvalidDigit ==> r@ == "invalid digit found in string"@,
    {
        match self {
            ColorError::WrongLength { hex } => {
                let mut out: String = "Invalid color '#".to_owned();
                out.append(hex.as_str());
                out.append("': expected 6 hex digits (e.g. #A78BFA)");
                out
            },
            ColorError::InvalidDigit => "invalid digit found in string".to_owned(),
        }
    }
}

/// Two upper-case hexadecimal digits.
pub open spec fn hex_pair(v: u8) -> Seq<char> {
    seq![text::hex_char(v as int / 16), text::hex_char(v as int % 16)]
}

/// What the six digits of a printed colour look like.
pub open spec fn printed(c: [u8; 4]) -> Seq<char> {
    hex_pair(c[0]) + hex_pair(c[1]) + hex_pair(c[2])
}

/// Format `[r, g, b, a]` back into a hex string like `"A78BFA"`.
pub fn hex_color_str(c: &[u8; 4]) -> (r: String)
    ensures
        r@ == printed(*c),
{
    let mut out: String = String::new();
    text::append_hex_digit(&mut out, c[0] / 16);
    text::append_hex_digit(&mut out, c[0] % 16);
    text::append_hex_digit(&mut out, c[1] / 16);
    text::append_hex_digit(&mut out, c[1] % 16);
    text::append_hex_digit(&mut out, c[2] / 16);
    text::append_hex_digit(&mut out, c[2] % 16);
    assert(out@ =~= printed(*c));
    out
}

/// Writing a digit and reading it back.
proof fn lemma_hex_digit(d: int)
    requires
        0 <= d < 16,
    ensures
        hex_value(text::hex_char(d)) == Some(d),
        text::hex_char(d) != '#',
{
}

/// The value of each hexadecimal digit, of either case; no other character has one.
pub proof fn law_hex_values(c: char)
    ensures
        48 <= c as int <= 57 ==> hex_value(c) == Some(c as int - 48),
        65 <= c as int <= 70 ==> hex_value(c) == Some(c as int - 55),
        97 <= c as int <= 102 ==> hex_value(c) == Some(c as int - 87),
        hex_value(c) is Some <==> 48 <= c as int <= 57 || 65 <= c as int <= 70 || 97 <= c as int
            <= 102,
{
}

/// All signs at the start are dropped, and nothing else.
pub proof fn law_signs_are_dropped(signs: nat, name: Seq<char>)
    requires
        name.len() == 0 || name[0] != '#',
    ensures
        unhashed(Seq::new(signs, |i: int| '#') + name) == name,
    decreases signs,
{
    let s = Seq::new(signs, |i: int| '#') + name;
    if signs > 0 {
        assert(s.skip(1) =~= Seq::new((signs - 1) as nat, |i: int| '#') + name);
        law_signs_are_dropped((signs - 1) as nat, name);
    } else {
        assert(s =~= name);
    }
}

/// A colour is given by six hexadecimal digits after any number of signs: two for
/// red, two for green, two for blue, the first of each pair counting sixteen times. It
/// is opaque. Anything else is no colour.
pub proof fn law_color_is_three_pairs(signs: nat, name: Seq<char>)
    requires
        name.len() == 0 || name[0] != '#',
    ensures
        ({
            let value = color_value(Seq::new(signs, |i: int| '#') + name);
            &&& value is Some <==> name.len() == 6 && hex_value(name[0]) is Some && hex_value(
                name[1],
            ) is Some && hex_value(name[2]) is Some && hex_value(name[3]) is Some && hex_value(
                name[4],
            ) is Some && hex_value(name[5]) is Some
            &&& value matches Some(c) ==> {
                &&& c[0] == 16 * hex_value(name[0])->0 + hex_value(name[1])->0
                &&& c[1] == 16 * hex_value(name[2])->0 + hex_value(name[3])->0
                &&& c[2] == 16 * hex_value(name[4])->0 + hex_value(name[5])->0
                &&& c[3] == 255
            }
        }),
{
    law_signs_are_dropped(signs, name);
    if six_digits(name) {
        assert(hex_value(name[0]) is Some && hex_value(name[1]) is Some);
        assert(hex_value(name[2]) is Some && hex_value(name[3]) is Some);
        assert(hex_value(name[4]) is Some && hex_value(name[5]) is Some);
    }
}

/// A colour is printed as six digits: the high and the low digit of red, green and
/// blue.
pub proof fn law_printed_digits(c: [u8; 4])
    ensures
        printed(c).len() == 6,
        printed(c)[0] == text::hex_char(c[0] as int / 16),
        printed(c)[1] == text::hex_char(c[0] as int % 16),
        printed(c)[2] == text::hex_char(c[1] as int / 16),
        printed(c)[3] == text::hex_char(c[1] as int % 16),
        printed(c)[4] == text::hex_char(c[2] as int / 16),
        printed(c)[5] == text::hex_char(c[2] as int % 16),
{
}

/// Printing a colour and reading it back gives the same red, green and blue, and
/// an opaque alpha; with or without leading `#` signs.
pub proof fn law_color_round_trip(c: [u8; 4], hashes: nat)
    ensures
        color_value(Seq::new(hashes, |i: int| '#') + printed(c)) == Some([c[0], c[1], c[2], 255]),
    decreases hashes,
{
    let s = Seq::new(hashes, |i: int| '#') + printed(c);
    let p = printed(c);
    if hashes > 0 {
        assert(s.skip(1) =~= Seq::new((hashes - 1) as nat, |i: int| '#') + printed(c));
        law_color_round_trip(c, (hashes - 1) as nat);
    } else {
        lemma_hex_digit(c[0] as int / 16);
        lemma_hex_digit(c[0] as int % 16);
        lemma_hex_digit(c[1] as int / 16);
        lemma_hex_digit(c[1] as int % 16);
        lemma_hex_digit(c[2] as int / 16);
        lemma_hex_digit(c[2] as int % 16);
        assert(s =~= p);
        assert(six_digits(p));
        assert(pair_value(p, 0) == c[0]);
        assert(pair_value(p, 2) == c[1]);
        assert(pair_value(p, 4) == c[2]);
    }
}

// ── Resolution ────────────────────────────────────────────────

/// Turn a raw [`Config`] into a fully resolved [`ResolvedConfig`], for a user
/// whose home directory is `home`, in a process whose working directory is `cwd`.
pub fn resolve(config: Config, home: &[u8], cwd: &[u8]) -> (r: Result<ResolvedConfig, ColorError>)
    ensures
        match r {
            Ok(ready) => {
                &&& color_value(config.selection_border_color@) == Some(ready.border_color)
                &&& color_value(config.overlay_color@) == Some(
                    [
                        ready.overlay_color[0],
                        ready.overlay_color[1],
                        ready.overlay_color[2],
                        255,
                    ],
                )
                &&& ready.save_directory@ == joined(
                    cwd@,
                    expanded(encode_utf8(config.save_directory@), home@),
                )
                &&& is_absolute(cwd@) ==> is_absolute(ready.save_directory@)
                &&& ready.copy_to_clipboard == config.copy_to_clipboard
                &&& ready.border_width == vstd::math::max(config.selection_border_width as int, 1)
                &&& ready.overlay_opacity == config.overlay_opacity.clamped()
                &&& ready.overlay_idle_opacity == config.overlay_idle_opacity.clamped()
                &&& ready.freeze_frame == config.freeze_frame
                &&& ready.show_dimensions == config.show_dimensions
            },
            Err(e) => {
                let bad = if color_value(config.selection_border_color@) is None {
                    config.selection_border_color@
                } else {
                    config.overlay_color@
                };
                &&& color_value(bad) is None
                &&& match e {
                    ColorError::WrongLength { hex } => encode_utf8(unhashed(bad)).len() != 6
                        && hex@ == unhashed(bad),
                    ColorError::InvalidDigit => encode_utf8(unhashed(bad)).len() == 6,
                }
            },
        },
{
    let save_directory: Vec<u8> = save_location(config.save_directory.as_str(), home, cwd);
    let border_color: [u8; 4] = match parse_hex_color(config.selection_border_color.as_str()) {
        Ok(c) => c,
        Err(e) => {
            return Err(e);
        },
    };
    let tint: [u8; 4] = match parse_hex_color(config.overlay_color.as_str()) {
        Ok(c) => c,
        Err(e) => {
            return Err(e);
        },
    };
    let overlay_color: [u8; 3] = [tint[0], tint[1], tint[2]];
    assert(tint =~= [overlay_color[0], overlay_color[1], overlay_color[2], 255u8]);
    let border_width: u32 = if config.selection_border_width > 1 {
        config.selection_border_width
    } else {
        1
    };
    Ok(
        ResolvedConfig {
            save_directory,
            copy_to_clipboard: config.copy_to_clipboard,
            border_color,
            border_width,
            overlay_color,
            overlay_opacity: config.overlay_opacity.clamp(),
            overlay_idle_opacity: config.overlay_idle_opacity.clamp(),
            freeze_frame: config.freeze_frame,
            show_dimensions: config.show_dimensions,
        },
    )
}

} // verus!
