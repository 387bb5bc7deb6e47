use vstd::prelude::*;
use vstd::utf8::{encode_utf8, is_ascii_chars, is_ascii_chars_encode_utf8};

verus! {

/// A color with 8-bit red, green, blue and alpha channels.
#[derive(Debug, Clone, Copy, PartialEq, Eq, Structural)]
pub struct Rgba8 {
    pub red: u8,
    pub green: u8,
    pub blue: u8,
    pub alpha: u8,
}

/// Why a hex color string was rejected.
#[derive(Debug, Clone, Copy, PartialEq, Eq, Structural)]
pub enum HexColorError {
    InvalidRed,
    InvalidGreen,
    InvalidBlue,
    InvalidAlpha,
    InvalidFormat,
}

impl HexColorError {
    /// The message that describes the error.
    pub fn message(&self) -> (m: &'static str)
        ensures
            m@ == match *self {
                HexColorError::InvalidRed => "Invalid red value"@,
                HexColorError::InvalidGreen => "Invalid green value"@,
                HexColorError::InvalidBlue => "Invalid blue value"@,
                HexColorError::InvalidAlpha => "Invalid alpha value"@,
                HexColorError::InvalidFormat => "Color must be in the format #RRGGBB"@,
            },
    {
        match self {
            HexColorError::InvalidRed => "Invalid red value",
            HexColorError::InvalidGreen => "Invalid green value",
            HexColorError::InvalidBlue => "Invalid blue value",
            HexColorError::InvalidAlpha => "Invalid alpha value",
            HexColorError::InvalidFormat => "Color must be in the format #RRGGBB",
        }
    }
}

/// The outcome of reading a hex color string: a color, an error, or a slice of the string
/// that does not fall on a character boundary.
pub enum HexOutcome {
    Parsed(Rgba8),
    Failed(HexColorError),
    SplitsCharacter,
}

/// The characters with the Unicode property White_Space.
pub open spec fn is_white_space(c: char) -> bool {
    let v = c as u32;
    ||| 9 <= v <= 13
    ||| v == 32
    ||| v == 0x85
    ||| v == 0xA0
    ||| v == 0x1680
    ||| 0x2000 <= v <= 0x200A
    ||| v == 0x2028
    ||| v == 0x2029
    ||| v == 0x202F
    ||| v == 0x205F
    ||| v == 0x3000
}

/// `s` without its leading white space.
pub open spec fn trim_start(s: Seq<char>) -> Seq<char>
    decreases s.len(),
{
    if s.len() > 0 && is_white_space(s[0]) {
        trim_start(s.drop_first())
    } else {
        s
    }
}

/// `s` without its trailing white space.
pub open spec fn trim_end(s: Seq<char>) -> Seq<char>
    decreases s.len(),
{
    if s.len() > 0 && is_white_space(s.last()) {
        trim_end(s.drop_last())
    } else {
        s
    }
}

/// `s` without its leading and trailing white space.
pub open spec fn trimmed(s: Seq<char>) -> Seq<char> {
    trim_end(trim_start(s))
}

/// Whether `c` has the Unicode property White_Space.
fn white_space(c: char) -> (b: bool)
    ensures
        b == is_white_space(c),
{
    let v = c as u32;
    (9 <= v && v <= 13) || v == 32 || v == 0x85 || v == 0xA0 || v == 0x1680 || (0x2000 <= v
        && v <= 0x200A) || v == 0x2028 || v == 0x2029 || v == 0x202F || v == 0x205F || v == 0x3000
}

/// `s` without its leading and trailing white space, as `str::trim` gives it.
pub fn trim_str(s: &str) -> (t: &str)
    ensures
        t@ == trimmed(s@),
{
    let n = s.unicode_len();
    let mut start: usize = 0;
    assert(s@.skip(0) =~= s@);
    while start < n && white_space(s.get_char(start))
        invariant
            start <= n,
            n == s@.len(),
            trim_start(s@) == trim_start(s@.skip(start as int)),
        decreases n - start,
    {
        assert(s@.skip(start as int).drop_first() =~= s@.skip(start + 1));
        start += 1;
    }
    assert(trim_start(s@) == s@.subrange(start as int, n as int)) by {
        assert(s@.skip(start as int) =~= s@.subrange(start as int, n as int));
    }
    let mut end: usize = n;
    while end > start && white_space(s.get_char(end - 1))
        invariant
            start <= end <= n,
            n == s@.len(),
            trim_end(s@.subrange(start as int, n as int)) == trim_end(s@.subrange(start as int, end as int)),
        decreases end - start,
    {
        assert(s@.subrange(start as int, end as int).drop_last() =~= s@.subrange(start as int, end - 1));
        end -= 1;
    }
    s.substring_char(start, end)
}

/// The value of an ASCII digit or letter as a digit (`0-9`, then `a-z` or `A-Z` from 10), or 36
/// for any other byte.
pub open spec fn digit_value(b: u8) -> int {
    if 48 <= b <= 57 {
        b - 48
    } else if 97 <= b <= 122 {
        b - 87
    } else if 65 <= b <= 90 {
        b - 55
    } else {
        36
    }
}

/// The value of the digits `s` in base `radix`, or `None` when one is no digit of that base or
/// the value exceeds 255.
pub open spec fn digits_value(s: Seq<u8>, radix: int) -> Option<int>
    decreases s.len(),
{
    if s.len() == 0 {
        Some(0)
    } else {
        match digits_value(s.drop_last(), radix) {
            Some(v) => {
                let d = digit_value(s.last());
                if d < radix && v * radix + d <= 255 {
                    Some(v * radix + d)
                } else {
                    None
                }
            },
            None => None,
        }
    }
}

/// What `u8::from_str_radix` gives for the bytes `s`: an optional `+` followed by at least one
/// digit of the base, with a value of at most 255.
pub open spec fn parse_u8_radix(s: Seq<u8>, radix: int) -> Option<int> {
    if s.len() == 0 {
        None
    } else if s[0] == 43 {
        if s.len() == 1 {
            None
        } else {
            digits_value(s.drop_first(), radix)
        }
    } else {
        digits_value(s, radix)
    }
}

/// A slice of a UTF-8 string may end at `i` when `i` is its end or no continuation byte
/// stands there.
pub open spec fn on_boundary(b: Seq<u8>, i: int) -> bool {
    i == b.len() || !(0x80 <= b[i] <= 0xBF)
}

/// The channel stored in `width` bytes from `start` in base `radix`: `None` when the slice
/// splits a character, `Some(None)` when it does not parse.
pub open spec fn channel(b: Seq<u8>, start: int, width: int, radix: int) -> Option<Option<int>> {
    if !on_boundary(b, start) || !on_boundary(b, start + width) {
        None
    } else {
        Some(parse_u8_radix(b.subrange(start, start + width), radix))
    }
}

/// The bytes of a hex color after the prefix `#` or `0x`, if there is one.
pub open spec fn hex_body(b: Seq<u8>) -> Seq<u8> {
    if b.len() >= 1 && b[0] == 35 {
        b.drop_first()
    } else if b.len() >= 2 && b[0] == 48 && b[1] == 120 {
        b.skip(2)
    } else {
        b
    }
}

/// Reads the channels of a hex color body, all in base 16: three or four single digits, each
/// expanded to the full range by scaling by 17 (alpha 15 when absent), or six or eight digits
/// read two at a time (alpha 255 when absent).
pub open spec fn hex_outcome(b: Seq<u8>) -> HexOutcome {
    let short = b.len() == 3 || b.len() == 4;
    let long = b.len() == 6 || b.len() == 8;
    if !short && !long {
        HexOutcome::Failed(HexColorError::InvalidFormat)
    } else {
        let w: int = if short { 1 } else { 2 };
        let radix: int = 16;
        match channel(b, 0, w, radix) {
            None => HexOutcome::SplitsCharacter,
            Some(None) => HexOutcome::Failed(HexColorError::InvalidRed),
            Some(Some(r)) => match channel(b, w, w, radix) {
                None => HexOutcome::SplitsCharacter,
                Some(None) => HexOutcome::Failed(HexColorError::InvalidGreen),
                Some(Some(g)) => match channel(b, 2 * w, w, radix) {
                    None => HexOutcome::SplitsCharacter,
                    Some(None) => HexOutcome::Failed(HexColorError::InvalidBlue),
                    Some(Some(bl)) => {
                        let alpha = if b.len() == 4 * w {
                            channel(b, 3 * w, w, radix)
                        } else {
                            Some(Some(if short { 15 } else { 255 }))
                        };
                        match alpha {
                            None => HexOutcome::SplitsCharacter,
                            Some(None) => HexOutcome::Failed(HexColorError::InvalidAlpha),
                            Some(Some(a)) => {
                                let scale: int = if short { 17 } else { 1 };
                                HexOutcome::Parsed(
                                    Rgba8 {
                                        red: (r * scale) as u8,
                                        green: (g * scale) as u8,
                                        blue: (bl * scale) as u8,
                                        alpha: (a * scale) as u8,
                                    },
                                )
                            },
                        }
                    },
                },
            },
        }
    }
}

/// The outcome of reading the hex color string `s`, after trimming white space and an optional
/// `#` or `0x` prefix.
pub open spec fn hex_color_outcome(s: Seq<char>) -> HexOutcome {
    hex_outcome(hex_body(encode_utf8(trimmed(s))))
}

/// A failure on a prefix of the digits is a failure on all of them.
proof fn lemma_digits_value_prefix_none(s: Seq<u8>, k: int, radix: int)
    requires
        0 <= k <= s.len(),
        digits_value(s.take(k), radix) is None,
    ensures
        digits_value(s, radix) is None,
    decreases s.len() - k,
{
    if k < s.len() {
        assert(s.take(k + 1).drop_last() == s.take(k));
        lemma_digits_value_prefix_none(s, k + 1, radix);
    } else {
        assert(s.take(k) == s);
    }
}

/// Reads `b[start .. start + width]` as `u8::from_str_radix` does.
fn parse_u8_radix_at(b: &[u8], start: usize, width: usize, radix: u8) -> (v: Option<u8>)
    requires
        start + width <= b@.len(),
        2 <= radix <= 16,
    ensures
        match parse_u8_radix(b@.subrange(start as int, start + width), radix as int) {
            Some(x) => v == Some(x as u8),
            None => v is None,
        },
{
    let ghost s = b@.subrange(start as int, start + width);
    if width == 0 {
        return None;
    }
    let mut i = start;
    if b[start] == 43 {
        if width == 1 {
            return None;
        }
        i = start + 1;
    }
    let first = i;
    let end = start + width;
    let ghost digits = b@.subrange(first as int, end as int);
    proof {
        if b@[start as int] == 43 {
            assert(digits == s.drop_first());
        } else {
            assert(digits == s);
        }
        assert(parse_u8_radix(s, radix as int) == digits_value(digits, radix as int));
        assert(digits.take(0) == Seq::<u8>::empty());
    }
    let mut value: u32 = 0;
    while i < end
        invariant
            first <= i <= end,
            end <= b@.len(),
            2 <= radix <= 16,
            digits == b@.subrange(first as int, end as int),
            s == b@.subrange(start as int, start + width),
            parse_u8_radix(s, radix as int) == digits_value(digits, radix as int),
            digits_value(digits.take(i - first), radix as int) == Some(value as int),
            value <= 255,
        decreases end - i,
    {
        let c = b[i];
        let d: u32 = if 48 <= c && c <= 57 {
            (c - 48) as u32
        } else if 97 <= c && c <= 122 {
            (c - 87) as u32
        } else if 65 <= c && c <= 90 {
            (c - 55) as u32
        } else {
            36
        };
        proof {
            assert(digits.take(i + 1 - first).drop_last() == digits.take(i - first));
            assert(digits.take(i + 1 - first).last() == c);
            assert(d == digit_value(c));
            assert(value * (radix as u32) <= 255 * 16) by (nonlinear_arith)
                requires value <= 255, radix <= 16;
        }
        if d >= radix as u32 || value * (radix as u32) + d > 255 {
            proof {
                lemma_digits_value_prefix_none(digits, i + 1 - first, radix as int);
            }
            return None;
        }
        value = value * (radix as u32) + d;
        i += 1;
    }
    proof {
        assert(digits.take(end - first) == digits);
    }
    Some(value as u8)
}


/// A single digit that parses is below the base.
proof fn lemma_single_digit_below_radix(s: Seq<u8>, radix: int)
    requires
        s.len() == 1,
    ensures
        match parse_u8_radix(s, radix) {
            Some(v) => 0 <= v < radix,
            None => true,
        },
{
    assert(s.drop_last().len() == 0);
    assert(digits_value(s.drop_last(), radix) == Some(0int));
    if s[0] != 43 {
        let d = digit_value(s.last());
        assert(0 <= d);
        assert(0 * radix + d == d);
        assert(digits_value(s, radix) == if d < radix && d <= 255 { Some(d) } else { None::<int> });
    }
}

/// Reads channel `index` of a hex body that starts at `off` in `b`.
fn read_channel(b: &[u8], off: usize, index: usize, w: usize, radix: u8) -> (v: Option<u8>)
    requires
        off + (index + 1) * w <= b@.len(),
        index <= 3,
        w == 1 || w == 2,
        radix == 16,
    ensures
        match parse_u8_radix(b@.skip(off as int).subrange(index * w, index * w + w), radix as int) {
            Some(x) => v == Some(x as u8),
            None => v is None,
        },
{
    let len = b.len();
    proof {
        assert(index * w + w == (index + 1) * w) by (nonlinear_arith);
        assert(index * w <= 6) by (nonlinear_arith)
            requires index <= 3, w <= 2;
        assert(off + index * w <= len);
        assert(b@.skip(off as int).subrange(index * w, index * w + w) == b@.subrange(
            off + index * w,
            off + index * w + w,
        ));
    }
    parse_u8_radix_at(b, off + index * w, w, radix)
}

/// Reads the channels of the hex body `b[off..]`.
fn read_hex_body(b: &[u8], off: usize) -> (res: Result<Rgba8, HexColorError>)
    requires
        off <= b@.len(),
        !(hex_outcome(b@.skip(off as int)) is SplitsCharacter),
    ensures
        match hex_outcome(b@.skip(off as int)) {
            HexOutcome::Parsed(c) => res == Ok::<Rgba8, HexColorError>(c),
            HexOutcome::Failed(e) => res == Err::<Rgba8, HexColorError>(e),
            HexOutcome::SplitsCharacter => false,
        },
{
    let ghost body = b@.skip(off as int);
    let len = b.len() - off;
    let short = len == 3 || len == 4;
    let long = len == 6 || len == 8;
    if !short && !long {
        return Err(HexColorError::InvalidFormat);
    }
    let w: usize = if short { 1 } else { 2 };
    let radix: u8 = 16;
    let scale: u8 = if short { 17 } else { 1 };
    let r = match read_channel(b, off, 0, w, radix) {
        Some(v) => v,
        None => return Err(HexColorError::InvalidRed),
    };
    let g = match read_channel(b, off, 1, w, radix) {
        Some(v) => v,
        None => return Err(HexColorError::InvalidGreen),
    };
    let bl = match read_channel(b, off, 2, w, radix) {
        Some(v) => v,
        None => return Err(HexColorError::InvalidBlue),
    };
    let a = if len == 4 * w {
        match read_channel(b, off, 3, w, radix) {
            Some(v) => v,
            None => return Err(HexColorError::InvalidAlpha),
        }
    } else if short {
        15
    } else {
        255
    };
    proof {
        if short {
            lemma_single_digit_below_radix(body.subrange(0, 1), 16);
            lemma_single_digit_below_radix(body.subrange(1, 2), 16);
            lemma_single_digit_below_radix(body.subrange(2, 3), 16);
            if len == 4 {
                lemma_single_digit_below_radix(body.subrange(3, 4), 16);
            }
        }
    }
    Ok(Rgba8 { red: r * scale, green: g * scale, blue: bl * scale, alpha: a * scale })
}

impl Rgba8 {
    /// Reads a color from a hex string: after trimming white space and an optional `#` or `0x`,
    /// either three or four hex digits (each expanded to the full range by scaling by 17, so `f`
    /// gives 255; alpha 255 when absent) or six or eight hex digits (alpha 255 when absent).
    pub fn from_hex_str(s: &str) -> (res: Result<Rgba8, HexColorError>)
        requires
            !(hex_color_outcome(s@) is SplitsCharacter),
        ensures
            match hex_color_outcome(s@) {
                HexOutcome::Parsed(c) => res == Ok::<Rgba8, HexColorError>(c),
                HexOutcome::Failed(e) => res == Err::<Rgba8, HexColorError>(e),
                HexOutcome::SplitsCharacter => false,
            },
    {
        let t = trim_str(s);
        let b = t.as_bytes();
        let n = b.len();
        let off: usize = if n >= 1 && b[0] == 35 {
            1
        } else if n >= 2 && b[0] == 48 && b[1] == 120 {
            2
        } else {
            0
        };
        proof {
            let bytes = encode_utf8(trimmed(s@));
            assert(b@ == bytes);
            if off == 1 {
                assert(b@.skip(1) == bytes.drop_first());
            } else if off == 0 {
                assert(b@.skip(0) == bytes);
            }
            assert(b@.skip(off as int) == hex_body(bytes));
        }
        read_hex_body(b, off)
    }
}


/// The lower-case hex digit of `d`.
pub open spec fn hex_char(d: int) -> char {
    if d < 10 {
        (48 + d) as char
    } else {
        (87 + d) as char
    }
}

/// The two lower-case hex digits of `v`, high digit first.
pub open spec fn hex_pair(v: u8) -> Seq<char> {
    seq![hex_char((v / 16) as int), hex_char((v % 16) as int)]
}

/// `#rrggbb`: the red, green and blue channels as two lower-case hex digits each.
pub open spec fn hex_rgb(red: u8, green: u8, blue: u8) -> Seq<char> {
    seq!['#'] + hex_pair(red) + hex_pair(green) + hex_pair(blue)
}

/// The lower-case hex digit of `d` as a string.
fn hex_digit_str(d: u8) -> (s: &'static str)
    requires
        d < 16,
    ensures
        s@ == seq![hex_char(d as int)],
{
    if d == 0 {
        proof {
            reveal_strlit("0");
        }
        "0"
    } else if d == 1 {
        proof {
            reveal_strlit("1");
        }
        "1"
    } else if d == 2 {
        proof {
            reveal_strlit("2");
        }
        "2"
    } else if d == 3 {
        proof {
            reveal_strlit("3");
        }
        "3"
    } else if d == 4 {
        proof {
            reveal_strlit("4");
        }
        "4"
    } else if d == 5 {
        proof {
            reveal_strlit("5");
        }
        "5"
    } else if d == 6 {
        proof {
            reveal_strlit("6");
        }
        "6"
    } else if d == 7 {
        proof {
            reveal_strlit("7");
        }
        "7"
    } else if d == 8 {
        proof {
            reveal_strlit("8");
        }
        "8"
    } else if d == 9 {
        proof {
            reveal_strlit("9");
        }
        "9"
    } else if d == 10 {
        proof {
            reveal_strlit("a");
        }
        "a"
    } else if d == 11 {
        proof {
            reveal_strlit("b");
        }
        "b"
    } else if d == 12 {
        proof {
            reveal_strlit("c");
        }
        "c"
    } else if d == 13 {
        proof {
            reveal_strlit("d");
        }
        "d"
    } else if d == 14 {
        proof {
            reveal_strlit("e");
        }
        "e"
    } else {
        proof {
            reveal_strlit("f");
        }
        "f"
    }
}

/// Writes `#rrggbb`, each channel as two lower-case hex digits.
pub fn format_hex_rgb(red: u8, green: u8, blue: u8) -> (s: String)
    ensures
        s@ == hex_rgb(red, green, blue),
{
    proof {
        reveal_strlit("#");
    }
    let mut s = String::from_str("#");
    s.append(hex_digit_str(red / 16));
    s.append(hex_digit_str(red % 16));
    s.append(hex_digit_str(green / 16));
    s.append(hex_digit_str(green % 16));
    s.append(hex_digit_str(blue / 16));
    s.append(hex_digit_str(blue % 16));
    proof {
        assert(s@ == hex_rgb(red, green, blue));
    }
    s
}

impl Rgba8 {
    /// `#rrggbb` for the color; alpha is left out.
    pub fn to_hex_string(&self) -> (s: String)
        ensures
            s@ == hex_rgb(self.red, self.green, self.blue),
    {
        format_hex_rgb(self.red, self.green, self.blue)
    }
}


/// The two hex digits of `v` read back in base 16 give `v`.
proof fn lemma_hex_pair_parses(v: u8, s: Seq<u8>)
    requires
        s == seq![hex_char((v / 16) as int) as u8, hex_char((v % 16) as int) as u8],
    ensures
        parse_u8_radix(s, 16) == Some(v as int),
{
    let hi = (v / 16) as int;
    let lo = (v % 16) as int;
    assert(digit_value(s[0]) == hi);
    assert(digit_value(s[1]) == lo);
    assert(s.drop_last().drop_last().len() == 0);
    assert(digits_value(s.drop_last().drop_last(), 16) == Some(0int));
    assert(s.drop_last().last() == s[0]);
    assert(digits_value(s.drop_last(), 16) == Some(hi));
    assert(hi * 16 + lo == v);
    assert(digits_value(s, 16) == Some(v as int));
}

/// Reading back the hex string that `format_hex_rgb` writes gives the same red, green and blue,
/// with alpha 255.
pub proof fn lemma_hex_rgb_roundtrip(red: u8, green: u8, blue: u8)
    ensures
        hex_color_outcome(hex_rgb(red, green, blue)) == HexOutcome::Parsed(
            Rgba8 { red, green, blue, alpha: 255 },
        ),
{
    let s = hex_rgb(red, green, blue);
    assert(s.len() == 7);
    assert(!is_white_space(s[0]));
    assert(!is_white_space(s.last()));
    assert(trim_start(s) == s);
    assert(trimmed(s) == s);
    assert(is_ascii_chars(s));
    is_ascii_chars_encode_utf8(s);
    let bytes = encode_utf8(s);
    assert(bytes[0] == 35);
    let body = hex_body(bytes);
    assert(body == bytes.drop_first());
    assert(body.len() == 6);
    assert forall|i: int| 0 <= i < 6 implies #[trigger] body[i] < 0x80 by {
        assert(body[i] == bytes[i + 1]);
        assert(bytes[i + 1] == s[i + 1] as u8);
    }
    assert(s[1] == hex_char((red / 16) as int) && s[2] == hex_char((red % 16) as int));
    assert(s[3] == hex_char((green / 16) as int) && s[4] == hex_char((green % 16) as int));
    assert(s[5] == hex_char((blue / 16) as int) && s[6] == hex_char((blue % 16) as int));
    assert forall|i: int| 0 <= i < 6 implies #[trigger] body[i] == s[i + 1] as u8 by {
        assert(body[i] == bytes[i + 1]);
    }
    assert(body.subrange(0, 2) =~= seq![hex_char((red / 16) as int) as u8, hex_char((red % 16) as int) as u8]);
    assert(body.subrange(2, 4) =~= seq![hex_char((green / 16) as int) as u8, hex_char((green % 16) as int) as u8]);
    assert(body.subrange(4, 6) =~= seq![hex_char((blue / 16) as int) as u8, hex_char((blue % 16) as int) as u8]);
    lemma_hex_pair_parses(red, body.subrange(0, 2));
    lemma_hex_pair_parses(green, body.subrange(2, 4));
    lemma_hex_pair_parses(blue, body.subrange(4, 6));
}

} // verus!
