//! Colours as the editor stores and types them: "#rrggbb" and
//! "#rrggbbaa" strings read back into channels, and channels spelled out.

use vstd::prelude::*;
use crate::text::{DIGITS, hex2, is_white_space, push_char, push_hex2, trim, trim_start, trimmed};

verus! {

/// A colour as four 8-bit channels, alpha 255 being opaque.
#[derive(Clone, Copy, Debug, PartialEq, Eq, Structural)]
pub struct Color {
    pub red: u8,
    pub green: u8,
    pub blue: u8,
    pub alpha: u8,
}

impl Color {
    /// An opaque colour.
    pub fn from_rgb_u8(red: u8, green: u8, blue: u8) -> (c: Color)
        ensures
            c == (Color { red, green, blue, alpha: 255 }),
    {
        Color { red, green, blue, alpha: 255 }
    }

    /// A colour with the given alpha, alpha first.
    pub fn from_argb_u8(alpha: u8, red: u8, green: u8, blue: u8) -> (c: Color)
        ensures
            c == (Color { red, green, blue, alpha }),
    {
        Color { red, green, blue, alpha }
    }
}

/// The byte of `#`.
pub const HASH: u8 = 0x23;

/// The bytes with one leading `#`, if there is one, taken off.
pub open spec fn strip_hash(b: Seq<u8>) -> Seq<u8> {
    if b.len() > 0 && b[0] == HASH {
        b.drop_first()
    } else {
        b
    }
}

/// What a colour field's text leaves to read: its UTF-8 bytes once white
/// space is trimmed from both ends and the optional `#` is taken off.
pub open spec fn colour_digits(text: Seq<char>) -> Seq<u8> {
    strip_hash(vstd::utf8::encode_utf8(trimmed(text)))
}

/// Whether a byte is an ASCII hexadecimal digit, in either case.
pub open spec fn is_hex_digit(b: u8) -> bool {
    (0x30 <= b <= 0x39) || (0x61 <= b <= 0x66) || (0x41 <= b <= 0x46)
}

/// The value of an ASCII hexadecimal digit.
pub open spec fn hex_value(b: u8) -> int {
    if 0x30 <= b <= 0x39 {
        b - 0x30
    } else if 0x61 <= b <= 0x66 {
        b - 0x61 + 10
    } else {
        b - 0x41 + 10
    }
}

/// Whether every byte is an ASCII hexadecimal digit.
pub open spec fn all_hex_digits(d: Seq<u8>) -> bool {
    forall|i: int| 0 <= i < d.len() ==> is_hex_digit(#[trigger] d[i])
}

/// The colour that [`colour_of`] reads from what is left of its text: six
/// hexadecimal digits are red, green and blue in pairs, eight add alpha,
/// and anything else is transparent black.
pub open spec fn colour_from_digits(d: Seq<u8>) -> Color {
    if (d.len() == 6 || d.len() == 8) && all_hex_digits(d) {
        Color {
            red: byte_value(d[0], d[1]),
            green: byte_value(d[2], d[3]),
            blue: byte_value(d[4], d[5]),
            alpha: if d.len() == 8 { byte_value(d[6], d[7]) } else { 255 },
        }
    } else {
        Color { red: 0, green: 0, blue: 0, alpha: 0 }
    }
}

/// A short-form digit widened to a byte: `f` is `ff`.
pub open spec fn wide_value(b: u8) -> u8 {
    (17 * hex_value(b)) as u8
}

/// A pair of hexadecimal digits as a byte.
pub open spec fn byte_value(high: u8, low: u8) -> u8 {
    (16 * hex_value(high) + hex_value(low)) as u8
}

/// The colour that [`parse_colour`] reads from what is left of its text:
/// three or four digits widened, six or eight read in pairs, the fourth or
/// fourth pair alpha; nothing for other lengths or for a byte that is not
/// a hexadecimal digit.
pub open spec fn typed_colour(d: Seq<u8>) -> Option<Color> {
    if !all_hex_digits(d) {
        None
    } else if d.len() == 3 || d.len() == 4 {
        Some(
            Color {
                red: wide_value(d[0]),
                green: wide_value(d[1]),
                blue: wide_value(d[2]),
                alpha: if d.len() == 4 { wide_value(d[3]) } else { 255 },
            },
        )
    } else if d.len() == 6 || d.len() == 8 {
        Some(
            Color {
                red: byte_value(d[0], d[1]),
                green: byte_value(d[2], d[3]),
                blue: byte_value(d[4], d[5]),
                alpha: if d.len() == 8 { byte_value(d[6], d[7]) } else { 255 },
            },
        )
    } else {
        None
    }
}

/// "#rrggbb" in lower case.
pub open spec fn hex_text(c: Color) -> Seq<char> {
    seq!['#'] + hex2(c.red) + hex2(c.green) + hex2(c.blue)
}

/// "#rrggbb" when opaque, else "#rrggbbaa".
pub open spec fn hex_rgba_text(c: Color) -> Seq<char> {
    if c.alpha == 255 {
        hex_text(c)
    } else {
        hex_text(c) + hex2(c.alpha)
    }
}

/// Nothing when fully transparent, "#rrggbb" when opaque, else
/// "#rrggbbaa".
pub open spec fn hex_with_alpha_text(c: Color) -> Seq<char> {
    if c.alpha == 0 {
        Seq::empty()
    } else {
        hex_rgba_text(c)
    }
}

/// The value of a byte as a hexadecimal digit, if it is one.
fn hex_digit(b: u8) -> (v: Option<u8>)
    ensures
        v is Some <==> is_hex_digit(b),
        v matches Some(x) ==> x == hex_value(b) && x < 16,
{
    if 0x30 <= b && b <= 0x39 {
        Some(b - 0x30)
    } else if 0x61 <= b && b <= 0x66 {
        Some(b - 0x61 + 10)
    } else if 0x41 <= b && b <= 0x46 {
        Some(b - 0x41 + 10)
    } else {
        None
    }
}

/// Where the digits of some bytes start: after the `#`, if they begin
/// with one.
fn after_hash(b: &[u8]) -> (start: usize)
    ensures
        start <= b@.len(),
        strip_hash(b@) == b@.skip(start as int),
{
    if b.len() > 0 && b[0] == HASH {
        assert(b@.drop_first() =~= b@.skip(1));
        1
    } else {
        assert(b@ =~= b@.skip(0));
        0
    }
}

/// Whether the bytes from `start` on are all hexadecimal digits.
fn all_hex_from(b: &[u8], start: usize) -> (r: bool)
    requires
        start <= b@.len(),
    ensures
        r == all_hex_digits(b@.skip(start as int)),
{
    let ghost d = b@.skip(start as int);
    let mut i = start;
    while i < b.len()
        invariant
            start <= i <= b@.len(),
            d == b@.skip(start as int),
            forall|j: int| 0 <= j < i - start ==> is_hex_digit(#[trigger] d[j]),
        decreases b@.len() - i,
    {
        if hex_digit(b[i]).is_none() {
            assert(d[i - start] == b@[i as int]);
            assert(!is_hex_digit(d[i - start]));
            return false;
        }
        i = i + 1;
    }
    true
}

/// A colour from a "#rrggbb" or "#rrggbbaa" string, or transparent for
/// anything else - which is how "no plate" is stored.
pub fn colour_of(hex: &str) -> (c: Color)
    ensures
        c == colour_from_digits(colour_digits(hex@)),
{
    let text = trim(hex);
    let bytes = text.as_bytes();
    let start = after_hash(bytes);
    let n = bytes.len() - start;
    if (n == 6 || n == 8) && all_hex_from(bytes, start) {
        proof {
            let d = bytes@.skip(start as int);
            assert forall|k: int| 0 <= k < n implies is_hex_digit(#[trigger] bytes@[start + k]) by {
                assert(d[k] == bytes@[start + k]);
            }
            assert(is_hex_digit(bytes@[start + 0]) && is_hex_digit(bytes@[start + 1]));
            assert(is_hex_digit(bytes@[start + 2]) && is_hex_digit(bytes@[start + 3]));
            assert(is_hex_digit(bytes@[start + 4]) && is_hex_digit(bytes@[start + 5]));
            if n == 8 {
                assert(is_hex_digit(bytes@[start + 6]) && is_hex_digit(bytes@[start + 7]));
            }
        }
        let alpha = if n == 8 {
            byte(bytes, start + 6).unwrap()
        } else {
            255
        };
        Color {
            red: byte(bytes, start).unwrap(),
            green: byte(bytes, start + 2).unwrap(),
            blue: byte(bytes, start + 4).unwrap(),
            alpha,
        }
    } else {
        Color { red: 0, green: 0, blue: 0, alpha: 0 }
    }
}

/// The digit at `at` widened to a byte, if it is a hexadecimal digit.
fn wide(d: &[u8], at: usize) -> (v: Option<u8>)
    requires
        at < d@.len(),
    ensures
        v is Some <==> is_hex_digit(d@[at as int]),
        v matches Some(x) ==> x == wide_value(d@[at as int]),
{
    match hex_digit(d[at]) {
        Some(n) => Some(n * 17),
        None => None,
    }
}

/// The two digits at `at` read as a byte, if both are hexadecimal digits.
fn byte(d: &[u8], at: usize) -> (v: Option<u8>)
    requires
        at + 1 < d@.len(),
    ensures
        v is Some <==> is_hex_digit(d@[at as int]) && is_hex_digit(d@[at + 1]),
        v matches Some(x) ==> x == byte_value(d@[at as int], d@[at + 1]),
{
    match (hex_digit(d[at]), hex_digit(d[at + 1])) {
        (Some(h), Some(l)) => Some(16 * h + l),
        _ => None,
    }
}

/// What a person types into a colour field: `#rgb`, `#rgba`, `#rrggbb` or
/// `#rrggbbaa`, the hash optional, case ignored. `None` for anything else,
/// so the field can keep what it had rather than go black.
pub fn parse_colour(text: &str) -> (c: Option<Color>)
    ensures
        c == typed_colour(colour_digits(text@)),
{
    let trimmed_text = trim(text);
    let bytes = trimmed_text.as_bytes();
    let start = after_hash(bytes);
    if !all_hex_from(bytes, start) {
        return None;
    }
    let n = bytes.len() - start;
    if n == 3 || n == 4 {
        let alpha = if n == 4 {
            wide(bytes, start + 3).unwrap()
        } else {
            255
        };
        Some(
            Color {
                red: wide(bytes, start).unwrap(),
                green: wide(bytes, start + 1).unwrap(),
                blue: wide(bytes, start + 2).unwrap(),
                alpha,
            },
        )
    } else if n == 6 || n == 8 {
        let alpha = if n == 8 {
            byte(bytes, start + 6).unwrap()
        } else {
            255
        };
        Some(
            Color {
                red: byte(bytes, start).unwrap(),
                green: byte(bytes, start + 2).unwrap(),
                blue: byte(bytes, start + 4).unwrap(),
                alpha,
            },
        )
    } else {
        None
    }
}

/// "#rrggbb", the colour's alpha left out.
pub fn hex_of(colour: Color) -> (s: String)
    ensures
        s@ == hex_text(colour),
{
    let mut s = String::new();
    push_char(&mut s, '#');
    push_hex2(&mut s, colour.red);
    push_hex2(&mut s, colour.green);
    push_hex2(&mut s, colour.blue);
    proof {
        assert(s@ =~= hex_text(colour));
    }
    s
}

/// "#rrggbb" when opaque, else "#rrggbbaa" - at zero too. For a colour
/// whose alpha is a dial of its own, like a stroke's: an opacity turned
/// down to nothing must not take the colour with it, or turning it back
/// up brings back black.
pub fn hex_rgba(colour: Color) -> (s: String)
    ensures
        s@ == hex_rgba_text(colour),
{
    let mut s = hex_of(colour);
    if colour.alpha != 255 {
        push_hex2(&mut s, colour.alpha);
    }
    s
}

/// The inverse of [`colour_of`]: "#rrggbb", "#rrggbbaa" when translucent,
/// and an empty string for fully transparent.
pub fn hex_with_alpha(colour: Color) -> (s: String)
    ensures
        s@ == hex_with_alpha_text(colour),
{
    if colour.alpha == 0 {
        String::new()
    } else {
        hex_rgba(colour)
    }
}

/// Each spelled digit is an ASCII hexadecimal digit worth its place in
/// [`DIGITS`].
proof fn lemma_digit(k: int)
    requires
        0 <= k < 16,
    ensures
        DIGITS@[k] <= '\u{7f}',
        is_hex_digit(DIGITS@[k] as u8),
        hex_value(DIGITS@[k] as u8) == k,
        (DIGITS@[k] as u8) != HASH,
{
    if k == 0 {
        assert(DIGITS@[0] == '0');

    } else if k == 1 {
        assert(DIGITS@[1] == '1');

    } else if k == 2 {
        assert(DIGITS@[2] == '2');

    } else if k == 3 {
        assert(DIGITS@[3] == '3');

    } else if k == 4 {
        assert(DIGITS@[4] == '4');

    } else if k == 5 {
        assert(DIGITS@[5] == '5');

    } else if k == 6 {
        assert(DIGITS@[6] == '6');

    } else if k == 7 {
        assert(DIGITS@[7] == '7');

    } else if k == 8 {
        assert(DIGITS@[8] == '8');

    } else if k == 9 {
        assert(DIGITS@[9] == '9');

    } else if k == 10 {
        assert(DIGITS@[10] == 'a');

    } else if k == 11 {
        assert(DIGITS@[11] == 'b');

    } else if k == 12 {
        assert(DIGITS@[12] == 'c');

    } else if k == 13 {
        assert(DIGITS@[13] == 'd');

    } else if k == 14 {
        assert(DIGITS@[14] == 'e');

    } else if k == 15 {
        assert(DIGITS@[15] == 'f');

    }
}

/// A byte spelled in two digits reads back as itself.
proof fn lemma_hex2(b: u8)
    ensures
        is_hex_digit(hex2(b)[0] as u8),
        is_hex_digit(hex2(b)[1] as u8),
        hex2(b)[0] <= '\u{7f}',
        hex2(b)[1] <= '\u{7f}',
        byte_value(hex2(b)[0] as u8, hex2(b)[1] as u8) == b,
{
    lemma_digit((b / 16) as int);
    lemma_digit((b % 16) as int);
}

/// An ASCII character and its byte are the same number.
proof fn lemma_ascii_char(c: char)
    requires
        c <= '\u{7f}',
    ensures
        (c as u8) as u32 == c as u32,
        c as u32 <= 127,
        '\0' <= c,
{
}

/// Text that is a `#` and then ASCII hexadecimal digits reads back, once
/// trimmed and rid of its `#`, as the bytes of those digits.
proof fn lemma_read_back(s: Seq<char>)
    requires
        s.len() >= 2,
        s[0] == '#',
        forall|i: int| 1 <= i < s.len() ==> #[trigger] s[i] <= '\u{7f}' && is_hex_digit(s[i] as u8),
    ensures
        colour_digits(s) =~= Seq::new((s.len() - 1) as nat, |i: int| s[i + 1] as u8),
{
    assert(s[s.len() - 1] <= '\u{7f}' && is_hex_digit(s[s.len() - 1] as u8));
    let last = s[s.len() - 1];
    lemma_ascii_char(last);
    assert(!is_white_space(last));
    assert(trim_start(s) == s);
    assert(trimmed(s) == s);
    assert forall|i: int| 0 <= i < s.len() implies '\0' <= #[trigger] s[i] <= '\u{7f}' by {
        if i > 0 {
            assert(s[i] <= '\u{7f}');
        } else {
            assert(s[i] == '#');
            assert('#' <= '\u{7f}');
        }
        lemma_ascii_char(s[i]);
    }
    assert(vstd::utf8::is_ascii_chars(s));
    vstd::utf8::is_ascii_chars_encode_utf8(s);
    let e = vstd::utf8::encode_utf8(s);
    assert(e[0] == HASH);
    assert(e.drop_first()[0] == s[1] as u8);
    assert(strip_hash(e) == e.drop_first());
}

/// The spelling of a colour is a `#` and then ASCII hexadecimal digits.
proof fn lemma_spelled(c: Color)
    ensures
        hex_rgba_text(c)[0] == '#',
        hex_rgba_text(c).len() == if c.alpha == 255 { 7int } else { 9int },
        forall|i: int|
            1 <= i < hex_rgba_text(c).len() ==> #[trigger] hex_rgba_text(c)[i] <= '\u{7f}' && is_hex_digit(
                hex_rgba_text(c)[i] as u8,
            ),
{
    lemma_hex2(c.red);
    lemma_hex2(c.green);
    lemma_hex2(c.blue);
    lemma_hex2(c.alpha);
    let s = hex_rgba_text(c);
    assert forall|i: int| 1 <= i < s.len() implies #[trigger] s[i] <= '\u{7f}' && is_hex_digit(s[i] as u8) by {
        if i == 1 {
            assert(s[i] == hex2(c.red)[0]);
        } else if i == 2 {
            assert(s[i] == hex2(c.red)[1]);
        } else if i == 3 {
            assert(s[i] == hex2(c.green)[0]);
        } else if i == 4 {
            assert(s[i] == hex2(c.green)[1]);
        } else if i == 5 {
            assert(s[i] == hex2(c.blue)[0]);
        } else if i == 6 {
            assert(s[i] == hex2(c.blue)[1]);
        } else if i == 7 {
            assert(s[i] == hex2(c.alpha)[0]);
        } else {
            assert(s[i] == hex2(c.alpha)[1]);
        }
    }
}

/// Spelling a colour with [`hex_rgba`] loses nothing: [`colour_of`] and
/// [`parse_colour`] both read every colour back from it, a colour at zero
/// opacity included.
pub proof fn hex_rgba_reads_back(c: Color)
    ensures
        colour_from_digits(colour_digits(hex_rgba_text(c))) == c,
        typed_colour(colour_digits(hex_rgba_text(c))) == Some(c),
{
    let s = hex_rgba_text(c);
    lemma_spelled(c);
    lemma_read_back(s);
    lemma_hex2(c.red);
    lemma_hex2(c.green);
    lemma_hex2(c.blue);
    lemma_hex2(c.alpha);
    let d = colour_digits(s);
    assert(d[0] == hex2(c.red)[0] as u8);
    assert(d[1] == hex2(c.red)[1] as u8);
    assert(d[2] == hex2(c.green)[0] as u8);
    assert(d[3] == hex2(c.green)[1] as u8);
    assert(d[4] == hex2(c.blue)[0] as u8);
    assert(d[5] == hex2(c.blue)[1] as u8);
    if c.alpha != 255 {
        assert(d[6] == hex2(c.alpha)[0] as u8);
        assert(d[7] == hex2(c.alpha)[1] as u8);
    }
    assert forall|i: int| 0 <= i < d.len() implies is_hex_digit(#[trigger] d[i]) by {
        assert(d[i] == s[i + 1] as u8);
    }
}

/// [`hex_with_alpha`] is the inverse of [`colour_of`]: every colour that is
/// not fully transparent reads back as itself, and a fully transparent one,
/// spelled as nothing, reads back as transparent black.
pub proof fn hex_with_alpha_reads_back(c: Color)
    ensures
        c.alpha != 0 ==> colour_from_digits(colour_digits(hex_with_alpha_text(c))) == c,
        c.alpha == 0 ==> colour_from_digits(colour_digits(hex_with_alpha_text(c))) == (Color {
            red: 0,
            green: 0,
            blue: 0,
            alpha: 0,
        }),
{
    if c.alpha != 0 {
        hex_rgba_reads_back(c);
    } else {
        let e = Seq::<char>::empty();
        assert(trimmed(e) == e);
        assert(vstd::utf8::encode_utf8(e) =~= Seq::<u8>::empty());
        assert(colour_digits(e).len() == 0);
    }
}

/// [`colour_of`] reads exactly the long forms that [`parse_colour`]
/// accepts, six digits or eight, and reads the same colour from them;
/// every other text is transparent black to it.
pub proof fn long_forms_read_alike(text: Seq<char>)
    ensures
        ({
            let d = colour_digits(text);
            &&& (typed_colour(d) is Some && (d.len() == 6 || d.len() == 8)) ==> colour_from_digits(d)
                == typed_colour(d)->0
            &&& !(typed_colour(d) is Some && (d.len() == 6 || d.len() == 8)) ==> colour_from_digits(d)
                == (Color { red: 0, green: 0, blue: 0, alpha: 0 })
        }),
{
}

/// Whether a byte is a lower-case ASCII hexadecimal digit.
pub open spec fn is_lower_hex_digit(b: u8) -> bool {
    (0x30 <= b <= 0x39) || (0x61 <= b <= 0x66)
}

/// Text as [`hex_with_alpha`] spells a colour that is not fully
/// transparent: a `#`, then six lower-case hexadecimal digits, or eight
/// whose last pair is neither `ff` nor `00`.
pub open spec fn is_spelled_colour(s: Seq<char>) -> bool {
    &&& s.len() == 7 || s.len() == 9
    &&& s[0] == '#'
    &&& forall|i: int| 1 <= i < s.len() ==> #[trigger] s[i] <= '\u{7f}' && is_lower_hex_digit(s[i] as u8)
    &&& s.len() == 9 ==> !(s[7] == 'f' && s[8] == 'f') && !(s[7] == '0' && s[8] == '0')
}

/// A lower-case hexadecimal digit is the one [`DIGITS`] holds for its
/// value.
proof fn lemma_digit_char(c: char)
    requires
        c <= '\u{7f}',
        is_lower_hex_digit(c as u8),
    ensures
        0 <= hex_value(c as u8) < 16,
        DIGITS@[hex_value(c as u8)] == c,
{
    lemma_ascii_char(c);
    let k = hex_value(c as u8);
    lemma_digit(k);
    let d = DIGITS@[k];
    assert(d as u32 == c as u32) by {
        lemma_ascii_char(d);
    }
    vstd::utf8::char_u32_cast(c, c as u32);
    vstd::utf8::char_u32_cast(d, d as u32);
}

/// Two lower-case digits read as a byte spell that byte again.
proof fn lemma_pair_spelled(a: char, b: char)
    requires
        a <= '\u{7f}',
        b <= '\u{7f}',
        is_lower_hex_digit(a as u8),
        is_lower_hex_digit(b as u8),
    ensures
        hex2(byte_value(a as u8, b as u8)) == seq![a, b],
{
    lemma_digit_char(a);
    lemma_digit_char(b);
    let v = byte_value(a as u8, b as u8);
    assert(v / 16 == hex_value(a as u8));
    assert(v % 16 == hex_value(b as u8));
    assert(hex2(v) =~= seq![a, b]);
}

/// [`colour_of`] is inverted by [`hex_with_alpha`]: text that spells a
/// colour the way [`hex_with_alpha`] does is read by [`colour_of`] into a
/// colour that [`hex_with_alpha`] spells as that same text.
pub proof fn spelled_colours_read_back(s: Seq<char>)
    requires
        is_spelled_colour(s),
    ensures
        hex_with_alpha_text(colour_from_digits(colour_digits(s))) == s,
{
    assert forall|i: int| 1 <= i < s.len() implies #[trigger] s[i] <= '\u{7f}' && is_hex_digit(s[i] as u8) by {
        assert(s[i] <= '\u{7f}' && is_lower_hex_digit(s[i] as u8));
    }
    lemma_read_back(s);
    let d = colour_digits(s);
    let c = colour_from_digits(d);
    assert(s[1] <= '\u{7f}' && is_lower_hex_digit(s[1] as u8));
    assert(s[2] <= '\u{7f}' && is_lower_hex_digit(s[2] as u8));
    assert(s[3] <= '\u{7f}' && is_lower_hex_digit(s[3] as u8));
    assert(s[4] <= '\u{7f}' && is_lower_hex_digit(s[4] as u8));
    assert(s[5] <= '\u{7f}' && is_lower_hex_digit(s[5] as u8));
    assert(s[6] <= '\u{7f}' && is_lower_hex_digit(s[6] as u8));
    lemma_pair_spelled(s[1], s[2]);
    lemma_pair_spelled(s[3], s[4]);
    lemma_pair_spelled(s[5], s[6]);
    assert(d[0] == s[1] as u8 && d[1] == s[2] as u8);
    assert(d[2] == s[3] as u8 && d[3] == s[4] as u8);
    assert(d[4] == s[5] as u8 && d[5] == s[6] as u8);
    if s.len() == 9 {
        assert(s[7] <= '\u{7f}' && is_lower_hex_digit(s[7] as u8));
        assert(s[8] <= '\u{7f}' && is_lower_hex_digit(s[8] as u8));
        lemma_pair_spelled(s[7], s[8]);
        assert(d[6] == s[7] as u8 && d[7] == s[8] as u8);
        lemma_digit_char(s[7]);
        lemma_digit_char(s[8]);
        lemma_digit(15);
        lemma_digit(0);
        assert(c.alpha != 255);
        assert(c.alpha != 0);
        assert(hex_with_alpha_text(c) =~= s);
    } else {
        assert(hex_with_alpha_text(c) =~= s);
    }
}


/// A byte with an upper-case ASCII letter turned lower-case.
pub open spec fn lower_byte(b: u8) -> u8 {
    if 0x41 <= b <= 0x5a {
        (b + 0x20) as u8
    } else {
        b
    }
}

/// Bytes with every upper-case ASCII letter turned lower-case.
pub open spec fn lower_bytes(d: Seq<u8>) -> Seq<u8> {
    d.map_values(|b: u8| lower_byte(b))
}

/// Case is ignored: [`colour_of`] and [`parse_colour`] read text with its
/// letters in upper case exactly as they read it in lower case.
pub proof fn case_is_ignored(d: Seq<u8>)
    ensures
        typed_colour(d) == typed_colour(lower_bytes(d)),
        colour_from_digits(d) == colour_from_digits(lower_bytes(d)),
{
    let l = lower_bytes(d);
    assert forall|i: int| 0 <= i < d.len() implies is_hex_digit(#[trigger] d[i]) == is_hex_digit(l[i]) && (
    is_hex_digit(d[i]) ==> hex_value(d[i]) == hex_value(l[i])) by {
        assert(l[i] == lower_byte(d[i]));
    }
    assert(all_hex_digits(d) == all_hex_digits(l)) by {
        if all_hex_digits(d) {
            assert forall|i: int| 0 <= i < l.len() implies is_hex_digit(#[trigger] l[i]) by {
                assert(is_hex_digit(d[i]));
            }
        }
        if all_hex_digits(l) {
            assert forall|i: int| 0 <= i < d.len() implies is_hex_digit(#[trigger] d[i]) by {
                assert(is_hex_digit(l[i]));
            }
        }
    }
    if all_hex_digits(d) {
        if d.len() >= 3 {
            assert(is_hex_digit(d[0]) && is_hex_digit(d[1]) && is_hex_digit(d[2]));
            assert(hex_value(d[1]) == hex_value(l[1]) && hex_value(d[2]) == hex_value(l[2]));
        }
        if d.len() >= 4 {
            assert(is_hex_digit(d[3]));
            assert(hex_value(d[3]) == hex_value(l[3]));
        }
        if d.len() >= 6 {
            assert(is_hex_digit(d[4]) && is_hex_digit(d[5]));
            assert(hex_value(d[4]) == hex_value(l[4]) && hex_value(d[5]) == hex_value(l[5]));
        }
        if d.len() >= 8 {
            assert(is_hex_digit(d[6]) && is_hex_digit(d[7]));
            assert(hex_value(d[6]) == hex_value(l[6]) && hex_value(d[7]) == hex_value(l[7]));
        }
    }
}

/// A short form reads as the long form with each digit doubled: `#rgb` is
/// `#rrggbb` and `#rgba` is `#rrggbbaa`.
pub proof fn short_forms_read_doubled(r: u8, g: u8, b: u8, a: u8)
    requires
        is_hex_digit(r),
        is_hex_digit(g),
        is_hex_digit(b),
        is_hex_digit(a),
    ensures
        typed_colour(seq![r, g, b]) is Some,
        typed_colour(seq![r, g, b]) == typed_colour(seq![r, r, g, g, b, b]),
        typed_colour(seq![r, g, b, a]) == typed_colour(seq![r, r, g, g, b, b, a, a]),
{
    let s3 = seq![r, g, b];
    let s4 = seq![r, g, b, a];
    let l6 = seq![r, r, g, g, b, b];
    let l8 = seq![r, r, g, g, b, b, a, a];
    assert(all_hex_digits(s3));
    assert(all_hex_digits(s4));
    assert(all_hex_digits(l6));
    assert(all_hex_digits(l8));
    assert(wide_value(r) == byte_value(r, r));
    assert(wide_value(g) == byte_value(g, g));
    assert(wide_value(b) == byte_value(b, b));
    assert(wide_value(a) == byte_value(a, a));
}

} // verus!
