//! Textual hex color codec: `#RGB`, `#RGBA`, `#RRGGBB` and `#RRGGBBAA`
//! forms parse to 8-bit channels, and channels format back to canonical
//! lowercase text.

use vstd::prelude::*;
use vstd::string::*;

verus! {

/// Value of a hex digit character, or 16 when the character is not a
/// hex digit.
pub open spec fn spec_nibble(c: char) -> int {
    let v = c as u32;
    if 48 <= v && v <= 57 {
        v - 48
    } else if 97 <= v && v <= 102 {
        v - 87
    } else if 65 <= v && v <= 70 {
        v - 55
    } else {
        16
    }
}

/// A character in `0-9a-fA-F`.
pub open spec fn is_hex_digit(c: char) -> bool {
    spec_nibble(c) < 16
}

/// Decodes one hex digit, case-insensitively.
pub fn decode_nibble(c: char) -> (r: Option<u8>)
    ensures
        r is Some <==> is_hex_digit(c),
        r is Some ==> r->0 == spec_nibble(c),
{
    let v = c as u32;
    if 48 <= v && v <= 57 {
        Some((v - 48) as u8)
    } else if 97 <= v && v <= 102 {
        Some((v - 87) as u8)
    } else if 65 <= v && v <= 70 {
        Some((v - 55) as u8)
    } else {
        None
    }
}

/// Duplicates a nibble into both halves of a byte, so `0xA` becomes
/// `0xAA`; equivalently, multiplies by 17.
pub fn expand_nibble(n: u8) -> (r: u8)
    requires
        n < 16,
    ensures
        r == n * 17,
{
    proof {
        assert(n < 16 ==> ((n << 4) | n) == n * 17) by (bit_vector);
    }
    (n << 4) | n
}

/// Decodes two hex digits into one byte, high digit first.
pub fn decode_pair(h: char, l: char) -> (r: Option<u8>)
    ensures
        r is Some <==> is_hex_digit(h) && is_hex_digit(l),
        r is Some ==> r->0 == spec_nibble(h) * 16 + spec_nibble(l),
{
    let hv = decode_nibble(h);
    let lv = decode_nibble(l);
    match (hv, lv) {
        (Some(a), Some(b)) => Some(a * 16 + b),
        _ => None,
    }
}

/// Every character of `s` in `[from, to)` is a hex digit.
pub open spec fn all_hex_from(s: Seq<char>, from: int, to: int) -> bool {
    forall|i: int| from <= i < to ==> is_hex_digit(s[i])
}

/// A well-formed hex color: `#` followed by exactly 3, 4, 6 or 8 hex
/// digits.
pub open spec fn spec_valid_hex(s: Seq<char>) -> bool {
    &&& s.len() == 4 || s.len() == 5 || s.len() == 7 || s.len() == 9
    &&& s[0] == '#'
    &&& all_hex_from(s, 1, s.len() as int)
}

/// The byte encoded by the two hex digits at positions `i` and `i + 1`.
pub open spec fn spec_pair_at(s: Seq<char>, i: int) -> int {
    spec_nibble(s[i]) * 16 + spec_nibble(s[i + 1])
}

/// Channel `k` (0 = red, 1 = green, 2 = blue) of a valid hex color.
/// Shorthand forms expand each digit by nibble duplication.
pub open spec fn spec_channel(s: Seq<char>, k: int) -> int {
    if s.len() <= 5 {
        spec_nibble(s[1 + k]) * 17
    } else {
        spec_pair_at(s, 1 + 2 * k)
    }
}

/// Whether a valid hex color carries an alpha channel (4- and 8-digit
/// forms).
pub open spec fn spec_has_alpha(s: Seq<char>) -> bool {
    s.len() == 5 || s.len() == 9
}

/// The alpha channel of a valid 4- or 8-digit hex color.
pub open spec fn spec_alpha(s: Seq<char>) -> int {
    if s.len() == 5 {
        spec_nibble(s[4]) * 17
    } else {
        spec_pair_at(s, 7)
    }
}

/// Parses a `#`-prefixed hex color into its RGB channels and optional
/// alpha. Returns `None` on any malformed input: wrong length, missing
/// `#`, or a non-hex digit.
pub fn parse_hex_rgba_u8(input: &str) -> (r: Option<([u8; 3], Option<u8>)>)
    ensures
        r is Some <==> spec_valid_hex(input@),
        r is Some ==> {
            let (rgb, alpha) = r->0;
            &&& rgb@[0] == spec_channel(input@, 0)
            &&& rgb@[1] == spec_channel(input@, 1)
            &&& rgb@[2] == spec_channel(input@, 2)
            &&& (alpha is Some <==> spec_has_alpha(input@))
            &&& alpha is Some ==> alpha->0 == spec_alpha(input@)
        },
{
    let n = input.unicode_len();
    if n != 4 && n != 5 && n != 7 && n != 9 {
        return None;
    }
    if input.get_char(0) != '#' {
        return None;
    }
    if n == 4 || n == 5 {
        let d0 = decode_nibble(input.get_char(1));
        let d1 = decode_nibble(input.get_char(2));
        let d2 = decode_nibble(input.get_char(3));
        let (v0, v1, v2) = match (d0, d1, d2) {
            (Some(a), Some(b), Some(c)) => (a, b, c),
            _ => {
                return None;
            },
        };
        let rgb = [expand_nibble(v0), expand_nibble(v1), expand_nibble(v2)];
        if n == 4 {
            Some((rgb, None))
        } else {
            let d3 = decode_nibble(input.get_char(4));
            match d3 {
                Some(a) => Some((rgb, Some(expand_nibble(a)))),
                None => None,
            }
        }
    } else {
        let p0 = decode_pair(input.get_char(1), input.get_char(2));
        let p1 = decode_pair(input.get_char(3), input.get_char(4));
        let p2 = decode_pair(input.get_char(5), input.get_char(6));
        let (v0, v1, v2) = match (p0, p1, p2) {
            (Some(a), Some(b), Some(c)) => (a, b, c),
            _ => {
                return None;
            },
        };
        let rgb = [v0, v1, v2];
        if n == 7 {
            Some((rgb, None))
        } else {
            let p3 = decode_pair(input.get_char(7), input.get_char(8));
            match p3 {
                Some(a) => Some((rgb, Some(a))),
                None => None,
            }
        }
    }
}

/// The lowercase hex digit character for a value below 16.
pub open spec fn hex_char(v: int) -> char {
    if v == 0 {
        '0'
    } else if v == 1 {
        '1'
    } else if v == 2 {
        '2'
    } else if v == 3 {
        '3'
    } else if v == 4 {
        '4'
    } else if v == 5 {
        '5'
    } else if v == 6 {
        '6'
    } else if v == 7 {
        '7'
    } else if v == 8 {
        '8'
    } else if v == 9 {
        '9'
    } else if v == 10 {
        'a'
    } else if v == 11 {
        'b'
    } else if v == 12 {
        'c'
    } else if v == 13 {
        'd'
    } else if v == 14 {
        'e'
    } else {
        'f'
    }
}

/// The canonical 7-character text of three channel values: `#` and six
/// lowercase hex digits.
pub open spec fn spec_format_rgb_vals(r: int, g: int, b: int) -> Seq<char> {
    seq![
        '#',
        hex_char(r / 16),
        hex_char(r % 16),
        hex_char(g / 16),
        hex_char(g % 16),
        hex_char(b / 16),
        hex_char(b % 16),
    ]
}

/// The canonical 7-character text of an RGB triple.
pub open spec fn spec_format_rgb(rgb: [u8; 3]) -> Seq<char> {
    spec_format_rgb_vals(rgb@[0] as int, rgb@[1] as int, rgb@[2] as int)
}

/// The canonical text of four channel values: 7 characters without
/// alpha, 9 with.
pub open spec fn spec_format_rgba_vals(r: int, g: int, b: int, a: Option<int>) -> Seq<char> {
    match a {
        None => spec_format_rgb_vals(r, g, b),
        Some(av) => spec_format_rgb_vals(r, g, b) + seq![hex_char(av / 16), hex_char(av % 16)],
    }
}

/// The canonical text of a color: 7 characters without alpha, 9 with.
pub open spec fn spec_format_hex(rgb: [u8; 3], alpha: Option<u8>) -> Seq<char> {
    spec_format_rgba_vals(
        rgb@[0] as int,
        rgb@[1] as int,
        rgb@[2] as int,
        match alpha {
            None => None,
            Some(a) => Some(a as int),
        },
    )
}

/// Appends the lowercase hex digit for `v` to `out`.
fn push_hex_digit(out: &mut String, v: u8)
    requires
        v < 16,
    ensures
        final(out)@ == old(out)@ + seq![hex_char(v as int)],
{
    proof {
        reveal_strlit("0");
        reveal_strlit("1");
        reveal_strlit("2");
        reveal_strlit("3");
        reveal_strlit("4");
        reveal_strlit("5");
        reveal_strlit("6");
        reveal_strlit("7");
        reveal_strlit("8");
        reveal_strlit("9");
        reveal_strlit("a");
        reveal_strlit("b");
        reveal_strlit("c");
        reveal_strlit("d");
        reveal_strlit("e");
        reveal_strlit("f");
    }
    match v {
        0 => out.append("0"),
        1 => out.append("1"),
        2 => out.append("2"),
        3 => out.append("3"),
        4 => out.append("4"),
        5 => out.append("5"),
        6 => out.append("6"),
        7 => out.append("7"),
        8 => out.append("8"),
        9 => out.append("9"),
        10 => out.append("a"),
        11 => out.append("b"),
        12 => out.append("c"),
        13 => out.append("d"),
        14 => out.append("e"),
        _ => out.append("f"),
    }
    assert(final(out)@ =~= old(out)@ + seq![hex_char(v as int)]);
}

/// Appends the two lowercase hex digits of a byte to `out`, high
/// nibble first.
fn push_hex_byte(out: &mut String, b: u8)
    ensures
        final(out)@ == old(out)@ + seq![hex_char(b as int / 16), hex_char(b as int % 16)],
{
    proof {
        assert((b >> 4) == b / 16 && (b & 15) == b % 16 && (b >> 4) < 16 && (b & 15) < 16)
            by (bit_vector);
    }
    push_hex_digit(out, b >> 4);
    push_hex_digit(out, b & 15);
    assert(final(out)@ =~= old(out)@ + seq![hex_char(b as int / 16), hex_char(b as int % 16)]);
}

/// Formats channels as canonical lowercase hex text: always `#`
/// prefixed, 7 characters without alpha and 9 with.
pub fn format_hex_color(rgb: [u8; 3], alpha: Option<u8>) -> (r: String)
    ensures
        r@ == spec_format_hex(rgb, alpha),
{
    let mut out = String::new();
    proof {
        reveal_strlit("#");
    }
    out.append("#");
    push_hex_byte(&mut out, rgb[0]);
    push_hex_byte(&mut out, rgb[1]);
    push_hex_byte(&mut out, rgb[2]);
    match alpha {
        None => {
            assert(out@ =~= spec_format_hex(rgb, alpha));
        },
        Some(a) => {
            push_hex_byte(&mut out, a);
            assert(out@ =~= spec_format_hex(rgb, alpha));
        },
    }
    out
}

/// Lowercases the six uppercase hex letters; every other character is
/// left alone.
pub open spec fn lower_hex_char(c: char) -> char {
    if c == 'A' {
        'a'
    } else if c == 'B' {
        'b'
    } else if c == 'C' {
        'c'
    } else if c == 'D' {
        'd'
    } else if c == 'E' {
        'e'
    } else if c == 'F' {
        'f'
    } else {
        c
    }
}

/// Lowercases the hex letters of a string, character by character.
pub open spec fn spec_lower_hex(s: Seq<char>) -> Seq<char> {
    Seq::new(s.len(), |i: int| lower_hex_char(s[i]))
}

/// A lowercase hex digit encodes its own value: formatting a nibble and
/// decoding it again is the identity.
pub proof fn lemma_hex_char_value(v: int)
    requires
        0 <= v < 16,
    ensures
        is_hex_digit(hex_char(v)),
        spec_nibble(hex_char(v)) == v,
        lower_hex_char(hex_char(v)) == hex_char(v),
{
}

/// Decoding a hex digit and re-encoding it yields the digit, lowercased.
pub proof fn lemma_nibble_lower(c: char)
    requires
        is_hex_digit(c),
    ensures
        hex_char(spec_nibble(c)) == lower_hex_char(c),
{
    let v = c as u32;
    if 48 <= v && v <= 57 {
        assert(c == '0' || c == '1' || c == '2' || c == '3' || c == '4' || c == '5' || c == '6'
            || c == '7' || c == '8' || c == '9');
    } else if 97 <= v && v <= 102 {
        assert(c == 'a' || c == 'b' || c == 'c' || c == 'd' || c == 'e' || c == 'f');
    } else {
        assert(c == 'A' || c == 'B' || c == 'C' || c == 'D' || c == 'E' || c == 'F');
    }
}

/// A byte assembled from two nibbles splits back into them.
proof fn lemma_pair_split(hi: int, lo: int)
    requires
        0 <= hi < 16,
        0 <= lo < 16,
    ensures
        (hi * 16 + lo) / 16 == hi,
        (hi * 16 + lo) % 16 == lo,
{
    assert((hi * 16 + lo) / 16 == hi && (hi * 16 + lo) % 16 == lo) by (nonlinear_arith)
        requires
            0 <= hi < 16 && 0 <= lo < 16,
    ;
}

/// Parsing a full-length (6- or 8-digit) hex color and formatting the
/// result restores the original text, with hex letters lowercased.
/// `rgb` and `alpha` stand for what parsing `s` returns.
pub proof fn lemma_format_after_parse(s: Seq<char>, rgb: [u8; 3], alpha: Option<u8>)
    requires
        spec_valid_hex(s),
        s.len() == 7 || s.len() == 9,
        rgb@[0] == spec_channel(s, 0),
        rgb@[1] == spec_channel(s, 1),
        rgb@[2] == spec_channel(s, 2),
        alpha is Some <==> spec_has_alpha(s),
        alpha is Some ==> alpha->0 == spec_alpha(s),
    ensures
        spec_format_hex(rgb, alpha) == spec_lower_hex(s),
{
    assert forall|k: int| 1 <= k < s.len() implies is_hex_digit(s[k]) by {}
    assert forall|k: int| 0 <= k < 3 implies {
        &&& rgb@[k] as int / 16 == spec_nibble(s[1 + 2 * k])
        &&& rgb@[k] as int % 16 == spec_nibble(s[2 + 2 * k])
    } by {
        lemma_pair_split(spec_nibble(s[1 + 2 * k]), spec_nibble(s[2 + 2 * k]));
    }
    assert forall|k: int| 1 <= k < s.len() implies hex_char(spec_nibble(s[k])) == lower_hex_char(
        s[k],
    ) by {
        lemma_nibble_lower(s[k]);
    }
    if alpha is Some {
        lemma_pair_split(spec_nibble(s[7]), spec_nibble(s[8]));
    }
    assert(spec_lower_hex(s)[0] == '#');
    assert(spec_format_hex(rgb, alpha) =~= spec_lower_hex(s));
}

/// Formatting channels always yields a valid hex color that parses back
/// to exactly the same channels: formatting is a right inverse of
/// parsing, for the 6- and 8-digit forms.
pub proof fn lemma_parse_after_format(rgb: [u8; 3], alpha: Option<u8>)
    ensures
        spec_valid_hex(spec_format_hex(rgb, alpha)),
        spec_channel(spec_format_hex(rgb, alpha), 0) == rgb@[0],
        spec_channel(spec_format_hex(rgb, alpha), 1) == rgb@[1],
        spec_channel(spec_format_hex(rgb, alpha), 2) == rgb@[2],
        spec_has_alpha(spec_format_hex(rgb, alpha)) <==> alpha is Some,
        alpha is Some ==> spec_alpha(spec_format_hex(rgb, alpha)) == alpha->0,
{
    let s = spec_format_hex(rgb, alpha);
    assert forall|v: int| 0 <= v < 16 implies is_hex_digit(hex_char(v)) && spec_nibble(
        hex_char(v),
    ) == v by {
        lemma_hex_char_value(v);
    }
    assert forall|k: int| 0 <= k < 3 implies spec_channel(s, k) == rgb@[k] by {
        lemma_pair_split(rgb@[k] as int / 16, rgb@[k] as int % 16);
    }
    if alpha is Some {
        lemma_pair_split(alpha->0 as int / 16, alpha->0 as int % 16);
    }
}

} // verus!
