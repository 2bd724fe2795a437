//! Variant color policy: which color occurrences a theme variant may
//! substitute, and the substitutions themselves.

use vstd::prelude::*;
use crate::hex::{
    parse_hex_rgba_u8, format_hex_color, spec_valid_hex, spec_channel, spec_has_alpha, spec_alpha,
    spec_format_rgba_vals,
};
use crate::luminance::{luminance_from_u8, spec_luminance};
use crate::nearest::is_nearest_first;
use crate::ramp::MonoRamp;
use crate::text::{find_first, replace_first, spec_find, spec_replace_first, spec_trim, trim_ascii};
use crate::{pack_rgb, spec_pack_rgb};

verus! {

/// The packed RGB values of the theme accents eligible for monochrome
/// reduction.
pub const MONO_ACCENT_CANDIDATES: [u32; 10] = [
    0x08bdba,
    0x33b1ff,
    0x3ddbd9,
    0x42be65,
    0x78a9ff,
    0x82cfff,
    0xa6c8ff,
    0xbe95ff,
    0xee5396,
    0xff7eb6,
];

/// One more accent, eligible only in print mode.
pub const MONO_PRINT_EXTRA_ACCENT: u32 = 0x0f62fe;

/// The packed value appears in the accent allow-list.
pub open spec fn spec_in_accent_list(v: int) -> bool {
    exists|i: int| 0 <= i < 10 && MONO_ACCENT_CANDIDATES[i] == v
}

/// The color is eligible for monochrome substitution: its packed RGB
/// value is on the fixed allow-list, or equals the one extra print-mode
/// accent when `is_print` holds. An exact-match test, never a
/// proximity test.
pub open spec fn spec_is_monochrome_candidate(rgb: [u8; 3], is_print: bool) -> bool {
    spec_in_accent_list(spec_pack_rgb(rgb)) || (is_print && spec_pack_rgb(rgb)
        == MONO_PRINT_EXTRA_ACCENT)
}

/// Decides whether a color may be replaced by a monochrome ramp entry.
pub fn is_monochrome_candidate(rgb: [u8; 3], is_print: bool) -> (r: bool)
    ensures
        r == spec_is_monochrome_candidate(rgb, is_print),
{
    let packed = pack_rgb(rgb);
    let mut i: usize = 0;
    while i < 10
        invariant
            i <= 10,
            packed == spec_pack_rgb(rgb),
            forall|j: int| 0 <= j < i ==> MONO_ACCENT_CANDIDATES[j] != packed,
        decreases 10 - i,
    {
        if MONO_ACCENT_CANDIDATES[i] == packed {
            return true;
        }
        i = i + 1;
    }
    is_print && packed == MONO_PRINT_EXTRA_ACCENT
}

/// The fixed OLED substitutions, applied to a string in table order,
/// each replacing its first occurrence.
pub open spec fn spec_oled_replace(s: Seq<char>) -> Seq<char> {
    let s1 = spec_replace_first(s, "#161616"@, "#000000"@);
    let s2 = spec_replace_first(s1, "#1b1b1b"@, "#0b0b0b"@);
    let s3 = spec_replace_first(s2, "#1e1e1e"@, "#0b0b0b"@);
    let s4 = spec_replace_first(s3, "#212121"@, "#0f0f0f"@);
    let s5 = spec_replace_first(s4, "#262626"@, "#161616"@);
    let s6 = spec_replace_first(s5, "#393939"@, "#262626"@);
    spec_replace_first(s6, "#525252"@, "#393939"@)
}

/// Applies the fixed OLED replacement table to one string value: each
/// rule in order replaces the first occurrence of its source hex text,
/// as a substring, anywhere in the string.
pub fn apply_oled_replacements(s: &str) -> (r: String)
    ensures
        r@ == spec_oled_replace(s@),
{
    let s1 = replace_first(s, "#161616", "#000000");
    let s2 = replace_first(s1.as_str(), "#1b1b1b", "#0b0b0b");
    let s3 = replace_first(s2.as_str(), "#1e1e1e", "#0b0b0b");
    let s4 = replace_first(s3.as_str(), "#212121", "#0f0f0f");
    let s5 = replace_first(s4.as_str(), "#262626", "#161616");
    let s6 = replace_first(s5.as_str(), "#393939", "#262626");
    replace_first(s6.as_str(), "#525252", "#393939")
}

/// Inverts a hex color string: each RGB channel is complemented, any
/// alpha is kept as parsed. Returns `None` for text that is not a
/// well-formed hex color, which is left untouched.
pub fn invert_color_string(s: &str) -> (r: Option<String>)
    ensures
        r is Some <==> spec_valid_hex(s@),
        r is Some ==> r->0@ == spec_format_rgba_vals(
            255 - spec_channel(s@, 0),
            255 - spec_channel(s@, 1),
            255 - spec_channel(s@, 2),
            if spec_has_alpha(s@) {
                Some(spec_alpha(s@))
            } else {
                None
            },
        ),
{
    match parse_hex_rgba_u8(s) {
        None => None,
        Some((rgb, alpha)) => {
            let inverted = [invert_channel(rgb[0]), invert_channel(rgb[1]), invert_channel(rgb[2])];
            Some(format_hex_color(inverted, alpha))
        },
    }
}

/// The complement of one channel.
fn invert_channel(c: u8) -> (r: u8)
    ensures
        r == 255 - c,
{
    proof {
        assert(!c == 255 - c) by (bit_vector);
    }
    !c
}

/// Maps one monochrome-eligible color string to its ramp substitute:
/// decode, take the luminance, pick the nearest ramp entry, re-encode
/// with the original alpha. Returns `None` — leave the string as it
/// is — when the text is not a color, the color is not an eligible
/// accent, or the nearest ramp entry is the color itself.
pub fn monochrome_map_color(s: &str, ramp: &MonoRamp, is_print: bool) -> (r: Option<String>)
    requires
        ramp.wf(),
    ensures
        !spec_valid_hex(s@) ==> r is None,
        spec_valid_hex(s@) && !spec_text_is_candidate(s@, is_print) ==> r is None,
        spec_valid_hex(s@) && spec_text_is_candidate(s@, is_print) ==> exists|i: int|
            #[trigger] is_nearest_first(ramp.luminances@, spec_text_luminance(s@) as u64, i)
                && spec_mono_result_at(s@, ramp.rgbs@[i], r),
{
    let parsed = parse_hex_rgba_u8(s);
    match parsed {
        None => None,
        Some((rgb, alpha)) => {
            proof {
                assert(spec_pack_rgb(rgb) == spec_channel(s@, 0) * 0x10000 + spec_channel(s@, 1)
                    * 0x100 + spec_channel(s@, 2));
            }
            if !is_monochrome_candidate(rgb, is_print) {
                return None;
            }
            let y = luminance_from_u8(rgb[0], rgb[1], rgb[2]);
            let pick = ramp.nearest_rgb(y);
            let ghost w = choose|i: int|
                #[trigger] is_nearest_first(ramp.luminances@, y, i) && pick == ramp.rgbs@[i];
            proof {
                assert(y == spec_text_luminance(s@));
            }
            if pick[0] == rgb[0] && pick[1] == rgb[1] && pick[2] == rgb[2] {
                proof {
                    assert(is_nearest_first(ramp.luminances@, spec_text_luminance(s@) as u64, w)
                        && spec_mono_result_at(s@, ramp.rgbs@[w], Option::<String>::None));
                }
                None
            } else {
                let out = format_hex_color(pick, alpha);
                proof {
                    assert(is_nearest_first(ramp.luminances@, spec_text_luminance(s@) as u64, w)
                        && spec_mono_result_at(s@, ramp.rgbs@[w], Some(out)));
                }
                Some(out)
            }
        },
    }
}

/// Eligibility of a color given by its channel values.
pub open spec fn spec_candidate_vals(r: int, g: int, b: int, is_print: bool) -> bool {
    spec_in_accent_list(r * 0x10000 + g * 0x100 + b) || (is_print && r * 0x10000 + g * 0x100 + b
        == MONO_PRINT_EXTRA_ACCENT)
}

/// Eligibility of the color a hex string encodes.
pub open spec fn spec_text_is_candidate(s: Seq<char>, is_print: bool) -> bool {
    spec_candidate_vals(spec_channel(s, 0), spec_channel(s, 1), spec_channel(s, 2), is_print)
}

/// The luminance of the color a hex string encodes.
pub open spec fn spec_text_luminance(s: Seq<char>) -> int {
    spec_luminance(spec_channel(s, 0) as u8, spec_channel(s, 1) as u8, spec_channel(s, 2) as u8)
}

/// What the monochrome substitution returns when the nearest ramp entry
/// is `pick`: nothing when `pick` is the color itself, else the entry
/// formatted with the original alpha.
pub open spec fn spec_mono_result_at(s: Seq<char>, pick: [u8; 3], r: Option<String>) -> bool {
    if pick[0] == spec_channel(s, 0) && pick[1] == spec_channel(s, 1) && pick[2] == spec_channel(
        s,
        2,
    ) {
        r is None
    } else {
        r is Some && r->0@ == spec_format_rgba_vals(
            pick[0] as int,
            pick[1] as int,
            pick[2] as int,
            if spec_has_alpha(s) {
                Some(spec_alpha(s))
            } else {
                None
            },
        )
    }
}

/// The font style names an italic face, in either capitalization.
pub open spec fn spec_has_italic(s: Seq<char>) -> bool {
    spec_find(s, "italic"@) is Some || spec_find(s, "Italic"@) is Some
}

/// The font style is exactly the word `bold`, ignoring ASCII case and
/// surrounding whitespace.
pub open spec fn spec_is_bold_only(s: Seq<char>) -> bool {
    let t = spec_trim(s);
    &&& t.len() == 4
    &&& (t[0] == 'b' || t[0] == 'B')
    &&& (t[1] == 'o' || t[1] == 'O')
    &&& (t[2] == 'l' || t[2] == 'L')
    &&& (t[3] == 'd' || t[3] == 'D')
}

/// The foreground a monochrome variant forces on a styled token: italic
/// faces keep a light gray, purely bold faces white, anything else is
/// left alone. Italic wins when both apply.
pub fn monochrome_style_foreground(font_style: &str) -> (r: Option<String>)
    ensures
        spec_has_italic(font_style@) ==> r is Some && r->0@ == "#f2f4f8"@,
        !spec_has_italic(font_style@) && spec_is_bold_only(font_style@) ==> r is Some && r->0@
            == "#ffffff"@,
        !spec_has_italic(font_style@) && !spec_is_bold_only(font_style@) ==> r is None,
{
    let has_italic = find_first(font_style, "italic").is_some() || find_first(
        font_style,
        "Italic",
    ).is_some();
    if has_italic {
        return Some("#f2f4f8".to_owned());
    }
    let t = trim_ascii(font_style);
    if t.unicode_len() == 4 {
        let c0 = t.get_char(0);
        let c1 = t.get_char(1);
        let c2 = t.get_char(2);
        let c3 = t.get_char(3);
        if (c0 == 'b' || c0 == 'B') && (c1 == 'o' || c1 == 'O') && (c2 == 'l' || c2 == 'L') && (c3
            == 'd' || c3 == 'D') {
            return Some("#ffffff".to_owned());
        }
    }
    None
}

} // verus!
