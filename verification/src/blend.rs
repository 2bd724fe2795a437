//! Channel blending: overflow-free rounded midpoints of 8-bit channels
//! and of whole hex colors, in sRGB and in linear space.

use vstd::prelude::*;
use crate::hex::{
    parse_hex_rgba_u8, format_hex_color, spec_valid_hex, spec_channel, spec_format_rgb_vals,
};
use crate::luminance::{srgb_u8_to_linear, linear_to_srgb_u8, spec_linear_of, spec_srgb_encode};

verus! {

/// The integer midpoint of two channel values, rounded down.
pub open spec fn spec_average(a: u8, b: u8) -> int {
    (a + b) / 2
}

/// Returns the rounded midpoint of two channels without intermediate
/// overflow, by the carry-absorbing identity
/// `(a & b) + ((a ^ b) >> 1)`.
pub fn average_channel(a: u8, b: u8) -> (r: u8)
    ensures
        r == spec_average(a, b),
{
    proof {
        assert((a & b) + ((a ^ b) >> 1) == (a + b) / 2) by (bit_vector);
    }
    (a & b) + ((a ^ b) >> 1)
}

/// The channel midpoint does not depend on the order of its arguments.
pub proof fn lemma_average_symmetric(a: u8, b: u8)
    ensures
        spec_average(a, b) == spec_average(b, a),
{
}

/// Computes the midpoint color of two hex colors, channel by channel in
/// sRGB space. Alpha channels of the inputs are ignored and the result
/// carries none. Both inputs must be well-formed hex colors.
pub fn midpoint_hex(a_hex: &str, b_hex: &str) -> (r: String)
    requires
        spec_valid_hex(a_hex@),
        spec_valid_hex(b_hex@),
    ensures
        r@ == spec_format_rgb_vals(
            spec_average(spec_channel(a_hex@, 0) as u8, spec_channel(b_hex@, 0) as u8),
            spec_average(spec_channel(a_hex@, 1) as u8, spec_channel(b_hex@, 1) as u8),
            spec_average(spec_channel(a_hex@, 2) as u8, spec_channel(b_hex@, 2) as u8),
        ),
{
    let a = strict_rgb(a_hex);
    let b = strict_rgb(b_hex);
    format_hex_color(
        [
            average_channel(a[0], b[0]),
            average_channel(a[1], b[1]),
            average_channel(a[2], b[2]),
        ],
        None,
    )
}

/// Computes the midpoint of two hex colors in linear space: each
/// channel pair is linearized, averaged, and compressed back to 8 bits.
/// Alpha channels are ignored. Both inputs must be well-formed.
pub fn midpoint_hex_linear(a_hex: &str, b_hex: &str) -> (r: String)
    requires
        spec_valid_hex(a_hex@),
        spec_valid_hex(b_hex@),
    ensures
        r@ == spec_format_rgb_vals(
            spec_linear_midpoint(spec_channel(a_hex@, 0) as u8, spec_channel(b_hex@, 0) as u8),
            spec_linear_midpoint(spec_channel(a_hex@, 1) as u8, spec_channel(b_hex@, 1) as u8),
            spec_linear_midpoint(spec_channel(a_hex@, 2) as u8, spec_channel(b_hex@, 2) as u8),
        ),
{
    let a = strict_rgb(a_hex);
    let b = strict_rgb(b_hex);
    let rgb = [
        average_linear(a[0], b[0]),
        average_linear(a[1], b[1]),
        average_linear(a[2], b[2]),
    ];
    format_hex_color(rgb, None)
}

/// The 8-bit channel nearest to the average of two channels taken in
/// linear space.
pub open spec fn spec_linear_midpoint(a: u8, b: u8) -> int {
    spec_srgb_encode(((spec_linear_of(a) + spec_linear_of(b)) / 2) as u64)
}

/// Averages two channels in linear space and compresses the result
/// back to 8 bits.
fn average_linear(a: u8, b: u8) -> (r: u8)
    ensures
        r == spec_linear_midpoint(a, b),
{
    let la = srgb_u8_to_linear(a);
    let lb = srgb_u8_to_linear(b);
    linear_to_srgb_u8((la + lb) / 2)
}

/// Derives a sheet shade between a base color and a target color: their
/// channel-wise sRGB midpoint. When either text is not a well-formed
/// hex color the base text is returned unchanged.
pub fn infer_sheet_color(base: &str, target: &str) -> (r: String)
    ensures
        spec_valid_hex(base@) && spec_valid_hex(target@) ==> r@ == spec_format_rgb_vals(
            spec_average(spec_channel(base@, 0) as u8, spec_channel(target@, 0) as u8),
            spec_average(spec_channel(base@, 1) as u8, spec_channel(target@, 1) as u8),
            spec_average(spec_channel(base@, 2) as u8, spec_channel(target@, 2) as u8),
        ),
        !(spec_valid_hex(base@) && spec_valid_hex(target@)) ==> r@ == base@,
{
    match (parse_hex_rgba_u8(base), parse_hex_rgba_u8(target)) {
        (Some((a, _)), Some((b, _))) => format_hex_color(
            [
                average_channel(a[0], b[0]),
                average_channel(a[1], b[1]),
                average_channel(a[2], b[2]),
            ],
            None,
        ),
        _ => base.to_owned(),
    }
}

/// Extracts the RGB channels of hex text that is known to be
/// well-formed, dropping any alpha.
pub fn strict_rgb(input: &str) -> (rgb: [u8; 3])
    requires
        spec_valid_hex(input@),
    ensures
        rgb@[0] == spec_channel(input@, 0),
        rgb@[1] == spec_channel(input@, 1),
        rgb@[2] == spec_channel(input@, 2),
{
    match parse_hex_rgba_u8(input) {
        Some((rgb, _)) => rgb,
        None => {
            proof {
                assert(false);
            }
            [0, 0, 0]
        },
    }
}

} // verus!
