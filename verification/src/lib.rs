//! Color-space and palette-mapping engine for editor theme variants.
//!
//! The library parses and formats hex color text, computes relative
//! luminance in fixed point, blends channels, builds monochrome lookup
//! ramps, and decides which colors a theme variant may substitute.

use vstd::prelude::*;

pub mod blend;
pub mod hex;
pub mod luminance;
pub mod nearest;
pub mod options;
pub mod policy;
pub mod ramp;
pub mod text;

verus! {

/// Packs 8-bit channels into a 24-bit RGB integer, `(R<<16)|(G<<8)|B`.
pub fn pack_rgb(rgb: [u8; 3]) -> (r: u32)
    ensures
        r == spec_pack_rgb(rgb),
{
    let hi = rgb[0];
    let mid = rgb[1];
    let lo = rgb[2];
    proof {
        assert(((hi as u32) << 16) | ((mid as u32) << 8) | (lo as u32) == (hi as u32) * 0x10000
            + (mid as u32) * 0x100 + (lo as u32)) by (bit_vector);
    }
    ((hi as u32) << 16) | ((mid as u32) << 8) | (lo as u32)
}

/// The 24-bit packed form of an RGB triple.
pub open spec fn spec_pack_rgb(rgb: [u8; 3]) -> int {
    (rgb[0] as int) * 0x10000 + (rgb[1] as int) * 0x100 + (rgb[2] as int)
}

} // verus!
