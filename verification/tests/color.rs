use oxocarbon::blend::{average_channel, infer_sheet_color, midpoint_hex, midpoint_hex_linear};
use oxocarbon::luminance::{linear_to_srgb_u8, luminance_from_u8, srgb_u8_to_linear, LUM_ONE};
use oxocarbon::nearest::find_nearest_index;
use oxocarbon::ramp::{build_monochrome_ramps, build_ramp, select_monochrome_ramp, GRAY_RAMP};

#[test]
fn average_edge_values() {
    assert_eq!(average_channel(0, 0), 0);
    assert_eq!(average_channel(255, 255), 255);
    // the bit-trick identity rounds this pair down
    assert_eq!(average_channel(0, 255), 127);
    assert_eq!(average_channel(10, 11), 10);
    assert_eq!(average_channel(0x16, 0x26), 0x1e);
}

#[test]
fn average_is_symmetric() {
    for a in [0u8, 1, 17, 127, 128, 200, 255] {
        for b in [0u8, 3, 64, 127, 128, 254, 255] {
            assert_eq!(average_channel(a, b), average_channel(b, a));
        }
    }
}

#[test]
fn midpoint_hex_matches_documented_values() {
    assert_eq!(midpoint_hex("#161616", "#262626"), "#1e1e1e");
    assert_eq!(midpoint_hex("#000000", "#161616"), "#0b0b0b");
}

#[test]
fn midpoint_hex_drops_alpha() {
    assert_eq!(midpoint_hex("#161616ff", "#26262680"), "#1e1e1e");
}

#[test]
fn midpoint_hex_linear_values() {
    // linear-space averaging lands far above the sRGB midpoint
    assert_eq!(midpoint_hex_linear("#000000", "#ffffff"), "#bcbcbc");
    assert_eq!(midpoint_hex_linear("#161616", "#262626"), "#1f1f1f");
    // same color averages to itself
    assert_eq!(midpoint_hex_linear("#8d8d8d", "#8d8d8d"), "#8d8d8d");
}

#[test]
fn linear_round_trips_every_channel() {
    for c in 0..=255u8 {
        assert_eq!(linear_to_srgb_u8(srgb_u8_to_linear(c)), c);
    }
}

#[test]
fn luminance_extremes() {
    assert_eq!(luminance_from_u8(0, 0, 0), 0);
    assert_eq!(luminance_from_u8(255, 255, 255), LUM_ONE);
    // the same extremes, read as floating point with tolerance
    let black = luminance_from_u8(0, 0, 0) as f64 / LUM_ONE as f64;
    let white = luminance_from_u8(255, 255, 255) as f64 / LUM_ONE as f64;
    assert!((black - 0.0).abs() < 1e-5);
    assert!((white - 1.0).abs() < 1e-5);
}

#[test]
fn luminance_of_teal_accent() {
    // relative luminance of #08bdba is about 0.39992
    let y = luminance_from_u8(0x08, 0xbd, 0xba);
    assert_eq!(y, 39991984284);
    let f = y as f64 / LUM_ONE as f64;
    assert!((f - 0.39992).abs() < 1e-4);
}

fn reference_linear(c: u8) -> f64 {
    let x = c as f64 / 255.0;
    if x <= 0.04045 {
        x / 12.92
    } else {
        ((x + 0.055) / 1.055).powf(2.4)
    }
}

#[test]
fn luminance_matches_reference_formula() {
    let mut samples: Vec<[u8; 3]> = Vec::new();
    for c in 0..=255u8 {
        samples.push([c, c, c]);
    }
    for r in (0..=255u8).step_by(37) {
        for g in (0..=255u8).step_by(51) {
            for b in (0..=255u8).step_by(43) {
                samples.push([r, g, b]);
            }
        }
    }
    samples.push([0x08, 0xbd, 0xba]);
    for [r, g, b] in samples {
        let expected = 0.2126 * reference_linear(r) + 0.7152 * reference_linear(g)
            + 0.0722 * reference_linear(b);
        let got = luminance_from_u8(r, g, b) as f64 / LUM_ONE as f64;
        assert!(
            (got - expected).abs() < 1e-6,
            "luminance mismatch for #{r:02x}{g:02x}{b:02x}: {got} vs {expected}"
        );
    }
}

#[test]
fn luminance_orders_grays() {
    let mut prev = luminance_from_u8(0, 0, 0);
    for c in 1..=255u8 {
        let y = luminance_from_u8(c, c, c);
        assert!(y > prev);
        prev = y;
    }
}

#[test]
fn nearest_picks_closest() {
    assert_eq!(find_nearest_index(&[10, 20, 30], 19), 1);
    assert_eq!(find_nearest_index(&[10, 20, 30], 5), 0);
    assert_eq!(find_nearest_index(&[10, 20, 30], 1000), 2);
}

#[test]
fn nearest_prefers_earlier_on_tie() {
    assert_eq!(find_nearest_index(&[10, 20], 15), 0);
    assert_eq!(find_nearest_index(&[10, 20, 20], 20), 1);
}

#[test]
fn nearest_degenerate_inputs() {
    assert_eq!(find_nearest_index(&[], 5), 0);
    assert_eq!(find_nearest_index(&[42], 0), 0);
    assert_eq!(find_nearest_index(&[42], u64::MAX), 0);
}

#[test]
fn nearest_is_idempotent_on_ramp_entries() {
    let ramp = build_ramp(&GRAY_RAMP);
    for (k, &lum) in ramp.luminances.iter().enumerate() {
        assert_eq!(find_nearest_index(&ramp.luminances, lum), k);
    }
}

#[test]
fn ramps_are_sorted_and_deduplicated() {
    let ramps = build_monochrome_ramps();
    // four gray steps repeat the shared extras, two cool steps do, none warm
    assert_eq!(ramps.default_gray.luminances.len(), 19);
    assert_eq!(ramps.cool.luminances.len(), 21);
    assert_eq!(ramps.warm.luminances.len(), 23);
    for ramp in [&ramps.default_gray, &ramps.cool, &ramps.warm] {
        assert_eq!(ramp.luminances.len(), ramp.rgbs.len());
        for w in ramp.luminances.windows(2) {
            assert!(w[0] <= w[1]);
        }
        for i in 0..ramp.rgbs.len() {
            for j in (i + 1)..ramp.rgbs.len() {
                assert_ne!(ramp.rgbs[i], ramp.rgbs[j]);
            }
        }
        assert_eq!(*ramp.rgbs.first().unwrap(), [0, 0, 0]);
        assert_eq!(*ramp.rgbs.last().unwrap(), [0xff, 0xff, 0xff]);
    }
}

#[test]
fn family_selection_honors_aliases() {
    let ramps = build_monochrome_ramps();
    for name in ["coolgray", "cool-gray", "cool"] {
        assert_eq!(
            select_monochrome_ramp(&ramps, name).luminances,
            ramps.cool.luminances
        );
    }
    for name in ["warmgray", "warm-gray", "warm"] {
        assert_eq!(
            select_monochrome_ramp(&ramps, name).luminances,
            ramps.warm.luminances
        );
    }
    for name in ["gray", "", "mauve", "COOL"] {
        assert_eq!(
            select_monochrome_ramp(&ramps, name).luminances,
            ramps.default_gray.luminances
        );
    }
}

#[test]
fn sheet_color_between_two_shades() {
    assert_eq!(infer_sheet_color("#161616", "#262626"), "#1e1e1e");
    // malformed input keeps the base text
    assert_eq!(infer_sheet_color("#16161", "#262626"), "#16161");
    assert_eq!(infer_sheet_color("#161616", "oops"), "#161616");
}
