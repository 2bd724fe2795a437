use oxocarbon::hex::{format_hex_color, parse_hex_rgba_u8};
use oxocarbon::luminance::luminance_from_u8;
use oxocarbon::options::{
    compute_theme_name, Options, FLAG_COMPAT, FLAG_MONOCHROME, FLAG_OLED, FLAG_PRETTY, FLAG_PRINT,
};
use oxocarbon::policy::{
    apply_oled_replacements, invert_color_string, is_monochrome_candidate, monochrome_map_color,
    monochrome_style_foreground,
};
use oxocarbon::ramp::build_monochrome_ramps;

fn rgb_of(packed: u32) -> [u8; 3] {
    [(packed >> 16) as u8, (packed >> 8) as u8, packed as u8]
}

#[test]
fn monochrome_candidates_are_an_exact_allow_list() {
    assert!(is_monochrome_candidate(rgb_of(0x08bdba), false));
    assert!(!is_monochrome_candidate(rgb_of(0x0f62fe), false));
    assert!(is_monochrome_candidate(rgb_of(0x0f62fe), true));
    assert!(is_monochrome_candidate(rgb_of(0xff7eb6), false));
    assert!(is_monochrome_candidate(rgb_of(0x33b1ff), true));
    // close neighbors of an accent stay out
    assert!(!is_monochrome_candidate(rgb_of(0x08bdbb), false));
    assert!(!is_monochrome_candidate(rgb_of(0x08bdb9), true));
    assert!(!is_monochrome_candidate(rgb_of(0x161616), false));
}

#[test]
fn oled_replacements_on_plain_values() {
    assert_eq!(apply_oled_replacements("#161616"), "#000000");
    assert_eq!(apply_oled_replacements("#393939"), "#262626");
    assert_eq!(apply_oled_replacements("#1e1e1e"), "#0b0b0b");
    assert_eq!(apply_oled_replacements("#525252"), "#393939");
    assert_eq!(apply_oled_replacements("#ee5396"), "#ee5396");
}

#[test]
fn oled_replacements_work_on_substrings() {
    assert_eq!(apply_oled_replacements("x#161616y"), "x#000000y");
    assert_eq!(apply_oled_replacements("#16161680"), "#00000080");
    // only the first occurrence of a rule's source is replaced
    assert_eq!(apply_oled_replacements("#161616 #161616"), "#000000 #161616");
}

#[test]
fn invert_complements_channels_and_keeps_alpha() {
    assert_eq!(invert_color_string("#000000"), Some("#ffffff".to_string()));
    assert_eq!(invert_color_string("#ffffff"), Some("#000000".to_string()));
    assert_eq!(invert_color_string("#00000080"), Some("#ffffff80".to_string()));
    assert_eq!(invert_color_string("#08bdba"), Some("#f74245".to_string()));
    assert_eq!(invert_color_string("not a color"), None);
    assert_eq!(invert_color_string("#12345"), None);
}

#[test]
fn monochrome_mapping_end_to_end() {
    let ramps = build_monochrome_ramps();
    // #08bdba is a listed accent; it must land on some gray ramp entry
    let mapped = monochrome_map_color("#08bdba", &ramps.default_gray, false).unwrap();
    let (rgb, alpha) = parse_hex_rgba_u8(&mapped).unwrap();
    assert_eq!(alpha, None);
    assert!(ramps.default_gray.rgbs.contains(&rgb));
    // its luminance picks that same entry
    let y = luminance_from_u8(0x08, 0xbd, 0xba);
    let pick = ramps.default_gray.nearest_rgb(y);
    assert_eq!(mapped, format_hex_color(pick, None));
    assert_eq!(mapped, "#a8a8a8");
}

#[test]
fn monochrome_mapping_preserves_alpha() {
    let ramps = build_monochrome_ramps();
    let mapped = monochrome_map_color("#08bdbaff", &ramps.default_gray, false).unwrap();
    assert!(mapped.ends_with("ff"));
    assert_eq!(mapped, "#a8a8a8ff");
}

#[test]
fn monochrome_mapping_skips_ineligible_text() {
    let ramps = build_monochrome_ramps();
    // not a color at all
    assert_eq!(monochrome_map_color("editor", &ramps.default_gray, false), None);
    // a color, but not on the allow-list
    assert_eq!(monochrome_map_color("#123456", &ramps.default_gray, false), None);
    // the print-only accent becomes eligible only in print mode
    assert_eq!(monochrome_map_color("#0f62fe", &ramps.default_gray, false), None);
    assert!(monochrome_map_color("#0f62fe", &ramps.default_gray, true).is_some());
}

#[test]
fn style_overrides_for_monochrome() {
    assert_eq!(monochrome_style_foreground("italic"), Some("#f2f4f8".to_string()));
    assert_eq!(monochrome_style_foreground("bold Italic"), Some("#f2f4f8".to_string()));
    assert_eq!(monochrome_style_foreground("bold"), Some("#ffffff".to_string()));
    assert_eq!(monochrome_style_foreground(" BOLD "), Some("#ffffff".to_string()));
    assert_eq!(monochrome_style_foreground("underline"), None);
    assert_eq!(monochrome_style_foreground(""), None);
    assert_eq!(monochrome_style_foreground("boldish"), None);
}

#[test]
fn theme_names_for_variants() {
    assert_eq!(compute_theme_name(false, false, false, None), None);
    assert_eq!(
        compute_theme_name(true, false, false, None),
        Some("Oxocarbon OLED".to_string())
    );
    assert_eq!(
        compute_theme_name(false, true, false, None),
        Some("Oxocarbon (compatibility)".to_string())
    );
    assert_eq!(
        compute_theme_name(true, true, false, None),
        Some("Oxocarbon OLED (compatibility)".to_string())
    );
    assert_eq!(
        compute_theme_name(false, false, true, None),
        Some("Oxocarbon Monochrom".to_string())
    );
    assert_eq!(
        compute_theme_name(true, false, true, Some("cool")),
        Some("Oxocarbon OLED Monochrom (Cool Gray)".to_string())
    );
    assert_eq!(
        compute_theme_name(false, true, true, Some("warm-gray")),
        Some("Oxocarbon Monochrom (Warm Gray) (compatibility)".to_string())
    );
    assert_eq!(
        compute_theme_name(false, false, true, Some("mauve")),
        Some("Oxocarbon Monochrom".to_string())
    );
}

#[test]
fn option_flags_decode_independently() {
    let opts = Options {
        flags: FLAG_OLED | FLAG_MONOCHROME,
        mono_family: Some("gray".to_string()),
        input_src: "-".to_string(),
    };
    assert!(opts.is_oled());
    assert!(opts.is_monochrome());
    assert!(!opts.is_pretty());
    assert!(!opts.is_compat());
    assert!(!opts.is_print());
    let all = Options {
        flags: FLAG_PRETTY | FLAG_OLED | FLAG_COMPAT | FLAG_MONOCHROME | FLAG_PRINT,
        mono_family: None,
        input_src: String::new(),
    };
    assert!(all.is_pretty() && all.is_oled() && all.is_compat());
    assert!(all.is_monochrome() && all.is_print());
}
