use oxocarbon::hex::{format_hex_color, parse_hex_rgba_u8};
use oxocarbon::pack_rgb;

#[test]
fn parse_six_digit() {
    assert_eq!(parse_hex_rgba_u8("#161616"), Some(([0x16, 0x16, 0x16], None)));
    assert_eq!(parse_hex_rgba_u8("#08bdba"), Some(([0x08, 0xbd, 0xba], None)));
    assert_eq!(parse_hex_rgba_u8("#000000"), Some(([0, 0, 0], None)));
    assert_eq!(parse_hex_rgba_u8("#ffffff"), Some(([255, 255, 255], None)));
}

#[test]
fn parse_eight_digit() {
    assert_eq!(
        parse_hex_rgba_u8("#08bdbaff"),
        Some(([0x08, 0xbd, 0xba], Some(0xff)))
    );
    assert_eq!(parse_hex_rgba_u8("#00000080"), Some(([0, 0, 0], Some(0x80))));
}

#[test]
fn parse_shorthand_expands_by_nibble_duplication() {
    // each digit d becomes d * 17
    assert_eq!(parse_hex_rgba_u8("#555"), Some(([85, 85, 85], None)));
    assert_eq!(parse_hex_rgba_u8("#fa3"), Some(([0xff, 0xaa, 0x33], None)));
    assert_eq!(parse_hex_rgba_u8("#fa38"), Some(([0xff, 0xaa, 0x33], Some(0x88))));
    assert_eq!(parse_hex_rgba_u8("#000"), Some(([0, 0, 0], None)));
    assert_eq!(parse_hex_rgba_u8("#fff"), Some(([255, 255, 255], None)));
}

#[test]
fn parse_case_insensitive() {
    assert_eq!(parse_hex_rgba_u8("#ABCDEF"), Some(([0xab, 0xcd, 0xef], None)));
    assert_eq!(parse_hex_rgba_u8("#AbCdEf"), Some(([0xab, 0xcd, 0xef], None)));
}

#[test]
fn parse_rejects_malformed() {
    assert_eq!(parse_hex_rgba_u8(""), None);
    assert_eq!(parse_hex_rgba_u8("#"), None);
    assert_eq!(parse_hex_rgba_u8("161616"), None);
    assert_eq!(parse_hex_rgba_u8("#1"), None);
    assert_eq!(parse_hex_rgba_u8("#16"), None);
    assert_eq!(parse_hex_rgba_u8("#16161"), None);
    assert_eq!(parse_hex_rgba_u8("#1616161"), None);
    assert_eq!(parse_hex_rgba_u8("#161616161"), None);
    assert_eq!(parse_hex_rgba_u8("#16161g"), None);
    assert_eq!(parse_hex_rgba_u8("#zzz"), None);
    assert_eq!(parse_hex_rgba_u8(" #161616"), None);
}

#[test]
fn format_is_lowercase_and_prefixed() {
    assert_eq!(format_hex_color([0xab, 0xcd, 0xef], None), "#abcdef");
    assert_eq!(format_hex_color([0, 0, 0], None), "#000000");
    assert_eq!(format_hex_color([255, 255, 255], None), "#ffffff");
    assert_eq!(format_hex_color([0x08, 0xbd, 0xba], Some(0xff)), "#08bdbaff");
    assert_eq!(format_hex_color([0, 0, 0], Some(0)), "#00000000");
}

#[test]
fn format_after_parse_round_trips_lowercased() {
    for s in ["#161616", "#08bdba", "#f2f4f8", "#AbCdEf", "#ABCDEF10", "#00ff0080"] {
        let (rgb, alpha) = parse_hex_rgba_u8(s).unwrap();
        assert_eq!(format_hex_color(rgb, alpha), s.to_lowercase());
    }
}

#[test]
fn parse_after_format_is_identity() {
    for rgb in [[0u8, 0, 0], [255, 255, 255], [0x12, 0x34, 0x56], [0xfe, 0x01, 0x80]] {
        for alpha in [None, Some(0u8), Some(0x7f), Some(0xff)] {
            let text = format_hex_color(rgb, alpha);
            assert_eq!(parse_hex_rgba_u8(&text), Some((rgb, alpha)));
        }
    }
}

#[test]
fn pack_rgb_packs_channels() {
    assert_eq!(pack_rgb([0x08, 0xbd, 0xba]), 0x08bdba);
    assert_eq!(pack_rgb([0, 0, 0]), 0);
    assert_eq!(pack_rgb([255, 255, 255]), 0xffffff);
    assert_eq!(pack_rgb([1, 2, 3]), 0x010203);
}
