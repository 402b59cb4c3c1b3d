use shard::color::{Color, ColorData, ColorParseError, Oklch, ParsedColor, OPAQUE};
use shard::convert::{hsl_display, hsl_to_rgb, rgb_to_hsl, HSL_ONE};
use shard::scan::extract_colors_from_text;

fn rgb_of(p: Result<ParsedColor, ColorParseError>) -> ColorData {
    match p {
        Ok(ParsedColor::Rgb(c)) => c,
        other => panic!("expected an RGB color, got {:?}", other),
    }
}

fn alpha(c: &ColorData) -> f32 {
    c.a as f32 / OPAQUE as f32
}

#[test]
fn test_parse_hex() {
    let color = rgb_of(Color::parse("#FF5733"));
    assert_eq!(color.r, 255);
    assert_eq!(color.g, 87);
    assert_eq!(color.b, 51);
    assert!((alpha(&color) - 1.0).abs() < f32::EPSILON);
}

#[test]
fn test_parse_hex_short() {
    let color = rgb_of(Color::parse("#F53"));
    assert_eq!(color.r, 255);
    assert_eq!(color.g, 85);
    assert_eq!(color.b, 51);
}

#[test]
fn test_parse_hex_with_alpha() {
    let color = rgb_of(Color::parse("#FF573380"));
    assert_eq!(color.r, 255);
    assert_eq!(color.g, 87);
    assert_eq!(color.b, 51);
    assert!((alpha(&color) - 0.5).abs() < 0.01);
}

#[test]
fn test_parse_rgb() {
    let color = rgb_of(Color::parse("rgb(255, 87, 51)"));
    assert_eq!(color.r, 255);
    assert_eq!(color.g, 87);
    assert_eq!(color.b, 51);
}

#[test]
fn test_parse_rgba() {
    let color = rgb_of(Color::parse("rgba(255, 87, 51, 0.5)"));
    assert_eq!(color.r, 255);
    assert!((alpha(&color) - 0.5).abs() < f32::EPSILON);
}

#[test]
fn test_parse_hsl() {
    let color = rgb_of(Color::parse("hsl(11, 100%, 60%)"));
    // Should be approximately #FF5733
    assert!(color.r > 250);
}

#[test]
fn test_to_hex() {
    let color = Color::new(255, 87, 51, OPAQUE, String::new());
    assert_eq!(color.to_hex(), "#FF5733");
}

#[test]
fn test_to_rgb() {
    let color = Color::new(255, 87, 51, OPAQUE, String::new());
    assert_eq!(color.to_rgb(), "rgb(255, 87, 51)");
}

#[test]
fn test_extract_colors() {
    let text = "Colors: #FF5733 and rgb(0, 128, 255) and hsl(120, 50%, 50%)";
    let colors = extract_colors_from_text(text);
    assert_eq!(colors.len(), 3);
}

#[test]
fn test_parse_oklch() {
    // oklch(70% 0.15 30) is read into its coordinates, fully opaque
    match Color::parse("oklch(70% 0.15 30)") {
        Ok(ParsedColor::Oklch(o)) => {
            assert!(o.l > 0);
            assert!((o.a as f32 / OPAQUE as f32 - 1.0).abs() < f32::EPSILON);
        }
        other => panic!("expected OKLCH, got {:?}", other),
    }
}

#[test]
fn test_parse_oklch_with_alpha() {
    match Color::parse("oklch(70% 0.15 30 / 0.5)") {
        Ok(ParsedColor::Oklch(o)) => {
            assert!((o.a as f32 / OPAQUE as f32 - 0.5).abs() < f32::EPSILON)
        }
        other => panic!("expected OKLCH, got {:?}", other),
    }
}

#[test]
fn test_extract_colors_with_oklch() {
    let text = "Colors: #FF5733 and oklch(70% 0.15 30)";
    let colors = extract_colors_from_text(text);
    assert_eq!(colors.len(), 2);
}

#[test]
fn hex_with_alpha_keeps_the_byte_exactly() {
    let c = rgb_of(Color::parse("#FF573380"));
    assert_eq!(c.a, 501_961);
    assert_eq!(c.to_hex(), "#FF573380");
    assert_eq!(c.to_rgb(), "rgba(255, 87, 51, 0.50)");
}

#[test]
fn rgba_alpha_half_is_exact() {
    let c = rgb_of(Color::parse("rgba(255, 87, 51, 0.5)"));
    assert_eq!(c, ColorData { r: 255, g: 87, b: 51, a: 500_000 });
    assert_eq!(c.to_rgb(), "rgba(255, 87, 51, 0.50)");
}

#[test]
fn short_hex_duplicates_each_digit() {
    assert_eq!(
        rgb_of(Color::parse("#F53")),
        ColorData { r: 255, g: 85, b: 51, a: OPAQUE }
    );
    assert_eq!(
        rgb_of(Color::parse("#F538")),
        ColorData { r: 255, g: 85, b: 51, a: 533_333 }
    );
}

#[test]
fn hex_without_hash_and_in_lower_case() {
    assert_eq!(
        rgb_of(Color::parse("  ff5733 ")),
        ColorData { r: 255, g: 87, b: 51, a: OPAQUE }
    );
}

#[test]
fn malformed_alpha_falls_back_to_opaque() {
    let c = rgb_of(Color::parse("rgba(1, 2, 3, 1.2.3)"));
    assert_eq!(c, ColorData { r: 1, g: 2, b: 3, a: OPAQUE });
}

#[test]
fn alpha_above_one_is_clamped() {
    let c = rgb_of(Color::parse("rgba(1, 2, 3, 7)"));
    assert_eq!(c.a, OPAQUE);
}

#[test]
fn channel_above_255_matches_no_notation() {
    match Color::parse("rgb(999, 0, 0)") {
        Err(ColorParseError::InvalidFormat(s)) => assert_eq!(s, "rgb(999, 0, 0)"),
        other => panic!("expected an error, got {:?}", other),
    }
}

#[test]
fn unknown_text_is_invalid_format() {
    match Color::parse("  not a color ") {
        Err(e) => {
            match &e {
                ColorParseError::InvalidFormat(s) => assert_eq!(s, "not a color"),
            }
            assert_eq!(e.message(), "Invalid color format: 'not a color'");
        }
        other => panic!("expected an error, got {:?}", other),
    }
}

#[test]
fn hsl_out_of_range_is_rejected() {
    assert!(Color::parse("hsl(361, 50%, 50%)").is_err());
    assert!(Color::parse("hsl(10, 101%, 50%)").is_err());
    assert!(Color::parse("hsl(10, 50%, 100.5%)").is_err());
}

#[test]
fn hsl_parses_to_exact_bytes() {
    assert_eq!(
        rgb_of(Color::parse("hsl(11, 100%, 60%)")),
        ColorData { r: 255, g: 88, b: 51, a: OPAQUE }
    );
    assert_eq!(
        rgb_of(Color::parse("HSLA(120, 50%, 50%, 0.25)")),
        ColorData { r: 64, g: 191, b: 64, a: 250_000 }
    );
}

#[test]
fn oklch_coordinates_are_read_in_millionths() {
    assert_eq!(
        Color::parse("oklch(70% 0.15 30)").unwrap(),
        ParsedColor::Oklch(Oklch { l: 70_000_000, c: 150_000, h: 30_000_000, a: OPAQUE })
    );
    assert_eq!(
        Color::parse("oklch(70% 0.15 30 / 0.5)").unwrap(),
        ParsedColor::Oklch(Oklch { l: 70_000_000, c: 150_000, h: 30_000_000, a: 500_000 })
    );
    assert!(Color::parse("oklch(101% 0.1 30)").is_err());
    assert!(Color::parse("oklch(50% 0.1 361)").is_err());
}

#[test]
fn extract_orders_by_notation() {
    let text = "Colors: #FF5733 and rgb(0, 128, 255) and hsl(120, 50%, 50%)";
    let colors = extract_colors_from_text(text);
    assert_eq!(
        colors,
        vec![
            ParsedColor::Rgb(ColorData { r: 255, g: 87, b: 51, a: OPAQUE }),
            ParsedColor::Rgb(ColorData { r: 0, g: 128, b: 255, a: OPAQUE }),
            ParsedColor::Rgb(ColorData { r: 64, g: 191, b: 64, a: OPAQUE }),
        ]
    );
    let later_hex = extract_colors_from_text("rgb(1, 2, 3) then #000");
    assert_eq!(
        later_hex,
        vec![
            ParsedColor::Rgb(ColorData { r: 0, g: 0, b: 0, a: OPAQUE }),
            ParsedColor::Rgb(ColorData { r: 1, g: 2, b: 3, a: OPAQUE }),
        ]
    );
    assert!(extract_colors_from_text("nothing here").is_empty());
}

#[test]
fn gray_has_no_saturation() {
    for v in [0u8, 1, 128, 254, 255] {
        let (h, s, _) = rgb_to_hsl(v, v, v);
        assert_eq!(h, 0);
        assert_eq!(s, 0);
    }
    assert_eq!(rgb_to_hsl(128, 128, 128).2, 50_196_078);
}

#[test]
fn rgb_to_hsl_exact_values() {
    assert_eq!(rgb_to_hsl(255, 0, 0), (0, HSL_ONE, 50_000_000));
    assert_eq!(rgb_to_hsl(0, 0, 255), (240_000_000, HSL_ONE, 50_000_000));
    assert_eq!(hsl_display(255, 87, 51), (11, 100, 60));
}

#[test]
fn hsl_to_rgb_values() {
    assert_eq!(hsl_to_rgb(0, 0, 50_000_000), (128, 128, 128));
    assert_eq!(hsl_to_rgb(120_000_000, HSL_ONE, 50_000_000), (0, 255, 0));
    assert_eq!(hsl_to_rgb(360_000_000, HSL_ONE, 50_000_000), (255, 0, 0));
}

#[test]
fn serializers_of_a_color() {
    let c = Color::new(255, 87, 51, OPAQUE, String::new());
    assert_eq!(c.to_hsl(), "hsl(11, 100%, 60%)");
    assert_eq!(c.default_label(), "#FF5733");
    let t = Color::new(255, 87, 51, 2_000_000, String::from("x"));
    assert_eq!(t.a, OPAQUE);
    let h = Color::new(0, 0, 0, 500_000, String::new());
    assert_eq!(h.to_hex(), "#00000080");
    assert_eq!(h.to_hsl(), "hsla(0, 0%, 0%, 0.50)");
}

#[test]
fn hex_form_reads_back() {
    for c in [
        ColorData { r: 255, g: 87, b: 51, a: OPAQUE },
        ColorData { r: 0, g: 10, b: 200, a: 0 },
        ColorData { r: 18, g: 52, b: 86, a: 333_333 },
    ] {
        let back = rgb_of(Color::parse(&c.to_hex()));
        assert_eq!((back.r, back.g, back.b), (c.r, c.g, c.b));
        let byte = (c.a as f64 * 255.0 / 1_000_000.0).round();
        assert_eq!(back.a, (byte * 1_000_000.0 / 255.0).round() as u32);
    }
}
