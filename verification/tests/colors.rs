use rsclip_core::colors::{parse_color, rgb_text};

#[test]
fn parses_hex_shorthand() {
    let color = parse_color("#f0a").unwrap();
    assert_eq!(color.normalized_hex, "#ff00aa");
    assert_eq!(color.rgb, (255, 0, 170));
}

#[test]
fn parses_rgb() {
    let color = parse_color("rgb(195, 251, 91)").unwrap();
    assert_eq!(color.normalized_hex, "#c3fb5b");
}

#[test]
fn parses_rgba_as_rgb() {
    let color = parse_color("rgba(30, 30, 32, 1.0)").unwrap();
    assert_eq!(color.normalized_hex, "#1e1e20");
}

#[test]
fn normalized_hex_reads_back_as_the_same_colour() {
    for text in ["#F0A", "rgba(1, 2, 3, 0.5)", "RebeccaPurple", "0x00ff7f", "#12345678"] {
        let c = parse_color(text).unwrap();
        assert_eq!(c.normalized_hex.len(), 7);
        assert_eq!(
            c.normalized_hex,
            format!("#{:02x}{:02x}{:02x}", c.rgb.0, c.rgb.1, c.rgb.2)
        );
        let d = parse_color(&c.normalized_hex).unwrap();
        assert_eq!(d.normalized_hex, c.normalized_hex);
        assert_eq!(d.rgb, c.rgb);
        assert_eq!(d.original_format, "hex");
    }
    assert_eq!(parse_color("RebeccaPurple").unwrap().original_format, "rebeccapurple");
}

#[test]
fn rgb_text_reads_back_as_the_same_channels() {
    assert_eq!(rgb_text((195, 251, 91)), "rgb(195, 251, 91)");
    for rgb in [(0, 0, 0), (255, 255, 255), (195, 251, 91), (9, 10, 100)] {
        let c = parse_color(&rgb_text(rgb)).unwrap();
        assert_eq!(c.rgb, rgb);
        assert_eq!(c.original_format, "rgb");
    }
}
