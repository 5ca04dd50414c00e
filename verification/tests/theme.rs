use rsclip_core::config::AppConfig;
use rsclip_core::theme::{
    build_css, css_alpha, opacity_is_valid, theme_color_value, theme_colors, validate_color,
    ThemeColor, ThemeError,
};

#[test]
fn css_generation_includes_every_color_definition() {
    let css = build_css(&AppConfig::default(), "").expect("default theme CSS should build");

    for color in theme_colors() {
        assert!(css.contains(&format!("@define-color {} ", color.name())));
    }
}

#[test]
fn overridden_colors_appear_in_generated_css() {
    let mut config = AppConfig::default();
    config.ui.colors.accent = Some("#ff00aa".to_string());
    config.ui.colors.accent_text = Some("#000000".to_string());

    let css = build_css(&config, "").expect("CSS with valid overrides should build");

    assert!(css.contains("@define-color accent #ff00aa;"));
    assert!(css.contains("@define-color accent_text #000000;"));
}

#[test]
fn missing_colors_fall_back_to_defaults() {
    let css = build_css(&AppConfig::default(), "").expect("default theme CSS should build");

    assert!(css.contains("@define-color text #dcd9e7;"));
    assert!(css.contains("@define-color shell_bg rgba(30, 30, 32, 0.70);"));
}

#[test]
fn invalid_color_returns_offending_key() {
    let mut config = AppConfig::default();
    config.ui.colors.accent = Some("not-a-color".to_string());

    let err = build_css(&config, "").unwrap_err();

    assert!(err.message().contains("ui.colors.accent"));
}

#[test]
fn validates_supported_color_formats() {
    for value in [
        "#abc",
        "#aabbcc",
        "#aabbccdd",
        "rgb(195, 251, 91)",
        "rgba(30, 30, 32, 0.70)",
    ] {
        validate_color("accent", value).expect("supported color format should validate");
    }
}

#[test]
fn background_opacity_overrides_shell_alpha() {
    let mut config = AppConfig::default();
    config.ui.background_opacity_bits = Some(0.42f32.to_bits());
    config.ui.colors.shell_bg = Some("#203040".to_string());

    let css = build_css(&config, "").expect("CSS with background opacity should build");

    assert!(css.contains("@define-color shell_bg rgba(32, 48, 64, 0.42);"));
}

#[test]
fn invalid_background_opacity_returns_offending_key() {
    let mut config = AppConfig::default();
    config.ui.background_opacity_bits = Some(1.2f32.to_bits());

    let err = build_css(&config, "").unwrap_err();

    assert!(err.message().contains("ui.background_opacity"));
}

#[test]
fn css_is_definitions_then_blank_line_then_stylesheet() {
    let css = build_css(&AppConfig::default(), "window {}\n").unwrap();
    assert!(css.starts_with("@define-color shell_bg rgba(30, 30, 32, 0.70);\n@define-color shell_border "));
    assert!(css.ends_with("@define-color destructive_text #fff1f3;\n\nwindow {}\n"));
    assert_eq!(css.matches("@define-color ").count(), 24);
}

#[test]
fn first_invalid_color_in_stylesheet_order_is_reported() {
    let mut config = AppConfig::default();
    config.ui.colors.accent = Some("nope".to_string());
    config.ui.colors.surface = Some("also nope".to_string());
    let err = build_css(&config, "").unwrap_err();
    assert_eq!(
        err.message(),
        "invalid ui.colors.surface: expected CSS color like #c3fb5b or rgba(30, 30, 32, 0.70)"
    );
}

#[test]
fn opacity_error_message_is_exact() {
    assert_eq!(
        ThemeError::InvalidOpacity.message(),
        "invalid ui.background_opacity: expected a number from 0.0 to 1.0"
    );
}

#[test]
fn configured_values_are_trimmed() {
    let mut config = AppConfig::default();
    config.ui.colors.text = Some("  #ABCDEF  ".to_string());
    assert_eq!(theme_color_value(&config, ThemeColor::Text).unwrap(), "#ABCDEF");
}

#[test]
fn shell_bg_with_opacity_needs_a_colour() {
    let mut config = AppConfig::default();
    config.ui.background_opacity_bits = Some(0.5f32.to_bits());
    config.ui.colors.shell_bg = Some("bogus".to_string());
    let err = theme_color_value(&config, ThemeColor::ShellBg).unwrap_err();
    assert!(err.message().contains("ui.colors.shell_bg"));
    config.ui.colors.shell_bg = None;
    assert_eq!(
        theme_color_value(&config, ThemeColor::ShellBg).unwrap(),
        "rgba(30, 30, 32, 0.5)"
    );
    config.ui.background_opacity_bits = Some(1.0f32.to_bits());
    assert_eq!(
        theme_color_value(&config, ThemeColor::ShellBg).unwrap(),
        "rgba(30, 30, 32, 1)"
    );
}

fn float_css_alpha(alpha: f32) -> String {
    let mut text = format!("{alpha:.3}");
    while text.contains('.') && text.ends_with('0') {
        text.pop();
    }
    if text.ends_with('.') {
        text.pop();
    }
    text
}

fn float_opacity_valid(v: f32) -> bool {
    v.is_finite() && (0.0..=1.0).contains(&v)
}

#[test]
fn css_alpha_agrees_with_float_formatting() {
    let mut values: Vec<f32> = Vec::new();
    for k in 0..=1000u32 {
        values.push(k as f32 / 1000.0);
    }
    for k in 0..=16u32 {
        values.push(k as f32 / 16.0);
    }
    values.extend([0.0625, 0.1875, 0.0005, 0.0015, 0.9995, 1e-40, f32::MIN_POSITIVE, -0.0]);
    let mut bits: u32 = 0;
    while bits <= 0x3f80_0000 {
        values.push(f32::from_bits(bits));
        bits += 7919;
    }
    for v in values {
        assert!(opacity_is_valid(v.to_bits()), "{v}");
        assert_eq!(css_alpha(v.to_bits()), float_css_alpha(v), "{v:e}");
    }
}

#[test]
fn opacity_validity_agrees_with_float_comparison() {
    let mut bits: u32 = 0;
    loop {
        let v = f32::from_bits(bits);
        assert_eq!(opacity_is_valid(bits), float_opacity_valid(v), "{bits:#x}");
        match bits.checked_add(65_521) {
            Some(next) => bits = next,
            None => break,
        }
    }
    for b in [0x3f80_0000u32, 0x3f80_0001, 0x8000_0000, 0x8000_0001, 0x7f80_0000, 0x7fc0_0000, 0xff80_0000] {
        assert_eq!(opacity_is_valid(b), float_opacity_valid(f32::from_bits(b)), "{b:#x}");
    }
}
