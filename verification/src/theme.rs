//! The colour theme: the named colours the stylesheet defines, their default
//! values, and how configured overrides and the backdrop opacity are checked
//! and written into `@define-color` rules.
//!
//! The backdrop opacity is configured as a 32-bit float; the library receives
//! its bit pattern and works with the exact value those bits denote.
use vstd::prelude::*;

use crate::colors::{color_of, parse_color};
use crate::config::{AppConfig, UiColors, UiConfig};
use crate::files::opt_view;
use crate::format::{lemma_two_pow_positive, round_half_even, round_half_even_u128, two_pow};
use crate::text::{
    chars_of, decimal_text, digit_char, digit_to_char, push_all, string_of, trim, trim_chars,
    u64_decimal,
};

verus! {

/// The exponent field of the 32-bit float with bits `bits`.
pub open spec fn f32_exponent_field(bits: u32) -> nat {
    ((bits as nat) / 0x80_0000) % 256
}

/// The fraction field of the 32-bit float with bits `bits`.
pub open spec fn f32_fraction_field(bits: u32) -> nat {
    (bits as nat) % 0x80_0000
}

/// Whether the sign bit is set.
pub open spec fn f32_sign_bit(bits: u32) -> bool {
    bits >= 0x8000_0000
}

/// The float's magnitude is `f32_significand / 2^f32_shift`.
pub open spec fn f32_significand(bits: u32) -> nat {
    if f32_exponent_field(bits) == 0 {
        f32_fraction_field(bits)
    } else {
        f32_fraction_field(bits) + 0x80_0000
    }
}

/// See `f32_significand`; negative for magnitudes of `2^23` and more.
pub open spec fn f32_shift(bits: u32) -> int {
    if f32_exponent_field(bits) == 0 {
        149
    } else {
        150 - f32_exponent_field(bits)
    }
}

/// The float's magnitude is at most 1.
pub open spec fn f32_magnitude_at_most_one(bits: u32) -> bool {
    f32_shift(bits) >= 0 && f32_significand(bits) <= two_pow(f32_shift(bits) as nat)
}

/// The float is finite and lies in `[0, 1]` (negative zero included, since
/// `-0.0 >= 0.0`).
pub open spec fn opacity_in_range(bits: u32) -> bool {
    &&& f32_exponent_field(bits) != 255
    &&& if f32_sign_bit(bits) {
        f32_significand(bits) == 0
    } else {
        f32_magnitude_at_most_one(bits)
    }
}

/// The float's magnitude times 1000, rounded to the nearest integer, ties to even.
pub open spec fn thousandths(bits: u32) -> nat {
    round_half_even(f32_significand(bits) * 1000, two_pow(f32_shift(bits) as nat))
}

/// The digits of `f` in `1..1000` as three decimal places, trailing zeros dropped.
pub open spec fn fraction_digits_trimmed(f: nat) -> Seq<char> {
    let d1 = digit_char(f / 100);
    let d2 = digit_char((f / 10) % 10);
    let d3 = digit_char(f % 10);
    if f % 100 == 0 {
        seq![d1]
    } else if f % 10 == 0 {
        seq![d1, d2]
    } else {
        seq![d1, d2, d3]
    }
}

/// The float written with three decimal places (`{:.3}`), then stripped of
/// trailing fractional zeros and of a point left bare.
pub open spec fn alpha_text(bits: u32) -> Seq<char> {
    let t = thousandths(bits);
    let sign = if f32_sign_bit(bits) {
        seq!['-']
    } else {
        Seq::<char>::empty()
    };
    if t % 1000 == 0 {
        sign + decimal_text(t / 1000)
    } else {
        sign + decimal_text(t / 1000) + seq!['.'] + fraction_digits_trimmed(t % 1000)
    }
}

proof fn lemma_two_pow_monotone(a: nat, b: nat)
    requires
        a <= b,
    ensures
        two_pow(a) <= two_pow(b),
    decreases b,
{
    if a < b {
        lemma_two_pow_monotone(a, (b - 1) as nat);
        lemma_two_pow_positive((b - 1) as nat);
    }
}

proof fn lemma_two_pow_values()
    ensures
        two_pow(22) == 0x40_0000,
        two_pow(23) == 0x80_0000,
        two_pow(24) == 0x100_0000,
        two_pow(39) == 0x80_0000_0000,
        two_pow(40) == 0x100_0000_0000,
{
    reveal_with_fuel(two_pow, 41);
}

proof fn lemma_f32_fields(bits: u32)
    ensures
        bits as nat == (if f32_sign_bit(bits) {
            0x8000_0000nat
        } else {
            0nat
        }) + f32_exponent_field(bits) * 0x80_0000 + f32_fraction_field(bits),
        f32_fraction_field(bits) < 0x80_0000,
        f32_exponent_field(bits) < 256,
{
}

/// Which float bits are a valid opacity: up to the bits of `1.0`, or negative zero.
proof fn lemma_opacity_bits(bits: u32)
    ensures
        opacity_in_range(bits) <==> (bits <= 0x3f80_0000 || bits == 0x8000_0000),
{
    lemma_f32_fields(bits);
    lemma_two_pow_values();
    let e = f32_exponent_field(bits);
    let k = f32_shift(bits);
    if !f32_sign_bit(bits) && e != 255 && k >= 0 {
        if e == 0 || e <= 126 {
            lemma_two_pow_monotone(24, k as nat);
        } else if e >= 128 {
            lemma_two_pow_monotone(k as nat, 22);
        }
    }
}

/// Whether the opacity with these float bits is accepted: finite and in `[0, 1]`.
pub fn opacity_is_valid(bits: u32) -> (r: bool)
    ensures
        r == opacity_in_range(bits),
{
    proof {
        lemma_opacity_bits(bits);
    }
    bits <= 0x3f80_0000 || bits == 0x8000_0000
}

/// `2^k` for `k < 40`.
fn small_two_pow(k: u32) -> (r: u128)
    requires
        k < 40,
    ensures
        r == two_pow(k as nat),
        r <= 0x80_0000_0000,
{
    proof {
        lemma_two_pow_values();
    }
    let mut r: u128 = 1;
    let mut i: u32 = 0;
    while i < k
        invariant
            i <= k < 40,
            r == two_pow(i as nat),
            two_pow(40) == 0x100_0000_0000,
        decreases k - i,
    {
        proof {
            lemma_two_pow_monotone((i + 1) as nat, 39);
            reveal_with_fuel(two_pow, 41);
        }
        r = r * 2;
        i = i + 1;
    }
    proof {
        lemma_two_pow_monotone(k as nat, 39);
    }
    r
}

/// `round_half_even(n, d)` is zero when `d` exceeds `2n`.
proof fn lemma_round_small(n: nat, d: nat)
    requires
        2 * n < d,
    ensures
        round_half_even(n, d) == 0,
{
    vstd::arithmetic::div_mod::lemma_basic_div(n as int, d as int);
    vstd::arithmetic::div_mod::lemma_small_mod(n, d);
}

/// `round_half_even(n, d)` is at most 1000 when `n <= 1000 * d`.
proof fn lemma_round_at_most_thousand(n: nat, d: nat)
    requires
        d > 0,
        n <= 1000 * d,
    ensures
        round_half_even(n, d) <= 1000,
{
    let q = n / d;
    let r = n % d;
    vstd::arithmetic::div_mod::lemma_fundamental_div_mod(n as int, d as int);
    assert(q <= 1000) by (nonlinear_arith)
        requires
            n == d * q + r,
            0 <= r,
            n <= 1000 * d,
            d > 0,
    ;
    if q == 1000 {
        assert(r == 0) by (nonlinear_arith)
            requires
                n == d * q + r,
                q == 1000,
                n <= 1000 * d,
                r >= 0,
        ;
    }
}

/// The float bits as `css_alpha` writes them: three decimal places, without
/// trailing fractional zeros.
pub fn css_alpha(bits: u32) -> (r: String)
    requires
        opacity_in_range(bits),
    ensures
        r@ == alpha_text(bits),
{
    proof {
        lemma_f32_fields(bits);
        lemma_two_pow_values();
    }
    let exponent: u32 = (bits >> 23u32) & 0xffu32;
    let fraction: u32 = bits & 0x7f_ffffu32;
    assert(exponent == f32_exponent_field(bits)) by (bit_vector)
        requires
            exponent == (bits >> 23u32) & 0xffu32,
    ;
    assert(fraction == f32_fraction_field(bits)) by (bit_vector)
        requires
            fraction == bits & 0x7f_ffffu32,
    ;
    let significand: u128 = if exponent == 0 {
        fraction as u128
    } else {
        fraction as u128 + 0x80_0000
    };
    assert(exponent <= 127) by {
        if exponent > 127 && !f32_sign_bit(bits) && exponent != 255 {
            if exponent <= 150 {
                lemma_two_pow_monotone(f32_shift(bits) as nat, 22);
            }
        }
    }
    let shift: u32 = if exponent == 0 {
        149
    } else {
        150 - exponent
    };
    let t: u128 = if shift >= 40 {
        proof {
            lemma_two_pow_monotone(40, shift as nat);
            lemma_round_small(significand as nat * 1000, two_pow(shift as nat));
        }
        0
    } else {
        let d = small_two_pow(shift);
        round_half_even_u128(significand * 1000, d)
    };
    proof {
        lemma_two_pow_positive(shift as nat);
        if !f32_sign_bit(bits) {
            lemma_round_at_most_thousand(significand as nat * 1000, two_pow(shift as nat));
        } else {
            lemma_round_small(0, two_pow(shift as nat));
        }
    }
    assert(t == thousandths(bits));
    assert(t <= 1000);
    let mut v: Vec<char> = Vec::new();
    if bits >= 0x8000_0000 {
        v.push('-');
    }
    let whole = u64_decimal((t / 1000) as u64);
    push_all(&mut v, &whole);
    let f = t % 1000;
    if f != 0 {
        v.push('.');
        v.push(digit_to_char((f / 100) as u64));
        if f % 100 != 0 {
            v.push(digit_to_char(((f / 10) % 10) as u64));
            if f % 10 != 0 {
                v.push(digit_to_char((f % 10) as u64));
            }
        }
    }
    assert(v@ =~= alpha_text(bits));
    string_of(&v)
}

/// The colours the stylesheet defines, in the order it defines them.
#[derive(Clone, Copy, Debug, PartialEq, Eq, Structural)]
pub enum ThemeColor {
    ShellBg,
    ShellBorder,
    Surface,
    SurfaceSubtle,
    SurfaceOverlay,
    PreviewBg,
    PreviewTextBg,
    ScrimBg,
    Text,
    TextStrong,
    TextMuted,
    TextSelectedMuted,
    Border,
    BorderSubtle,
    BorderPreview,
    BorderDialog,
    HoverBg,
    SelectedBg,
    Accent,
    AccentHover,
    AccentText,
    Destructive,
    DestructiveBorder,
    DestructiveText,
}

/// The name a colour is defined under (and configured under in `[ui.colors]`).
pub open spec fn color_name(color: ThemeColor) -> Seq<char> {
    match color {
        ThemeColor::ShellBg => "shell_bg"@,
        ThemeColor::ShellBorder => "shell_border"@,
        ThemeColor::Surface => "surface"@,
        ThemeColor::SurfaceSubtle => "surface_subtle"@,
        ThemeColor::SurfaceOverlay => "surface_overlay"@,
        ThemeColor::PreviewBg => "preview_bg"@,
        ThemeColor::PreviewTextBg => "preview_text_bg"@,
        ThemeColor::ScrimBg => "scrim_bg"@,
        ThemeColor::Text => "text"@,
        ThemeColor::TextStrong => "text_strong"@,
        ThemeColor::TextMuted => "text_muted"@,
        ThemeColor::TextSelectedMuted => "text_selected_muted"@,
        ThemeColor::Border => "border"@,
        ThemeColor::BorderSubtle => "border_subtle"@,
        ThemeColor::BorderPreview => "border_preview"@,
        ThemeColor::BorderDialog => "border_dialog"@,
        ThemeColor::HoverBg => "hover_bg"@,
        ThemeColor::SelectedBg => "selected_bg"@,
        ThemeColor::Accent => "accent"@,
        ThemeColor::AccentHover => "accent_hover"@,
        ThemeColor::AccentText => "accent_text"@,
        ThemeColor::Destructive => "destructive"@,
        ThemeColor::DestructiveBorder => "destructive_border"@,
        ThemeColor::DestructiveText => "destructive_text"@,
    }
}

/// The value a colour has when the configuration does not set it.
pub open spec fn color_default(color: ThemeColor) -> Seq<char> {
    match color {
        ThemeColor::ShellBg => "rgba(30, 30, 32, 0.70)"@,
        ThemeColor::ShellBorder => "rgba(220, 217, 231, 0.14)"@,
        ThemeColor::Surface => "#2a2a2c"@,
        ThemeColor::SurfaceSubtle => "rgba(42, 42, 44, 0.54)"@,
        ThemeColor::SurfaceOverlay => "#1e1e20"@,
        ThemeColor::PreviewBg => "rgba(30, 30, 32, 0.40)"@,
        ThemeColor::PreviewTextBg => "rgba(12, 12, 14, 0.34)"@,
        ThemeColor::ScrimBg => "rgba(12, 12, 14, 0.42)"@,
        ThemeColor::Text => "#dcd9e7"@,
        ThemeColor::TextStrong => "#f0eafd"@,
        ThemeColor::TextMuted => "#9c96ad"@,
        ThemeColor::TextSelectedMuted => "#c8bed6"@,
        ThemeColor::Border => "#4a4653"@,
        ThemeColor::BorderSubtle => "rgba(220, 217, 231, 0.08)"@,
        ThemeColor::BorderPreview => "rgba(220, 217, 231, 0.10)"@,
        ThemeColor::BorderDialog => "#5c516b"@,
        ThemeColor::HoverBg => "#3b304a"@,
        ThemeColor::SelectedBg => "#453657"@,
        ThemeColor::Accent => "#c3fb5b"@,
        ThemeColor::AccentHover => "#d4ff76"@,
        ThemeColor::AccentText => "#11130f"@,
        ThemeColor::Destructive => "#6f2d38"@,
        ThemeColor::DestructiveBorder => "#9a4350"@,
        ThemeColor::DestructiveText => "#fff1f3"@,
    }
}

/// The configured override of a colour, if any.
pub open spec fn configured_color(colors: UiColors, color: ThemeColor) -> Option<Seq<char>> {
    match color {
        ThemeColor::ShellBg => opt_view(colors.shell_bg),
        ThemeColor::ShellBorder => opt_view(colors.shell_border),
        ThemeColor::Surface => opt_view(colors.surface),
        ThemeColor::SurfaceSubtle => opt_view(colors.surface_subtle),
        ThemeColor::SurfaceOverlay => opt_view(colors.surface_overlay),
        ThemeColor::PreviewBg => opt_view(colors.preview_bg),
        ThemeColor::PreviewTextBg => opt_view(colors.preview_text_bg),
        ThemeColor::ScrimBg => opt_view(colors.scrim_bg),
        ThemeColor::Text => opt_view(colors.text),
        ThemeColor::TextStrong => opt_view(colors.text_strong),
        ThemeColor::TextMuted => opt_view(colors.text_muted),
        ThemeColor::TextSelectedMuted => opt_view(colors.text_selected_muted),
        ThemeColor::Border => opt_view(colors.border),
        ThemeColor::BorderSubtle => opt_view(colors.border_subtle),
        ThemeColor::BorderPreview => opt_view(colors.border_preview),
        ThemeColor::BorderDialog => opt_view(colors.border_dialog),
        ThemeColor::HoverBg => opt_view(colors.hover_bg),
        ThemeColor::SelectedBg => opt_view(colors.selected_bg),
        ThemeColor::Accent => opt_view(colors.accent),
        ThemeColor::AccentHover => opt_view(colors.accent_hover),
        ThemeColor::AccentText => opt_view(colors.accent_text),
        ThemeColor::Destructive => opt_view(colors.destructive),
        ThemeColor::DestructiveBorder => opt_view(colors.destructive_border),
        ThemeColor::DestructiveText => opt_view(colors.destructive_text),
    }
}

/// Every theme colour, in stylesheet order.
pub open spec fn all_theme_colors() -> Seq<ThemeColor> {
    seq![
        ThemeColor::ShellBg,
        ThemeColor::ShellBorder,
        ThemeColor::Surface,
        ThemeColor::SurfaceSubtle,
        ThemeColor::SurfaceOverlay,
        ThemeColor::PreviewBg,
        ThemeColor::PreviewTextBg,
        ThemeColor::ScrimBg,
        ThemeColor::Text,
        ThemeColor::TextStrong,
        ThemeColor::TextMuted,
        ThemeColor::TextSelectedMuted,
        ThemeColor::Border,
        ThemeColor::BorderSubtle,
        ThemeColor::BorderPreview,
        ThemeColor::BorderDialog,
        ThemeColor::HoverBg,
        ThemeColor::SelectedBg,
        ThemeColor::Accent,
        ThemeColor::AccentHover,
        ThemeColor::AccentText,
        ThemeColor::Destructive,
        ThemeColor::DestructiveBorder,
        ThemeColor::DestructiveText,
    ]
}

impl ThemeColor {
    /// The name this colour is defined under.
    pub fn name(&self) -> (r: &'static str)
        ensures
            r@ == color_name(*self),
    {
        match self {
            ThemeColor::ShellBg => "shell_bg",
            ThemeColor::ShellBorder => "shell_border",
            ThemeColor::Surface => "surface",
            ThemeColor::SurfaceSubtle => "surface_subtle",
            ThemeColor::SurfaceOverlay => "surface_overlay",
            ThemeColor::PreviewBg => "preview_bg",
            ThemeColor::PreviewTextBg => "preview_text_bg",
            ThemeColor::ScrimBg => "scrim_bg",
            ThemeColor::Text => "text",
            ThemeColor::TextStrong => "text_strong",
            ThemeColor::TextMuted => "text_muted",
            ThemeColor::TextSelectedMuted => "text_selected_muted",
            ThemeColor::Border => "border",
            ThemeColor::BorderSubtle => "border_subtle",
            ThemeColor::BorderPreview => "border_preview",
            ThemeColor::BorderDialog => "border_dialog",
            ThemeColor::HoverBg => "hover_bg",
            ThemeColor::SelectedBg => "selected_bg",
            ThemeColor::Accent => "accent",
            ThemeColor::AccentHover => "accent_hover",
            ThemeColor::AccentText => "accent_text",
            ThemeColor::Destructive => "destructive",
            ThemeColor::DestructiveBorder => "destructive_border",
            ThemeColor::DestructiveText => "destructive_text",
        }
    }

    /// The value this colour has when it is not configured.
    pub fn default_value(&self) -> (r: &'static str)
        ensures
            r@ == color_default(*self),
    {
        match self {
            ThemeColor::ShellBg => "rgba(30, 30, 32, 0.70)",
            ThemeColor::ShellBorder => "rgba(220, 217, 231, 0.14)",
            ThemeColor::Surface => "#2a2a2c",
            ThemeColor::SurfaceSubtle => "rgba(42, 42, 44, 0.54)",
            ThemeColor::SurfaceOverlay => "#1e1e20",
            ThemeColor::PreviewBg => "rgba(30, 30, 32, 0.40)",
            ThemeColor::PreviewTextBg => "rgba(12, 12, 14, 0.34)",
            ThemeColor::ScrimBg => "rgba(12, 12, 14, 0.42)",
            ThemeColor::Text => "#dcd9e7",
            ThemeColor::TextStrong => "#f0eafd",
            ThemeColor::TextMuted => "#9c96ad",
            ThemeColor::TextSelectedMuted => "#c8bed6",
            ThemeColor::Border => "#4a4653",
            ThemeColor::BorderSubtle => "rgba(220, 217, 231, 0.08)",
            ThemeColor::BorderPreview => "rgba(220, 217, 231, 0.10)",
            ThemeColor::BorderDialog => "#5c516b",
            ThemeColor::HoverBg => "#3b304a",
            ThemeColor::SelectedBg => "#453657",
            ThemeColor::Accent => "#c3fb5b",
            ThemeColor::AccentHover => "#d4ff76",
            ThemeColor::AccentText => "#11130f",
            ThemeColor::Destructive => "#6f2d38",
            ThemeColor::DestructiveBorder => "#9a4350",
            ThemeColor::DestructiveText => "#fff1f3",
        }
    }

    /// The override `[ui.colors]` gives this colour, if any.
    pub fn configured<'a>(&self, colors: &'a UiColors) -> (r: Option<&'a str>)
        ensures
            opt_str_view(r) == configured_color(*colors, *self),
    {
        let value = match self {
            ThemeColor::ShellBg => &colors.shell_bg,
            ThemeColor::ShellBorder => &colors.shell_border,
            ThemeColor::Surface => &colors.surface,
            ThemeColor::SurfaceSubtle => &colors.surface_subtle,
            ThemeColor::SurfaceOverlay => &colors.surface_overlay,
            ThemeColor::PreviewBg => &colors.preview_bg,
            ThemeColor::PreviewTextBg => &colors.preview_text_bg,
            ThemeColor::ScrimBg => &colors.scrim_bg,
            ThemeColor::Text => &colors.text,
            ThemeColor::TextStrong => &colors.text_strong,
            ThemeColor::TextMuted => &colors.text_muted,
            ThemeColor::TextSelectedMuted => &colors.text_selected_muted,
            ThemeColor::Border => &colors.border,
            ThemeColor::BorderSubtle => &colors.border_subtle,
            ThemeColor::BorderPreview => &colors.border_preview,
            ThemeColor::BorderDialog => &colors.border_dialog,
            ThemeColor::HoverBg => &colors.hover_bg,
            ThemeColor::SelectedBg => &colors.selected_bg,
            ThemeColor::Accent => &colors.accent,
            ThemeColor::AccentHover => &colors.accent_hover,
            ThemeColor::AccentText => &colors.accent_text,
            ThemeColor::Destructive => &colors.destructive,
            ThemeColor::DestructiveBorder => &colors.destructive_border,
            ThemeColor::DestructiveText => &colors.destructive_text,
        };
        match value {
            Some(s) => Some(s.as_str()),
            None => None,
        }
    }
}

/// The theme colours in the order the stylesheet defines them.
pub fn theme_colors() -> (r: Vec<ThemeColor>)
    ensures
        r@ == all_theme_colors(),
{
    let v = vec![
        ThemeColor::ShellBg,
        ThemeColor::ShellBorder,
        ThemeColor::Surface,
        ThemeColor::SurfaceSubtle,
        ThemeColor::SurfaceOverlay,
        ThemeColor::PreviewBg,
        ThemeColor::PreviewTextBg,
        ThemeColor::ScrimBg,
        ThemeColor::Text,
        ThemeColor::TextStrong,
        ThemeColor::TextMuted,
        ThemeColor::TextSelectedMuted,
        ThemeColor::Border,
        ThemeColor::BorderSubtle,
        ThemeColor::BorderPreview,
        ThemeColor::BorderDialog,
        ThemeColor::HoverBg,
        ThemeColor::SelectedBg,
        ThemeColor::Accent,
        ThemeColor::AccentHover,
        ThemeColor::AccentText,
        ThemeColor::Destructive,
        ThemeColor::DestructiveBorder,
        ThemeColor::DestructiveText,
    ];
    assert(v@ =~= all_theme_colors());
    v
}

/// The view of an optional string slice.
pub open spec fn opt_str_view(o: Option<&str>) -> Option<Seq<char>> {
    match o {
        Some(s) => Some(s@),
        None => None,
    }
}

/// Why a theme could not be built.
#[derive(Clone, Debug)]
pub enum ThemeError {
    /// The named colour is not a CSS colour this library recognises.
    InvalidColor { name: String },
    /// The backdrop opacity is not a finite number in `[0, 1]`.
    InvalidOpacity,
}

/// The content of a `ThemeError`.
pub enum ThemeErrorModel {
    InvalidColor(Seq<char>),
    InvalidOpacity,
}

impl View for ThemeError {
    type V = ThemeErrorModel;

    open spec fn view(&self) -> ThemeErrorModel {
        match self {
            ThemeError::InvalidColor { name } => ThemeErrorModel::InvalidColor(name@),
            ThemeError::InvalidOpacity => ThemeErrorModel::InvalidOpacity,
        }
    }
}

/// The message a theme error is reported with.
pub open spec fn theme_error_message(e: ThemeErrorModel) -> Seq<char> {
    match e {
        ThemeErrorModel::InvalidColor(name) => "invalid ui.colors."@ + name
            + ": expected CSS color like #c3fb5b or rgba(30, 30, 32, 0.70)"@,
        ThemeErrorModel::InvalidOpacity => "invalid ui.background_opacity: expected a number from 0.0 to 1.0"@,
    }
}

impl ThemeError {
    /// The message this error is reported with; it names the offending key.
    pub fn message(&self) -> (r: String)
        ensures
            r@ == theme_error_message(self@),
    {
        match self {
            ThemeError::InvalidColor { name } => {
                let mut v = chars_of("invalid ui.colors.");
                push_all(&mut v, &chars_of(name.as_str()));
                push_all(
                    &mut v,
                    &chars_of(": expected CSS color like #c3fb5b or rgba(30, 30, 32, 0.70)"),
                );
                string_of(&v)
            },
            ThemeError::InvalidOpacity => string_of(
                &chars_of("invalid ui.background_opacity: expected a number from 0.0 to 1.0"),
            ),
        }
    }
}

/// A view of a result whose error is a `ThemeError`.
pub open spec fn theme_result_view<T: View>(r: Result<T, ThemeError>) -> Result<
    T::V,
    ThemeErrorModel,
> {
    match r {
        Ok(v) => Ok(v@),
        Err(e) => Err(e@),
    }
}

/// Checks that `value` (once trimmed) is a colour; the error names `name`.
pub fn validate_color(name: &str, value: &str) -> (r: Result<(), ThemeError>)
    ensures
        r is Ok <==> color_of(trim(value@)) is Some,
        r matches Err(e) ==> e@ == ThemeErrorModel::InvalidColor(name@),
{
    let trimmed = string_of(&trim_chars(&chars_of(value)));
    if parse_color(trimmed.as_str()).is_some() {
        Ok(())
    } else {
        Err(ThemeError::InvalidColor { name: string_of(&chars_of(name)) })
    }
}

/// `rgba(r, g, b, alpha)` with the channels in decimal.
pub open spec fn rgba_text(rgb: (u8, u8, u8), alpha: Seq<char>) -> Seq<char> {
    "rgba("@ + decimal_text(rgb.0 as nat) + ", "@ + decimal_text(rgb.1 as nat) + ", "@
        + decimal_text(rgb.2 as nat) + ", "@ + alpha + ")"@
}

/// The value a colour is defined with: the configured value, or the default,
/// trimmed; for `shell_bg` with a backdrop opacity, that colour's channels
/// with the opacity as alpha.
pub open spec fn color_value(ui: UiConfig, color: ThemeColor) -> Result<Seq<char>, ThemeErrorModel> {
    let value = trim(
        match configured_color(ui.colors, color) {
            Some(v) => v,
            None => color_default(color),
        },
    );
    if color == ThemeColor::ShellBg && ui.background_opacity_bits is Some {
        let bits = ui.background_opacity_bits->0;
        if !opacity_in_range(bits) {
            Err(ThemeErrorModel::InvalidOpacity)
        } else {
            match color_of(value) {
                Some(c) => Ok(rgba_text(c.2, alpha_text(bits))),
                None => Err(ThemeErrorModel::InvalidColor(color_name(color))),
            }
        }
    } else if color_of(trim(value)) is Some {
        Ok(value)
    } else {
        Err(ThemeErrorModel::InvalidColor(color_name(color)))
    }
}

/// The value `color` is defined with under `config`, checked.
pub fn theme_color_value(config: &AppConfig, color: ThemeColor) -> (r: Result<String, ThemeError>)
    ensures
        theme_result_view(r) == color_value(config.ui, color),
{
    let chosen = match color.configured(&config.ui.colors) {
        Some(v) => v,
        None => color.default_value(),
    };
    let value = trim_chars(&chars_of(chosen));
    let text = string_of(&value);
    if color == ThemeColor::ShellBg {
        if let Some(bits) = config.ui.background_opacity_bits {
            if !opacity_is_valid(bits) {
                return Err(ThemeError::InvalidOpacity);
            }
            return match parse_color(text.as_str()) {
                Some(c) => {
                    let mut v = chars_of("rgba(");
                    push_all(&mut v, &u64_decimal(c.rgb.0 as u64));
                    push_all(&mut v, &chars_of(", "));
                    push_all(&mut v, &u64_decimal(c.rgb.1 as u64));
                    push_all(&mut v, &chars_of(", "));
                    push_all(&mut v, &u64_decimal(c.rgb.2 as u64));
                    push_all(&mut v, &chars_of(", "));
                    push_all(&mut v, &chars_of(css_alpha(bits).as_str()));
                    push_all(&mut v, &chars_of(")"));
                    Ok(string_of(&v))
                },
                None => Err(ThemeError::InvalidColor { name: string_of(&chars_of(color.name())) }),
            };
        }
    }
    match validate_color(color.name(), text.as_str()) {
        Ok(()) => Ok(text),
        Err(e) => Err(e),
    }
}

/// The `@define-color` rules for `colors`, in order, or the first error.
pub open spec fn color_definitions(ui: UiConfig, colors: Seq<ThemeColor>) -> Result<
    Seq<char>,
    ThemeErrorModel,
>
    decreases colors.len(),
{
    if colors.len() == 0 {
        Ok(Seq::empty())
    } else {
        match color_definitions(ui, colors.drop_last()) {
            Err(e) => Err(e),
            Ok(s) => match color_value(ui, colors.last()) {
                Err(e) => Err(e),
                Ok(v) => Ok(s + "@define-color "@ + color_name(colors.last()) + " "@ + v + ";\n"@),
            },
        }
    }
}

/// The stylesheet: every colour's rule, a blank line, then the base stylesheet.
pub open spec fn theme_css(ui: UiConfig, stylesheet: Seq<char>) -> Result<Seq<char>, ThemeErrorModel> {
    match color_definitions(ui, all_theme_colors()) {
        Ok(s) => Ok(s + "\n"@ + stylesheet),
        Err(e) => Err(e),
    }
}

/// An error among the first `i` colours is the error for all of them.
proof fn lemma_definitions_error_persists(ui: UiConfig, colors: Seq<ThemeColor>, i: int)
    requires
        0 <= i <= colors.len(),
        color_definitions(ui, colors.take(i)) is Err,
    ensures
        color_definitions(ui, colors) == color_definitions(ui, colors.take(i)),
    decreases colors.len() - i,
{
    if i < colors.len() {
        assert(colors.take(i + 1).drop_last() =~= colors.take(i));
        lemma_definitions_error_persists(ui, colors, i + 1);
    } else {
        assert(colors.take(i) =~= colors);
    }
}

/// The stylesheet for `config`: an `@define-color` rule for every theme colour,
/// a blank line, then `stylesheet`; or the first colour's error.
pub fn build_css(config: &AppConfig, stylesheet: &str) -> (r: Result<String, ThemeError>)
    ensures
        theme_result_view(r) == theme_css(config.ui, stylesheet@),
{
    let colors = theme_colors();
    let ghost all = all_theme_colors();
    let mut css: Vec<char> = Vec::new();
    let mut i: usize = 0;
    assert(all.take(0) =~= Seq::<ThemeColor>::empty());
    while i < colors.len()
        invariant
            colors@ == all,
            all == all_theme_colors(),
            i <= colors@.len(),
            color_definitions(config.ui, all.take(i as int)) == Ok::<Seq<char>, ThemeErrorModel>(
                css@,
            ),
        decreases colors.len() - i,
    {
        let color = colors[i];
        assert(all.take(i + 1).drop_last() =~= all.take(i as int));
        assert(all.take(i + 1).last() == color);
        match theme_color_value(config, color) {
            Ok(value) => {
                push_all(&mut css, &chars_of("@define-color "));
                push_all(&mut css, &chars_of(color.name()));
                push_all(&mut css, &chars_of(" "));
                push_all(&mut css, &chars_of(value.as_str()));
                push_all(&mut css, &chars_of(";\n"));
            },
            Err(e) => {
                proof {
                    assert(color_definitions(config.ui, all.take(i + 1)) == Err::<
                        Seq<char>,
                        ThemeErrorModel,
                    >(e@));
                    lemma_definitions_error_persists(config.ui, all, i + 1);
                }
                return Err(e);
            },
        }
        i = i + 1;
    }
    assert(all.take(all.len() as int) =~= all);
    push_all(&mut css, &chars_of("\n"));
    push_all(&mut css, &chars_of(stylesheet));
    Ok(string_of(&css))
}

} // verus!
