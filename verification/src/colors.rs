//! Recognising colour values: `#rgb`/`#rrggbb`/`#rrggbbaa` hex, `rgb(..)`/`rgba(..)`
//! and a few CSS colour names.
use vstd::prelude::*;

use crate::alpha::{alpha_in_unit_range, parse_alpha_text};
use crate::text::{
    all_digit_chars, all_digits, ascii_lower, ascii_lowercase, chars_eq, chars_of, copy_range, decimal_text, digit_char,
    digit_value, digits_value, find_char, has_prefix, index_of, is_digit, lemma_index_of,
    lowercase_chars, push_all, split, split_chars, starts_with, string_of, trim, trim_chars, trim_end, trim_start, is_white_space,
    u64_decimal,
};

verus! {

/// A recognised colour.
pub struct ColorInfo {
    /// `#` followed by six lower-case hex digits.
    pub normalized_hex: String,
    /// `hex`, `rgb`, or the colour name that was recognised.
    pub original_format: String,
    pub rgb: (u8, u8, u8),
}

/// The mathematical content of a colour: normalized hex text, format, and channels.
pub type ColorModel = (Seq<char>, Seq<char>, (u8, u8, u8));

impl View for ColorInfo {
    type V = ColorModel;

    open spec fn view(&self) -> ColorModel {
        (self.normalized_hex@, self.original_format@, self.rgb)
    }
}

/// Whether `c` is an ASCII hex digit.
pub open spec fn is_hex_digit(c: char) -> bool {
    is_digit(c) || ('a' <= c && c <= 'f') || ('A' <= c && c <= 'F')
}

/// The value of the hex digit `c`.
pub open spec fn hex_value(c: char) -> nat {
    if is_digit(c) {
        digit_value(c)
    } else if 'a' <= c && c <= 'f' {
        ((c as u32) - ('a' as u32) + 10) as nat
    } else {
        ((c as u32) - ('A' as u32) + 10) as nat
    }
}

/// The lower-case hex digit for `n < 16`.
pub open spec fn hex_char(n: nat) -> char {
    if n < 10 {
        digit_char(n)
    } else {
        (('a' as u32) + (n - 10)) as char
    }
}

/// A byte as two lower-case hex digits.
pub open spec fn hex_byte_text(b: u8) -> Seq<char> {
    seq![hex_char((b / 16) as nat), hex_char((b % 16) as nat)]
}

/// `#rrggbb` in lower case for the given channels.
pub open spec fn hex_color_text(rgb: (u8, u8, u8)) -> Seq<char> {
    seq!['#'] + hex_byte_text(rgb.0) + hex_byte_text(rgb.1) + hex_byte_text(rgb.2)
}

/// Whether every character of `s` is a hex digit.
pub open spec fn all_hex(s: Seq<char>) -> bool {
    forall|i: int| 0 <= i < s.len() ==> is_hex_digit(#[trigger] s[i])
}

/// `raw` without one leading `#`, `0x` or `0X`.
pub open spec fn strip_hex_prefix(raw: Seq<char>) -> Seq<char> {
    if has_prefix(raw, seq!['#']) {
        raw.skip(1)
    } else if has_prefix(raw, seq!['0', 'x']) || has_prefix(raw, seq!['0', 'X']) {
        raw.skip(2)
    } else {
        raw
    }
}

/// Six hex digits from three (each doubled), six, or eight (alpha dropped).
pub open spec fn expand_hex(d: Seq<char>) -> Seq<char> {
    if d.len() == 3 {
        seq![d[0], d[0], d[1], d[1], d[2], d[2]]
    } else if d.len() == 6 {
        d
    } else {
        d.take(6)
    }
}

/// The byte written by the hex digits `h[i]` and `h[i + 1]`.
pub open spec fn hex_pair(h: Seq<char>, i: int) -> u8 {
    (hex_value(h[i]) * 16 + hex_value(h[i + 1])) as u8
}

/// The colour written in hex notation, if `text` is one.
pub open spec fn hex_color(text: Seq<char>) -> Option<ColorModel> {
    let d = strip_hex_prefix(trim(text));
    if (d.len() == 3 || d.len() == 6 || d.len() == 8) && all_hex(d) {
        let h = expand_hex(d);
        Some(
            (
                seq!['#'] + ascii_lowercase(h),
                "hex"@,
                (hex_pair(h, 0), hex_pair(h, 2), hex_pair(h, 4)),
            ),
        )
    } else {
        None
    }
}

/// A colour channel: one to three ASCII digits with a value of at most 255.
pub open spec fn channel(v: Seq<char>) -> Option<u8> {
    if 0 < v.len() <= 3 && all_digits(v) && digits_value(v) <= 255 {
        Some(digits_value(v) as u8)
    } else {
        None
    }
}

/// The comma-separated arguments of a functional colour, each trimmed.
pub open spec fn color_arguments(body: Seq<char>) -> Seq<Seq<char>> {
    split(body, ',').map_values(|p: Seq<char>| trim(p))
}

/// The colour written as `rgb(r, g, b)` or `rgba(r, g, b, a)`, if `text` is one.
/// Either name accepts three channels and an optional alpha in `[0, 1]`.
pub open spec fn rgb_color(text: Seq<char>) -> Option<ColorModel> {
    let t = trim(text);
    let i = index_of(t, '(');
    let name = ascii_lowercase(trim(t.take(i)));
    let body = t.skip(i + 1);
    if i >= t.len() {
        None
    } else if !(name == "rgb"@ || name == "rgba"@) {
        None
    } else if !(body.len() > 0 && body.last() == ')') {
        None
    } else {
        let parts = color_arguments(body.drop_last());
        if parts.len() < 3 || parts.len() > 4 {
            None
        } else if channel(parts[0]) is None || channel(parts[1]) is None || channel(
            parts[2],
        ) is None {
            None
        } else if parts.len() == 4 && !alpha_in_unit_range(parts[3]) {
            None
        } else {
            let rgb = (
                channel(parts[0])->Some_0,
                channel(parts[1])->Some_0,
                channel(parts[2])->Some_0,
            );
            Some((hex_color_text(rgb), "rgb"@, rgb))
        }
    }
}

/// The channels of a recognised colour name.
pub open spec fn named_rgb(name: Seq<char>) -> Option<(u8, u8, u8)> {
    if name == "black"@ {
        Some((0u8, 0u8, 0u8))
    } else if name == "white"@ {
        Some((255u8, 255u8, 255u8))
    } else if name == "red"@ {
        Some((255u8, 0u8, 0u8))
    } else if name == "green"@ {
        Some((0u8, 128u8, 0u8))
    } else if name == "blue"@ {
        Some((0u8, 0u8, 255u8))
    } else if name == "transparent"@ {
        Some((0u8, 0u8, 0u8))
    } else if name == "rebeccapurple"@ {
        Some((102u8, 51u8, 153u8))
    } else {
        None
    }
}

/// The colour given by name (case-insensitively), if `text` is one.
pub open spec fn named_color(text: Seq<char>) -> Option<ColorModel> {
    let name = ascii_lowercase(trim(text));
    match named_rgb(name) {
        Some(rgb) => Some((hex_color_text(rgb), name, rgb)),
        None => None,
    }
}

/// The colour `text` denotes: hex notation first, then `rgb(..)`, then a name.
pub open spec fn color_of(text: Seq<char>) -> Option<ColorModel> {
    match hex_color(text) {
        Some(c) => Some(c),
        None => match rgb_color(text) {
            Some(c) => Some(c),
            None => named_color(text),
        },
    }
}

/// `rgb(r, g, b)` in decimal.
pub open spec fn rgb_function_text(rgb: (u8, u8, u8)) -> Seq<char> {
    "rgb("@ + decimal_text(rgb.0 as nat) + ", "@ + decimal_text(rgb.1 as nat) + ", "@
        + decimal_text(rgb.2 as nat) + ")"@
}

/// A `String` with the contents of `s`.
pub fn owned(s: &str) -> (r: String)
    ensures
        r@ == s@,
{
    string_of(&chars_of(s))
}

fn hex_digit_value(c: char) -> (r: u8)
    requires
        is_hex_digit(c),
    ensures
        r as nat == hex_value(c),
        r < 16,
{
    if '0' <= c && c <= '9' {
        (c as u8) - 48
    } else if 'a' <= c && c <= 'f' {
        (c as u8) - 87
    } else {
        (c as u8) - 55
    }
}

fn hex_digit_char(n: u8) -> (c: char)
    requires
        n < 16,
    ensures
        c == hex_char(n as nat),
{
    if n < 10 {
        (n + 48) as char
    } else {
        (n + 87) as char
    }
}

/// Appends `b` as two lower-case hex digits.
fn push_hex_byte(v: &mut Vec<char>, b: u8)
    ensures
        final(v)@ == old(v)@ + hex_byte_text(b),
{
    v.push(hex_digit_char(b / 16));
    v.push(hex_digit_char(b % 16));
}

/// `#rrggbb` for the given channels.
pub fn hex_color_string(rgb: (u8, u8, u8)) -> (r: String)
    ensures
        r@ == hex_color_text(rgb),
{
    let mut v: Vec<char> = Vec::new();
    v.push('#');
    push_hex_byte(&mut v, rgb.0);
    push_hex_byte(&mut v, rgb.1);
    push_hex_byte(&mut v, rgb.2);
    string_of(&v)
}

fn all_hex_chars(s: &[char]) -> (r: bool)
    ensures
        r == all_hex(s@),
{
    let mut i: usize = 0;
    while i < s.len()
        invariant
            i <= s@.len(),
            forall|j: int| 0 <= j < i ==> is_hex_digit(#[trigger] s@[j]),
        decreases s.len() - i,
    {
        let c = s[i];
        if !('0' <= c && c <= '9') && !('a' <= c && c <= 'f') && !('A' <= c && c <= 'F') {
            return false;
        }
        i = i + 1;
    }
    true
}

fn parse_hex(text: &str) -> (r: Option<ColorInfo>)
    ensures
        match r {
            Some(c) => hex_color(text@) == Some(c@),
            None => hex_color(text@) is None,
        },
{
    let raw = trim_chars(&chars_of(text));
    let hash = vec!['#'];
    let lower_x = vec!['0', 'x'];
    let upper_x = vec!['0', 'X'];
    assert(hash@ =~= seq!['#']);
    assert(lower_x@ =~= seq!['0', 'x']);
    assert(upper_x@ =~= seq!['0', 'X']);
    assert(raw@.subrange(1, raw@.len() as int) =~= raw@.skip(1));
    assert(raw@.len() >= 2 ==> raw@.subrange(2, raw@.len() as int) =~= raw@.skip(2));
    let d = if starts_with(&raw, &hash) {
        copy_range(&raw, 1, raw.len())
    } else if starts_with(&raw, &lower_x) || starts_with(&raw, &upper_x) {
        copy_range(&raw, 2, raw.len())
    } else {
        raw
    };
    assert(d@ == strip_hex_prefix(trim(text@)));
    let n = d.len();
    if !(n == 3 || n == 6 || n == 8) || !all_hex_chars(&d) {
        return None;
    }
    let h: Vec<char> = if n == 3 {
        vec![d[0], d[0], d[1], d[1], d[2], d[2]]
    } else {
        copy_range(&d, 0, 6)
    };
    assert(h@ == expand_hex(d@)) by {
        if n == 6 {
            assert(d@.subrange(0, 6) =~= d@);
        }
    }
    let mut out: Vec<char> = Vec::new();
    out.push('#');
    let lower = lowercase_chars(&h);
    push_all(&mut out, &lower);
    let red = hex_digit_value(h[0]) * 16 + hex_digit_value(h[1]);
    let green = hex_digit_value(h[2]) * 16 + hex_digit_value(h[3]);
    let blue = hex_digit_value(h[4]) * 16 + hex_digit_value(h[5]);
    Some(
        ColorInfo {
            normalized_hex: string_of(&out),
            original_format: owned("hex"),
            rgb: (red, green, blue),
        },
    )
}

/// The value of at most three decimal digits.
fn small_digits_value(s: &[char]) -> (r: u16)
    requires
        s@.len() <= 3,
        all_digits(s@),
    ensures
        r as nat == digits_value(s@),
{
    let mut v: u16 = 0;
    let mut i: usize = 0;
    while i < s.len()
        invariant
            i <= s@.len() <= 3,
            all_digits(s@),
            v as nat == digits_value(s@.take(i as int)),
            v < 1000,
            (i == 0 ==> v == 0),
            (i <= 1 ==> v < 10),
            (i <= 2 ==> v < 100),
        decreases s.len() - i,
    {
        assert(is_digit(s@[i as int]));
        let dv: u16 = (s[i] as u16) - 48;
        assert(s@.take(i + 1).drop_last() =~= s@.take(i as int));
        v = v * 10 + dv;
        i = i + 1;
    }
    assert(s@.take(s@.len() as int) =~= s@);
    v
}

fn parse_channel(value: &[char]) -> (r: Option<u8>)
    ensures
        r == channel(value@),
{
    if value.len() == 0 || value.len() > 3 || !all_digit_chars(value) {
        return None;
    }
    let v = small_digits_value(value);
    if v > 255 {
        None
    } else {
        Some(v as u8)
    }
}

fn parse_rgb(text: &str) -> (r: Option<ColorInfo>)
    ensures
        match r {
            Some(c) => rgb_color(text@) == Some(c@),
            None => rgb_color(text@) is None,
        },
{
    let t = trim_chars(&chars_of(text));
    proof {
        lemma_index_of(t@, '(');
    }
    let i = find_char(&t, '(', 0);
    assert(t@.skip(0) =~= t@);
    if i >= t.len() {
        return None;
    }
    let name = lowercase_chars(&trim_chars(&copy_range(&t, 0, i)));
    assert(t@.subrange(0, i as int) =~= t@.take(i as int));
    let body = copy_range(&t, i + 1, t.len());
    assert(body@ =~= t@.skip(i + 1));
    if !(chars_eq(&name, &chars_of("rgb")) || chars_eq(&name, &chars_of("rgba"))) {
        return None;
    }
    if !(body.len() > 0 && body[body.len() - 1] == ')') {
        return None;
    }
    let inner = copy_range(&body, 0, body.len() - 1);
    assert(inner@ =~= body@.drop_last());
    let pieces = split_chars(&inner, ',');
    let ghost parts = color_arguments(body@.drop_last());
    let count = pieces.len();
    if count < 3 || count > 4 {
        return None;
    }
    let p0 = trim_chars(&pieces[0]);
    let p1 = trim_chars(&pieces[1]);
    let p2 = trim_chars(&pieces[2]);
    assert(p0@ == parts[0] && p1@ == parts[1] && p2@ == parts[2]);
    let red = match parse_channel(&p0) {
        Some(v) => v,
        None => {
            return None;
        },
    };
    let green = match parse_channel(&p1) {
        Some(v) => v,
        None => {
            return None;
        },
    };
    let blue = match parse_channel(&p2) {
        Some(v) => v,
        None => {
            return None;
        },
    };
    if count == 4 {
        let p3 = trim_chars(&pieces[3]);
        assert(p3@ == parts[3]);
        if !parse_alpha_text(&p3) {
            return None;
        }
    }
    Some(
        ColorInfo {
            normalized_hex: hex_color_string((red, green, blue)),
            original_format: owned("rgb"),
            rgb: (red, green, blue),
        },
    )
}

fn parse_named(text: &str) -> (r: Option<ColorInfo>)
    ensures
        match r {
            Some(c) => named_color(text@) == Some(c@),
            None => named_color(text@) is None,
        },
{
    let name = lowercase_chars(&trim_chars(&chars_of(text)));
    let rgb: (u8, u8, u8) = if chars_eq(&name, &chars_of("black")) {
        (0, 0, 0)
    } else if chars_eq(&name, &chars_of("white")) {
        (255, 255, 255)
    } else if chars_eq(&name, &chars_of("red")) {
        (255, 0, 0)
    } else if chars_eq(&name, &chars_of("green")) {
        (0, 128, 0)
    } else if chars_eq(&name, &chars_of("blue")) {
        (0, 0, 255)
    } else if chars_eq(&name, &chars_of("transparent")) {
        (0, 0, 0)
    } else if chars_eq(&name, &chars_of("rebeccapurple")) {
        (102, 51, 153)
    } else {
        return None;
    };
    Some(
        ColorInfo {
            normalized_hex: hex_color_string(rgb),
            original_format: string_of(&name),
            rgb,
        },
    )
}

/// Recognises a colour written as hex (`#f0a`, `#ff00aa`, `#ff00aa80`, with `#`,
/// `0x` or `0X`), as `rgb(..)`/`rgba(..)`, or as one of a few CSS names.
pub fn parse_color(text: &str) -> (r: Option<ColorInfo>)
    ensures
        match r {
            Some(c) => color_of(text@) == Some(c@),
            None => color_of(text@) is None,
        },
{
    if let Some(c) = parse_hex(text) {
        return Some(c);
    }
    if let Some(c) = parse_rgb(text) {
        return Some(c);
    }
    parse_named(text)
}

/// `rgb(r, g, b)` with the channels in decimal.
pub fn rgb_text(rgb: (u8, u8, u8)) -> (r: String)
    ensures
        r@ == rgb_function_text(rgb),
{
    let mut v = chars_of("rgb(");
    push_all(&mut v, &u64_decimal(rgb.0 as u64));
    push_all(&mut v, &chars_of(", "));
    push_all(&mut v, &u64_decimal(rgb.1 as u64));
    push_all(&mut v, &chars_of(", "));
    push_all(&mut v, &u64_decimal(rgb.2 as u64));
    push_all(&mut v, &chars_of(")"));
    string_of(&v)
}

} // verus!

verus! {

proof fn lemma_hex_digit_lower(c: char)
    requires
        is_hex_digit(c),
    ensures
        ascii_lowercase(seq![c])[0] == hex_char(hex_value(c)),
        hex_value(c) < 16,
{
}

proof fn lemma_hex_pair_digits(h: Seq<char>, i: int)
    requires
        0 <= i,
        i + 1 < h.len(),
        is_hex_digit(h[i]),
        is_hex_digit(h[i + 1]),
    ensures
        hex_byte_text(hex_pair(h, i)) == seq![
            ascii_lowercase(h)[i],
            ascii_lowercase(h)[i + 1],
        ],
{
    lemma_hex_digit_lower(h[i]);
    lemma_hex_digit_lower(h[i + 1]);
    let b = hex_pair(h, i);
    assert(b / 16 == hex_value(h[i]) && b % 16 == hex_value(h[i + 1]));
    assert(hex_byte_text(b) =~= seq![ascii_lowercase(h)[i], ascii_lowercase(h)[i + 1]]);
}

/// Every recognised colour's normalized text is `#` followed by its three
/// channels as lower-case hex: the two ways of reading a colour never disagree.
pub proof fn lemma_normalized_hex_is_channels(text: Seq<char>)
    ensures
        color_of(text) matches Some(c) ==> c.0 == hex_color_text(c.2),
{
    if let Some(c) = hex_color(text) {
        let d = strip_hex_prefix(trim(text));
        let h = expand_hex(d);
        assert(all_hex(h)) by {
            assert forall|i: int| 0 <= i < h.len() implies is_hex_digit(#[trigger] h[i]) by {
                if d.len() == 3 {
                    assert(is_hex_digit(d[0]) && is_hex_digit(d[1]) && is_hex_digit(d[2]));
                } else {
                    assert(is_hex_digit(d[i]));
                }
            }
        }
        assert(h.len() == 6);
        lemma_hex_pair_digits(h, 0);
        lemma_hex_pair_digits(h, 2);
        lemma_hex_pair_digits(h, 4);
        assert(c.0 =~= hex_color_text(c.2));
    }
}


proof fn lemma_hex_char(n: nat)
    requires
        n < 16,
    ensures
        is_hex_digit(hex_char(n)),
        hex_value(hex_char(n)) == n,
        ascii_lower(hex_char(n)) == hex_char(n),
        !is_white_space(hex_char(n)),
{
}

/// The lower-case hex text of some channels reads back as those channels.
proof fn lemma_hex_text_reads_back(rgb: (u8, u8, u8))
    ensures
        hex_color(hex_color_text(rgb)) == Some((hex_color_text(rgb), "hex"@, rgb)),
{
    let t = hex_color_text(rgb);
    let h = hex_byte_text(rgb.0) + hex_byte_text(rgb.1) + hex_byte_text(rgb.2);
    lemma_hex_char((rgb.0 / 16) as nat);
    lemma_hex_char((rgb.0 % 16) as nat);
    lemma_hex_char((rgb.1 / 16) as nat);
    lemma_hex_char((rgb.1 % 16) as nat);
    lemma_hex_char((rgb.2 / 16) as nat);
    lemma_hex_char((rgb.2 % 16) as nat);
    assert(h =~= seq![
        hex_char((rgb.0 / 16) as nat),
        hex_char((rgb.0 % 16) as nat),
        hex_char((rgb.1 / 16) as nat),
        hex_char((rgb.1 % 16) as nat),
        hex_char((rgb.2 / 16) as nat),
        hex_char((rgb.2 % 16) as nat),
    ]);
    assert(t =~= seq!['#'] + h);
    assert(trim_start(t) == t);
    assert(trim_end(t) == t) by {
        assert(t.last() == h[5]);
    }
    assert(trim(t) == t);
    assert(t.take(1) =~= seq!['#']);
    assert(t.skip(1) =~= h);
    assert(strip_hex_prefix(t) == h);
    assert(all_hex(h));
    assert(expand_hex(h) == h);
    assert(ascii_lowercase(h) =~= h);
    assert(hex_pair(h, 0) == rgb.0);
    assert(hex_pair(h, 2) == rgb.1);
    assert(hex_pair(h, 4) == rgb.2);
}

/// Reading a colour back from its normalized hex text gives the same text and
/// channels; and the format of every recognised colour is `hex`, `rgb` or one
/// of the colour names.
pub proof fn lemma_normalized_hex_reads_back(text: Seq<char>)
    ensures
        color_of(text) matches Some(c) ==> {
            &&& c.0.len() == 7
            &&& color_of(c.0) == Some((c.0, "hex"@, c.2))
            &&& (c.1 == "hex"@ || c.1 == "rgb"@ || named_rgb(c.1) is Some)
        },
        forall|name: Seq<char>|
            #[trigger] named_rgb(name) is Some ==> name == "black"@ || name == "white"@ || name
                == "red"@ || name == "green"@ || name == "blue"@ || name == "transparent"@ || name
                == "rebeccapurple"@,
{
    lemma_normalized_hex_is_channels(text);
    if let Some(c) = color_of(text) {
        lemma_hex_text_reads_back(c.2);
    }
}


proof fn lemma_decimal_text(n: nat)
    ensures
        decimal_text(n).len() > 0,
        all_digits(decimal_text(n)),
        digits_value(decimal_text(n)) == n,
        n < 10 ==> decimal_text(n).len() == 1,
        n < 100 ==> decimal_text(n).len() <= 2,
        n < 1000 ==> decimal_text(n).len() <= 3,
    decreases n,
{
    if n >= 10 {
        lemma_decimal_text(n / 10);
        let d = decimal_text(n / 10);
        assert(decimal_text(n).drop_last() =~= d);
        assert(digit_value(digit_char(n % 10)) == n % 10);
        assert((n / 10) * 10 + n % 10 == n) by (nonlinear_arith);
        assert(digits_value(decimal_text(n)) == digits_value(d) * 10 + digit_value(
            digit_char(n % 10),
        ));
        assert(digits_value(d) == n / 10);
        assert(digits_value(decimal_text(n)) == n);
        assert forall|i: int| 0 <= i < decimal_text(n).len() implies is_digit(
            #[trigger] decimal_text(n)[i],
        ) by {
            if i < d.len() {
                assert(decimal_text(n)[i] == d[i]);
            }
        }
    } else {
        assert(decimal_text(n).drop_last() =~= Seq::<char>::empty());
        assert(digit_value(digit_char(n)) == n);
        assert(digits_value(Seq::<char>::empty()) == 0);
        assert(digits_value(decimal_text(n)) == n);
    }
}

proof fn lemma_digits_plain(d: Seq<char>)
    requires
        d.len() > 0,
        all_digits(d),
    ensures
        trim(d) == d,
        trim(seq![' '] + d) == d,
        index_of(d, ',') == d.len(),
        split(d, ',') == seq![d],
{
    assert(is_digit(d[0]) && is_digit(d.last()));
    assert(trim_start(d) == d);
    assert(trim_end(d) == d);
    assert((seq![' '] + d).drop_first() =~= d);
    assert(trim_start(seq![' '] + d) == d);
    assert forall|j: int| 0 <= j < d.len() implies d[j] != ',' by {
        assert(is_digit(d[j]));
    }
    crate::text::lemma_index_of_unique(d, ',', d.len() as int);
}

proof fn lemma_split_after_digits(d: Seq<char>, rest: Seq<char>)
    requires
        d.len() > 0,
        all_digits(d),
    ensures
        split(d + seq![','] + rest, ',') == seq![d] + split(rest, ','),
{
    let s = d + seq![','] + rest;
    assert forall|j: int| 0 <= j < d.len() implies s[j] != ',' by {
        assert(s[j] == d[j]);
        assert(is_digit(d[j]));
    }
    crate::text::lemma_index_of_unique(s, ',', d.len() as int);
    assert(s.take(d.len() as int) =~= d);
    assert(s.skip(d.len() as int + 1) =~= rest);
}

proof fn lemma_rgb_arguments(d0: Seq<char>, d1: Seq<char>, d2: Seq<char>)
    requires
        d0.len() > 0,
        all_digits(d0),
        d1.len() > 0,
        all_digits(d1),
        d2.len() > 0,
        all_digits(d2),
    ensures
        color_arguments(d0 + seq![',', ' '] + d1 + seq![',', ' '] + d2) == seq![d0, d1, d2],
{
    lemma_digits_plain(d0);
    lemma_digits_plain(d1);
    lemma_digits_plain(d2);
    let inner = d0 + seq![',', ' '] + d1 + seq![',', ' '] + d2;
    let s1 = seq![' '] + d1;
    let s2 = seq![' '] + d2;
    let r1 = s1 + seq![','] + s2;
    assert(inner =~= d0 + seq![','] + r1);
    lemma_split_after_digits(d0, r1);
    assert forall|j: int| 0 <= j < s1.len() implies r1[j] != ',' by {
        if j > 0 {
            assert(r1[j] == d1[j - 1]);
            assert(is_digit(d1[j - 1]));
        }
    }
    crate::text::lemma_index_of_unique(r1, ',', s1.len() as int);
    assert(r1.take(s1.len() as int) =~= s1);
    assert(r1.skip(s1.len() as int + 1) =~= s2);
    assert forall|j: int| 0 <= j < s2.len() implies s2[j] != ',' by {
        if j > 0 {
            assert(s2[j] == d2[j - 1]);
            assert(is_digit(d2[j - 1]));
        }
    }
    crate::text::lemma_index_of_unique(s2, ',', s2.len() as int);
    assert(split(s2, ',') == seq![s2]);
    assert(split(r1, ',') == seq![s1] + split(s2, ','));
    assert(split(inner, ',') =~= seq![d0, s1, s2]);
    assert(color_arguments(inner) =~= seq![d0, d1, d2]);
}

proof fn lemma_channel_text(n: u8)
    ensures
        channel(decimal_text(n as nat)) == Some(n),
{
    lemma_decimal_text(n as nat);
}

/// The text `rgb_text` writes reads back as the same channels, in the `rgb`
/// format.
pub proof fn lemma_rgb_text_reads_back(rgb: (u8, u8, u8))
    ensures
        color_of(rgb_function_text(rgb)) == Some((hex_color_text(rgb), "rgb"@, rgb)),
{
    reveal_strlit("rgb(");
    reveal_strlit(", ");
    reveal_strlit(")");
    let t = rgb_function_text(rgb);
    let d0 = decimal_text(rgb.0 as nat);
    let d1 = decimal_text(rgb.1 as nat);
    let d2 = decimal_text(rgb.2 as nat);
    lemma_decimal_text(rgb.0 as nat);
    lemma_decimal_text(rgb.1 as nat);
    lemma_decimal_text(rgb.2 as nat);
    let inner = d0 + seq![',', ' '] + d1 + seq![',', ' '] + d2;
    assert(t =~= seq!['r', 'g', 'b', '('] + inner + seq![')']);
    assert(trim(t) == t) by {
        assert(trim_start(t) == t);
        assert(t.last() == ')');
        assert(trim_end(t) == t);
    }
    assert(hex_color(t) is None) by {
        assert(t.take(1) != seq!['#']) by {
            assert(t.take(1)[0] == 'r');
        }
        assert(t.take(2) != seq!['0', 'x'] && t.take(2) != seq!['0', 'X']) by {
            assert(t.take(2)[0] == 'r');
        }
        assert(strip_hex_prefix(t) == t);
        assert(!is_hex_digit(t[0]));
    }
    assert(index_of(t, '(') == 3) by {
        assert forall|j: int| 0 <= j < 3 implies t[j] != '(' by {}
        crate::text::lemma_index_of_unique(t, '(', 3);
    }
    assert(ascii_lowercase(trim(t.take(3))) == "rgb"@) by {
        reveal_strlit("rgb");
        let name_part = t.take(3);
        assert(name_part =~= seq!['r', 'g', 'b']);
        assert(trim_start(name_part) == name_part);
        assert(trim_end(name_part) == name_part);
        assert(ascii_lowercase(name_part) =~= "rgb"@);
    }
    assert(t.skip(4).drop_last() =~= inner);
    assert(t.skip(4).last() == ')');
    lemma_rgb_arguments(d0, d1, d2);
    lemma_channel_text(rgb.0);
    lemma_channel_text(rgb.1);
    lemma_channel_text(rgb.2);
    assert(rgb_color(t) == Some((hex_color_text(rgb), "rgb"@, rgb)));
}


/// The byte two hex digits write, high digit first.
pub open spec fn hex_byte_value(high: char, low: char) -> u8 {
    (hex_value(high) * 16 + hex_value(low)) as u8
}

proof fn lemma_hash_hex_text(d: Seq<char>)
    requires
        d.len() == 6 || d.len() == 8,
        all_hex(d),
    ensures
        trim(seq!['#'] + d) == seq!['#'] + d,
        strip_hex_prefix(seq!['#'] + d) == d,
{
    let t = seq!['#'] + d;
    assert(is_hex_digit(d[d.len() - 1]));
    assert(t.last() == d[d.len() - 1]);
    assert(trim_start(t) == t);
    assert(trim_end(t) == t);
    assert(t.take(1) =~= seq!['#']);
    assert(t.skip(1) =~= d);
}

/// `#rrggbbaa` reads as its `#rrggbb` prefix: the channels are the first
/// three digit pairs in order and the alpha pair at the end is dropped; the
/// normalized text is `#` and those six digits in lower case.
pub proof fn lemma_eight_digit_hex_drops_alpha(d: Seq<char>)
    requires
        d.len() == 8,
        all_hex(d),
    ensures
        color_of(seq!['#'] + d) == color_of(seq!['#'] + d.take(6)),
        color_of(seq!['#'] + d) == Some(
            (
                seq!['#'] + ascii_lowercase(d.take(6)),
                "hex"@,
                (hex_byte_value(d[0], d[1]), hex_byte_value(d[2], d[3]), hex_byte_value(d[4], d[5])),
            ),
        ),
{
    let p = d.take(6);
    assert(all_hex(p)) by {
        assert forall|i: int| 0 <= i < p.len() implies is_hex_digit(#[trigger] p[i]) by {
            assert(p[i] == d[i]);
        }
    }
    lemma_hash_hex_text(d);
    lemma_hash_hex_text(p);
    assert(expand_hex(p) == p);
    assert(expand_hex(d) == p);
}
} // verus!
