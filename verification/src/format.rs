//! Human-readable sizes, relative times and masked secrets.
//!
//! Sizes are written the way a `f64` division followed by `{:.N}` formatting
//! writes them: the integer is first rounded to the nearest double, then the
//! quotient is rounded to `N` decimal places, ties to even. Both steps are
//! carried out exactly in integer arithmetic.
use vstd::prelude::*;

use crate::text::{
    chars_of, decimal_text, digit_char, digit_to_char, i64_decimal, push_all,
    signed_decimal_text, string_of,
};

verus! {

/// How long ago something happened, given the seconds since: `now` under a
/// minute, then whole minutes (`min`), hours (`hr`) or days (`day`).
pub open spec fn relative_text(seconds: int) -> Seq<char> {
    if seconds < 60 {
        "now"@
    } else if seconds < 3600 {
        decimal_text((seconds / 60) as nat) + " min"@
    } else if seconds < 86400 {
        decimal_text((seconds / 3600) as nat) + " hr"@
    } else {
        decimal_text((seconds / 86400) as nat) + " day"@
    }
}

/// The relative text for `timestamp` seen at `now` (later times count as now).
pub open spec fn relative_since(now: i64, timestamp: i64) -> Seq<char> {
    relative_text(
        if now - timestamp < 0 {
            0
        } else {
            now - timestamp
        },
    )
}

/// How long before `now` the time `timestamp` is (times after `now` count as
/// now), both in Unix seconds.
pub fn relative_time_between(now: i64, timestamp: i64) -> (r: String)
    ensures
        r@ == relative_since(now, timestamp),
{
    let difference: i128 = (now as i128) - (timestamp as i128);
    let seconds: u128 = if difference < 0 {
        0
    } else {
        difference as u128
    };
    let mut v = if seconds < 60 {
        chars_of("now")
    } else if seconds < 3600 {
        let mut v = u128_decimal(seconds / 60);
        push_all(&mut v, &chars_of(" min"));
        v
    } else if seconds < 86400 {
        let mut v = u128_decimal(seconds / 3600);
        push_all(&mut v, &chars_of(" hr"));
        v
    } else {
        let mut v = u128_decimal(seconds / 86400);
        push_all(&mut v, &chars_of(" day"));
        v
    };
    string_of(&v)
}

/// The current Unix time in seconds (`chrono::Utc::now().timestamp()`). It
/// depends on the clock, so nothing is promised of it; `chrono` panics when
/// the system clock reads a time before 1970.
#[verifier::external_body]
fn now_timestamp() -> (r: i64) {
    chrono::Utc::now().timestamp()
}

/// Formats a Unix timestamp into a short relative string (e.g. "now", "5 min", "2 hr", "3 day").
pub fn relative_time(timestamp: i64) -> (r: String)
    ensures
        exists|now: i64| r@ == #[trigger] relative_since(now, timestamp),
{
    let now = now_timestamp();
    relative_time_between(now, timestamp)
}

/// The earliest Unix timestamp that `chrono::DateTime::from_timestamp`
/// accepts: January 1 of the year -262143, 00:00:00 UTC.
pub const FIRST_DATED_TIMESTAMP: i64 = -8334601228800;

/// The latest Unix timestamp that `chrono::DateTime::from_timestamp` accepts:
/// December 31 of the year 262142, 23:59:59 UTC.
pub const LAST_DATED_TIMESTAMP: i64 = 8210266876799;

/// Whether `chrono` can turn the timestamp into a date.
pub open spec fn is_dated(timestamp: i64) -> bool {
    FIRST_DATED_TIMESTAMP <= timestamp <= LAST_DATED_TIMESTAMP
}

/// `%a`: the abbreviated weekday name, Sunday first.
pub open spec fn weekday_abbrev(day: int) -> Seq<char> {
    if day == 0 {
        seq!['S', 'u', 'n']
    } else if day == 1 {
        seq!['M', 'o', 'n']
    } else if day == 2 {
        seq!['T', 'u', 'e']
    } else if day == 3 {
        seq!['W', 'e', 'd']
    } else if day == 4 {
        seq!['T', 'h', 'u']
    } else if day == 5 {
        seq!['F', 'r', 'i']
    } else {
        seq!['S', 'a', 't']
    }
}

/// `%b`: the abbreviated month name, January first.
pub open spec fn month_abbrev(month: int) -> Seq<char> {
    if month == 0 {
        seq!['J', 'a', 'n']
    } else if month == 1 {
        seq!['F', 'e', 'b']
    } else if month == 2 {
        seq!['M', 'a', 'r']
    } else if month == 3 {
        seq!['A', 'p', 'r']
    } else if month == 4 {
        seq!['M', 'a', 'y']
    } else if month == 5 {
        seq!['J', 'u', 'n']
    } else if month == 6 {
        seq!['J', 'u', 'l']
    } else if month == 7 {
        seq!['A', 'u', 'g']
    } else if month == 8 {
        seq!['S', 'e', 'p']
    } else if month == 9 {
        seq!['O', 'c', 't']
    } else if month == 10 {
        seq!['N', 'o', 'v']
    } else {
        seq!['D', 'e', 'c']
    }
}

/// A number below 100 as two digits (`%H`, `%M`, `%S`).
pub open spec fn two_digits(n: nat) -> Seq<char> {
    seq![digit_char(n / 10), digit_char(n % 10)]
}

/// `digits` with zeros in front up to `width` characters.
pub open spec fn zero_padded(digits: Seq<char>, width: nat) -> Seq<char> {
    if digits.len() < width {
        Seq::new((width - digits.len()) as nat, |i: int| '0') + digits
    } else {
        digits
    }
}

/// `%Y`: the year zero-padded to four digits, with a sign before years
/// outside 0 to 9999.
pub open spec fn year_text(year: int) -> Seq<char> {
    if 0 <= year <= 9999 {
        zero_padded(decimal_text(year as nat), 4)
    } else if year > 9999 {
        seq!['+'] + decimal_text(year as nat)
    } else {
        seq!['-'] + zero_padded(decimal_text((-year) as nat), 4)
    }
}

/// The text `%a %b %-d %H:%M:%S %Y` writes for the given fields.
pub open spec fn date_time_text(
    weekday: int,
    month: int,
    day: nat,
    hour: nat,
    minute: nat,
    second: nat,
    year: int,
) -> Seq<char> {
    weekday_abbrev(weekday) + seq![' '] + month_abbrev(month) + seq![' '] + decimal_text(day)
        + seq![' '] + two_digits(hour) + seq![':'] + two_digits(minute) + seq![':'] + two_digits(
        second,
    ) + seq![' '] + year_text(year)
}

/// The proleptic Gregorian date (year, month 1 to 12, day of the month) of
/// the day `days` after 1 January 1970, counted in 400-year eras of 146097
/// days that begin on 1 March.
pub open spec fn civil_from_days(days: int) -> (int, int, int) {
    let z = days + 719468;
    let era = z / 146097;
    let doe = z - era * 146097;
    let yoe = (doe - doe / 1460 + doe / 36524 - doe / 146096) / 365;
    let doy = doe - (365 * yoe + yoe / 4 - yoe / 100);
    let mp = (5 * doy + 2) / 153;
    let day = doy - (153 * mp + 2) / 5 + 1;
    let month = if mp < 10 {
        mp + 3
    } else {
        mp - 9
    };
    let year = yoe + era * 400 + if month <= 2 {
        1int
    } else {
        0int
    };
    (year, month, day)
}

/// The text `%a %b %-d %H:%M:%S %Y` writes for the moment `seconds` after
/// 1 January 1970, 00:00:00 (a Thursday), read on the same clock.
pub open spec fn moment_text(seconds: int) -> Seq<char> {
    let days = seconds / 86400;
    let time = seconds % 86400;
    let date = civil_from_days(days);
    date_time_text(
        (days + 4) % 7,
        date.1 - 1,
        date.2 as nat,
        (time / 3600) as nat,
        (time % 3600 / 60) as nat,
        (time % 60) as nat,
        date.0,
    )
}

/// The text for `timestamp` seen on a clock `offset` seconds ahead of UTC.
pub open spec fn local_moment_text(timestamp: int, offset: int) -> Seq<char> {
    moment_text(timestamp + offset)
}

/// A timestamp in the local time zone, as `chrono::DateTime::from_timestamp`,
/// `with_timezone(&Local)` and `format("%a %b %-d %H:%M:%S %Y")` write it.
/// The contract states when `from_timestamp` gives `None` (the timestamp
/// falls outside the dates `chrono` represents), and that the text is the
/// proleptic Gregorian date and time of the timestamp shifted by the local
/// offset, which `chrono` holds as a `FixedOffset` of under a day either way.
/// Which offset the machine's time zone gives is left unsaid; `chrono` panics
/// when the time-zone data it reads cannot give one.
#[verifier::external_body]
fn local_time_text(timestamp: i64) -> (r: Option<String>)
    ensures
        r is None <==> !is_dated(timestamp),
        r matches Some(t) ==> exists|offset: int|
            -86400 < offset < 86400 && t@ == #[trigger] local_moment_text(timestamp as int, offset),
{
    match chrono::DateTime::from_timestamp(timestamp, 0) {
        Some(dt) => Some(dt.with_timezone(&chrono::Local).format("%a %b %-d %H:%M:%S %Y").to_string()),
        None => None,
    }
}

/// The full date and time text, or `unknown` when there is none.
pub fn full_time_text(local: Option<String>) -> (r: String)
    ensures
        r@ == (match local {
            Some(t) => t@,
            None => "unknown"@,
        }),
{
    match local {
        Some(t) => t,
        None => string_of(&chars_of("unknown")),
    }
}

/// Formats a Unix timestamp into a human-readable local date and time string
/// (`unknown` when it is out of range): the date and time of the timestamp on
/// the local clock, whose offset from UTC is under a day and depends on the
/// local time zone.
pub fn format_full_time(timestamp: i64) -> (r: String)
    ensures
        !is_dated(timestamp) ==> r@ == "unknown"@,
        is_dated(timestamp) ==> exists|offset: int|
            -86400 < offset < 86400 && r@ == #[trigger] local_moment_text(timestamp as int, offset),
{
    full_time_text(local_time_text(timestamp))
}

} // verus!

verus! {

/// `2^e`.
pub open spec fn two_pow(e: nat) -> nat
    decreases e,
{
    if e == 0 {
        1
    } else {
        2 * two_pow((e - 1) as nat)
    }
}

/// How many low bits of `n` a double cannot hold (it keeps 53 significant bits).
pub open spec fn float_shift(n: nat) -> nat
    decreases n,
{
    if n < two_pow(53) {
        0
    } else {
        proof {
            lemma_two_pow_positive(53);
        }
        1 + float_shift(n / 2)
    }
}

/// `n / d` rounded to the nearest integer, ties to even.
pub open spec fn round_half_even(n: nat, d: nat) -> nat {
    let q = n / d;
    let r = n % d;
    if 2 * r > d || (2 * r == d && q % 2 == 1) {
        q + 1
    } else {
        q
    }
}

/// The double nearest to `n` (ties to even), which is what `n as f64` yields.
pub open spec fn nearest_double(n: nat) -> nat {
    round_half_even(n, two_pow(float_shift(n))) * two_pow(float_shift(n))
}

/// `10^places` for the supported numbers of decimal places.
pub open spec fn place_scale(places: nat) -> nat {
    if places == 0 {
        1
    } else if places == 1 {
        10
    } else {
        100
    }
}

/// `x` as exactly `places` digits (for `places` of one or two).
pub open spec fn fraction_text(x: nat, places: nat) -> Seq<char> {
    if places == 1 {
        seq![digit_char(x)]
    } else {
        seq![digit_char(x / 10), digit_char(x % 10)]
    }
}

/// `n / d` written with `places` (zero to two) decimal places, rounded to
/// nearest with ties to even.
pub open spec fn fixed_point_text(n: nat, d: nat, places: nat) -> Seq<char> {
    let s = round_half_even(n * place_scale(places), d);
    if places == 0 {
        decimal_text(s)
    } else {
        decimal_text(s / place_scale(places)) + seq!['.'] + fraction_text(
            s % place_scale(places),
            places,
        )
    }
}

/// The text `human_bytes` gives: one decimal place for KB and MB.
pub open spec fn human_bytes_text(bytes: int) -> Seq<char> {
    if bytes >= 1048576 {
        fixed_point_text(nearest_double(bytes as nat), 1048576, 1) + " MB"@
    } else if bytes >= 1024 {
        fixed_point_text(bytes as nat, 1024, 1) + " KB"@
    } else {
        signed_decimal_text(bytes) + " B"@
    }
}

/// The text `human_size` gives: whole KB, one decimal place for MB.
pub open spec fn human_size_text(bytes: int) -> Seq<char> {
    if bytes >= 1048576 {
        fixed_point_text(nearest_double(bytes as nat), 1048576, 1) + " MB"@
    } else if bytes >= 1024 {
        fixed_point_text(bytes as nat, 1024, 0) + " KB"@
    } else {
        signed_decimal_text(bytes) + " B"@
    }
}

/// The text `format_bytes` gives for a size in kilobytes.
pub open spec fn kilobytes_text(kb: nat) -> Seq<char> {
    if kb < 1024 {
        decimal_text(kb) + " KB"@
    } else if kb < 1048576 {
        fixed_point_text(kb, 1024, 1) + " MB"@
    } else {
        fixed_point_text(nearest_double(kb), 1048576, 2) + " GB"@
    }
}

/// The decimal representation of `n`.
pub fn u128_decimal(n: u128) -> (r: Vec<char>)
    ensures
        r@ == decimal_text(n as nat),
    decreases n,
{
    if n < 10 {
        let mut v: Vec<char> = Vec::new();
        v.push(digit_to_char(n as u64));
        v
    } else {
        let mut v = u128_decimal(n / 10);
        v.push(digit_to_char((n % 10) as u64));
        v
    }
}

pub(crate) fn round_half_even_u128(n: u128, d: u128) -> (r: u128)
    requires
        d > 0,
        n < 0x1_0000_0000_0000_0000_0000,
    ensures
        r as nat == round_half_even(n as nat, d as nat),
        r <= n + 1,
{
    let q = n / d;
    let rem = n % d;
    assert(q <= n) by (nonlinear_arith)
        requires
            d > 0,
            q == n / d,
    ;
    if rem > d - rem || (rem == d - rem && q % 2 == 1) {
        q + 1
    } else {
        q
    }
}

pub proof fn lemma_two_pow_positive(e: nat)
    ensures
        two_pow(e) >= 1,
    decreases e,
{
    if e > 0 {
        lemma_two_pow_positive((e - 1) as nat);
    }
}

proof fn lemma_two_pow_53()
    ensures
        two_pow(53) == 0x20_0000_0000_0000,
{
    reveal_with_fuel(two_pow, 54);
}

/// The double nearest to `n`, as an integer.
fn nearest_double_u64(n: u64) -> (r: u128)
    ensures
        r as nat == nearest_double(n as nat),
        r <= 0x2_0000_0000_0000_0000,
{
    proof {
        lemma_two_pow_53();
    }
    let mut t: u64 = n;
    let mut d: u128 = 1;
    let ghost mut e: nat = 0;
    while t >= 0x20_0000_0000_0000
        invariant
            two_pow(53) == 0x20_0000_0000_0000,
            d as nat == two_pow(e),
            t as nat == (n as nat) / two_pow(e),
            float_shift(n as nat) == e + float_shift(t as nat),
            d <= 0x1_0000_0000_0000_0000,
            t as nat * d <= n as nat,
            t > 0 ==> d <= n,
        decreases t,
    {
        proof {
            lemma_two_pow_positive(e);
            vstd::arithmetic::div_mod::lemma_div_denominator(n as int, two_pow(e) as int, 2);
            assert(two_pow(e) * 2 == two_pow(e + 1));
            assert((t / 2) as nat * (d * 2) <= t as nat * d) by (nonlinear_arith)
                requires
                    d >= 1,
            ;
        }
        t = t / 2;
        d = d * 2;
        proof {
            e = e + 1;
            assert(d <= n) by (nonlinear_arith)
                requires
                    t as nat * d <= n as nat,
                    t >= 1,
            ;
        }
    }
    proof {
        lemma_two_pow_positive(e);
    }
    let q = round_half_even_u128(n as u128, d);
    assert(q * d <= (n as nat) + d) by (nonlinear_arith)
        requires
            q <= (n as nat) / (d as nat) + 1,
            d >= 1,
    {
        assert((n as nat) / (d as nat) * d <= n);
    }
    q * d
}

fn fraction_chars(x: u128, places: u8) -> (r: Vec<char>)
    requires
        places == 1 ==> x < 10,
        places == 2 ==> x < 100,
        places == 1 || places == 2,
    ensures
        r@ == fraction_text(x as nat, places as nat),
{
    let mut v: Vec<char> = Vec::new();
    if places == 1 {
        v.push(digit_to_char(x as u64));
    } else {
        v.push(digit_to_char((x / 10) as u64));
        v.push(digit_to_char((x % 10) as u64));
    }
    v
}

/// `n / d` with `places` (at most two) decimal places, rounded to nearest
/// with ties to even.
pub fn format_fixed_point(n: u128, d: u128, places: u8) -> (r: Vec<char>)
    requires
        d > 0,
        n <= 0x2_0000_0000_0000_0000,
        places <= 2,
    ensures
        r@ == fixed_point_text(n as nat, d as nat, places as nat),
{
    fixed_point(n, d, places)
}

/// `n / d` with `places` decimal places, rounded to nearest with ties to even.
fn fixed_point(n: u128, d: u128, places: u8) -> (r: Vec<char>)
    requires
        d > 0,
        n <= 0x2_0000_0000_0000_0000,
        places <= 2,
    ensures
        r@ == fixed_point_text(n as nat, d as nat, places as nat),
{
    let scale: u128 = if places == 0 {
        1
    } else if places == 1 {
        10
    } else {
        100
    };
    let s = round_half_even_u128(n * scale, d);
    if places == 0 {
        u128_decimal(s)
    } else {
        let mut v = u128_decimal(s / scale);
        v.push('.');
        let f = fraction_chars(s % scale, places);
        push_all(&mut v, &f);
        v
    }
}

/// Formats a byte size with one decimal place for KB and MB (e.g. "2.0 KB", "1.5 MB").
pub fn human_bytes(bytes: i64) -> (r: String)
    ensures
        r@ == human_bytes_text(bytes as int),
{
    let mut v = if bytes >= 1048576 {
        let x = nearest_double_u64(bytes as u64);
        let mut v = fixed_point(x, 1048576, 1);
        push_all(&mut v, &chars_of(" MB"));
        v
    } else if bytes >= 1024 {
        let mut v = fixed_point(bytes as u128, 1024, 1);
        push_all(&mut v, &chars_of(" KB"));
        v
    } else {
        let mut v = i64_decimal(bytes);
        push_all(&mut v, &chars_of(" B"));
        v
    };
    string_of(&v)
}

/// Formats a byte size for UI display with rounded KB and one decimal MB (e.g. "2 KB", "1.5 MB").
pub fn human_size(bytes: i64) -> (r: String)
    ensures
        r@ == human_size_text(bytes as int),
{
    let v = if bytes >= 1048576 {
        let x = nearest_double_u64(bytes as u64);
        let mut v = fixed_point(x, 1048576, 1);
        push_all(&mut v, &chars_of(" MB"));
        v
    } else if bytes >= 1024 {
        let mut v = fixed_point(bytes as u128, 1024, 0);
        push_all(&mut v, &chars_of(" KB"));
        v
    } else {
        let mut v = i64_decimal(bytes);
        push_all(&mut v, &chars_of(" B"));
        v
    };
    string_of(&v)
}

/// Formats a memory size in kilobytes to human-readable KB, MB, or GB.
pub fn format_bytes(kb: u64) -> (r: String)
    ensures
        r@ == kilobytes_text(kb as nat),
{
    let v = if kb < 1024 {
        let mut v = u128_decimal(kb as u128);
        push_all(&mut v, &chars_of(" KB"));
        v
    } else if kb < 1048576 {
        let mut v = fixed_point(kb as u128, 1024, 1);
        push_all(&mut v, &chars_of(" MB"));
        v
    } else {
        let x = nearest_double_u64(kb);
        let mut v = fixed_point(x, 1048576, 2);
        push_all(&mut v, &chars_of(" GB"));
        v
    };
    string_of(&v)
}

} // verus!

verus! {

/// The last `min(4, len)` characters of a secret, after eight asterisks.
pub open spec fn masked_text(value: Seq<char>) -> Seq<char> {
    seq!['*', '*', '*', '*', '*', '*', '*', '*'] + value.skip(
        if value.len() > 4 {
            value.len() - 4
        } else {
            0
        },
    )
}

/// Masks a secret string, revealing only the final 4 characters (e.g. "********tail").
pub fn masked_secret(value: &str) -> (r: String)
    ensures
        r@ == masked_text(value@),
        r@.len() <= 12,
{
    let s = chars_of(value);
    let start: usize = if s.len() > 4 {
        s.len() - 4
    } else {
        0
    };
    let mut v: Vec<char> = vec!['*', '*', '*', '*', '*', '*', '*', '*'];
    let tail = crate::text::copy_range(&s, start, s.len());
    push_all(&mut v, &tail);
    assert(v@ =~= masked_text(value@));
    string_of(&v)
}

} // verus!
