//! The alpha argument of `rgba(..)`: accepted when it reads as a decimal number
//! in `[0, 1]`, with the rounding of a 32-bit float.
use vstd::prelude::*;

use crate::text::{
    all_digit_chars, all_digits, copy_range, digit_value, digits_value, find_char, index_of,
    is_digit, lemma_index_of, push_all,
};

verus! {

/// Index of the exponent marker (`e` or `E`), or the length when there is none.
pub open spec fn exponent_index(s: Seq<char>) -> int {
    let a = index_of(s, 'e');
    let b = index_of(s, 'E');
    if a <= b {
        a
    } else {
        b
    }
}

/// The digits before the decimal point.
pub open spec fn integer_digits(s: Seq<char>) -> Seq<char> {
    let m = s.take(exponent_index(s));
    m.take(index_of(m, '.'))
}

/// The digits after the decimal point (empty when there is no point).
pub open spec fn fraction_digits(s: Seq<char>) -> Seq<char> {
    let m = s.take(exponent_index(s));
    let d = index_of(m, '.');
    if d < m.len() {
        m.skip(d + 1)
    } else {
        Seq::empty()
    }
}

/// The exponent's digits, after an optional sign.
pub open spec fn exponent_digits(s: Seq<char>) -> Seq<char> {
    let x = s.skip(exponent_index(s) + 1);
    if x.len() > 0 && (x[0] == '+' || x[0] == '-') {
        x.skip(1)
    } else {
        x
    }
}

/// The exponent's value (zero without an exponent).
pub open spec fn exponent_value(s: Seq<char>) -> int {
    let x = s.skip(exponent_index(s) + 1);
    if exponent_index(s) >= s.len() {
        0
    } else if x.len() > 0 && x[0] == '-' {
        -(digits_value(exponent_digits(s)) as int)
    } else {
        digits_value(exponent_digits(s)) as int
    }
}

/// `s` follows the float grammar `(Digit+ | Digit+ '.' Digit* | Digit* '.' Digit+) Exp?`
/// with `Exp ::= ('e' | 'E') ('+' | '-')? Digit+`.
pub open spec fn is_decimal_number(s: Seq<char>) -> bool {
    &&& all_digits(integer_digits(s))
    &&& all_digits(fraction_digits(s))
    &&& integer_digits(s).len() + fraction_digits(s).len() > 0
    &&& (exponent_index(s) < s.len() ==> exponent_digits(s).len() > 0 && all_digits(
        exponent_digits(s),
    ))
}

/// `10^k`.
pub open spec fn ten_pow(k: nat) -> nat
    decreases k,
{
    if k == 0 {
        1
    } else {
        10 * ten_pow((k - 1) as nat)
    }
}

/// `n * 10^e <= 1 + 2^-24` (`2^24` is 16777216), with both sides scaled to
/// integers.
pub open spec fn at_most_one(n: nat, e: int) -> bool {
    if e >= 0 {
        n * ten_pow(e as nat) * 16777216 <= 16777217
    } else {
        n * 16777216 <= 16777217 * ten_pow((-e) as nat)
    }
}

/// The number written by `s` is at most `1 + 2^-24`: exactly the numbers that
/// a 32-bit float rounds (to nearest, ties to even) to a value of at most `1.0`.
pub open spec fn rounds_to_at_most_one(s: Seq<char>) -> bool {
    at_most_one(
        digits_value(integer_digits(s) + fraction_digits(s)),
        exponent_value(s) - fraction_digits(s).len(),
    )
}

/// An alpha value is accepted when it is not signed and reads as a number that a
/// 32-bit float holds as a finite value in `[0, 1]`.
pub open spec fn alpha_in_unit_range(v: Seq<char>) -> bool {
    &&& v.len() > 0
    &&& v[0] != '+'
    &&& v[0] != '-'
    &&& is_decimal_number(v)
    &&& rounds_to_at_most_one(v)
}

/// `k` zero digits.
pub open spec fn zeros(k: nat) -> Seq<char> {
    Seq::new(k, |i: int| '0')
}

proof fn lemma_ten_pow_positive(k: nat)
    ensures
        ten_pow(k) >= 1,
    decreases k,
{
    if k > 0 {
        lemma_ten_pow_positive((k - 1) as nat);
    }
}

proof fn lemma_ten_pow_add(a: nat, b: nat)
    ensures
        ten_pow(a + b) == ten_pow(a) * ten_pow(b),
    decreases b,
{
    if b > 0 {
        let b1 = (b - 1) as nat;
        lemma_ten_pow_add(a, b1);
        assert(a + b1 == (a + b - 1) as nat);
        assert(ten_pow(a + b) == 10 * ten_pow(a + b1));
        let x = ten_pow(a);
        let y = ten_pow(b1);
        assert(ten_pow(b) == 10 * y);
        assert(10 * (x * y) == x * (10 * y)) by (nonlinear_arith);
    } else {
        assert(ten_pow(0) == 1);
        assert(a + b == a);
    }
}

proof fn lemma_ten_pow_monotone(a: nat, b: nat)
    requires
        a <= b,
    ensures
        ten_pow(a) <= ten_pow(b),
{
    lemma_ten_pow_add(a, (b - a) as nat);
    lemma_ten_pow_positive((b - a) as nat);
    lemma_ten_pow_positive(a);
    assert(ten_pow(a) * ten_pow((b - a) as nat) >= ten_pow(a)) by (nonlinear_arith)
        requires
            ten_pow((b - a) as nat) >= 1,
            ten_pow(a) >= 1,
    ;
}

proof fn lemma_digits_append(a: Seq<char>, b: Seq<char>)
    ensures
        digits_value(a + b) == digits_value(a) * ten_pow(b.len()) + digits_value(b),
    decreases b.len(),
{
    if b.len() == 0 {
        assert(a + b =~= a);
        assert(ten_pow(0) == 1);
        assert(digits_value(b) == 0);
        assert(digits_value(a) * 1 == digits_value(a));
    } else {
        lemma_digits_append(a, b.drop_last());
        assert((a + b).drop_last() =~= a + b.drop_last());
        assert((a + b).last() == b.last());
        let va = digits_value(a);
        let vb = digits_value(b.drop_last());
        let p = ten_pow((b.len() - 1) as nat);
        let d = digit_value(b.last());
        assert(ten_pow(b.len()) == 10 * p);
        assert(digits_value(a + b) == digits_value(a + b.drop_last()) * 10 + d);
        assert(digits_value(a + b.drop_last()) == va * p + vb);
        assert(digits_value(b) == vb * 10 + d);
        assert((va * p + vb) * 10 + d == va * (10 * p) + (vb * 10 + d)) by (nonlinear_arith);
    }
}

proof fn lemma_digits_bound(s: Seq<char>)
    requires
        all_digits(s),
    ensures
        digits_value(s) < ten_pow(s.len()),
    decreases s.len(),
{
    if s.len() > 0 {
        assert(all_digits(s.drop_last())) by {
            assert forall|i: int| 0 <= i < s.drop_last().len() implies is_digit(
                #[trigger] s.drop_last()[i],
            ) by {
                assert(s.drop_last()[i] == s[i]);
            }
        }
        lemma_digits_bound(s.drop_last());
        assert(is_digit(s[s.len() - 1]));
        let v = digits_value(s.drop_last());
        let p = ten_pow((s.len() - 1) as nat);
        assert(v * 10 + digit_value(s.last()) < 10 * p) by (nonlinear_arith)
            requires
                v < p,
                digit_value(s.last()) < 10,
        ;
    }
}

proof fn lemma_digits_zeros(k: nat)
    ensures
        digits_value(zeros(k)) == 0,
    decreases k,
{
    if k > 0 {
        assert(zeros(k).drop_last() =~= zeros((k - 1) as nat));
        lemma_digits_zeros((k - 1) as nat);
    }
}

proof fn lemma_digits_lower(s: Seq<char>)
    requires
        all_digits(s),
        s.len() > 0,
        s[0] != '0',
    ensures
        digits_value(s) >= ten_pow((s.len() - 1) as nat),
{
    let head = s.take(1);
    let rest = s.skip(1);
    assert(head + rest =~= s);
    lemma_digits_append(head, rest);
    assert(head.drop_last() =~= Seq::<char>::empty());
    assert(head.last() == s[0]);
    assert(digits_value(head.drop_last()) == 0);
    assert(digits_value(head) == digit_value(s[0]));
    assert(is_digit(s[0]));
    lemma_ten_pow_positive(rest.len());
    assert(digits_value(head) * ten_pow(rest.len()) >= ten_pow(rest.len())) by (nonlinear_arith)
        requires
            digits_value(head) >= 1,
            ten_pow(rest.len()) >= 1,
    ;
}

/// `1 + 2^-24` written with 24 decimal places, as an integer: `16777217 * 5^24`.
pub const ONE_PLUS_HALF_ULP: u128 = 1000000059604644775390625;

/// Exponents at least this large decide the comparison on their own.
const EXPONENT_CAP: u128 = 100000000000000000000;

proof fn lemma_ten_pow_values()
    ensures
        ten_pow(1) == 10,
        ten_pow(24) == 1000000000000000000000000,
        ten_pow(25) == 10000000000000000000000000,
{
    reveal_with_fuel(ten_pow, 26);
}

proof fn lemma_scale_le(x: int, y: int, w: int)
    requires
        w > 0,
    ensures
        x <= y <==> x * w <= y * w,
{
    assert(x <= y ==> x * w <= y * w) by (nonlinear_arith)
        requires
            w > 0,
    ;
    assert(x * w <= y * w ==> x <= y) by (nonlinear_arith)
        requires
            w > 0,
    ;
}

/// A number with `l` significant digits whose decimal point lands two or more
/// places after its first digit is at least 10.
proof fn lemma_at_most_one_large(n: nat, l: nat, e: int)
    requires
        l >= 1,
        ten_pow((l - 1) as nat) <= n,
        l + e >= 2,
    ensures
        !at_most_one(n, e),
{
    lemma_ten_pow_values();
    if e >= 0 {
        let k = e as nat;
        lemma_ten_pow_add((l - 1) as nat, k);
        lemma_ten_pow_monotone(1, (l - 1 + k) as nat);
        let p = ten_pow((l - 1) as nat);
        let q = ten_pow(k);
        assert(n * q >= p * q) by (nonlinear_arith)
            requires
                n >= p,
                q >= 0,
        ;
        assert(n * q * 16777216 > 16777217) by (nonlinear_arith)
            requires
                n * q >= 10,
        ;
    } else {
        let k = (-e) as nat;
        lemma_ten_pow_monotone(k + 1, (l - 1) as nat);
        lemma_ten_pow_positive(k);
        assert(ten_pow(k + 1) == 10 * ten_pow(k));
        let q = ten_pow(k);
        assert(n * 16777216 > 16777217 * q) by (nonlinear_arith)
            requires
                n >= 10 * q,
                q >= 1,
        ;
    }
}

/// A number below `10^l` whose decimal point lands at or before its first
/// digit is below 1.
proof fn lemma_at_most_one_small(n: nat, l: nat, e: int)
    requires
        l >= 1,
        n < ten_pow(l),
        l + e <= 0,
    ensures
        at_most_one(n, e),
{
    let k = (-e) as nat;
    lemma_ten_pow_monotone(l, k);
    let q = ten_pow(k);
    assert(n * 16777216 <= 16777217 * q) by (nonlinear_arith)
        requires
            n < q,
    ;
}

/// A number whose decimal point lands right after its first digit is compared
/// with `1 + 2^-24` on its first 25 digits (the rest only break a tie).
proof fn lemma_at_most_one_edge(a: Seq<char>, e: int)
    requires
        all_digits(a),
        a.len() >= 1,
        a.len() + e == 1,
    ensures
        ({
            let m = if a.len() < 25 {
                a.len() as int
            } else {
                25
            };
            let h = digits_value(a.take(m));
            let scaled = h * ten_pow((25 - m) as nat);
            at_most_one(digits_value(a), e) <==> (scaled < ONE_PLUS_HALF_ULP || (scaled
                == ONE_PLUS_HALF_ULP && digits_value(a.skip(m)) == 0))
        }),
{
    lemma_ten_pow_values();
    let l = a.len();
    let n = digits_value(a);
    let m = if l < 25 {
        l as int
    } else {
        25
    };
    let h = digits_value(a.take(m));
    let r = digits_value(a.skip(m));
    let w: int = 59604644775390625;
    let big_c: int = 1000000059604644775390625;
    let k = (l - 1) as nat;
    assert(16777216 * w == 1000000000000000000000000);
    assert(16777217 * w == big_c);
    // Scale both sides by 5^24: n * 10^24 <= C * 10^(l - 1).
    if e >= 0 {
        assert(l == 1 && e == 0);
        assert(ten_pow(0) == 1);
        lemma_scale_le((n * 16777216) as int, 16777217, w);
        assert((n * 16777216) * w == n * 1000000000000000000000000) by (nonlinear_arith)
            requires
                16777216 * w == 1000000000000000000000000,
        ;
        assert(at_most_one(n, e) <==> n * ten_pow(24) <= big_c * ten_pow(k));
    } else {
        assert(k == (-e) as nat);
        let q = ten_pow(k);
        lemma_scale_le((n * 16777216) as int, (16777217 * q) as int, w);
        assert((n * 16777216) * w == n * 1000000000000000000000000) by (nonlinear_arith)
            requires
                16777216 * w == 1000000000000000000000000,
        ;
        assert((16777217 * q) * w == big_c * q) by (nonlinear_arith)
            requires
                16777217 * w == big_c,
        ;
        assert(at_most_one(n, e) <==> n * ten_pow(24) <= big_c * ten_pow(k));
    }
    assert(a.take(m) + a.skip(m) =~= a);
    lemma_digits_append(a.take(m), a.skip(m));
    assert(all_digits(a.skip(m))) by {
        assert forall|i: int| 0 <= i < a.skip(m).len() implies is_digit(#[trigger] a.skip(m)[i]) by {
            assert(a.skip(m)[i] == a[i + m]);
        }
    }
    lemma_digits_bound(a.skip(m));
    let p = ten_pow((l - m) as nat);
    assert(n == h * p + r);
    assert(r < p);
    if l <= 25 {
        assert(a.skip(m).len() == 0);
        assert(p == 1);
        assert(r == 0);
        assert(n == h) by (nonlinear_arith)
            requires
                n == h * p + r,
                p == 1,
                r == 0,
        ;
        // 10^24 == 10^(l - 1) * 10^(25 - l)
        lemma_ten_pow_add(k, (25 - l) as nat);
        assert(k + (25 - l) == 24);
        let g = ten_pow(k);
        let s = ten_pow((25 - l) as nat);
        lemma_ten_pow_positive(k);
        lemma_scale_le((h * s) as int, big_c, g as int);
        assert(n * (g * s) == (h * s) * g) by (nonlinear_arith)
            requires
                n == h,
        ;
    } else {
        assert(m == 25);
        // 10^(l - 1) == 10^24 * 10^(l - 25)
        lemma_ten_pow_add(24, (l - 25) as nat);
        assert(24 + (l - 25) == k);
        let t = ten_pow(24);
        lemma_ten_pow_positive(24);
        lemma_ten_pow_positive((l - m) as nat);
        lemma_scale_le(n as int, big_c * p, t as int);
        assert((big_c * p) * t == big_c * (t * p)) by (nonlinear_arith);
        assert(ten_pow(0) == 1);
        assert(h * 1 == h);
        if h < big_c {
            assert(n <= big_c * p) by (nonlinear_arith)
                requires
                    n == h * p + r,
                    r < p,
                    h + 1 <= big_c,
            ;
        } else if h > big_c {
            assert(n > big_c * p) by (nonlinear_arith)
                requires
                    n == h * p + r,
                    r >= 0,
                    h >= big_c + 1,
                    p >= 1,
            ;
        } else {
            assert(n <= big_c * p <==> r == 0) by (nonlinear_arith)
                requires
                    n == h * p + r,
                    r >= 0,
                    h == big_c,
            ;
        }
    }
}

/// `min(value of d, cap)`, without overflow for any number of digits.
fn capped_digits_value(d: &[char]) -> (r: u128)
    requires
        all_digits(d@),
    ensures
        r <= EXPONENT_CAP,
        r < EXPONENT_CAP ==> r == digits_value(d@),
        r == EXPONENT_CAP ==> digits_value(d@) >= EXPONENT_CAP,
{
    let mut x: u128 = 0;
    let mut i: usize = 0;
    assert(d@.take(0) =~= Seq::<char>::empty());
    while i < d.len()
        invariant
            i <= d@.len(),
            all_digits(d@),
            x <= EXPONENT_CAP,
            x < EXPONENT_CAP ==> x == digits_value(d@.take(i as int)),
            x == EXPONENT_CAP ==> digits_value(d@.take(i as int)) >= EXPONENT_CAP,
        decreases d.len() - i,
    {
        let ghost before = d@.take(i as int);
        let ghost after = d@.take(i + 1);
        assert(after.drop_last() =~= before);
        assert(after.last() == d@[i as int]);
        assert(is_digit(d@[i as int]));
        let digit = ((d[i] as u32) - 48) as u128;
        let next = x * 10 + digit;
        x = if next > EXPONENT_CAP {
            EXPONENT_CAP
        } else {
            next
        };
        i = i + 1;
    }
    assert(d@.take(d@.len() as int) =~= d@);
    x
}

/// The number of leading `'0'` characters.
fn leading_zeros(d: &[char]) -> (z: usize)
    ensures
        z <= d@.len(),
        forall|i: int| 0 <= i < z ==> d@[i] == '0',
        z < d@.len() ==> d@[z as int] != '0',
{
    let mut z: usize = 0;
    while z < d.len() && d[z] == '0'
        invariant
            z <= d@.len(),
            forall|i: int| 0 <= i < z ==> d@[i] == '0',
        decreases d.len() - z,
    {
        z = z + 1;
    }
    z
}

/// The value of the `m <= 25` digits of `d` starting at `from`.
fn digits_prefix_value(d: &[char], from: usize, m: usize) -> (h: u128)
    requires
        from + m <= d@.len(),
        m <= 25,
        all_digits(d@),
    ensures
        h == digits_value(d@.subrange(from as int, from + m)),
        h < ten_pow(m as nat),
{
    proof {
        lemma_ten_pow_values();
    }
    let mut h: u128 = 0;
    let mut i: usize = 0;
    assert(d@.subrange(from as int, from as int) =~= Seq::<char>::empty());
    while i < m
        invariant
            i <= m <= 25,
            from + m <= d@.len(),
            all_digits(d@),
            h == digits_value(d@.subrange(from as int, from + i)),
            h < ten_pow(i as nat),
            ten_pow(25) == 10000000000000000000000000,
        decreases m - i,
    {
        let ghost before = d@.subrange(from as int, from + i);
        let ghost after = d@.subrange(from as int, from + i + 1);
        assert(after.drop_last() =~= before);
        assert(after.last() == d@[from + i]);
        assert(is_digit(d@[from + i]));
        assert(from + i < d.len());
        proof {
            lemma_ten_pow_monotone((i + 1) as nat, 25);
        }
        assert(ten_pow((i + 1) as nat) == 10 * ten_pow(i as nat));
        let idx = from + i;
        let digit = ((d[idx] as u32) - 48) as u128;
        h = h * 10 + digit;
        i = i + 1;
    }
    h
}

/// `h * 10^(25 - m)`, for `h < 10^m`.
fn scale_to_25_digits(h: u128, m: usize) -> (r: u128)
    requires
        m <= 25,
        h < ten_pow(m as nat),
    ensures
        r == h * ten_pow((25 - m) as nat),
{
    proof {
        lemma_ten_pow_values();
    }
    let mut r: u128 = h;
    let mut j: usize = m;
    assert(ten_pow(0) == 1);
    assert(h * ten_pow(0) == h);
    while j < 25
        invariant
            m <= j <= 25,
            r == h * ten_pow((j - m) as nat),
            r < ten_pow(j as nat),
            ten_pow(25) == 10000000000000000000000000,
        decreases 25 - j,
    {
        proof {
            lemma_ten_pow_monotone((j + 1) as nat, 25);
        }
        assert(ten_pow((j + 1) as nat) == 10 * ten_pow(j as nat));
        assert(ten_pow((j + 1 - m) as nat) == 10 * ten_pow((j - m) as nat));
        assert(h * (10 * ten_pow((j - m) as nat)) == (h * ten_pow((j - m) as nat)) * 10)
            by (nonlinear_arith);
        r = r * 10;
        j = j + 1;
    }
    r
}

/// Whether every character of `d` from `from` on is `'0'`.
fn zeros_from(d: &[char], from: usize) -> (r: bool)
    requires
        from <= d@.len(),
    ensures
        r == (forall|i: int| from <= i < d@.len() ==> d@[i] == '0'),
{
    let mut i: usize = from;
    while i < d.len()
        invariant
            from <= i <= d@.len(),
            forall|j: int| from <= j < i ==> d@[j] == '0',
        decreases d.len() - i,
    {
        if d[i] != '0' {
            return false;
        }
        i = i + 1;
    }
    true
}

/// A digit string denotes zero exactly when all its digits are `'0'`.
proof fn lemma_digits_value_zero(s: Seq<char>)
    requires
        all_digits(s),
    ensures
        digits_value(s) == 0 <==> (forall|i: int| 0 <= i < s.len() ==> s[i] == '0'),
    decreases s.len(),
{
    if s.len() > 0 {
        let t = s.drop_last();
        assert(all_digits(t)) by {
            assert forall|i: int| 0 <= i < t.len() implies is_digit(#[trigger] t[i]) by {
                assert(t[i] == s[i]);
            }
        }
        lemma_digits_value_zero(t);
        assert(is_digit(s[s.len() - 1]));
        if digits_value(s) == 0 {
            assert forall|i: int| 0 <= i < s.len() implies s[i] == '0' by {
                if i < s.len() - 1 {
                    assert(t[i] == s[i]);
                }
            }
        }
        if forall|i: int| 0 <= i < s.len() ==> s[i] == '0' {
            assert forall|i: int| 0 <= i < t.len() implies t[i] == '0' by {
                assert(t[i] == s[i]);
            }
            assert(s[s.len() - 1] == '0');
        }
    }
}

/// Decides `at_most_one` for a digit string whose exponent is `x - frac_len`,
/// where `x` is known exactly below the cap and only by its sign above it.
fn digits_at_most_one(
    digits: &[char],
    frac_len: usize,
    negative: bool,
    magnitude: u128,
    Ghost(x): Ghost<int>,
) -> (r: bool)
    requires
        all_digits(digits@),
        frac_len <= digits@.len(),
        magnitude <= EXPONENT_CAP,
        magnitude < EXPONENT_CAP ==> x == (if negative {
            -(magnitude as int)
        } else {
            magnitude as int
        }),
        magnitude == EXPONENT_CAP ==> (if negative {
            x <= -(EXPONENT_CAP as int)
        } else {
            x >= EXPONENT_CAP
        }),
    ensures
        r == at_most_one(digits_value(digits@), x - frac_len),
{
    let ghost d = digits@;
    let ghost e = x - frac_len;
    let z = leading_zeros(digits);
    let ghost a = d.skip(z as int);
    assert(d.take(z as int) + a =~= d);
    proof {
        lemma_digits_append(d.take(z as int), a);
        assert(d.take(z as int) =~= zeros(z as nat));
        lemma_digits_zeros(z as nat);
    }
    assert(digits_value(d) == digits_value(a));
    if z == digits.len() {
        assert(a.len() == 0);
        assert(digits_value(a) == 0);
        return true;
    }
    let len = digits.len() - z;
    assert(all_digits(a)) by {
        assert forall|i: int| 0 <= i < a.len() implies is_digit(#[trigger] a[i]) by {
            assert(a[i] == d[i + z]);
        }
    }
    assert(a[0] != '0');
    proof {
        lemma_digits_lower(a);
        lemma_digits_bound(a);
    }
    let signed_exp: i128 = if negative {
        -(magnitude as i128)
    } else {
        magnitude as i128
    };
    let t: i128 = (len as i128) - (frac_len as i128) + signed_exp;
    assert(t >= 2 ==> len + e >= 2);
    assert(t <= 0 ==> len + e <= 0);
    if t >= 2 {
        proof {
            lemma_at_most_one_large(digits_value(a), len as nat, e);
        }
        return false;
    }
    if t <= 0 {
        proof {
            lemma_at_most_one_small(digits_value(a), len as nat, e);
        }
        return true;
    }
    assert(len + e == 1);
    proof {
        lemma_at_most_one_edge(a, e);
    }
    first_digits_at_most_one(digits, z)
}

/// For digits `a = d[z..]` (first digit nonzero) read as `a[0].a[1]a[2]..`:
/// whether that number is at most `1 + 2^-24`.
fn first_digits_at_most_one(digits: &[char], z: usize) -> (r: bool)
    requires
        all_digits(digits@),
        z < digits@.len(),
    ensures
        ({
            let a = digits@.skip(z as int);
            let m = if a.len() < 25 {
                a.len() as int
            } else {
                25
            };
            let scaled = digits_value(a.take(m)) * ten_pow((25 - m) as nat);
            r == (scaled < ONE_PLUS_HALF_ULP || (scaled == ONE_PLUS_HALF_ULP && digits_value(
                a.skip(m),
            ) == 0))
        }),
{
    let ghost d = digits@;
    let ghost a = d.skip(z as int);
    let len = digits.len() - z;
    let m: usize = if len < 25 {
        len
    } else {
        25
    };
    let h = digits_prefix_value(digits, z, m);
    assert(d.subrange(z as int, z + m) =~= a.take(m as int));
    let scaled = scale_to_25_digits(h, m);
    if scaled < ONE_PLUS_HALF_ULP {
        true
    } else if scaled > ONE_PLUS_HALF_ULP {
        false
    } else {
        let rest_zero = zeros_from(digits, z + m);
        proof {
            let rest = a.skip(m as int);
            assert(all_digits(rest)) by {
                assert forall|i: int| 0 <= i < rest.len() implies is_digit(#[trigger] rest[i]) by {
                    assert(rest[i] == d[i + z + m]);
                }
            }
            lemma_digits_value_zero(rest);
            if rest_zero {
                assert forall|i: int| 0 <= i < rest.len() implies rest[i] == '0' by {
                    assert(rest[i] == d[i + z + m]);
                }
            } else {
                let j = choose|j: int| z + m <= j < d.len() && d[j] != '0';
                assert(rest[j - z - m] == d[j]);
            }
        }
        rest_zero
    }
}

/// Whether the text of an `rgba(..)` alpha argument is accepted: unsigned, a
/// decimal number, and at most 1 once rounded to a 32-bit float.
pub fn parse_alpha_text(v: &[char]) -> (r: bool)
    ensures
        r == alpha_in_unit_range(v@),
{
    if v.len() == 0 || v[0] == '+' || v[0] == '-' {
        return false;
    }
    let ghost s = v@;
    assert(s.skip(0) =~= s);
    let lower = find_char(v, 'e', 0);
    let upper = find_char(v, 'E', 0);
    let ei = if lower <= upper {
        lower
    } else {
        upper
    };
    assert(ei == exponent_index(s));
    proof {
        lemma_index_of(s, 'e');
        lemma_index_of(s, 'E');
    }
    let mantissa = copy_range(v, 0, ei);
    let ghost m = s.take(ei as int);
    assert(mantissa@ =~= m);
    assert(m.skip(0) =~= m);
    let dot = find_char(&mantissa, '.', 0);
    proof {
        lemma_index_of(m, '.');
    }
    let mut digits = copy_range(&mantissa, 0, dot);
    assert(digits@ =~= integer_digits(s));
    let int_ok = all_digit_chars(&digits);
    let fraction = if dot < mantissa.len() {
        copy_range(&mantissa, dot + 1, mantissa.len())
    } else {
        Vec::new()
    };
    assert(fraction@ =~= fraction_digits(s));
    if !int_ok || !all_digit_chars(&fraction) || (digits.len() == 0 && fraction.len() == 0) {
        return false;
    }
    // The exponent: its sign and its value, capped.
    let mut negative = false;
    let mut magnitude: u128 = 0;
    if ei < v.len() {
        let mut start = ei + 1;
        negative = start < v.len() && v[start] == '-';
        if start < v.len() && (v[start] == '+' || v[start] == '-') {
            start = start + 1;
        }
        let exp = copy_range(v, start, v.len());
        assert(exp@ =~= exponent_digits(s));
        if exp.len() == 0 || !all_digit_chars(&exp) {
            return false;
        }
        magnitude = capped_digits_value(&exp);
    }
    assert(is_decimal_number(s));
    let frac_len = fraction.len();
    push_all(&mut digits, &fraction);
    let ghost d = integer_digits(s) + fraction_digits(s);
    assert(digits@ == d);
    assert(all_digits(d)) by {
        assert forall|i: int| 0 <= i < d.len() implies is_digit(#[trigger] d[i]) by {
            if i < integer_digits(s).len() {
                assert(d[i] == integer_digits(s)[i]);
            } else {
                assert(d[i] == fraction_digits(s)[i - integer_digits(s).len()]);
            }
        }
    }
    digits_at_most_one(&digits, frac_len, negative, magnitude, Ghost(exponent_value(s)))
}

} // verus!
