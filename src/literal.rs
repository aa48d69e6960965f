use crate::frac::Frac;
use vstd::prelude::*;

verus! {

/// Whether the text is an integer literal, and its value: `None` where it is
/// no integer literal, `Some(None)` where its value does not fit an `i64`.
pub uninterp spec fn int_literal(s: Seq<char>) -> Option<Option<i64>>;

/// The number part (digits, fraction and exponent, without the type suffix)
/// of a float literal, or `None` where the text is no float literal.
pub uninterp spec fn float_literal_number(s: Seq<char>) -> Option<Seq<char>>;

/// Relies on `litrs::IntegerLit::parse` and `IntegerLit::value::<i64>`: the
/// kind of the literal and its value. Integer literals carry no sign, so the
/// value is never negative.
#[verifier::external_body]
pub(crate) fn lex_integer(s: &str) -> (r: Option<Option<i64>>)
    ensures
        r == int_literal(s@),
        r matches Some(Some(v)) ==> v >= 0,
{
    match litrs::IntegerLit::parse(s) {
        Ok(lit) => Some(lit.value::<i64>()),
        Err(_) => None,
    }
}

/// Relies on `litrs::FloatLit::parse` and `FloatLit::number_part`: the kind
/// of the literal and its number part.
#[verifier::external_body]
pub(crate) fn lex_float(s: &str) -> (r: Option<String>)
    ensures
        match r {
            Some(n) => float_literal_number(s@) == Some(n@),
            None => float_literal_number(s@) is None,
        },
{
    match litrs::FloatLit::parse(s) {
        Ok(lit) => Some(lit.number_part().to_string()),
        Err(_) => None,
    }
}

pub open spec fn is_digit(c: char) -> bool {
    '0' <= c <= '9'
}

pub open spec fn digit_value(c: char) -> int {
    c as int - '0' as int
}

/// The first index at or after `i` that does not hold a decimal digit.
pub open spec fn digit_end(t: Seq<char>, i: int) -> int
    decreases t.len() - i,
{
    if i < 0 || i >= t.len() || !is_digit(t[i]) {
        i
    } else {
        digit_end(t, i + 1)
    }
}

/// The decimal digits of `t[a..b]` read as one number; other characters are
/// skipped.
pub open spec fn digits_value(t: Seq<char>, a: int, b: int) -> int
    decreases b - a,
{
    if b <= a {
        0
    } else if is_digit(t[b - 1]) {
        digits_value(t, a, b - 1) * 10 + digit_value(t[b - 1])
    } else {
        digits_value(t, a, b - 1)
    }
}

pub open spec fn pow10(n: nat) -> int
    decreases n,
{
    if n == 0 {
        1
    } else {
        10 * pow10((n - 1) as nat)
    }
}

/// The end of the fraction: past the digits after a `.` that follows the
/// integer digits, or the end of the integer digits.
pub open spec fn fraction_end(t: Seq<char>) -> int {
    let i1 = digit_end(t, 0);
    if i1 < t.len() && t[i1] == '.' {
        digit_end(t, i1 + 1)
    } else {
        i1
    }
}

/// The number of digits after the `.`.
pub open spec fn fraction_digits(t: Seq<char>) -> int {
    let i1 = digit_end(t, 0);
    if i1 < t.len() && t[i1] == '.' {
        fraction_end(t) - i1 - 1
    } else {
        0
    }
}

/// Where the exponent digits begin, past `e`/`E` and an optional sign.
pub open spec fn exponent_start(t: Seq<char>) -> int {
    let k = fraction_end(t) + 1;
    if k < t.len() && (t[k] == '+' || t[k] == '-') {
        k + 1
    } else {
        k
    }
}

pub open spec fn exponent_negative(t: Seq<char>) -> bool {
    let k = fraction_end(t) + 1;
    k < t.len() && t[k] == '-'
}

/// A decimal number `digits[.digits][(e|E)[+|-]digits]`, with at least one
/// integer digit and at least one exponent digit where there is an exponent.
pub open spec fn decimal_syntax(t: Seq<char>) -> bool {
    let i2 = fraction_end(t);
    &&& digit_end(t, 0) > 0
    &&& (i2 == t.len() || ((t[i2] == 'e' || t[i2] == 'E') && digit_end(t, exponent_start(t))
        == t.len() && exponent_start(t) < t.len()))
}

/// The signed value of the exponent, 0 where there is none.
pub open spec fn exponent_value(t: Seq<char>) -> int {
    let x = if fraction_end(t) == t.len() {
        0
    } else {
        digits_value(t, exponent_start(t), t.len() as int)
    };
    if exponent_negative(t) {
        -x
    } else {
        x
    }
}

/// The significant digits of `t[..b]` kept, and how many were dropped:
/// digits are taken while the kept value stays below `10^18`; every later
/// digit is dropped and only counts as a power of ten. Other characters are
/// skipped.
pub open spec fn mantissa(t: Seq<char>, b: int) -> (int, int)
    decreases b,
{
    if b <= 0 {
        (0, 0)
    } else {
        let (m, k) = mantissa(t, b - 1);
        if !is_digit(t[b - 1]) {
            (m, k)
        } else if m < 100000000000000000 {
            (m * 10 + digit_value(t[b - 1]), k)
        } else {
            (m, k + 1)
        }
    }
}

/// The kept digits of a decimal number.
pub open spec fn decimal_mantissa(t: Seq<char>) -> int {
    mantissa(t, fraction_end(t)).0
}

/// The power of ten that scales the kept digits.
pub open spec fn decimal_exponent(t: Seq<char>) -> int {
    mantissa(t, fraction_end(t)).1 + exponent_value(t) - fraction_digits(t)
}

/// `m * 10^e` as a fraction of two `i64`s, rounded toward zero where it is
/// not exact: a whole number over one, saturating at `i64::MAX`; or `m`
/// over a power of ten, the denominator at most `10^18`, the numerator
/// divided down where a larger one would be needed.
pub open spec fn scaled_frac(m: int, e: int) -> Frac {
    if m == 0 {
        Frac { num: 0, den: 1 }
    } else if e >= 0 {
        if m * pow10(e as nat) <= i64::MAX {
            Frac { num: (m * pow10(e as nat)) as i64, den: 1 }
        } else {
            Frac { num: i64::MAX, den: 1 }
        }
    } else if -e <= 18 {
        Frac { num: m as i64, den: pow10((-e) as nat) as i64 }
    } else {
        Frac { num: (m / pow10((-e - 18) as nat)) as i64, den: 1000000000000000000 }
    }
}

/// The value of a decimal number, rounded as `scaled_frac` does, or `None`
/// where the text is not a decimal number.
pub open spec fn decimal_value(t: Seq<char>) -> Option<Frac> {
    if decimal_syntax(t) {
        Some(scaled_frac(decimal_mantissa(t), decimal_exponent(t)))
    } else {
        None
    }
}

/// `x` capped at `c`.
pub open spec fn capped(x: int, c: int) -> int {
    if x < c {
        x
    } else {
        c
    }
}

pub proof fn lemma_digits_value_nonneg(t: Seq<char>, a: int, b: int)
    ensures
        digits_value(t, a, b) >= 0,
    decreases b - a,
{
    if b > a {
        lemma_digits_value_nonneg(t, a, b - 1);
    }
}

pub proof fn lemma_pow10_monotone(a: nat, b: nat)
    requires
        a <= b,
    ensures
        1 <= pow10(a) <= pow10(b),
    decreases b,
{
    if a < b {
        lemma_pow10_monotone(a, (b - 1) as nat);
    } else if a > 0 {
        lemma_pow10_monotone((a - 1) as nat, (a - 1) as nat);
    }
}

proof fn lemma_pow10_19()
    ensures
        pow10(19) > i64::MAX,
{
    reveal_with_fuel(pow10, 20);
}

pub proof fn lemma_pow10_18()
    ensures
        pow10(18) == 1000000000000000000,
{
    reveal_with_fuel(pow10, 19);
}

/// An exponent beyond the fraction digits plus the dropped digits plus 40
/// saturates or vanishes, however far beyond it is.
proof fn lemma_exponent_cap(m: int, x: int, c: int, k: int, f: int, neg: bool)
    requires
        1 <= m < 1000000000000000000,
        f >= 0,
        k >= 0,
        c == f + k + 40,
        x >= c,
    ensures
        scaled_frac(m, k + (if neg { -x } else { x }) - f) == scaled_frac(
            m,
            k + (if neg { -c } else { c }) - f,
        ),
{
    lemma_pow10_19();
    lemma_pow10_18();
    let e = k + (if neg {
        -x
    } else {
        x
    }) - f;
    let ec = k + (if neg {
        -c
    } else {
        c
    }) - f;
    if neg {
        lemma_pow10_monotone(18, (-e - 18) as nat);
        lemma_pow10_monotone(18, (-ec - 18) as nat);
        let p = pow10((-e - 18) as nat);
        let pc = pow10((-ec - 18) as nat);
        assert(m / p == 0) by (nonlinear_arith)
            requires
                0 <= m < p,
        ;
        assert(m / pc == 0) by (nonlinear_arith)
            requires
                0 <= m < pc,
        ;
    } else {
        lemma_pow10_monotone(19, e as nat);
        lemma_pow10_monotone(19, ec as nat);
        assert(m * pow10(e as nat) >= pow10(e as nat)) by (nonlinear_arith)
            requires
                m >= 1,
                pow10(e as nat) >= 1,
        ;
        assert(m * pow10(ec as nat) >= pow10(ec as nat)) by (nonlinear_arith)
            requires
                m >= 1,
                pow10(ec as nat) >= 1,
        ;
    }
}

fn char_is_digit(c: char) -> (r: bool)
    ensures
        r == is_digit(c),
{
    '0' <= c && c <= '9'
}

fn char_digit(c: char) -> (r: u64)
    requires
        is_digit(c),
    ensures
        r == digit_value(c),
        r <= 9,
{
    (c as u32 - '0' as u32) as u64
}

/// `10^k`, or `None` where it exceeds `i64::MAX`.
fn pow10_within_i64(k: u128) -> (r: Option<u128>)
    ensures
        match r {
            Some(p) => p == pow10(k as nat) && p <= i64::MAX,
            None => pow10(k as nat) > i64::MAX,
        },
{
    let mut p: u128 = 1;
    let mut i: u128 = 0;
    while i < k
        invariant
            i <= k,
            p == pow10(i as nat),
            p <= i64::MAX,
        decreases k - i,
    {
        if p * 10 > 9223372036854775807 {
            proof {
                lemma_pow10_monotone((i + 1) as nat, k as nat);
            }
            return None;
        }
        p = p * 10;
        i = i + 1;
    }
    Some(p)
}

/// `m * 10^e` as a fraction of two `i64`s, rounded as `scaled_frac` says.
fn scale(m: u64, e: i128) -> (r: Frac)
    requires
        m < 1000000000000000000,
        e > i128::MIN,
    ensures
        r == scaled_frac(m as int, e as int),
        r.wf(),
        r.num >= 0,
{
    proof {
        lemma_pow10_18();
    }
    if m == 0 {
        return Frac { num: 0, den: 1 };
    }
    if e >= 0 {
        match pow10_within_i64(e as u128) {
            None => {
                assert(m * pow10(e as nat) >= pow10(e as nat)) by (nonlinear_arith)
                    requires
                        m >= 1,
                        pow10(e as nat) >= 1,
                ;
                Frac { num: i64::MAX, den: 1 }
            },
            Some(p) => {
                assert((m as u128) * p <= 1000000000000000000 * 9223372036854775807) by (
                nonlinear_arith)
                    requires
                        m < 1000000000000000000,
                        p <= 9223372036854775807,
                ;
                let v = (m as u128) * p;
                if v > 9223372036854775807 {
                    Frac { num: i64::MAX, den: 1 }
                } else {
                    Frac { num: v as i64, den: 1 }
                }
            },
        }
    } else {
        let k = (0 - e) as u128;
        if k <= 18 {
            proof {
                lemma_pow10_monotone(k as nat, 18);
                lemma_pow10_monotone(0, k as nat);
            }
            match pow10_within_i64(k) {
                Some(p) => Frac { num: m as i64, den: p as i64 },
                None => Frac { num: 0, den: 1 },
            }
        } else {
            match pow10_within_i64(k - 18) {
                None => {
                    proof {
                        lemma_pow10_19();
                        let p = pow10((k - 18) as nat);
                        let mi = m as int;
                        assert(mi / p == 0) by (nonlinear_arith)
                            requires
                                0 <= mi < p,
                        ;
                    }
                    Frac { num: 0, den: 1000000000000000000 }
                },
                Some(p) => {
                    proof {
                        lemma_pow10_monotone(0, (k - 18) as nat);
                    }
                    assert(m as u128 / p <= m) by (nonlinear_arith)
                        requires
                            p >= 1,
                    ;
                    Frac { num: (m as u128 / p) as i64, den: 1000000000000000000 }
                },
            }
        }
    }
}

/// Reads the digits of `t[i..]` into the mantissa state while they last.
fn read_digits(t: &str, n: usize, i: usize, m: u64, k: u64) -> (r: (usize, u64, u64))
    requires
        n == t@.len(),
        i <= n,
        (m as int, k as int) == mantissa(t@, i as int),
        m < 1000000000000000000,
        k <= i,
    ensures
        i <= r.0 <= n,
        digit_end(t@, i as int) == r.0,
        (r.1 as int, r.2 as int) == mantissa(t@, r.0 as int),
        r.1 < 1000000000000000000,
        r.2 <= r.0,
{
    let ghost s = t@;
    let mut i = i;
    let mut m = m;
    let mut k = k;
    let ghost i0 = i;
    while i < n && char_is_digit(t.get_char(i))
        invariant
            n == s.len(),
            s == t@,
            i0 <= i <= n,
            digit_end(s, i0 as int) == digit_end(s, i as int),
            (m as int, k as int) == mantissa(s, i as int),
            m < 1000000000000000000,
            k <= i,
        decreases n - i,
    {
        let d = char_digit(t.get_char(i));
        if m < 100000000000000000 {
            m = m * 10 + d;
        } else {
            k = k + 1;
        }
        i = i + 1;
    }
    assert(digit_end(s, i as int) == i);
    (i, m, k)
}

/// The value of the decimal number in `t`, rounded as `decimal_value` says;
/// `None` where `t` is no decimal number.
pub fn parse_decimal(t: &str) -> (r: Option<Frac>)
    ensures
        r == decimal_value(t@),
        r matches Some(f) ==> f.wf() && f.num >= 0,
{
    let ghost s = t@;
    let n = t.unicode_len();
    let (i1, m1, k1) = read_digits(t, n, 0, 0, 0);
    if i1 == 0 {
        return None;
    }
    let mut i = i1;
    let mut m = m1;
    let mut k = k1;
    let mut nfrac: u128 = 0;
    if i < n && t.get_char(i) == '.' {
        assert(mantissa(s, i + 1) == mantissa(s, i as int));
        let (i2, m2, k2) = read_digits(t, n, i + 1, m, k);
        nfrac = (i2 - i - 1) as u128;
        i = i2;
        m = m2;
        k = k2;
    }
    let i2 = i;
    assert(fraction_end(s) == i2);
    assert(fraction_digits(s) == nfrac);
    let mut x: u128 = 0;
    let mut neg = false;
    let xcap: u128 = nfrac + (k as u128) + 40;
    if i2 < n {
        let c = t.get_char(i2);
        if c != 'e' && c != 'E' {
            return None;
        }
        let mut j: usize = i2 + 1;
        if j < n {
            let sc = t.get_char(j);
            if sc == '+' || sc == '-' {
                neg = sc == '-';
                j = j + 1;
            }
        }
        assert(exponent_start(s) == j);
        assert(exponent_negative(s) == neg);
        let j0 = j;
        while j < n && char_is_digit(t.get_char(j))
            invariant
                n == s.len(),
                s == t@,
                j0 <= j <= n,
                digit_end(s, j0 as int) == digit_end(s, j as int),
                x == capped(digits_value(s, j0 as int, j as int), xcap as int),
                xcap == nfrac + k + 40,
                nfrac <= n,
                k <= n,
            decreases n - j,
        {
            let d = char_digit(t.get_char(j)) as u128;
            proof {
                lemma_digits_value_nonneg(s, j0 as int, j as int);
            }
            x = if x >= xcap || x * 10 + d >= xcap {
                xcap
            } else {
                x * 10 + d
            };
            j = j + 1;
        }
        assert(digit_end(s, j as int) == j);
        if j != n || j == j0 {
            return None;
        }
        assert(digits_value(s, j0 as int, j as int) == digits_value(s, exponent_start(s), s.len() as int));
    }
    assert(decimal_syntax(s));
    let e: i128 = (k as i128) + (if neg {
        0 - (x as i128)
    } else {
        x as i128
    }) - (nfrac as i128);
    proof {
        let xr = if fraction_end(s) == s.len() {
            0
        } else {
            digits_value(s, exponent_start(s), s.len() as int)
        };
        if xr >= xcap && m >= 1 {
            lemma_exponent_cap(m as int, xr, xcap as int, k as int, nfrac as int, neg);
        }
    }
    Some(scale(m, e))
}


pub proof fn lemma_pow10_add(a: nat, b: nat)
    ensures
        pow10(a + b) == pow10(a) * pow10(b),
    decreases a,
{
    if a > 0 {
        lemma_pow10_add((a - 1) as nat, b);
        assert(pow10(a + b) == 10 * pow10((a - 1 + b) as nat));
        assert(10 * (pow10((a - 1) as nat) * pow10(b)) == (10 * pow10((a - 1) as nat)) * pow10(b))
            by (nonlinear_arith);
    }
}

/// The kept digits never exceed the digits read: `m * 10^k` is at most the
/// value of all digits, and digits are dropped only once `m` is large.
pub proof fn lemma_mantissa_bound(t: Seq<char>, b: int)
    ensures
        0 <= mantissa(t, b).0 < 1000000000000000000,
        mantissa(t, b).1 >= 0,
        mantissa(t, b).1 > 0 ==> mantissa(t, b).0 >= 100000000000000000,
        mantissa(t, b).0 * pow10(mantissa(t, b).1 as nat) <= digits_value(t, 0, b),
    decreases b,
{
    if b > 0 {
        lemma_mantissa_bound(t, b - 1);
        let (m, k) = mantissa(t, b - 1);
        let dv = digits_value(t, 0, b - 1);
        let p = pow10(k as nat);
        lemma_pow10_monotone(0, k as nat);
        if is_digit(t[b - 1]) {
            let d = digit_value(t[b - 1]);
            if m < 100000000000000000 {
                assert(k == 0);
                assert(pow10(0) == 1);
                assert((m * 10 + d) * 1 <= dv * 10 + d) by (nonlinear_arith)
                    requires
                        m * 1 <= dv,
                        p == 1,
                        m * p <= dv,
                ;
            } else {
                assert(pow10((k + 1) as nat) == 10 * p);
                assert(m * (10 * p) <= dv * 10 + d) by (nonlinear_arith)
                    requires
                        m * p <= dv,
                        d >= 0,
                ;
            }
        }
    }
}

} // verus!
