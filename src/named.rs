use crate::literal::{digit_end, digits_value, is_digit, lemma_digits_value_nonneg, capped};
use vstd::prelude::*;

verus! {

/// The color that the CSS palette gives a name, as red, green, blue, alpha.
pub uninterp spec fn css_color(name: Seq<char>) -> Option<[u8; 4]>;

/// The color of a shade of a palette family, as red, green, blue, alpha.
pub uninterp spec fn shade_color(family: Seq<char>, shade: usize) -> Option<[u8; 4]>;

/// Relies on `parse_color::parse`: the color of a CSS color name, found
/// without regard to case.
#[verifier::external_body]
fn lookup_css(name: &str) -> (r: Option<[u8; 4]>)
    ensures
        r == css_color(name@),
{
    parse_color::parse(name)
}

/// Relies on `parse_color::parse_tailwind`: the color of a numbered shade of a
/// TailwindCSS palette family.
#[verifier::external_body]
fn lookup_shade(family: &str, shade: usize) -> (r: Option<[u8; 4]>)
    ensures
        r == shade_color(family@, shade),
{
    parse_color::parse_tailwind(family, shade)
}

/// The first index at or after `i` that holds a decimal digit, or the length.
pub open spec fn first_digit(s: Seq<char>, i: int) -> int
    decreases s.len() - i,
{
    if i < 0 || i >= s.len() || is_digit(s[i]) {
        i
    } else {
        first_digit(s, i + 1)
    }
}

/// Whether the name ends in a shade index: from its first digit on, it is
/// all digits, and they fit a `usize`.
pub open spec fn has_shade(s: Seq<char>) -> bool {
    let k = first_digit(s, 0);
    &&& k < s.len()
    &&& digit_end(s, k) == s.len()
    &&& digits_value(s, k, s.len() as int) <= usize::MAX
}

/// The family part of a name with a shade index.
pub open spec fn shade_family(s: Seq<char>) -> Seq<char> {
    s.subrange(0, first_digit(s, 0))
}

/// The shade index of a name with one.
pub open spec fn shade_index(s: Seq<char>) -> usize {
    digits_value(s, first_digit(s, 0), s.len() as int) as usize
}

/// The color an identifier names: a shade lookup first where shades are
/// enabled and the name ends in digits, then the plain palette where names
/// are enabled.
pub open spec fn named_color(s: Seq<char>, named: bool, shades: bool) -> Option<[u8; 4]> {
    if shades && has_shade(s) && shade_color(shade_family(s), shade_index(s)) is Some {
        shade_color(shade_family(s), shade_index(s))
    } else if named {
        css_color(s)
    } else {
        None
    }
}

/// Splits a name into its family and its shade index, where it has one.
fn split_shade(name: &str) -> (r: Option<(&str, usize)>)
    ensures
        match r {
            Some((family, shade)) => has_shade(name@) && family@ == shade_family(name@) && shade
                == shade_index(name@),
            None => !has_shade(name@),
        },
{
    let ghost s = name@;
    let n = name.unicode_len();
    let mut k: usize = 0;
    while k < n && !(('0' <= name.get_char(k)) && (name.get_char(k) <= '9'))
        invariant
            n == s.len(),
            s == name@,
            k <= n,
            first_digit(s, 0) == first_digit(s, k as int),
        decreases n - k,
    {
        k = k + 1;
    }
    assert(first_digit(s, k as int) == k);
    if k == n {
        return None;
    }
    let cap: u128 = 18446744073709551616;
    let mut v: u128 = 0;
    let mut i: usize = k;
    while i < n && ('0' <= name.get_char(i)) && (name.get_char(i) <= '9')
        invariant
            n == s.len(),
            s == name@,
            cap == 18446744073709551616,
            k <= i <= n,
            digit_end(s, k as int) == digit_end(s, i as int),
            v == capped(digits_value(s, k as int, i as int), cap as int),
        decreases n - i,
    {
        let d = (name.get_char(i) as u32 - '0' as u32) as u128;
        proof {
            lemma_digits_value_nonneg(s, k as int, i as int);
        }
        v = if v >= cap || v * 10 + d >= cap {
            cap
        } else {
            v * 10 + d
        };
        i = i + 1;
    }
    assert(digit_end(s, i as int) == i);
    if i != n || v > usize::MAX as u128 {
        return None;
    }
    Some((name.substring_char(0, k), v as usize))
}

/// The color an identifier names, if any.
pub fn lookup_named(name: &str, named: bool, shades: bool) -> (r: Option<[u8; 4]>)
    ensures
        r == named_color(name@, named, shades),
{
    if shades {
        if let Some((family, shade)) = split_shade(name) {
            let found = lookup_shade(family, shade);
            if found.is_some() {
                return found;
            }
        }
    }
    if named {
        lookup_css(name)
    } else {
        None
    }
}

/// Widens the four bytes of a color to `i64` channels.
pub fn u8_to_i64(v: [u8; 4]) -> (r: [i64; 4])
    ensures
        r == widen(v),
{
    [v[0] as i64, v[1] as i64, v[2] as i64, v[3] as i64]
}

pub open spec fn widen(v: [u8; 4]) -> [i64; 4] {
    [v[0] as i64, v[1] as i64, v[2] as i64, v[3] as i64]
}

} // verus!
