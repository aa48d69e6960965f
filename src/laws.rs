use crate::convert::{all_zero_one, int_as_float, projected, Channel, Kind};
use crate::frac::{trunc_div, Frac};
use crate::parse::{hv, pair, slice_color, lit_color, arguments, exprs_color, list_color, split_state, ColorResult, ExprRange, Known};
use crate::literal::{
    decimal_syntax, decimal_value, digits_value, exponent_value, float_literal_number,
    fraction_digits, fraction_end, int_literal, lemma_mantissa_bound, lemma_pow10_18,
    lemma_pow10_add, lemma_pow10_monotone, mantissa, pow10, scaled_frac,
};
use crate::parse::literal_known;
use crate::token::Tok;
use vstd::prelude::*;

verus! {

/// An integer triple `[r, g, b]` with channels in `0..=255` reads as the
/// color `(r, g, b, 255)`; three integer channels give back `(r, g, b)`,
/// four give `(r, g, b, 255)`.
pub proof fn lemma_int_triple(r: i64, g: i64, b: i64)
    requires
        0 <= r <= 255,
        0 <= g <= 255,
        0 <= b <= 255,
    ensures
        list_color(seq![Known::Int(r), Known::Comma, Known::Int(g), Known::Comma, Known::Int(b)])
            == Ok::<ColorResult, crate::error::ErrorKind>(ColorResult::Integers([r, g, b, 255])),
        ColorResult::Integers([r, g, b, 255]).in_bounds(),
        projected(ColorResult::Integers([r, g, b, 255]), 3, Kind::Int) == seq![
            Channel::Int(r),
            Channel::Int(g),
            Channel::Int(b),
        ],
        projected(ColorResult::Integers([r, g, b, 255]), 4, Kind::Int) == seq![
            Channel::Int(r),
            Channel::Int(g),
            Channel::Int(b),
            Channel::Int(255),
        ],
{
    let ks = seq![Known::Int(r), Known::Comma, Known::Int(g), Known::Comma, Known::Int(b)];
    assert(crate::parse::int3(ks));
    assert(projected(ColorResult::Integers([r, g, b, 255]), 3, Kind::Int) =~= seq![
        Channel::Int(r),
        Channel::Int(g),
        Channel::Int(b),
    ]);
    assert(projected(ColorResult::Integers([r, g, b, 255]), 4, Kind::Int) =~= seq![
        Channel::Int(r),
        Channel::Int(g),
        Channel::Int(b),
        Channel::Int(255),
    ]);
}

/// An integer channel `v` becomes the float `v / 255`, unless every channel
/// taken is 0 or 1: then it becomes `v` itself.
pub proof fn lemma_int_channel_as_float(c: [i64; 4], n: nat, i: int)
    requires
        n == 3 || n == 4,
        0 <= i < n,
    ensures
        all_zero_one(c, n as int) ==> projected(ColorResult::Integers(c), n, Kind::Float)[i]
            == Channel::Float(Frac { num: c[i], den: 1 }),
        !all_zero_one(c, n as int) ==> projected(ColorResult::Integers(c), n, Kind::Float)[i]
            == Channel::Float(Frac { num: c[i], den: 255 }),
{
}

/// Integers turned into floats and back into integers come back unchanged
/// where the channels are bytes and not all 0 or 1.
pub proof fn lemma_int_float_round_trip(c: [i64; 4], n: nat)
    requires
        n == 3 || n == 4,
        forall|i: int| 0 <= i < 4 ==> 0 <= #[trigger] c[i] <= 255,
        !all_zero_one(c, n as int),
    ensures
        projected(ColorResult::Integers(c), n, Kind::Float) == projected(
            ColorResult::Floats(
                [
                    int_as_float(c[0], false),
                    int_as_float(c[1], false),
                    int_as_float(c[2], false),
                    int_as_float(c[3], false),
                ],
            ),
            n,
            Kind::Float,
        ),
        projected(
            ColorResult::Floats(
                [
                    int_as_float(c[0], false),
                    int_as_float(c[1], false),
                    int_as_float(c[2], false),
                    int_as_float(c[3], false),
                ],
            ),
            n,
            Kind::Int,
        ) == projected(ColorResult::Integers(c), n, Kind::Int),
{
    let f = [
        int_as_float(c[0], false),
        int_as_float(c[1], false),
        int_as_float(c[2], false),
        int_as_float(c[3], false),
    ];
    assert forall|i: int| 0 <= i < 4 implies (#[trigger] f[i]).spec_to_byte() == c[i] by {
        let v = c[i] as int;
        assert(trunc_div(v * 255, 255) == v) by (nonlinear_arith)
            requires
                0 <= v <= 255,
        ;
    }
    assert(projected(ColorResult::Integers(c), n, Kind::Float) =~= projected(
        ColorResult::Floats(f),
        n,
        Kind::Float,
    ));
    assert(projected(ColorResult::Floats(f), n, Kind::Int) =~= projected(
        ColorResult::Integers(c),
        n,
        Kind::Int,
    ));
}

/// With three channels the alpha expression is dropped: the output does
/// not depend on it, and holds just the first three slots.
pub proof fn lemma_alpha_expression_dropped(
    e: [Option<ExprRange>; 4],
    alpha: Option<ExprRange>,
    kind: Kind,
)
    ensures
        projected(ColorResult::Exprs(e), 3, kind) == projected(
            ColorResult::Exprs([e[0], e[1], e[2], alpha]),
            3,
            kind,
        ),
        projected(ColorResult::Exprs(e), 3, kind).len() == 3,
        e[3] matches Some(a) ==> forall|i: int|
            0 <= i < 3 && e[i] != Some(a) ==> #[trigger] projected(ColorResult::Exprs(e), 3, kind)[i]
                != Channel::Expr(a),
{
    assert(projected(ColorResult::Exprs(e), 3, kind) =~= projected(
        ColorResult::Exprs([e[0], e[1], e[2], alpha]),
        3,
        kind,
    ));
}


/// The items of a comma split come in order: each ends before the next one
/// starts, and before the place where the open item begins.
proof fn lemma_split_state_ordered(s: Seq<Tok>)
    requires
        s.len() <= usize::MAX,
    ensures
        0 <= split_state(s).1 <= s.len(),
        forall|i: int|
            0 <= i < split_state(s).0.len() ==> (#[trigger] split_state(s).0[i]).start
                <= split_state(s).0[i].end < split_state(s).1,
        forall|i: int, j: int|
            0 <= i < j < split_state(s).0.len() ==> (#[trigger] split_state(s).0[i]).end
                < (#[trigger] split_state(s).0[j]).start,
    decreases s.len(),
{
    if s.len() > 0 {
        lemma_split_state_ordered(s.drop_last());
    }
}

/// The items between top-level commas are disjoint and in order.
pub proof fn lemma_arguments_ordered(s: Seq<Tok>)
    requires
        s.len() <= usize::MAX,
    ensures
        forall|i: int| 0 <= i < arguments(s).len() ==> (#[trigger] arguments(s)[i]).start <= arguments(s)[i].end,
        forall|i: int, j: int|
            0 <= i < j < arguments(s).len() ==> (#[trigger] arguments(s)[i]).end
                < (#[trigger] arguments(s)[j]).start,
{
    lemma_split_state_ordered(s);
}

/// In a parenthesised color of four expressions, the alpha expression never
/// reaches a three-channel output: none of the three channels is it.
pub proof fn lemma_alpha_never_emitted(s: Seq<Tok>, kind: Kind)
    requires
        s.len() <= usize::MAX,
        exprs_color(s) is Ok,
        arguments(s).len() == 4,
    ensures
        forall|i: int|
            0 <= i < 3 ==> #[trigger] projected(exprs_color(s)->Ok_0, 3, kind)[i] != Channel::Expr(
                arguments(s)[3],
            ),
{
    lemma_arguments_ordered(s);
    let a = arguments(s);
    assert forall|i: int| 0 <= i < 3 implies #[trigger] projected(exprs_color(s)->Ok_0, 3, kind)[i]
        != Channel::Expr(a[3]) by {
        assert(a[i].end < a[3].start);
    }
}

/// A splat whose count is neither 3 nor 4 is refused.
pub proof fn lemma_splat_count(a: i64, count: i64)
    requires
        count != 3 && count != 4,
    ensures
        list_color(seq![Known::Int(a), Known::SemiColon, Known::Int(count)])
            == Err::<ColorResult, crate::error::ErrorKind>(crate::error::ErrorKind::SplatCount),
{
}


/// A hex digit in the usual sense: `0-9`, `a-f` or `A-F`.
pub open spec fn is_hex_digit(c: char) -> bool {
    ('0' <= c <= '9') || ('a' <= c <= 'f') || ('A' <= c <= 'F')
}

/// Six or eight hex digits read byte for byte: each pair of digits is one
/// channel in `0..=255`, and alpha is 255 where there are six.
pub proof fn lemma_hex_pairs(d: Seq<char>, compact: bool)
    requires
        d.len() == 6 || d.len() == 8,
        forall|i: int| 0 <= i < d.len() ==> is_hex_digit(#[trigger] d[i]),
    ensures
        slice_color(d, compact) == Ok::<[i64; 4], crate::error::ErrorKind>(
            [pair(d, 0), pair(d, 2), pair(d, 4), if d.len() == 8 { pair(d, 6) } else { 255 }],
        ),
        forall|i: int| 0 <= i < d.len() - 1 ==> 0 <= #[trigger] pair(d, i) <= 255,
{
    assert forall|i: int| 0 <= i < d.len() implies (#[trigger] crate::parse::hex_value(d[i])) is Some && 0 <= hv(d[i]) <= 15 by {
        assert(is_hex_digit(d[i]));
    }
    assert forall|i: int| 0 <= i < d.len() - 1 implies 0 <= #[trigger] pair(d, i) <= 255 by {
        assert(0 <= hv(d[i]) <= 15 && 0 <= hv(d[i + 1]) <= 15);
    }
}

/// A quoted string `"#rrggbb"` or `"#rrggbbaa"` reads as its hex digits.
pub proof fn lemma_hash_string_digits(t: Seq<char>, compact: bool)
    requires
        t.len() >= 3,
        t[0] == '"',
        t[1] == '#',
    ensures
        lit_color(t, compact) == slice_color(t.subrange(2, t.len() - 1), compact),
{
}


/// The exact value `d * 10^e` lies at most at 1.
pub open spec fn at_most_one(d: int, e: int) -> bool {
    if e >= 0 {
        d * pow10(e as nat) <= 1
    } else {
        d <= pow10((-e) as nat)
    }
}

/// The exact value of a decimal number lies at most at 1.
pub open spec fn decimal_at_most_one(t: Seq<char>) -> bool {
    at_most_one(digits_value(t, 0, fraction_end(t)), exponent_value(t) - fraction_digits(t))
}

/// Rounding toward zero keeps a value of at most 1 within `0.0..=1.0`.
proof fn lemma_scaled_in_unit(m: int, k: int, d: int, e: int)
    requires
        0 <= m < 1000000000000000000,
        k >= 0,
        m * pow10(k as nat) <= d,
        at_most_one(d, e),
    ensures
        scaled_frac(m, k + e).in_unit(),
        scaled_frac(m, k + e).wf(),
{
    lemma_pow10_18();
    let x = k + e;
    let pk = pow10(k as nat);
    lemma_pow10_monotone(0, k as nat);
    if m == 0 {
    } else if x >= 0 {
        let px = pow10(x as nat);
        lemma_pow10_monotone(0, x as nat);
        if e >= 0 {
            lemma_pow10_add(k as nat, e as nat);
            lemma_pow10_monotone(0, e as nat);
            let pe = pow10(e as nat);
            assert(m * px <= 1) by (nonlinear_arith)
                requires
                    px == pk * pe,
                    m * pk <= d,
                    d * pe <= 1,
                    pe >= 1,
            ;
        } else {
            lemma_pow10_add(x as nat, (-e) as nat);
            let pe = pow10((-e) as nat);
            lemma_pow10_monotone(0, (-e) as nat);
            assert(m * px <= 1) by (nonlinear_arith)
                requires
                    pk == px * pe,
                    m * pk <= d,
                    d <= pe,
                    pe >= 1,
                    m >= 0,
                    px >= 1,
            ;
        }
    } else {
        lemma_pow10_add((-x) as nat, k as nat);
        let pnx = pow10((-x) as nat);
        assert(m <= pnx) by (nonlinear_arith)
            requires
                pow10((-e) as nat) == pnx * pk,
                m * pk <= d,
                d <= pow10((-e) as nat),
                pk >= 1,
        ;
        if -x <= 18 {
            lemma_pow10_monotone((-x) as nat, 18);
            lemma_pow10_monotone(0, (-x) as nat);
        } else {
            lemma_pow10_add((-x - 18) as nat, 18);
            let p = pow10((-x - 18) as nat);
            lemma_pow10_monotone(0, (-x - 18) as nat);
            assert(m / p <= 1000000000000000000) by (nonlinear_arith)
                requires
                    pnx == p * 1000000000000000000,
                    m <= pnx,
                    p >= 1,
                    m >= 0,
            ;
            assert(m / p >= 0) by (nonlinear_arith)
                requires
                    p >= 1,
                    m >= 0,
            ;
        }
    }
}

/// A float literal reads as a float whenever its exact value lies in
/// `0.0..=1.0`; where ranges are not checked, every float literal whose
/// number is a decimal number does. Its value is the literal's value rounded
/// toward zero.
pub proof fn lemma_float_literal_reads(text: Seq<char>, pos: usize, checked: bool)
    requires
        int_literal(text) is None,
        float_literal_number(text) is Some,
        decimal_syntax(float_literal_number(text)->Some_0),
        checked ==> decimal_at_most_one(float_literal_number(text)->Some_0),
    ensures
        literal_known(text, pos, checked) == Ok::<Known, crate::error::ColorError>(
            Known::Float(decimal_value(float_literal_number(text)->Some_0)->Some_0),
        ),
{
    let t = float_literal_number(text)->Some_0;
    if checked {
        lemma_mantissa_bound(t, fraction_end(t));
        lemma_scaled_in_unit(
            mantissa(t, fraction_end(t)).0,
            mantissa(t, fraction_end(t)).1,
            digits_value(t, 0, fraction_end(t)),
            exponent_value(t) - fraction_digits(t),
        );
    }
}

} // verus!
