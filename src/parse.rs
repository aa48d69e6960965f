use crate::error::{ColorError, ErrorKind};
use crate::frac::Frac;
use crate::literal::{
    decimal_value, float_literal_number, int_literal, lex_float, lex_integer, parse_decimal,
};
use crate::named::{lookup_named, named_color, u8_to_i64, widen};
use crate::token::{Delim, Tok};
use vstd::prelude::*;

verus! {

/// What happens to channels outside their range.
#[derive(Debug, Clone, Copy, PartialEq, Eq, Structural)]
pub enum Posture {
    /// Out-of-range numbers and channels are errors.
    Checked,
    /// Nothing is checked.
    Unchecked,
    /// Channels are clamped into range.
    Clamp,
}

/// The build options of the color syntax.
#[derive(Debug, Clone, Copy, PartialEq, Eq, Structural)]
pub struct Config {
    pub posture: Posture,
    /// Accept 3 and 4 digit hex colors.
    pub compact: bool,
    /// Accept plain color names.
    pub named: bool,
    /// Accept color names with a numbered shade; independent of `named`.
    pub shades: bool,
}

impl Default for Config {
    /// Ranges checked, no compact hex, names and shades accepted.
    fn default() -> (r: Config)
        ensures
            r == (Config { posture: Posture::Checked, compact: false, named: true, shades: true }),
    {
        Config { posture: Posture::Checked, compact: false, named: true, shades: true }
    }
}

/// A token of a bracketed number list.
#[derive(Debug, Clone, Copy, PartialEq, Eq, Structural)]
pub enum Known {
    Int(i64),
    Float(Frac),
    Comma,
    Neg,
    SemiColon,
}

/// The tokens `start..end` of a parenthesised color's inner tokens: one
/// expression, left unevaluated.
#[derive(Debug, Clone, Copy, PartialEq, Eq, Structural)]
pub struct ExprRange {
    pub start: usize,
    pub end: usize,
}

/// A destination field name and the handle of its token.
#[derive(Debug, PartialEq, Eq)]
pub struct Field {
    pub name: String,
    pub pos: usize,
}

/// A parsed color: four channels as integers, as fractions or as deferred
/// expressions, optionally with the field names to fill.
#[derive(Debug, PartialEq, Eq)]
pub enum ColorResult {
    Integers([i64; 4]),
    Floats([Frac; 4]),
    Exprs([Option<ExprRange>; 4]),
    IntFields([i64; 4], Vec<Field>),
    FloatFields([Frac; 4], Vec<Field>),
    ExprFields([Option<ExprRange>; 4], Vec<Field>),
}

pub open spec fn err(kind: ErrorKind, at: usize) -> ColorError {
    ColorError { kind, at: Some(at) }
}

pub open spec fn is_number(k: Known) -> bool {
    k is Int || k is Float
}

/// A number not below zero, as every literal is.
pub open spec fn non_negative(k: Known) -> bool {
    &&& k matches Known::Int(v) ==> v >= 0
    &&& k matches Known::Float(f) ==> f.num >= 0 && f.wf()
}

/// How one literal reads in a number list.
pub open spec fn literal_known(text: Seq<char>, pos: usize, checked: bool) -> Result<
    Known,
    ColorError,
> {
    match int_literal(text) {
        Some(Some(v)) => if checked && !(0 <= v <= 255) {
            Err(err(ErrorKind::IntegerOutOfRange, pos))
        } else {
            Ok(Known::Int(v))
        },
        Some(None) => Err(err(ErrorKind::IntegerOverflow, pos)),
        None => match float_literal_number(text) {
            Some(number) => match decimal_value(number) {
                Some(f) => if checked && !f.in_unit() {
                    Err(err(ErrorKind::FloatOutOfRange, pos))
                } else {
                    Ok(Known::Float(f))
                },
                None => Err(err(ErrorKind::FloatOverflow, pos)),
            },
            None => Err(err(ErrorKind::ExpectedNumber, pos)),
        },
    }
}

/// How one token reads in a number list; a group without delimiters that
/// holds one token reads as that token.
pub open spec fn known_of(t: Tok, checked: bool) -> Result<Known, ColorError>
    decreases t,
{
    match t {
        Tok::Lit { text, pos } => literal_known(text@, pos, checked),
        Tok::Punct { ch, pos, .. } => if ch == ',' {
            Ok(Known::Comma)
        } else if ch == ';' {
            Ok(Known::SemiColon)
        } else if ch == '-' {
            Ok(Known::Neg)
        } else {
            Err(err(ErrorKind::ExpectedNumber, pos))
        },
        Tok::Group { delim, inner, pos } => if delim == Delim::Invisible && inner@.len() == 1 {
            known_of(inner@[0], checked)
        } else {
            Err(err(ErrorKind::ExpectedNumber, pos))
        },
        Tok::Ident { pos, .. } => Err(err(ErrorKind::ExpectedNumber, pos)),
    }
}

fn read_literal(text: &String, pos: usize, checked: bool) -> (r: Result<Known, ColorError>)
    ensures
        r == literal_known(text@, pos, checked),
        r matches Ok(k) ==> non_negative(k),
{
    match lex_integer(text.as_str()) {
        Some(Some(v)) => {
            if checked && !(0 <= v && v <= 255) {
                Err(ColorError::new(ErrorKind::IntegerOutOfRange, Some(pos)))
            } else {
                Ok(Known::Int(v))
            }
        },
        Some(None) => Err(ColorError::new(ErrorKind::IntegerOverflow, Some(pos))),
        None => match lex_float(text.as_str()) {
            Some(number) => match parse_decimal(number.as_str()) {
                Some(f) => {
                    if checked && !f.is_in_unit() {
                        Err(ColorError::new(ErrorKind::FloatOutOfRange, Some(pos)))
                    } else {
                        Ok(Known::Float(f))
                    }
                },
                None => Err(ColorError::new(ErrorKind::FloatOverflow, Some(pos))),
            },
            None => Err(ColorError::new(ErrorKind::ExpectedNumber, Some(pos))),
        },
    }
}

/// Reads one token of a number list.
fn parse_tt(t: &Tok, checked: bool) -> (r: Result<Known, ColorError>)
    ensures
        r == known_of(*t, checked),
        r matches Ok(k) ==> non_negative(k),
    decreases t,
{
    match t {
        Tok::Lit { text, pos } => read_literal(text, *pos, checked),
        Tok::Punct { ch, pos, .. } => {
            if *ch == ',' {
                Ok(Known::Comma)
            } else if *ch == ';' {
                Ok(Known::SemiColon)
            } else if *ch == '-' {
                Ok(Known::Neg)
            } else {
                Err(ColorError::new(ErrorKind::ExpectedNumber, Some(*pos)))
            }
        },
        Tok::Group { delim, inner, pos } => {
            if *delim == Delim::Invisible && inner.len() == 1 {
                parse_tt(&inner[0], checked)
            } else {
                Err(ColorError::new(ErrorKind::ExpectedNumber, Some(*pos)))
            }
        },
        Tok::Ident { pos, .. } => Err(ColorError::new(ErrorKind::ExpectedNumber, Some(*pos))),
    }
}


/// How every token of a number list reads; the first token that does not
/// read decides the error.
pub open spec fn known_all(s: Seq<Tok>, checked: bool) -> Result<Seq<Known>, ColorError>
    decreases s.len(),
{
    if s.len() == 0 {
        Ok(Seq::empty())
    } else {
        match known_all(s.drop_last(), checked) {
            Err(e) => Err(e),
            Ok(ks) => match known_of(s.last(), checked) {
                Err(e) => Err(e),
                Ok(k) => Ok(ks.push(k)),
            },
        }
    }
}

/// The list without one trailing comma.
pub open spec fn without_trailing_comma(ks: Seq<Known>) -> Seq<Known> {
    if ks.len() > 0 && ks.last() == Known::Comma {
        ks.drop_last()
    } else {
        ks
    }
}

/// Every `-` is followed by a number.
pub open spec fn negations_valid(ks: Seq<Known>) -> bool {
    forall|i: int| 0 <= i < ks.len() && #[trigger] ks[i] == Known::Neg ==> i + 1 < ks.len() && is_number(ks[i + 1])
}

pub open spec fn negated(k: Known) -> Known {
    match k {
        Known::Int(v) => Known::Int((-v) as i64),
        Known::Float(f) => Known::Float(Frac { num: (-f.num) as i64, den: f.den }),
        _ => k,
    }
}

/// The list with each `-` folded into the number after it.
pub open spec fn fold_negations(ks: Seq<Known>) -> Seq<Known>
    decreases ks.len(),
{
    let n = ks.len();
    if n == 0 {
        ks
    } else if n >= 2 && ks[n - 2] == Known::Neg && is_number(ks[n - 1]) {
        fold_negations(ks.take(n - 2)).push(negated(ks[n - 1]))
    } else if ks[n - 1] == Known::Neg {
        fold_negations(ks.drop_last())
    } else {
        fold_negations(ks.drop_last()).push(ks[n - 1])
    }
}

/// A fraction in the list has a positive denominator.
pub open spec fn known_wf(k: Known) -> bool {
    k matches Known::Float(f) ==> f.wf()
}

pub open spec fn int_of(k: Known) -> i64 {
    match k {
        Known::Int(v) => v,
        _ => 0,
    }
}

pub open spec fn float_of(k: Known) -> Frac {
    match k {
        Known::Float(f) => f,
        _ => Frac { num: 0, den: 1 },
    }
}

impl Known {
    /// A number as a fraction, an integer standing for itself.
    pub open spec fn spec_cast(self) -> Frac {
        match self {
            Known::Int(v) => Frac { num: v, den: 1 },
            Known::Float(f) => f,
            _ => Frac { num: 0, den: 1 },
        }
    }

    /// A number as a fraction, an integer standing for a byte.
    pub open spec fn spec_parse_f64(self) -> Frac {
        match self {
            Known::Int(v) => Frac { num: v, den: 255 },
            Known::Float(f) => f,
            _ => Frac { num: 0, den: 1 },
        }
    }

    pub fn cast(&self) -> (r: Frac)
        requires
            is_number(*self),
        ensures
            r == self.spec_cast(),
    {
        match self {
            Known::Int(v) => Frac { num: *v, den: 1 },
            Known::Float(f) => *f,
            _ => Frac { num: 0, den: 1 },
        }
    }

    pub fn parse_f64(&self) -> (r: Frac)
        requires
            is_number(*self),
        ensures
            r == self.spec_parse_f64(),
    {
        match self {
            Known::Int(v) => Frac { num: *v, den: 255 },
            Known::Float(f) => *f,
            _ => Frac { num: 0, den: 1 },
        }
    }

    /// Negates a number.
    pub fn make_neg(&mut self)
        requires
            is_number(*old(self)),
            non_negative(*old(self)),
        ensures
            *final(self) == negated(*old(self)),
    {
        match self {
            Known::Int(v) => {
                *v = -*v;
            },
            Known::Float(f) => {
                *f = f.negate();
            },
            _ => {},
        }
    }
}

pub open spec fn int3(ks: Seq<Known>) -> bool {
    ks.len() == 5 && ks[0] is Int && ks[1] == Known::Comma && ks[2] is Int && ks[3]
        == Known::Comma && ks[4] is Int
}

pub open spec fn int4(ks: Seq<Known>) -> bool {
    ks.len() == 7 && int3(ks.take(5)) && ks[5] == Known::Comma && ks[6] is Int
}

pub open spec fn num3(ks: Seq<Known>) -> bool {
    ks.len() == 5 && is_number(ks[0]) && ks[1] == Known::Comma && is_number(ks[2]) && ks[3]
        == Known::Comma && is_number(ks[4])
}

pub open spec fn num4(ks: Seq<Known>) -> bool {
    ks.len() == 7 && num3(ks.take(5)) && ks[5] == Known::Comma && is_number(ks[6])
}

/// `[v; n]` with `v` of the given kind.
pub open spec fn splat(ks: Seq<Known>, float: bool) -> bool {
    ks.len() == 3 && (if float {
        ks[0] is Float
    } else {
        ks[0] is Int
    }) && ks[1] == Known::SemiColon && ks[2] is Int
}

/// `[v; n, a]` with numbers `v` and `a`.
pub open spec fn splat_alpha(ks: Seq<Known>) -> bool {
    ks.len() == 5 && is_number(ks[0]) && ks[1] == Known::SemiColon && ks[3] == Known::Comma
        && is_number(ks[4])
}

/// The color that a folded number list denotes; the patterns are tried in
/// order.
pub open spec fn list_color(ks: Seq<Known>) -> Result<ColorResult, ErrorKind> {
    if int3(ks) {
        Ok(ColorResult::Integers([int_of(ks[0]), int_of(ks[2]), int_of(ks[4]), 255]))
    } else if int4(ks) {
        Ok(ColorResult::Integers([int_of(ks[0]), int_of(ks[2]), int_of(ks[4]), int_of(ks[6])]))
    } else if num3(ks) {
        Ok(ColorResult::Floats([ks[0].spec_cast(), ks[2].spec_cast(), ks[4].spec_cast(), Frac { num: 1, den: 1 }]))
    } else if num4(ks) {
        Ok(ColorResult::Floats([ks[0].spec_cast(), ks[2].spec_cast(), ks[4].spec_cast(), ks[6].spec_cast()]))
    } else if splat(ks, false) {
        let a = int_of(ks[0]);
        if int_of(ks[2]) == 3 {
            Ok(ColorResult::Integers([a, a, a, 255]))
        } else if int_of(ks[2]) == 4 {
            Ok(ColorResult::Integers([a, a, a, a]))
        } else {
            Err(ErrorKind::SplatCount)
        }
    } else if splat(ks, true) {
        let a = float_of(ks[0]);
        if int_of(ks[2]) == 3 {
            Ok(ColorResult::Floats([a, a, a, Frac { num: 1, den: 1 }]))
        } else if int_of(ks[2]) == 4 {
            Ok(ColorResult::Floats([a, a, a, a]))
        } else {
            Err(ErrorKind::SplatCount)
        }
    } else if splat_alpha(ks) && ks[0] is Int && ks[2] == Known::Int(3) && ks[4] is Int {
        let a = int_of(ks[0]);
        Ok(ColorResult::Integers([a, a, a, int_of(ks[4])]))
    } else if splat_alpha(ks) && ks[2] == Known::Int(3) {
        let a = ks[0].spec_parse_f64();
        Ok(ColorResult::Floats([a, a, a, ks[4].spec_parse_f64()]))
    } else if splat_alpha(ks) {
        Err(ErrorKind::SplatAlphaCount)
    } else {
        Err(ErrorKind::UnknownColorSyntax)
    }
}

/// The color of a bracketed group at `pos` with tokens `s`.
pub open spec fn numbers_color(s: Seq<Tok>, pos: usize, checked: bool) -> Result<
    ColorResult,
    ColorError,
> {
    match known_all(s, checked) {
        Err(e) => Err(e),
        Ok(ks) => {
            let ks = without_trailing_comma(ks);
            if !negations_valid(ks) {
                Err(err(ErrorKind::InvalidNegation, pos))
            } else {
                match list_color(fold_negations(ks)) {
                    Ok(c) => Ok(c),
                    Err(kind) => Err(err(kind, pos)),
                }
            }
        },
    }
}

proof fn lemma_known_all_err(s: Seq<Tok>, j: int, checked: bool)
    requires
        0 <= j <= s.len(),
        known_all(s.take(j), checked) is Err,
    ensures
        known_all(s, checked) == known_all(s.take(j), checked),
    decreases s.len() - j,
{
    if j == s.len() {
        assert(s.take(j) =~= s);
    } else {
        assert(s.take(j + 1).drop_last() =~= s.take(j));
        lemma_known_all_err(s, j + 1, checked);
    }
}

fn is_num(k: Known) -> (r: bool)
    ensures
        r == is_number(k),
{
    match k {
        Known::Int(_) => true,
        Known::Float(_) => true,
        _ => false,
    }
}

fn is_int(k: Known) -> (r: bool)
    ensures
        r == (k is Int),
{
    match k {
        Known::Int(_) => true,
        _ => false,
    }
}

fn is_float(k: Known) -> (r: bool)
    ensures
        r == (k is Float),
{
    match k {
        Known::Float(_) => true,
        _ => false,
    }
}

fn get_int(k: Known) -> (r: i64)
    ensures
        r == int_of(k),
{
    match k {
        Known::Int(v) => v,
        _ => 0,
    }
}

fn get_float(k: Known) -> (r: Frac)
    ensures
        r == float_of(k),
{
    match k {
        Known::Float(f) => f,
        _ => Frac { num: 0, den: 1 },
    }
}

/// Folds each `-` into the number that follows it.
fn fold_negs(ks: &Vec<Known>, pos: usize) -> (r: Result<Vec<Known>, ColorError>)
    requires
        forall|j: int| 0 <= j < ks@.len() ==> non_negative(#[trigger] ks@[j]),
    ensures
        match r {
            Ok(out) => negations_valid(ks@) && out@ == fold_negations(ks@) && (forall|j: int|
                0 <= j < out@.len() ==> known_wf(#[trigger] out@[j])),
            Err(e) => !negations_valid(ks@) && e == err(ErrorKind::InvalidNegation, pos),
        },
{
    let n = ks.len();
    let mut out: Vec<Known> = Vec::new();
    let mut i: usize = 0;
    while i < n
        invariant
            n == ks@.len(),
            i <= n,
            forall|j: int| 0 <= j < ks@.len() ==> non_negative(#[trigger] ks@[j]),
            out@ == fold_negations(ks@.take(i as int)),
            forall|j: int| 0 <= j < out@.len() ==> known_wf(#[trigger] out@[j]),
            i == 0 || ks@[i - 1] != Known::Neg,
            forall|j: int|
                0 <= j < i && #[trigger] ks@[j] == Known::Neg ==> j + 1 < n && is_number(ks@[j + 1]),
        decreases n - i,
    {
        let k = ks[i];
        if k == Known::Neg {
            if i + 1 < n && is_num(ks[i + 1]) {
                let mut m = ks[i + 1];
                m.make_neg();
                out.push(m);
                assert(ks@.take(i + 2).take(i as int) =~= ks@.take(i as int));
                i = i + 2;
            } else {
                return Err(ColorError::new(ErrorKind::InvalidNegation, Some(pos)));
            }
        } else {
            out.push(k);
            assert(ks@.take(i + 1).drop_last() =~= ks@.take(i as int));
            i = i + 1;
        }
    }
    assert(ks@.take(n as int) =~= ks@);
    Ok(out)
}

/// Matches a folded number list against the patterns, in order.
fn list_shape(ks: &Vec<Known>) -> (r: Result<ColorResult, ErrorKind>)
    requires
        forall|j: int| 0 <= j < ks@.len() ==> known_wf(#[trigger] ks@[j]),
    ensures
        r == list_color(ks@),
        r matches Ok(c) ==> c.wf(),
{
    let n = ks.len();
    let one = Frac { num: 1, den: 1 };
    if n == 5 && is_int(ks[0]) && ks[1] == Known::Comma && is_int(ks[2]) && ks[3] == Known::Comma
        && is_int(ks[4]) {
        return Ok(ColorResult::Integers([get_int(ks[0]), get_int(ks[2]), get_int(ks[4]), 255]));
    }
    if n == 7 && is_int(ks[0]) && ks[1] == Known::Comma && is_int(ks[2]) && ks[3] == Known::Comma
        && is_int(ks[4]) && ks[5] == Known::Comma && is_int(ks[6]) {
        return Ok(
            ColorResult::Integers([get_int(ks[0]), get_int(ks[2]), get_int(ks[4]), get_int(ks[6])]),
        );
    }
    if n == 5 && is_num(ks[0]) && ks[1] == Known::Comma && is_num(ks[2]) && ks[3] == Known::Comma
        && is_num(ks[4]) {
        return Ok(ColorResult::Floats([ks[0].cast(), ks[2].cast(), ks[4].cast(), one]));
    }
    if n == 7 && is_num(ks[0]) && ks[1] == Known::Comma && is_num(ks[2]) && ks[3] == Known::Comma
        && is_num(ks[4]) && ks[5] == Known::Comma && is_num(ks[6]) {
        return Ok(ColorResult::Floats([ks[0].cast(), ks[2].cast(), ks[4].cast(), ks[6].cast()]));
    }
    if n == 3 && is_int(ks[0]) && ks[1] == Known::SemiColon && is_int(ks[2]) {
        let a = get_int(ks[0]);
        let b = get_int(ks[2]);
        return if b == 3 {
            Ok(ColorResult::Integers([a, a, a, 255]))
        } else if b == 4 {
            Ok(ColorResult::Integers([a, a, a, a]))
        } else {
            Err(ErrorKind::SplatCount)
        };
    }
    if n == 3 && is_float(ks[0]) && ks[1] == Known::SemiColon && is_int(ks[2]) {
        let a = get_float(ks[0]);
        let b = get_int(ks[2]);
        return if b == 3 {
            Ok(ColorResult::Floats([a, a, a, one]))
        } else if b == 4 {
            Ok(ColorResult::Floats([a, a, a, a]))
        } else {
            Err(ErrorKind::SplatCount)
        };
    }
    if n == 5 && is_num(ks[0]) && ks[1] == Known::SemiColon && ks[3] == Known::Comma && is_num(
        ks[4],
    ) {
        if is_int(ks[0]) && ks[2] == Known::Int(3) && is_int(ks[4]) {
            let a = get_int(ks[0]);
            return Ok(ColorResult::Integers([a, a, a, get_int(ks[4])]));
        }
        if ks[2] == Known::Int(3) {
            let a = ks[0].parse_f64();
            return Ok(ColorResult::Floats([a, a, a, ks[4].parse_f64()]));
        }
        return Err(ErrorKind::SplatAlphaCount);
    }
    Err(ErrorKind::UnknownColorSyntax)
}

/// Reads the tokens of a bracketed group at `pos` as a color.
pub fn parse_numbers(inner: &Vec<Tok>, pos: usize, checked: bool) -> (r: Result<
    ColorResult,
    ColorError,
>)
    ensures
        r == numbers_color(inner@, pos, checked),
        r matches Ok(c) ==> c.wf(),
{
    let n = inner.len();
    let mut ks: Vec<Known> = Vec::new();
    let mut i: usize = 0;
    while i < n
        invariant
            n == inner@.len(),
            i <= n,
            known_all(inner@.take(i as int), checked) == Ok::<Seq<Known>, ColorError>(ks@),
            forall|j: int| 0 <= j < ks@.len() ==> non_negative(#[trigger] ks@[j]),
        decreases n - i,
    {
        assert(inner@.take(i + 1).drop_last() =~= inner@.take(i as int));
        assert(inner@.take(i + 1).last() == inner@[i as int]);
        match parse_tt(&inner[i], checked) {
            Err(e) => {
                proof {
                    lemma_known_all_err(inner@, i + 1, checked);
                }
                return Err(e);
            },
            Ok(k) => {
                ks.push(k);
            },
        }
        i = i + 1;
    }
    assert(inner@.take(n as int) =~= inner@);
    let ghost all = ks@;
    if ks.len() > 0 && ks[ks.len() - 1] == Known::Comma {
        ks.pop();
        assert(ks@ =~= all.drop_last());
    }
    let folded = fold_negs(&ks, pos)?;
    match list_shape(&folded) {
        Ok(c) => Ok(c),
        Err(kind) => Err(ColorError::new(kind, Some(pos))),
    }
}


/// The value of a hex digit; every letter counts, `a` as 10 up to `z` as 35.
pub open spec fn hex_value(c: char) -> Option<i64> {
    if '0' <= c <= '9' {
        Some((c as int - '0' as int) as i64)
    } else if 'a' <= c <= 'z' {
        Some((c as int - 'a' as int + 10) as i64)
    } else if 'A' <= c <= 'Z' {
        Some((c as int - 'A' as int + 10) as i64)
    } else {
        None
    }
}

pub open spec fn hv(c: char) -> i64 {
    match hex_value(c) {
        Some(v) => v,
        None => 0,
    }
}

/// A digit doubled: `d * 17`.
pub open spec fn dbl(c: char) -> i64 {
    (hv(c) * 17) as i64
}

pub open spec fn pair(d: Seq<char>, i: int) -> i64 {
    (hv(d[i]) * 16 + hv(d[i + 1])) as i64
}

/// The channels of a run of hex digits: 3 or 4 digits (compact form only)
/// each doubled, or 6 or 8 digits taken in pairs; alpha defaults to 255.
pub open spec fn slice_color(d: Seq<char>, compact: bool) -> Result<[i64; 4], ErrorKind> {
    let valid = forall|i: int| 0 <= i < d.len() ==> (#[trigger] hex_value(d[i])) is Some;
    if !(d.len() == 6 || d.len() == 8 || (compact && (d.len() == 3 || d.len() == 4))) {
        Err(ErrorKind::InvalidHexLength)
    } else if !valid {
        Err(ErrorKind::InvalidHexDigit)
    } else if d.len() == 3 {
        Ok([dbl(d[0]), dbl(d[1]), dbl(d[2]), 255])
    } else if d.len() == 4 {
        Ok([dbl(d[0]), dbl(d[1]), dbl(d[2]), dbl(d[3])])
    } else if d.len() == 6 {
        Ok([pair(d, 0), pair(d, 2), pair(d, 4), 255])
    } else {
        Ok([pair(d, 0), pair(d, 2), pair(d, 4), pair(d, 6)])
    }
}

/// The digits of a hex color literal: the text between `"#` or `"` and the
/// closing quote, or after `0x` or `0X`.
pub open spec fn hex_span(t: Seq<char>) -> Option<(int, int)> {
    let n = t.len() as int;
    if n >= 3 && t[0] == '"' && t[1] == '#' {
        Some((2, n - 1))
    } else if n >= 2 && t[0] == '"' {
        Some((1, n - 1))
    } else if n >= 2 && t[0] == '0' && (t[1] == 'x' || t[1] == 'X') {
        Some((2, n))
    } else {
        None
    }
}

/// The color of a string or number literal.
pub open spec fn lit_color(t: Seq<char>, compact: bool) -> Result<[i64; 4], ErrorKind> {
    match hex_span(t) {
        Some((a, b)) => slice_color(t.subrange(a, b), compact),
        None => Err(ErrorKind::InvalidColorSyntax),
    }
}

fn hex(c: char) -> (r: Option<i64>)
    ensures
        r == hex_value(c),
{
    if '0' <= c && c <= '9' {
        Some((c as u32 - '0' as u32) as i64)
    } else if 'a' <= c && c <= 'z' {
        Some((c as u32 - 'a' as u32 + 10) as i64)
    } else if 'A' <= c && c <= 'Z' {
        Some((c as u32 - 'A' as u32 + 10) as i64)
    } else {
        None
    }
}

fn hex2(a: char, b: char) -> (r: i64)
    requires
        hex_value(a) is Some,
        hex_value(b) is Some,
    ensures
        r == hv(a) * 16 + hv(b),
{
    let x = hex(a).unwrap();
    let y = hex(b).unwrap();
    x * 16 + y
}

/// Reads the hex digits `t[start..end]` as a color.
fn parse_slice(t: &str, start: usize, end: usize, compact: bool) -> (r: Result<[i64; 4], ErrorKind>)
    requires
        start <= end <= t@.len(),
    ensures
        r == slice_color(t@.subrange(start as int, end as int), compact),
{
    let ghost d = t@.subrange(start as int, end as int);
    let len = end - start;
    if !(len == 6 || len == 8 || (compact && (len == 3 || len == 4))) {
        return Err(ErrorKind::InvalidHexLength);
    }
    let mut i: usize = start;
    while i < end
        invariant
            start <= i <= end <= t@.len(),
            len == end - start,
            len == 6 || len == 8 || (compact && (len == 3 || len == 4)),
            d == t@.subrange(start as int, end as int),
            forall|j: int| 0 <= j < i - start ==> (#[trigger] hex_value(d[j])) is Some,
        decreases end - i,
    {
        if hex(t.get_char(i)).is_none() {
            assert(d[i - start] == t@[i as int]);
            let ghost w = (i - start) as int;
            assert(!(hex_value(d[w]) is Some));
            assert(!(forall|j: int| 0 <= j < d.len() ==> (#[trigger] hex_value(d[j])) is Some));
            return Err(ErrorKind::InvalidHexDigit);
        }
        i = i + 1;
    }
    let c0 = t.get_char(start);
    let c1 = t.get_char(start + 1);
    let c2 = t.get_char(start + 2);
    assert(hex_value(d[0]) is Some && hex_value(d[1]) is Some && hex_value(d[2]) is Some);
    if len == 3 {
        return Ok([hex2(c0, c0), hex2(c1, c1), hex2(c2, c2), 255]);
    }
    let c3 = t.get_char(start + 3);
    assert(hex_value(d[3]) is Some);
    if len == 4 {
        return Ok([hex2(c0, c0), hex2(c1, c1), hex2(c2, c2), hex2(c3, c3)]);
    }
    let c4 = t.get_char(start + 4);
    let c5 = t.get_char(start + 5);
    assert(hex_value(d[4]) is Some && hex_value(d[5]) is Some);
    if len == 6 {
        return Ok([hex2(c0, c1), hex2(c2, c3), hex2(c4, c5), 255]);
    }
    let c6 = t.get_char(start + 6);
    let c7 = t.get_char(start + 7);
    assert(hex_value(d[6]) is Some && hex_value(d[7]) is Some);
    Ok([hex2(c0, c1), hex2(c2, c3), hex2(c4, c5), hex2(c6, c7)])
}

/// Reads a string or number literal as a hex color.
pub fn parse_lit(t: &str, compact: bool) -> (r: Result<[i64; 4], ErrorKind>)
    ensures
        r == lit_color(t@, compact),
{
    let n = t.unicode_len();
    if n >= 3 && t.get_char(0) == '"' && t.get_char(1) == '#' {
        parse_slice(t, 2, n - 1, compact)
    } else if n >= 2 && t.get_char(0) == '"' {
        parse_slice(t, 1, n - 1, compact)
    } else if n >= 2 && t.get_char(0) == '0' && (t.get_char(1) == 'x' || t.get_char(1) == 'X') {
        parse_slice(t, 2, n, compact)
    } else {
        Err(ErrorKind::InvalidColorSyntax)
    }
}


/// The comma split of `s` so far: the finished items and where the open one
/// begins.
pub open spec fn split_state(s: Seq<Tok>) -> (Seq<ExprRange>, int)
    decreases s.len(),
{
    if s.len() == 0 {
        (Seq::empty(), 0)
    } else {
        let (items, open) = split_state(s.drop_last());
        if s.last().spec_is_punct(',') {
            (items.push(ExprRange { start: open as usize, end: (s.len() - 1) as usize }), s.len() as int)
        } else {
            (items, open)
        }
    }
}

/// The items of `s` between top-level commas; a comma always ends an item,
/// an empty one too, and a trailing comma opens none.
pub open spec fn arguments(s: Seq<Tok>) -> Seq<ExprRange> {
    let (items, open) = split_state(s);
    if open < s.len() {
        items.push(ExprRange { start: open as usize, end: s.len() as usize })
    } else {
        items
    }
}

/// The color of a parenthesised group with tokens `s`.
pub open spec fn exprs_color(s: Seq<Tok>) -> Result<ColorResult, ErrorKind> {
    let a = arguments(s);
    if a.len() == 3 {
        Ok(ColorResult::Exprs([Some(a[0]), Some(a[1]), Some(a[2]), None]))
    } else if a.len() == 4 {
        Ok(ColorResult::Exprs([Some(a[0]), Some(a[1]), Some(a[2]), Some(a[3])]))
    } else {
        Err(ErrorKind::ExpectedThreeOrFourItems)
    }
}

/// Splits tokens at top-level commas.
pub fn parse_arguments(tokens: &Vec<Tok>) -> (r: Vec<ExprRange>)
    ensures
        r@ == arguments(tokens@),
{
    let n = tokens.len();
    let mut items: Vec<ExprRange> = Vec::new();
    let mut open: usize = 0;
    let mut i: usize = 0;
    while i < n
        invariant
            n == tokens@.len(),
            i <= n,
            open <= i,
            split_state(tokens@.take(i as int)) == (items@, open as int),
        decreases n - i,
    {
        assert(tokens@.take(i + 1).drop_last() =~= tokens@.take(i as int));
        if tokens[i].is_punct(',') {
            items.push(ExprRange { start: open, end: i });
            open = i + 1;
        }
        i = i + 1;
    }
    assert(tokens@.take(n as int) =~= tokens@);
    if open < n {
        items.push(ExprRange { start: open, end: n });
    }
    items
}

/// Reads the tokens of a parenthesised group as 3 or 4 deferred
/// expressions.
pub fn parse_exprs(tokens: &Vec<Tok>, pos: usize) -> (r: Result<ColorResult, ColorError>)
    ensures
        r == match exprs_color(tokens@) {
            Ok(c) => Ok(c),
            Err(kind) => Err(err(kind, pos)),
        },
{
    let args = parse_arguments(tokens);
    if args.len() == 3 {
        Ok(ColorResult::Exprs([Some(args[0]), Some(args[1]), Some(args[2]), None]))
    } else if args.len() == 4 {
        Ok(ColorResult::Exprs([Some(args[0]), Some(args[1]), Some(args[2]), Some(args[3])]))
    } else {
        Err(ColorError::new(ErrorKind::ExpectedThreeOrFourItems, Some(pos)))
    }
}

/// Whether the token at `i` of a field list is out of place: items at even
/// places must be identifiers, at odd places commas.
pub open spec fn field_token_bad(s: Seq<Tok>, i: int) -> bool {
    if i % 2 == 0 {
        !(s[i] is Ident)
    } else {
        !s[i].spec_is_punct(',')
    }
}

/// The first place at or after `i` with a token out of place, or the length.
pub open spec fn first_bad_field(s: Seq<Tok>, i: int) -> int
    decreases s.len() - i,
{
    if i < 0 || i >= s.len() || field_token_bad(s, i) {
        i
    } else {
        first_bad_field(s, i + 1)
    }
}

/// The error for the token out of place at `i`.
pub open spec fn field_error(s: Seq<Tok>, i: int) -> ColorError {
    if i % 2 == 0 {
        err(ErrorKind::ExpectedIdent, s[i].spec_pos())
    } else {
        err(ErrorKind::ExpectedCommaOrEnd, s[i].spec_pos())
    }
}

/// `f` is the field that the identifier token `t` names.
pub open spec fn names_field(t: Tok, f: Field) -> bool {
    t matches Tok::Ident { name, pos } && f.name@ == name@ && f.pos == pos
}

/// `v` holds the identifiers at the even places of `s`, in order.
pub open spec fn fields_of(s: Seq<Tok>, v: Seq<Field>) -> bool {
    &&& v.len() == (s.len() + 1) / 2
    &&& forall|j: int| 0 <= j < v.len() ==> names_field(s[2 * j], #[trigger] v[j])
}

/// Reads a comma-separated list of identifiers, a trailing comma allowed.
pub fn extract_idents(tokens: &Vec<Tok>) -> (r: Result<Vec<Field>, ColorError>)
    ensures
        match r {
            Ok(v) => first_bad_field(tokens@, 0) == tokens@.len() && fields_of(tokens@, v@),
            Err(e) => first_bad_field(tokens@, 0) < tokens@.len() && e == field_error(
                tokens@,
                first_bad_field(tokens@, 0),
            ),
        },
{
    let n = tokens.len();
    let mut idents: Vec<Field> = Vec::new();
    let mut i: usize = 0;
    while i < n
        invariant
            n == tokens@.len(),
            i <= n,
            i % 2 == 0,
            first_bad_field(tokens@, 0) == first_bad_field(tokens@, i as int),
            idents@.len() == i / 2,
            forall|j: int| 0 <= j < idents@.len() ==> names_field(tokens@[2 * j], #[trigger] idents@[j]),
        decreases n - i,
    {
        match &tokens[i] {
            Tok::Ident { name, pos } => {
                idents.push(Field { name: name.clone(), pos: *pos });
            },
            other => {
                return Err(ColorError::new(ErrorKind::ExpectedIdent, Some(other.pos())));
            },
        }
        assert(!field_token_bad(tokens@, i as int));
        if i + 1 >= n {
            assert(first_bad_field(tokens@, (i + 1) as int) == i + 1);
            assert(idents@.len() == (tokens@.len() + 1) / 2);
            return Ok(idents);
        }
        if !tokens[i + 1].is_punct(',') {
            assert(field_token_bad(tokens@, i + 1));
            assert(first_bad_field(tokens@, i + 1) == i + 1);
            return Err(ColorError::new(ErrorKind::ExpectedCommaOrEnd, Some(tokens[i + 1].pos())));
        }
        assert(!field_token_bad(tokens@, i + 1));
        assert(first_bad_field(tokens@, i as int) == first_bad_field(tokens@, i + 1));
        assert(first_bad_field(tokens@, i + 1) == first_bad_field(tokens@, i + 2));
        i = i + 2;
    }
    Ok(idents)
}

impl ColorResult {
    /// Whether field names are attached.
    pub open spec fn has_fields(&self) -> bool {
        self is IntFields || self is FloatFields || self is ExprFields
    }

    /// Every checked channel lies in its range: integers in `0..=255`,
    /// fractions in `0.0..=1.0`; expressions are not checked.
    pub open spec fn in_bounds(&self) -> bool {
        match self {
            ColorResult::Integers(c) => ints_in_bounds(*c),
            ColorResult::IntFields(c, _) => ints_in_bounds(*c),
            ColorResult::Floats(c) => fracs_in_unit(*c),
            ColorResult::FloatFields(c, _) => fracs_in_unit(*c),
            _ => true,
        }
    }

    /// The color with every checked channel clamped into its range.
    pub open spec fn clamped(self) -> ColorResult {
        match self {
            ColorResult::Integers(c) => ColorResult::Integers(clamp_ints(c)),
            ColorResult::IntFields(c, f) => ColorResult::IntFields(clamp_ints(c), f),
            ColorResult::Floats(c) => ColorResult::Floats(clamp_fracs(c)),
            ColorResult::FloatFields(c, f) => ColorResult::FloatFields(clamp_fracs(c), f),
            _ => self,
        }
    }

    /// Every fraction has a positive denominator.
    pub open spec fn wf(&self) -> bool {
        match self {
            ColorResult::Floats(c) => fracs_wf(*c),
            ColorResult::FloatFields(c, _) => fracs_wf(*c),
            _ => true,
        }
    }

    /// Attaches field names; a color that has them already is refused.
    pub fn with_idents(self, idents: Vec<Field>) -> (r: Result<ColorResult, ColorError>)
        ensures
            match self {
                ColorResult::Integers(c) => r == Ok::<ColorResult, ColorError>(ColorResult::IntFields(c, idents)),
                ColorResult::Floats(c) => r == Ok::<ColorResult, ColorError>(ColorResult::FloatFields(c, idents)),
                ColorResult::Exprs(c) => r == Ok::<ColorResult, ColorError>(ColorResult::ExprFields(c, idents)),
                _ => r == Err::<ColorResult, ColorError>(ColorError { kind: ErrorKind::FieldsAlreadySet, at: None }),
            },
    {
        match self {
            ColorResult::Integers(c) => Ok(ColorResult::IntFields(c, idents)),
            ColorResult::Floats(c) => Ok(ColorResult::FloatFields(c, idents)),
            ColorResult::Exprs(c) => Ok(ColorResult::ExprFields(c, idents)),
            _ => Err(ColorError::new(ErrorKind::FieldsAlreadySet, None)),
        }
    }

    /// Applies the range policy: under `Checked` a channel out of range is
    /// an error at `pos`, under `Clamp` it is clamped, under `Unchecked`
    /// nothing happens.
    pub fn check(&mut self, posture: Posture, pos: usize) -> (r: Result<(), ColorError>)
        requires
            old(self).wf(),
        ensures
            final(self).wf(),
            match posture {
                Posture::Checked => *final(self) == *old(self) && (r is Ok <==> old(self).in_bounds())
                    && (r is Err ==> r == Err::<(), ColorError>(err(ErrorKind::OutOfBounds, pos))),
                Posture::Clamp => *final(self) == old(self).clamped() && r is Ok,
                Posture::Unchecked => *final(self) == *old(self) && r is Ok,
            },
    {
        match posture {
            Posture::Checked => {
                let ok = match self {
                    ColorResult::Integers(c) => check_ints(c),
                    ColorResult::IntFields(c, _) => check_ints(c),
                    ColorResult::Floats(c) => check_fracs(c),
                    ColorResult::FloatFields(c, _) => check_fracs(c),
                    _ => true,
                };
                if ok {
                    Ok(())
                } else {
                    Err(ColorError::new(ErrorKind::OutOfBounds, Some(pos)))
                }
            },
            Posture::Clamp => {
                match self {
                    ColorResult::Integers(c) => {
                        *c = clamp_int_channels(c);
                    },
                    ColorResult::IntFields(c, _) => {
                        *c = clamp_int_channels(c);
                    },
                    ColorResult::Floats(c) => {
                        *c = clamp_frac_channels(c);
                    },
                    ColorResult::FloatFields(c, _) => {
                        *c = clamp_frac_channels(c);
                    },
                    _ => {},
                }
                Ok(())
            },
            Posture::Unchecked => Ok(()),
        }
    }
}

pub open spec fn ints_in_bounds(c: [i64; 4]) -> bool {
    forall|i: int| 0 <= i < 4 ==> 0 <= #[trigger] c[i] <= 255
}

pub open spec fn fracs_in_unit(c: [Frac; 4]) -> bool {
    forall|i: int| 0 <= i < 4 ==> (#[trigger] c[i]).in_unit()
}

pub open spec fn fracs_wf(c: [Frac; 4]) -> bool {
    forall|i: int| 0 <= i < 4 ==> (#[trigger] c[i]).wf()
}

pub open spec fn clamp_int(v: i64) -> i64 {
    if v < 0 {
        0
    } else if v > 255 {
        255
    } else {
        v
    }
}

pub open spec fn clamp_ints(c: [i64; 4]) -> [i64; 4] {
    [clamp_int(c[0]), clamp_int(c[1]), clamp_int(c[2]), clamp_int(c[3])]
}

pub open spec fn clamp_fracs(c: [Frac; 4]) -> [Frac; 4] {
    [c[0].spec_clamp_unit(), c[1].spec_clamp_unit(), c[2].spec_clamp_unit(), c[3].spec_clamp_unit()]
}

fn check_ints(c: &[i64; 4]) -> (r: bool)
    ensures
        r == ints_in_bounds(*c),
{
    let mut i: usize = 0;
    while i < 4
        invariant
            i <= 4,
            forall|j: int| 0 <= j < i ==> 0 <= #[trigger] c[j] <= 255,
        decreases 4 - i,
    {
        if c[i] < 0 || c[i] > 255 {
            return false;
        }
        i = i + 1;
    }
    true
}

fn check_fracs(c: &[Frac; 4]) -> (r: bool)
    ensures
        r == fracs_in_unit(*c),
{
    let mut i: usize = 0;
    while i < 4
        invariant
            i <= 4,
            forall|j: int| 0 <= j < i ==> (#[trigger] c[j]).in_unit(),
        decreases 4 - i,
    {
        if !c[i].is_in_unit() {
            return false;
        }
        i = i + 1;
    }
    true
}

fn clamp_one(v: i64) -> (r: i64)
    ensures
        r == clamp_int(v),
{
    if v < 0 {
        0
    } else if v > 255 {
        255
    } else {
        v
    }
}

fn clamp_int_channels(c: &[i64; 4]) -> (r: [i64; 4])
    ensures
        r == clamp_ints(*c),
{
    [clamp_one(c[0]), clamp_one(c[1]), clamp_one(c[2]), clamp_one(c[3])]
}

fn clamp_frac_channels(c: &[Frac; 4]) -> (r: [Frac; 4])
    requires
        fracs_wf(*c),
    ensures
        r == clamp_fracs(*c),
        fracs_wf(r),
{
    let r = [c[0].clamp_unit(), c[1].clamp_unit(), c[2].clamp_unit(), c[3].clamp_unit()];
    assert(r[0].wf() && r[1].wf() && r[2].wf() && r[3].wf());
    r
}


/// The color a token denotes, before the range policy.
pub open spec fn raw_color(t: Tok, cfg: Config) -> Result<ColorResult, ColorError> {
    match t {
        Tok::Ident { name, pos } => if cfg.named || cfg.shades {
            match named_color(name@, cfg.named, cfg.shades) {
                Some(c) => Ok(ColorResult::Integers(widen(c))),
                None => Err(err(ErrorKind::InvalidColorName, pos)),
            }
        } else {
            Err(err(ErrorKind::InvalidColorSyntax, pos))
        },
        Tok::Lit { text, pos } => match lit_color(text@, cfg.compact) {
            Ok(c) => Ok(ColorResult::Integers(c)),
            Err(kind) => Err(err(kind, pos)),
        },
        Tok::Group { delim, inner, pos } => if delim == Delim::Paren {
            match exprs_color(inner@) {
                Ok(c) => Ok(c),
                Err(kind) => Err(err(kind, pos)),
            }
        } else if delim == Delim::Bracket {
            numbers_color(inner@, pos, cfg.posture == Posture::Checked)
        } else {
            Err(err(ErrorKind::InvalidColorSyntax, pos))
        },
        Tok::Punct { pos, .. } => Err(err(ErrorKind::InvalidColorSyntax, pos)),
    }
}

/// The color a token denotes, after the range policy.
pub open spec fn color_of(t: Tok, cfg: Config) -> Result<ColorResult, ColorError> {
    match raw_color(t, cfg) {
        Err(e) => Err(e),
        Ok(c) => match cfg.posture {
            Posture::Checked => if c.in_bounds() {
                Ok(c)
            } else {
                Err(err(ErrorKind::OutOfBounds, t.spec_pos()))
            },
            Posture::Clamp => Ok(c.clamped()),
            Posture::Unchecked => Ok(c),
        },
    }
}

/// Reads the color token.
pub fn parse_color(t: &Tok, cfg: Config) -> (r: Result<ColorResult, ColorError>)
    ensures
        r == color_of(*t, cfg),
        r matches Ok(c) ==> c.wf() && !c.has_fields(),
{
    let mut result = match t {
        Tok::Ident { name, pos } => {
            if cfg.named || cfg.shades {
                match lookup_named(name.as_str(), cfg.named, cfg.shades) {
                    Some(c) => ColorResult::Integers(u8_to_i64(c)),
                    None => {
                        return Err(ColorError::new(ErrorKind::InvalidColorName, Some(*pos)));
                    },
                }
            } else {
                return Err(ColorError::new(ErrorKind::InvalidColorSyntax, Some(*pos)));
            }
        },
        Tok::Lit { text, pos } => match parse_lit(text.as_str(), cfg.compact) {
            Ok(c) => ColorResult::Integers(c),
            Err(kind) => {
                return Err(ColorError::new(kind, Some(*pos)));
            },
        },
        Tok::Group { delim, inner, pos } => {
            if *delim == Delim::Paren {
                parse_exprs(inner, *pos)?
            } else if *delim == Delim::Bracket {
                parse_numbers(inner, *pos, cfg.posture == Posture::Checked)?
            } else {
                return Err(ColorError::new(ErrorKind::InvalidColorSyntax, Some(*pos)));
            }
        },
        Tok::Punct { pos, .. } => {
            return Err(ColorError::new(ErrorKind::InvalidColorSyntax, Some(*pos)));
        },
    };
    result.check(cfg.posture, t.pos())?;
    Ok(result)
}

} // verus!
