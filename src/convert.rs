use crate::frac::Frac;
use crate::parse::{fracs_wf, ColorResult, ExprRange};
use vstd::prelude::*;

verus! {

/// The numeric kind of the channels a constructor takes.
#[derive(Debug, Clone, Copy, PartialEq, Eq, Structural)]
pub enum Kind {
    Int,
    Float,
}

/// One channel of the output: an integer, a fraction, or an expression
/// handed through unevaluated.
#[derive(Debug, Clone, Copy, PartialEq, Eq, Structural)]
pub enum Channel {
    Int(i64),
    Float(Frac),
    Expr(ExprRange),
}

/// The first `n` channels are each 0 or 1.
pub open spec fn all_zero_one(c: [i64; 4], n: int) -> bool {
    forall|i: int| 0 <= i < n ==> (#[trigger] c[i] == 0 || c[i] == 1)
}

/// An integer channel as a fraction: itself where the channels are all 0 or
/// 1, else a byte over 255.
pub open spec fn int_as_float(v: i64, zero_one: bool) -> Frac {
    if zero_one {
        Frac { num: v, den: 1 }
    } else {
        Frac { num: v, den: 255 }
    }
}

/// The value put in an empty expression slot.
pub open spec fn default_channel(kind: Kind) -> Channel {
    match kind {
        Kind::Int => Channel::Int(255),
        Kind::Float => Channel::Float(Frac { num: 1, den: 1 }),
    }
}

pub open spec fn expr_channel(e: Option<ExprRange>, kind: Kind) -> Channel {
    match e {
        Some(r) => Channel::Expr(r),
        None => default_channel(kind),
    }
}

pub open spec fn ints_projected(c: [i64; 4], n: nat, kind: Kind) -> Seq<Channel> {
    match kind {
        Kind::Int => Seq::new(n, |i: int| Channel::Int(c[i])),
        Kind::Float => Seq::new(n, |i: int| Channel::Float(int_as_float(c[i], all_zero_one(c, n as int)))),
    }
}

pub open spec fn floats_projected(c: [Frac; 4], n: nat, kind: Kind) -> Seq<Channel> {
    match kind {
        Kind::Int => Seq::new(n, |i: int| Channel::Int(c[i].spec_to_byte())),
        Kind::Float => Seq::new(n, |i: int| Channel::Float(c[i])),
    }
}

pub open spec fn exprs_projected(c: [Option<ExprRange>; 4], n: nat, kind: Kind) -> Seq<Channel> {
    Seq::new(n, |i: int| expr_channel(c[i], kind))
}

/// The first `n` channels of a color in the requested kind.
pub open spec fn projected(c: ColorResult, n: nat, kind: Kind) -> Seq<Channel> {
    match c {
        ColorResult::Integers(v) => ints_projected(v, n, kind),
        ColorResult::IntFields(v, _) => ints_projected(v, n, kind),
        ColorResult::Floats(v) => floats_projected(v, n, kind),
        ColorResult::FloatFields(v, _) => floats_projected(v, n, kind),
        ColorResult::Exprs(v) => exprs_projected(v, n, kind),
        ColorResult::ExprFields(v, _) => exprs_projected(v, n, kind),
    }
}

/// Integer channels passed through.
pub fn ints_to_ints(c: &[i64; 4], n: usize) -> (r: Vec<Channel>)
    requires
        n <= 4,
    ensures
        r@ == ints_projected(*c, n as nat, Kind::Int),
{
    let mut r: Vec<Channel> = Vec::new();
    let mut i: usize = 0;
    while i < n
        invariant
            i <= n <= 4,
            r@.len() == i,
            forall|j: int| 0 <= j < i ==> #[trigger] r@[j] == Channel::Int(c[j]),
        decreases n - i,
    {
        r.push(Channel::Int(c[i]));
        i = i + 1;
    }
    assert(r@ =~= ints_projected(*c, n as nat, Kind::Int));
    r
}

/// Integer channels as fractions: themselves where all `n` are 0 or 1,
/// else over 255.
pub fn ints_to_floats(c: &[i64; 4], n: usize) -> (r: Vec<Channel>)
    requires
        n <= 4,
    ensures
        r@ == ints_projected(*c, n as nat, Kind::Float),
{
    let mut zero_one = true;
    let mut i: usize = 0;
    while i < n
        invariant
            i <= n <= 4,
            zero_one == all_zero_one(*c, i as int),
        decreases n - i,
    {
        if c[i] != 0 && c[i] != 1 {
            zero_one = false;
        }
        i = i + 1;
    }
    let den: i64 = if zero_one {
        1
    } else {
        255
    };
    let mut r: Vec<Channel> = Vec::new();
    let mut i: usize = 0;
    while i < n
        invariant
            i <= n <= 4,
            zero_one == all_zero_one(*c, n as int),
            den == (if zero_one { 1i64 } else { 255i64 }),
            r@.len() == i,
            forall|j: int|
                0 <= j < i ==> #[trigger] r@[j] == Channel::Float(int_as_float(c[j], zero_one)),
        decreases n - i,
    {
        r.push(Channel::Float(Frac { num: c[i], den }));
        i = i + 1;
    }
    assert(r@ =~= ints_projected(*c, n as nat, Kind::Float));
    r
}

/// Fraction channels as bytes: times 255, truncated toward zero.
pub fn floats_to_ints(c: &[Frac; 4], n: usize) -> (r: Vec<Channel>)
    requires
        n <= 4,
        fracs_wf(*c),
    ensures
        r@ == floats_projected(*c, n as nat, Kind::Int),
{
    let mut r: Vec<Channel> = Vec::new();
    let mut i: usize = 0;
    while i < n
        invariant
            i <= n <= 4,
            fracs_wf(*c),
            r@.len() == i,
            forall|j: int| 0 <= j < i ==> #[trigger] r@[j] == Channel::Int(c[j].spec_to_byte()),
        decreases n - i,
    {
        r.push(Channel::Int(c[i].to_byte()));
        i = i + 1;
    }
    assert(r@ =~= floats_projected(*c, n as nat, Kind::Int));
    r
}

/// Fraction channels passed through.
pub fn floats_to_floats(c: &[Frac; 4], n: usize) -> (r: Vec<Channel>)
    requires
        n <= 4,
    ensures
        r@ == floats_projected(*c, n as nat, Kind::Float),
{
    let mut r: Vec<Channel> = Vec::new();
    let mut i: usize = 0;
    while i < n
        invariant
            i <= n <= 4,
            r@.len() == i,
            forall|j: int| 0 <= j < i ==> #[trigger] r@[j] == Channel::Float(c[j]),
        decreases n - i,
    {
        r.push(Channel::Float(c[i]));
        i = i + 1;
    }
    assert(r@ =~= floats_projected(*c, n as nat, Kind::Float));
    r
}

/// The first `n` expression slots, an empty one filled with the default of
/// the kind (255, or 1.0); slots past `n` are not touched.
pub fn exprs_to_channels(c: &[Option<ExprRange>; 4], n: usize, kind: Kind) -> (r: Vec<Channel>)
    requires
        n <= 4,
    ensures
        r@ == exprs_projected(*c, n as nat, kind),
{
    let mut r: Vec<Channel> = Vec::new();
    let mut i: usize = 0;
    while i < n
        invariant
            i <= n <= 4,
            r@.len() == i,
            forall|j: int| 0 <= j < i ==> #[trigger] r@[j] == expr_channel(c[j], kind),
        decreases n - i,
    {
        let ch = match c[i] {
            Some(e) => Channel::Expr(e),
            None => match kind {
                Kind::Int => Channel::Int(255),
                Kind::Float => Channel::Float(Frac { num: 1, den: 1 }),
            },
        };
        r.push(ch);
        i = i + 1;
    }
    assert(r@ =~= exprs_projected(*c, n as nat, kind));
    r
}

/// The first `n` channels of a color in the requested kind.
pub fn convert(c: &ColorResult, n: usize, kind: Kind) -> (r: Vec<Channel>)
    requires
        n <= 4,
        c.wf(),
    ensures
        r@ == projected(*c, n as nat, kind),
{
    match c {
        ColorResult::Integers(v) | ColorResult::IntFields(v, _) => match kind {
            Kind::Int => ints_to_ints(v, n),
            Kind::Float => ints_to_floats(v, n),
        },
        ColorResult::Floats(v) | ColorResult::FloatFields(v, _) => match kind {
            Kind::Int => floats_to_ints(v, n),
            Kind::Float => floats_to_floats(v, n),
        },
        ColorResult::Exprs(v) | ColorResult::ExprFields(v, _) => exprs_to_channels(v, n, kind),
    }
}

} // verus!
