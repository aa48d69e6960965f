use crate::convert::{convert, projected, Channel, Kind};
use crate::error::{ColorError, ErrorKind};
use crate::parse::{
    color_of, extract_idents, field_error, first_bad_field, names_field, parse_color, ColorResult,
    Config, Field,
};
use crate::path::{extract_path, path_split};
use crate::token::Tok;
use vstd::prelude::*;

verus! {

/// The form of the constructed value.
#[derive(Debug, PartialEq, Eq)]
pub enum Shape {
    /// A positional call `path(v0, v1, ...)`.
    Call,
    /// A structure literal `path { f0: v0, ... }`; with `rest_default`, the
    /// remaining fields come from `..Default::default()`.
    Struct { fields: Vec<Field>, rest_default: bool },
}

/// The expression to construct: the path `input[..path_end]` applied to
/// `values` in the given shape.
#[derive(Debug, PartialEq, Eq)]
pub struct Emission {
    pub path_end: usize,
    pub values: Vec<Channel>,
    pub shape: Shape,
}

/// The shape for a field list `f` and `n` channels, where `f` is long
/// enough: its first `n` names, and a default for the rest if it is longer.
pub open spec fn struct_shape(shape: Shape, f: Seq<Field>, n: nat) -> bool {
    shape matches Shape::Struct { fields, rest_default } && fields@ == f.take(n as int)
        && rest_default == (f.len() > n)
}

/// Puts a parsed color into the shape it asks for, with `n` channels of the
/// given kind.
pub fn emit(c: ColorResult, path_end: usize, n: usize, kind: Kind) -> (r: Result<
    Emission,
    ColorError,
>)
    requires
        n == 3 || n == 4,
        c.wf(),
    ensures
        match c {
            ColorResult::IntFields(_, f) | ColorResult::FloatFields(_, f) | ColorResult::ExprFields(
                _,
                f,
            ) => if f@.len() < n {
                r == Err::<Emission, ColorError>(ColorError { kind: ErrorKind::TooFewFields, at: None })
            } else {
                r matches Ok(em) && em.path_end == path_end && em.values@ == projected(c, n as nat, kind)
                    && struct_shape(em.shape, f@, n as nat)
            },
            _ => r matches Ok(em) && em.path_end == path_end && em.values@ == projected(
                c,
                n as nat,
                kind,
            ) && em.shape is Call,
        },
{
    let values = convert(&c, n, kind);
    match c {
        ColorResult::IntFields(_, f) | ColorResult::FloatFields(_, f) | ColorResult::ExprFields(
            _,
            f,
        ) => {
            if f.len() < n {
                return Err(ColorError::new(ErrorKind::TooFewFields, None));
            }
            let rest_default = f.len() > n;
            let mut fields = f;
            fields.truncate(n);
            Ok(Emission { path_end, values, shape: Shape::Struct { fields, rest_default } })
        },
        _ => Ok(Emission { path_end, values, shape: Shape::Call }),
    }
}

/// A structure literal that fills the first `n` of the fields that the
/// list `ft` names, with defaults for the rest where it names more.
pub open spec fn struct_names(shape: Shape, ft: Seq<Tok>, n: nat) -> bool {
    shape matches Shape::Struct { fields, rest_default } && rest_default == ((ft.len() + 1) / 2
        > n) && fields@.len() == n && forall|j: int|
        0 <= j < n ==> names_field(ft[2 * j], #[trigger] fields@[j])
}

/// The tokens inside a group; none for another token.
pub open spec fn group_inner(t: Tok) -> Seq<Tok> {
    match t {
        Tok::Group { inner, .. } => inner@,
        _ => Seq::empty(),
    }
}

/// What an invocation expands to: the color read, put into `n` channels of
/// the given kind, in the shape its field list asks for.
pub open spec fn expands_to(input: Seq<Tok>, n: nat, kind: Kind, cfg: Config, r: Result<Emission, ColorError>) -> bool {
    match path_split(input) {
        Err(e) => r == Err::<Emission, ColorError>(e),
        Ok(split) => match color_of(input[split.color as int], cfg) {
            Err(e) => r == Err::<Emission, ColorError>(e),
            Ok(c) => match split.fields {
                None => r matches Ok(em) && em.path_end == split.path_end && em.values@ == projected(
                    c,
                    n,
                    kind,
                ) && em.shape is Call,
                Some(fi) => {
                    let ft = group_inner(input[fi as int]);
                    let names = (ft.len() + 1) / 2;
                    if first_bad_field(ft, 0) < ft.len() {
                        r == Err::<Emission, ColorError>(field_error(ft, first_bad_field(ft, 0)))
                    } else if names < n {
                        r == Err::<Emission, ColorError>(ColorError { kind: ErrorKind::TooFewFields, at: None })
                    } else {
                        r matches Ok(em) && em.path_end == split.path_end && em.values@ == projected(
                            c,
                            n,
                            kind,
                        ) && struct_names(em.shape, ft, n)
                    }
                },
            },
        },
    }
}

/// Expands an invocation `path, color [=> {fields}]` into `n` channels of
/// the given kind.
pub fn expand(input: &Vec<Tok>, n: usize, kind: Kind, cfg: Config) -> (r: Result<
    Emission,
    ColorError,
>)
    requires
        n == 3 || n == 4,
    ensures
        expands_to(input@, n as nat, kind, cfg, r),
{
    let split = extract_path(input)?;
    let c = parse_color(&input[split.color], cfg)?;
    match split.fields {
        None => emit(c, split.path_end, n, kind),
        Some(fi) => {
            match &input[fi] {
                Tok::Group { inner, .. } => {
                    let idents = extract_idents(inner)?;
                    let ghost names = idents@;
                    let c = c.with_idents(idents)?;
                    let r = emit(c, split.path_end, n, kind);
                    proof {
                        if r is Ok && r->Ok_0.shape is Struct {
                            let fields = r->Ok_0.shape->fields;
                            assert forall|j: int| 0 <= j < n implies names_field(
                                inner@[2 * j],
                                #[trigger] fields@[j],
                            ) by {
                                assert(fields@[j] == names[j]);
                            }
                        }
                    }
                    r
                },
                _ => Err(ColorError::new(ErrorKind::ExpectedFields, None)),
            }
        },
    }
}

/// Three integer channels.
pub fn rgb(input: &Vec<Tok>, cfg: Config) -> (r: Result<Emission, ColorError>)
    ensures
        expands_to(input@, 3, Kind::Int, cfg, r),
{
    expand(input, 3, Kind::Int, cfg)
}

/// Four integer channels.
pub fn rgba(input: &Vec<Tok>, cfg: Config) -> (r: Result<Emission, ColorError>)
    ensures
        expands_to(input@, 4, Kind::Int, cfg, r),
{
    expand(input, 4, Kind::Int, cfg)
}

/// Three floating-point channels.
pub fn rgbf(input: &Vec<Tok>, cfg: Config) -> (r: Result<Emission, ColorError>)
    ensures
        expands_to(input@, 3, Kind::Float, cfg, r),
{
    expand(input, 3, Kind::Float, cfg)
}

/// Four floating-point channels.
pub fn rgbaf(input: &Vec<Tok>, cfg: Config) -> (r: Result<Emission, ColorError>)
    ensures
        expands_to(input@, 4, Kind::Float, cfg, r),
{
    expand(input, 4, Kind::Float, cfg)
}

} // verus!
