use crate::error::{ColorError, ErrorKind};
use crate::parse::err;
use crate::token::{Delim, Tok};
use vstd::prelude::*;

verus! {

/// A separator between the segments of a constructor path.
#[derive(Debug, Clone, Copy, PartialEq, Eq, Structural)]
pub enum PathSep {
    DoubleColon,
    Dot,
    /// The comma that ends the path.
    Break,
}

impl PathSep {
    /// The tokens of the separator, each with the handle `pos`.
    pub open spec fn spec_tokens(self, pos: usize) -> Seq<Tok> {
        match self {
            PathSep::DoubleColon => seq![
                Tok::Punct { ch: ':', joint: true, pos },
                Tok::Punct { ch: ':', joint: false, pos },
            ],
            PathSep::Dot => seq![Tok::Punct { ch: '.', joint: false, pos }],
            PathSep::Break => seq![],
        }
    }

    /// Appends the tokens of the separator.
    pub fn write_to(&self, tokens: &mut Vec<Tok>, pos: usize)
        ensures
            final(tokens)@ == old(tokens)@ + self.spec_tokens(pos),
    {
        match self {
            PathSep::DoubleColon => {
                tokens.push(Tok::Punct { ch: ':', joint: true, pos });
                tokens.push(Tok::Punct { ch: ':', joint: false, pos });
            },
            PathSep::Dot => {
                tokens.push(Tok::Punct { ch: '.', joint: false, pos });
            },
            PathSep::Break => {},
        }
        assert(final(tokens)@ =~= old(tokens)@ + self.spec_tokens(pos));
    }
}

/// The separator that begins at `at`, and the place after it.
pub open spec fn sep_at(s: Seq<Tok>, at: int) -> Result<(PathSep, int), ColorError> {
    if at >= s.len() {
        Err(ColorError { kind: ErrorKind::ExpectedSeparator, at: None })
    } else if s[at] matches Tok::Punct { ch: ':', joint: true, .. } {
        if at + 1 >= s.len() {
            Err(err(ErrorKind::ExpectedDoubleColon, s[at].spec_pos()))
        } else if s[at + 1].spec_is_punct(':') {
            Ok((PathSep::DoubleColon, at + 2))
        } else {
            Err(err(ErrorKind::ExpectedDoubleColon, s[at + 1].spec_pos()))
        }
    } else if s[at].spec_is_punct('.') {
        Ok((PathSep::Dot, at + 1))
    } else if s[at].spec_is_punct(',') {
        Ok((PathSep::Break, at + 1))
    } else {
        Err(err(ErrorKind::ExpectedSeparator, s[at].spec_pos()))
    }
}

/// Reads the separator at `*at` and moves `*at` past it.
pub fn extract_sep(tokens: &Vec<Tok>, at: &mut usize) -> (r: Result<PathSep, ColorError>)
    requires
        *old(at) <= tokens@.len(),
    ensures
        match sep_at(tokens@, *old(at) as int) {
            Ok((sep, next)) => r == Ok::<PathSep, ColorError>(sep) && *final(at) == next,
            Err(e) => r == Err::<PathSep, ColorError>(e),
        },
{
    let i = *at;
    if i >= tokens.len() {
        return Err(ColorError::new(ErrorKind::ExpectedSeparator, None));
    }
    match &tokens[i] {
        Tok::Punct { ch, joint, .. } if *ch == ':' && *joint => {
            if i + 1 >= tokens.len() {
                Err(ColorError::new(ErrorKind::ExpectedDoubleColon, Some(tokens[i].pos())))
            } else if tokens[i + 1].is_punct(':') {
                *at = i + 2;
                Ok(PathSep::DoubleColon)
            } else {
                Err(ColorError::new(ErrorKind::ExpectedDoubleColon, Some(tokens[i + 1].pos())))
            }
        },
        t => {
            if t.is_punct('.') {
                *at = i + 1;
                Ok(PathSep::Dot)
            } else if t.is_punct(',') {
                *at = i + 1;
                Ok(PathSep::Break)
            } else {
                Err(ColorError::new(ErrorKind::ExpectedSeparator, Some(t.pos())))
            }
        },
    }
}

/// Whether nothing but an optional comma is left from `at` on.
pub open spec fn ends_at(s: Seq<Tok>, at: int) -> bool {
    at >= s.len() || (s[at].spec_is_punct(',') && at + 1 >= s.len())
}

/// Whether the tokens from `at` on are empty or a single comma.
pub fn is_end_of_stream(tokens: &Vec<Tok>, at: usize) -> (r: bool)
    ensures
        r == ends_at(tokens@, at as int),
{
    if at >= tokens.len() {
        true
    } else if tokens[at].is_punct(',') {
        at + 1 >= tokens.len()
    } else {
        false
    }
}

/// Where the parts of an invocation stand: the path is `input[..path_end]`,
/// the color is `input[color]`, and the field list, if any, is the brace
/// group `input[fields]`.
#[derive(Debug, Clone, Copy, PartialEq, Eq, Structural)]
pub struct PathSplit {
    pub path_end: usize,
    pub color: usize,
    pub fields: Option<usize>,
}

/// The first comma at or after `i`, or the length.
pub open spec fn first_comma(s: Seq<Tok>, i: int) -> int
    decreases s.len() - i,
{
    if i < 0 || i >= s.len() || s[i].spec_is_punct(',') {
        i
    } else {
        first_comma(s, i + 1)
    }
}

pub open spec fn is_brace_group(t: Tok) -> bool {
    t matches Tok::Group { delim, .. } && delim == Delim::Brace
}

/// How an invocation `path, color [=> {fields}] [,]` splits.
pub open spec fn path_split(s: Seq<Tok>) -> Result<PathSplit, ColorError> {
    let n = s.len() as int;
    let p = first_comma(s, 0);
    let c = p + 1;
    if p >= n {
        Err(ColorError { kind: ErrorKind::ExpectedPath, at: None })
    } else if c >= n {
        Err(ColorError { kind: ErrorKind::ExpectedColor, at: None })
    } else if c + 1 >= n {
        Ok(PathSplit { path_end: p as usize, color: c as usize, fields: None })
    } else if c + 2 >= n {
        if s[c + 1].spec_is_punct(',') {
            Ok(PathSplit { path_end: p as usize, color: c as usize, fields: None })
        } else {
            Err(err(ErrorKind::ExpectedArrowCommaOrEnd, s[c + 1].spec_pos()))
        }
    } else if !(s[c + 1] is Punct && s[c + 2] is Punct) {
        Err(err(ErrorKind::ExpectedArrowCommaOrEnd, s[c + 1].spec_pos()))
    } else if !(s[c + 1] matches Tok::Punct { ch: '=', joint: true, .. } && s[c + 2].spec_is_punct('>')) {
        Err(err(ErrorKind::ExpectedArrowCommaOrEnd, s[c + 1].spec_pos()))
    } else if c + 3 >= n {
        Err(ColorError { kind: ErrorKind::ExpectedFields, at: None })
    } else if !is_brace_group(s[c + 3]) {
        Err(err(ErrorKind::ExpectedFields, s[c + 3].spec_pos()))
    } else if c + 4 >= n {
        Ok(PathSplit { path_end: p as usize, color: c as usize, fields: Some((c + 3) as usize) })
    } else if !s[c + 4].spec_is_punct(',') {
        Err(err(ErrorKind::ExpectedEndOfArguments, s[c + 4].spec_pos()))
    } else if c + 5 < n {
        Err(err(ErrorKind::ExpectedEndOfArguments, s[c + 5].spec_pos()))
    } else {
        Ok(PathSplit { path_end: p as usize, color: c as usize, fields: Some((c + 3) as usize) })
    }
}

/// Splits an invocation into the constructor path (up to the first
/// top-level comma), the color token, and the optional field list after
/// `=>`; one trailing comma is allowed.
pub fn extract_path(tokens: &Vec<Tok>) -> (r: Result<PathSplit, ColorError>)
    ensures
        r == path_split(tokens@),
        r matches Ok(split) ==> split.path_end < split.color < tokens@.len() && (split.fields matches Some(
            f,
        ) ==> f < tokens@.len() && is_brace_group(tokens@[f as int])),
{
    let n = tokens.len();
    let mut p: usize = 0;
    while p < n && !tokens[p].is_punct(',')
        invariant
            n == tokens@.len(),
            p <= n,
            first_comma(tokens@, 0) == first_comma(tokens@, p as int),
        decreases n - p,
    {
        p = p + 1;
    }
    assert(first_comma(tokens@, p as int) == p);
    if p >= n {
        return Err(ColorError::new(ErrorKind::ExpectedPath, None));
    }
    let c = p + 1;
    if c >= n {
        return Err(ColorError::new(ErrorKind::ExpectedColor, None));
    }
    if c + 1 >= n {
        return Ok(PathSplit { path_end: p, color: c, fields: None });
    }
    let a = &tokens[c + 1];
    if c + 2 >= n {
        return if a.is_punct(',') {
            Ok(PathSplit { path_end: p, color: c, fields: None })
        } else {
            Err(ColorError::new(ErrorKind::ExpectedArrowCommaOrEnd, Some(a.pos())))
        };
    }
    let b = &tokens[c + 2];
    let arrow = match (a, b) {
        (Tok::Punct { ch: ca, joint, .. }, Tok::Punct { ch: cb, .. }) => {
            if *ca == '=' && *joint && *cb == '>' {
                true
            } else {
                false
            }
        },
        _ => false,
    };
    if !arrow {
        return Err(ColorError::new(ErrorKind::ExpectedArrowCommaOrEnd, Some(a.pos())));
    }
    if c + 3 >= n {
        return Err(ColorError::new(ErrorKind::ExpectedFields, None));
    }
    let is_brace = match &tokens[c + 3] {
        Tok::Group { delim, .. } => *delim == Delim::Brace,
        _ => false,
    };
    if !is_brace {
        return Err(ColorError::new(ErrorKind::ExpectedFields, Some(tokens[c + 3].pos())));
    }
    if c + 4 >= n {
        return Ok(PathSplit { path_end: p, color: c, fields: Some(c + 3) });
    }
    if !tokens[c + 4].is_punct(',') {
        return Err(ColorError::new(ErrorKind::ExpectedEndOfArguments, Some(tokens[c + 4].pos())));
    }
    if c + 5 < n {
        return Err(ColorError::new(ErrorKind::ExpectedEndOfArguments, Some(tokens[c + 5].pos())));
    }
    Ok(PathSplit { path_end: p, color: c, fields: Some(c + 3) })
}

} // verus!
