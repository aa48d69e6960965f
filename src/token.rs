use vstd::prelude::*;

verus! {

/// The delimiter of a token group.
#[derive(Debug, Clone, Copy, PartialEq, Eq, Structural)]
pub enum Delim {
    Paren,
    Bracket,
    Brace,
    /// A group with no visible delimiter, as macro expansion makes them.
    Invisible,
}

/// A token tree as the library reads it.
///
/// Each token carries `pos`, a handle that its producer chooses and that the
/// library hands back in errors and results so that the producer can find the
/// token it came from.
#[derive(Debug)]
pub enum Tok {
    Ident { name: String, pos: usize },
    Punct { ch: char, joint: bool, pos: usize },
    Lit { text: String, pos: usize },
    Group { delim: Delim, inner: Vec<Tok>, pos: usize },
}

impl Tok {
    pub open spec fn spec_pos(&self) -> usize {
        match self {
            Tok::Ident { pos, .. } => *pos,
            Tok::Punct { pos, .. } => *pos,
            Tok::Lit { pos, .. } => *pos,
            Tok::Group { pos, .. } => *pos,
        }
    }

    /// The handle of this token.
    pub fn pos(&self) -> (r: usize)
        ensures
            r == self.spec_pos(),
    {
        match self {
            Tok::Ident { pos, .. } => *pos,
            Tok::Punct { pos, .. } => *pos,
            Tok::Lit { pos, .. } => *pos,
            Tok::Group { pos, .. } => *pos,
        }
    }

    pub open spec fn spec_is_punct(&self, c: char) -> bool {
        self matches Tok::Punct { ch, .. } && ch == c
    }

    /// Whether this token is the punctuation character `c`.
    pub fn is_punct(&self, c: char) -> (r: bool)
        ensures
            r == self.spec_is_punct(c),
    {
        match self {
            Tok::Punct { ch, .. } => *ch == c,
            _ => false,
        }
    }
}

} // verus!
