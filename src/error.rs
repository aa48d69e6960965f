use vstd::prelude::*;

verus! {

/// What went wrong while reading a color.
#[derive(Debug, Clone, Copy, PartialEq, Eq, Structural)]
pub enum ErrorKind {
    /// No comma ends the constructor path.
    ExpectedPath,
    /// Nothing follows the constructor path.
    ExpectedColor,
    /// After the color comes something other than `=>`, `,` or the end.
    ExpectedArrowCommaOrEnd,
    /// `=>` is not followed by a brace group.
    ExpectedFields,
    /// Tokens follow the field list.
    ExpectedEndOfArguments,
    /// A path separator other than `,`, `.` or `::`.
    ExpectedSeparator,
    /// A `:` that does not begin `::`.
    ExpectedDoubleColon,
    /// A field list entry is not an identifier.
    ExpectedIdent,
    /// A field name is followed by something other than a comma.
    ExpectedCommaOrEnd,
    /// A character of a hex color is not a digit or a letter.
    InvalidHexDigit,
    /// A hex color has a number of digits that is not accepted.
    InvalidHexLength,
    /// The color token has none of the accepted shapes.
    InvalidColorSyntax,
    /// A bracketed list holds something other than a number, `,`, `;` or `-`.
    ExpectedNumber,
    /// An integer outside `0..=255` where ranges are checked.
    IntegerOutOfRange,
    /// An integer literal that does not fit an `i64`.
    IntegerOverflow,
    /// A float outside `0.0..=1.0` where ranges are checked.
    FloatOutOfRange,
    /// A float literal whose number part is not a plain decimal number
    /// (digits, an optional fraction and exponent, no `_`).
    FloatOverflow,
    /// A `-` that is not followed by a number.
    InvalidNegation,
    /// A splat whose count is not 3 or 4.
    SplatCount,
    /// A splat with alpha whose count is not 3.
    SplatAlphaCount,
    /// A bracketed list of none of the accepted shapes.
    UnknownColorSyntax,
    /// A parenthesised list that does not hold 3 or 4 items.
    ExpectedThreeOrFourItems,
    /// An identifier that names no color.
    InvalidColorName,
    /// A channel outside its range after parsing, where ranges are checked.
    OutOfBounds,
    /// Field names were attached to a color that already had them.
    FieldsAlreadySet,
    /// Fewer field names than the output has channels.
    TooFewFields,
}

impl ErrorKind {
    /// The message shown for an error of this kind.
    pub open spec fn text(self) -> &'static str {
        match self {
            ErrorKind::ExpectedPath => "Expected path.",
            ErrorKind::ExpectedColor => "Expected color token tree.",
            ErrorKind::ExpectedArrowCommaOrEnd => "Expected => , or end.",
            ErrorKind::ExpectedFields => "Expected {fields}.",
            ErrorKind::ExpectedEndOfArguments => "Expected end of arguments.",
            ErrorKind::ExpectedSeparator => "Expected one of ',', '.' or '::'.",
            ErrorKind::ExpectedDoubleColon => "Expected '::'.",
            ErrorKind::ExpectedIdent => "Expected Ident.",
            ErrorKind::ExpectedCommaOrEnd => "Expecting comma or end of list.",
            ErrorKind::InvalidHexDigit => "Not a valid hexadecimal number.",
            ErrorKind::InvalidHexLength => "Invalid color syntax, must be of length 6 or 8.",
            ErrorKind::InvalidColorSyntax => "Invalid color syntax.",
            ErrorKind::ExpectedNumber => "Expected number literal.",
            ErrorKind::IntegerOutOfRange => "Integer has to be in range 0..=255.",
            ErrorKind::IntegerOverflow => "Integer overflow.",
            ErrorKind::FloatOutOfRange => "Float has to be in range 0.0..=1.0.",
            ErrorKind::FloatOverflow => "float overflow.",
            ErrorKind::InvalidNegation => "Invalid token: -.",
            ErrorKind::SplatCount => "Splat can only have value 3 or 4.",
            ErrorKind::SplatAlphaCount => "Splat with alpha can only have value 3.",
            ErrorKind::UnknownColorSyntax => "Unknown color syntax.",
            ErrorKind::ExpectedThreeOrFourItems => "Expect 3 or 4 items.",
            ErrorKind::InvalidColorName => "Invalid color name.",
            ErrorKind::OutOfBounds => "Color out of bounds.",
            ErrorKind::FieldsAlreadySet => "Probably a bug: Idents already filled.",
            ErrorKind::TooFewFields => "Not enough field names for the channels.",
        }
    }
}

/// An error and the token it is about; `None` stands for the whole invocation.
#[derive(Debug, Clone, Copy, PartialEq, Eq, Structural)]
pub struct ColorError {
    pub kind: ErrorKind,
    pub at: Option<usize>,
}

impl ColorError {
    pub fn new(kind: ErrorKind, at: Option<usize>) -> (r: ColorError)
        ensures
            r == (ColorError { kind, at }),
    {
        ColorError { kind, at }
    }

    /// The message shown for this error.
    pub fn message(&self) -> (r: &'static str)
        ensures
            r == self.kind.text(),
    {
        match self.kind {
            ErrorKind::ExpectedPath => "Expected path.",
            ErrorKind::ExpectedColor => "Expected color token tree.",
            ErrorKind::ExpectedArrowCommaOrEnd => "Expected => , or end.",
            ErrorKind::ExpectedFields => "Expected {fields}.",
            ErrorKind::ExpectedEndOfArguments => "Expected end of arguments.",
            ErrorKind::ExpectedSeparator => "Expected one of ',', '.' or '::'.",
            ErrorKind::ExpectedDoubleColon => "Expected '::'.",
            ErrorKind::ExpectedIdent => "Expected Ident.",
            ErrorKind::ExpectedCommaOrEnd => "Expecting comma or end of list.",
            ErrorKind::InvalidHexDigit => "Not a valid hexadecimal number.",
            ErrorKind::InvalidHexLength => "Invalid color syntax, must be of length 6 or 8.",
            ErrorKind::InvalidColorSyntax => "Invalid color syntax.",
            ErrorKind::ExpectedNumber => "Expected number literal.",
            ErrorKind::IntegerOutOfRange => "Integer has to be in range 0..=255.",
            ErrorKind::IntegerOverflow => "Integer overflow.",
            ErrorKind::FloatOutOfRange => "Float has to be in range 0.0..=1.0.",
            ErrorKind::FloatOverflow => "float overflow.",
            ErrorKind::InvalidNegation => "Invalid token: -.",
            ErrorKind::SplatCount => "Splat can only have value 3 or 4.",
            ErrorKind::SplatAlphaCount => "Splat with alpha can only have value 3.",
            ErrorKind::UnknownColorSyntax => "Unknown color syntax.",
            ErrorKind::ExpectedThreeOrFourItems => "Expect 3 or 4 items.",
            ErrorKind::InvalidColorName => "Invalid color name.",
            ErrorKind::OutOfBounds => "Color out of bounds.",
            ErrorKind::FieldsAlreadySet => "Probably a bug: Idents already filled.",
            ErrorKind::TooFewFields => "Not enough field names for the channels.",
        }
    }
}

} // verus!
