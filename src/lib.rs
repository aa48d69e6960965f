//! Color literals for constructor calls.
//!
//! The library reads the tokens of a color written in one of several
//! surface syntaxes (bracketed numbers, splats, hex strings and hex
//! literals, named colors, parenthesised expressions) and decides the call or
//! structure literal that builds a caller's color type with three or four
//! integer or floating-point channels.
//!
//! Floating-point channels are held as fractions of two 64-bit integers:
//! exactly where a literal has at most 18 significant digits and needs a
//! denominator of at most `10^18`, else rounded toward zero (values beyond
//! `i64::MAX` saturate).

pub mod convert;
pub mod emit;
pub mod error;
pub mod frac;
pub mod laws;
pub mod literal;
pub mod named;
pub mod parse;
pub mod path;
pub mod token;

pub use convert::{Channel, Kind};
pub use emit::{expand, rgb, rgba, rgbaf, rgbf, Emission, Shape};
pub use error::{ColorError, ErrorKind};
pub use frac::Frac;
pub use named::u8_to_i64;
pub use parse::{parse_color, ColorResult, Config, ExprRange, Field, Posture};
pub use path::{extract_path, PathSep, PathSplit};
pub use token::{Delim, Tok};
