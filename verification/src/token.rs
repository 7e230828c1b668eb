//! Tokens produced by the scanner.
use vstd::prelude::*;

verus! {

/// The closed set of token categories the scanner can produce. Punctuation
/// not covered by these falls to `Invalid`.
#[derive(Debug, PartialEq, Eq, Structural, Clone, Copy)]
pub enum TokenType {
    /// An unexpected character, an unterminated string, or a malformed
    /// numeric literal; the literal carries a human-readable description.
    Invalid,
    /// End of input: the stream's fixed point, returned again on every
    /// further call.
    EndOfInput,
    /// An identifier: one alphabetic character followed by zero or more
    /// alphanumeric characters.
    Ident,
    /// The punctuation character `:`.
    Colon,
    /// The punctuation character `{`.
    LeftBrace,
    /// The punctuation character `}`.
    RightBrace,
    /// A quoted string, delimiters included in the literal.
    String,
    /// A numeric literal: digits and dots, optionally led by `-`.
    Numeric,
    /// The punctuation character `,`.
    Comma,
}

/// A classified lexical unit: its category and the exact source text matched
/// (for strings, delimiters included; for errors, a description instead).
#[derive(Debug, PartialEq)]
pub struct Token {
    pub token_type: TokenType,
    pub literal: String,
}

} // verus!
