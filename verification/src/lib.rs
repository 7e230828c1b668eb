//! Lexical scanner for ASCII FBX-style scene-description text.
//!
//! The scanner turns the text of a scene file into a stream of classified
//! tokens: identifiers, quoted strings, numeric literals, and the
//! single-character punctuation of the format. A [`lexer::Lexer`] is an
//! immutable cursor over the input; each call of
//! [`lexer::Lexer::next_token`] skips whitespace and `;`-comments, scans one
//! token, and returns the advanced cursor together with the token. Every
//! error (an unexpected character, an unterminated string, a malformed
//! number) flows through the same channel as an `Invalid` token, so a caller
//! that keeps asking for tokens always reaches `EndOfInput` and stays there.
//!
//! The module [`scan`] holds the mathematical model of the scanner: spec
//! functions over the input viewed as a `Seq<char>` that say exactly which
//! token starts at a given position and where the cursor stands afterwards.
//! The contracts of the executable functions are stated against that model,
//! and [`laws`] proves the stream-level properties (tokens are invariant
//! under leading whitespace and comments, scanning always makes progress,
//! `EndOfInput` is a fixed point).
pub mod laws;
pub mod lexer;
pub mod scan;
pub mod token;
