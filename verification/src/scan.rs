//! The mathematical model of the scanner.
//!
//! Everything here is stated over the input viewed as a `Seq<char>` and an
//! integer position. [`token_after`] is the model of one `next_token` call:
//! it says which token starts at a position (after skipping whitespace and
//! comments) and where the cursor stands afterwards. The executable scanner
//! in [`crate::lexer`] is verified against these functions.
use crate::token::TokenType;
use vstd::prelude::*;

verus! {

/// Whitespace for this format: space, tab, newline, carriage return.
/// Classification of characters beyond basic Latin text is out of scope, so
/// this one predicate serves both the whitespace-skipping stage and the
/// numeric-terminator test.
pub open spec fn is_blank(c: char) -> bool {
    c == ' ' || c == '\t' || c == '\n' || c == '\r'
}

/// An alphabetic character, which opens an identifier.
pub open spec fn is_alpha(c: char) -> bool {
    ('a' <= c && c <= 'z') || ('A' <= c && c <= 'Z')
}

/// A decimal digit.
pub open spec fn is_digit(c: char) -> bool {
    '0' <= c && c <= '9'
}

/// A character that may continue an identifier.
pub open spec fn is_alnum(c: char) -> bool {
    is_alpha(c) || is_digit(c)
}

/// A character that validly terminates a numeric literal: a comma or any
/// whitespace character (newline included).
pub open spec fn is_num_end(c: char) -> bool {
    is_blank(c) || c == ','
}

/// The position after a maximal run of whitespace starting at `p`.
pub open spec fn skip_ws(s: Seq<char>, p: int) -> int
    decreases s.len() - p,
{
    if 0 <= p < s.len() && is_blank(s[p]) {
        skip_ws(s, p + 1)
    } else {
        p
    }
}

/// The first position at or after `p` holding the character `c`, or the
/// input length when there is no such position.
pub open spec fn find_from(s: Seq<char>, p: int, c: char) -> int
    decreases s.len() - p,
{
    if 0 <= p < s.len() {
        if s[p] == c {
            p
        } else {
            find_from(s, p + 1, c)
        }
    } else {
        s.len() as int
    }
}

/// The position of the first character that belongs to a token: starting at
/// `p`, whitespace is skipped, and a `;` skips the rest of its line (the
/// terminating newline is whitespace and is skipped in turn; a comment at
/// end of input terminates there).
pub open spec fn skip_trivia(s: Seq<char>, p: int) -> int
    decreases s.len() - p,
    via skip_trivia_decreases
{
    if 0 <= p < s.len() {
        if is_blank(s[p]) {
            skip_trivia(s, p + 1)
        } else if s[p] == ';' {
            skip_trivia(s, find_from(s, p + 1, '\n'))
        } else {
            p
        }
    } else {
        p
    }
}

#[via_fn]
proof fn skip_trivia_decreases(s: Seq<char>, p: int) {
    if 0 <= p < s.len() && !is_blank(s[p]) && s[p] == ';' {
        lemma_find_from_bounds(s, p + 1, '\n');
    }
}

/// The position after a maximal run of alphanumeric characters starting at
/// `p`: the end of an identifier whose body starts there.
pub open spec fn scan_alnum(s: Seq<char>, p: int) -> int
    decreases s.len() - p,
{
    if 0 <= p < s.len() && is_alnum(s[p]) {
        scan_alnum(s, p + 1)
    } else {
        p
    }
}

/// The position after a maximal run of digits and dots starting at `p`: the
/// end of the body of a numeric literal. Dots are not counted, so `1.2.3`
/// scans as one numeric body.
pub open spec fn scan_num_body(s: Seq<char>, p: int) -> int
    decreases s.len() - p,
{
    if 0 <= p < s.len() && (is_digit(s[p]) || s[p] == '.') {
        scan_num_body(s, p + 1)
    } else {
        p
    }
}

/// The text of the `Invalid` token reported for an unexpected character.
pub open spec fn invalid_char_text(c: char) -> Seq<char> {
    "'"@ + seq![c] + "' is invalid"@
}

/// The model of one `next_token` call on input `s` at position `pos`:
/// the token's category, its literal text, and the cursor position after it.
///
/// Whitespace and comments before the token are skipped. At end of input the
/// token is `EndOfInput` with an empty literal and the position stays put,
/// so the stream has a fixed point there. A string without a closing quote
/// and a numeric literal followed by a character that is neither digit, dot
/// nor terminator yield `Invalid` tokens with fixed descriptions.
pub open spec fn token_after(s: Seq<char>, pos: int) -> (TokenType, Seq<char>, int) {
    let p = skip_trivia(s, pos);
    if !(0 <= p < s.len()) {
        (TokenType::EndOfInput, Seq::<char>::empty(), p)
    } else {
        let c = s[p];
        if c == ':' {
            (TokenType::Colon, ":"@, p + 1)
        } else if c == '{' {
            (TokenType::LeftBrace, "{"@, p + 1)
        } else if c == '}' {
            (TokenType::RightBrace, "}"@, p + 1)
        } else if c == ',' {
            (TokenType::Comma, ","@, p + 1)
        } else if c == '"' {
            let e = find_from(s, p + 1, '"');
            if e < s.len() {
                (TokenType::String, s.subrange(p, e + 1), e + 1)
            } else {
                (TokenType::Invalid, "malformed string"@, s.len() as int)
            }
        } else if is_alpha(c) {
            (TokenType::Ident, s.subrange(p, scan_alnum(s, p + 1)), scan_alnum(s, p + 1))
        } else if is_digit(c) || c == '-' {
            let e = scan_num_body(s, p + 1);
            if e == s.len() || is_num_end(s[e]) {
                (TokenType::Numeric, s.subrange(p, e), e)
            } else {
                (TokenType::Invalid, "malformed number"@, e)
            }
        } else {
            (TokenType::Invalid, invalid_char_text(c), p + 1)
        }
    }
}

/// `skip_ws` never moves backwards, never leaves the input, and stops on a
/// non-whitespace character.
pub proof fn lemma_skip_ws_bounds(s: Seq<char>, p: int)
    requires
        0 <= p <= s.len(),
    ensures
        p <= skip_ws(s, p) <= s.len(),
        skip_ws(s, p) < s.len() ==> !is_blank(s[skip_ws(s, p)]),
    decreases s.len() - p,
{
    if p < s.len() && is_blank(s[p]) {
        lemma_skip_ws_bounds(s, p + 1);
    }
}

/// `find_from` never moves backwards, never leaves the input, and finds `c`
/// exactly when it stops before the end.
pub proof fn lemma_find_from_bounds(s: Seq<char>, p: int, c: char)
    requires
        0 <= p <= s.len(),
    ensures
        p <= find_from(s, p, c) <= s.len(),
        find_from(s, p, c) < s.len() ==> s[find_from(s, p, c)] == c,
    decreases s.len() - p,
{
    if p < s.len() && s[p] != c {
        lemma_find_from_bounds(s, p + 1, c);
    }
}

/// `skip_trivia` never moves backwards, never leaves the input, and stops on
/// a character that is neither whitespace nor the start of a comment.
pub proof fn lemma_skip_trivia_bounds(s: Seq<char>, p: int)
    requires
        0 <= p <= s.len(),
    ensures
        p <= skip_trivia(s, p) <= s.len(),
        skip_trivia(s, p) < s.len() ==> !is_blank(s[skip_trivia(s, p)]) && s[skip_trivia(s, p)]
            != ';',
    decreases s.len() - p,
{
    if p < s.len() {
        if is_blank(s[p]) {
            lemma_skip_trivia_bounds(s, p + 1);
        } else if s[p] == ';' {
            lemma_find_from_bounds(s, p + 1, '\n');
            lemma_skip_trivia_bounds(s, find_from(s, p + 1, '\n'));
        }
    }
}

/// Skipping whitespace first does not change where the trivia ends.
pub proof fn lemma_skip_trivia_absorbs_ws(s: Seq<char>, p: int)
    requires
        0 <= p <= s.len(),
    ensures
        skip_trivia(s, skip_ws(s, p)) == skip_trivia(s, p),
    decreases s.len() - p,
{
    if p < s.len() && is_blank(s[p]) {
        lemma_skip_trivia_absorbs_ws(s, p + 1);
    }
}

/// A position with no trivia in front of it is its own trivia-skipped
/// position, so skipping twice is the same as skipping once.
pub proof fn lemma_skip_trivia_idempotent(s: Seq<char>, p: int)
    requires
        0 <= p <= s.len(),
    ensures
        skip_trivia(s, skip_trivia(s, p)) == skip_trivia(s, p),
{
    lemma_skip_trivia_bounds(s, p);
}

/// `scan_alnum` never moves backwards and never leaves the input.
pub proof fn lemma_scan_alnum_bounds(s: Seq<char>, p: int)
    requires
        0 <= p <= s.len(),
    ensures
        p <= scan_alnum(s, p) <= s.len(),
    decreases s.len() - p,
{
    if p < s.len() && is_alnum(s[p]) {
        lemma_scan_alnum_bounds(s, p + 1);
    }
}

/// `scan_num_body` never moves backwards and never leaves the input.
pub proof fn lemma_scan_num_body_bounds(s: Seq<char>, p: int)
    requires
        0 <= p <= s.len(),
    ensures
        p <= scan_num_body(s, p) <= s.len(),
    decreases s.len() - p,
{
    if p < s.len() && (is_digit(s[p]) || s[p] == '.') {
        lemma_scan_num_body_bounds(s, p + 1);
    }
}

/// Whitespace test for one character; agrees with [`is_blank`].
pub fn is_blank_char(c: char) -> (r: bool)
    ensures
        r == is_blank(c),
{
    c == ' ' || c == '\t' || c == '\n' || c == '\r'
}

/// Alphabetic test for one character; agrees with [`is_alpha`].
pub fn is_alpha_char(c: char) -> (r: bool)
    ensures
        r == is_alpha(c),
{
    ('a' <= c && c <= 'z') || ('A' <= c && c <= 'Z')
}

/// Digit test for one character; agrees with [`is_digit`].
pub fn is_digit_char(c: char) -> (r: bool)
    ensures
        r == is_digit(c),
{
    '0' <= c && c <= '9'
}

/// Alphanumeric test for one character; agrees with [`is_alnum`].
pub fn is_alnum_char(c: char) -> (r: bool)
    ensures
        r == is_alnum(c),
{
    is_alpha_char(c) || is_digit_char(c)
}

/// Numeric-terminator test for one character; agrees with [`is_num_end`].
pub fn is_num_end_char(c: char) -> (r: bool)
    ensures
        r == is_num_end(c),
{
    is_blank_char(c) || c == ','
}

} // verus!
