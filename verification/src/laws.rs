//! Stream-level properties of the scanner, proved against the model in
//! [`crate::scan`]. `next_token` is verified to agree with
//! [`crate::scan::token_after`], so each property here holds of the
//! executable scanner as well.
use crate::scan::invalid_char_text;
use crate::scan::is_alpha;
use crate::scan::is_blank;
use crate::scan::is_digit;
use crate::scan::lemma_find_from_bounds;
use crate::scan::lemma_scan_alnum_bounds;
use crate::scan::lemma_scan_num_body_bounds;
use crate::scan::lemma_skip_trivia_bounds;
use crate::scan::lemma_skip_trivia_idempotent;
use crate::scan::skip_trivia;
use crate::scan::token_after;
use crate::token::TokenType;
use vstd::prelude::*;

verus! {

/// Leading whitespace and comments never change what is scanned: the token
/// found at a position is exactly the token found at its trivia-skipped
/// position, with the same literal and the same cursor position after it.
pub proof fn lemma_trivia_invisible(s: Seq<char>, pos: int)
    requires
        0 <= pos <= s.len(),
    ensures
        token_after(s, pos) == token_after(s, skip_trivia(s, pos)),
{
    lemma_skip_trivia_bounds(s, pos);
    lemma_skip_trivia_idempotent(s, pos);
}

/// An input holding nothing but whitespace and comments from `pos` on scans
/// to `EndOfInput` with an empty literal, and the cursor comes to rest at
/// the end of the input.
pub proof fn lemma_only_trivia_scans_to_end(s: Seq<char>, pos: int)
    requires
        0 <= pos <= s.len(),
        skip_trivia(s, pos) == s.len(),
    ensures
        token_after(s, pos).0 == TokenType::EndOfInput,
        token_after(s, pos).1 == Seq::<char>::empty(),
        token_after(s, pos).2 == s.len(),
{
}

/// Round trip for punctuation: when the first token character is one of
/// `:`, `{`, `}` or `,`, the returned literal is exactly that one character
/// as text, the category is the fixed mapping for it, and the cursor moves
/// one character past it.
pub proof fn lemma_punctuation_round_trip(s: Seq<char>, pos: int)
    requires
        0 <= pos <= s.len(),
        skip_trivia(s, pos) < s.len(),
        s[skip_trivia(s, pos)] == ':' || s[skip_trivia(s, pos)] == '{' || s[skip_trivia(s, pos)]
            == '}' || s[skip_trivia(s, pos)] == ',',
    ensures
        token_after(s, pos).1 == seq![s[skip_trivia(s, pos)]],
        token_after(s, pos).0 == (if s[skip_trivia(s, pos)] == ':' {
            TokenType::Colon
        } else if s[skip_trivia(s, pos)] == '{' {
            TokenType::LeftBrace
        } else if s[skip_trivia(s, pos)] == '}' {
            TokenType::RightBrace
        } else {
            TokenType::Comma
        }),
        token_after(s, pos).2 == skip_trivia(s, pos) + 1,
{
    lemma_skip_trivia_bounds(s, pos);
    reveal_strlit(":");
    reveal_strlit("{");
    reveal_strlit("}");
    reveal_strlit(",");
    assert(":"@ =~= seq![':']);
    assert("{"@ =~= seq!['{']);
    assert("}"@ =~= seq!['}']);
    assert(","@ =~= seq![',']);
}

/// Scanning always makes progress: every token but `EndOfInput` moves the
/// cursor strictly forward and never past the end of the input, and
/// `EndOfInput` leaves the cursor exactly at the end. A consumer that calls
/// `next_token` until it sees `EndOfInput` therefore always halts, malformed
/// input included.
pub proof fn lemma_scan_progress(s: Seq<char>, pos: int)
    requires
        0 <= pos <= s.len(),
    ensures
        token_after(s, pos).0 != TokenType::EndOfInput ==> pos < token_after(s, pos).2 <= s.len(),
        token_after(s, pos).0 == TokenType::EndOfInput ==> token_after(s, pos).2 == s.len(),
{
    lemma_skip_trivia_bounds(s, pos);
    let p = skip_trivia(s, pos);
    if p < s.len() {
        let c = s[p];
        if c == '"' {
            lemma_find_from_bounds(s, p + 1, '"');
        } else if is_alpha(c) {
            lemma_scan_alnum_bounds(s, p + 1);
        } else if is_digit(c) || c == '-' {
            lemma_scan_num_body_bounds(s, p + 1);
        }
    }
}

/// Once the scanner reports `EndOfInput` it keeps reporting it: scanning
/// again from the position that came back with `EndOfInput` yields the same
/// token and the same position, so end of input is a fixed point of the
/// stream.
pub proof fn lemma_end_of_input_fixed_point(s: Seq<char>, pos: int)
    requires
        0 <= pos <= s.len(),
        token_after(s, pos).0 == TokenType::EndOfInput,
    ensures
        token_after(s, token_after(s, pos).2) == token_after(s, pos),
{
    lemma_skip_trivia_bounds(s, pos);
}

/// An unexpected character is reported, not skipped over silently: the
/// `Invalid` token for it names the character itself, and the cursor moves
/// past it so that scanning can continue.
pub proof fn lemma_invalid_char_reported(s: Seq<char>, pos: int)
    requires
        0 <= pos <= s.len(),
        skip_trivia(s, pos) < s.len(),
        ({
            let c = s[skip_trivia(s, pos)];
            &&& !is_blank(c)
            &&& !is_alpha(c)
            &&& !is_digit(c)
            &&& c != ':' && c != '{' && c != '}' && c != ',' && c != '"' && c != '-' && c != ';'
        }),
    ensures
        token_after(s, pos).0 == TokenType::Invalid,
        token_after(s, pos).1 == invalid_char_text(s[skip_trivia(s, pos)]),
        token_after(s, pos).2 == skip_trivia(s, pos) + 1,
{
    lemma_skip_trivia_bounds(s, pos);
}

} // verus!
