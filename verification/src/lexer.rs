//! The cursor over the input text and the token recognizer built on it.
use crate::scan::find_from;
use crate::scan::invalid_char_text;
use crate::scan::is_alnum_char;
use crate::scan::is_alpha_char;
use crate::scan::is_blank_char;
use crate::scan::is_digit_char;
use crate::scan::is_num_end;
use crate::scan::is_num_end_char;
use crate::scan::lemma_find_from_bounds;
use crate::scan::lemma_scan_alnum_bounds;
use crate::scan::lemma_scan_num_body_bounds;
use crate::scan::lemma_skip_trivia_absorbs_ws;
use crate::scan::lemma_skip_trivia_bounds;
use crate::scan::lemma_skip_ws_bounds;
use crate::scan::scan_alnum;
use crate::scan::scan_num_body;
use crate::scan::skip_trivia;
use crate::scan::skip_ws;
use crate::scan::token_after;
use crate::token::Token;
use crate::token::TokenType;
use vstd::prelude::*;
use vstd::string::StrSliceExecFns;
use vstd::string::StringExecFns;

verus! {

/// A cursor over a fixed input text. `position` is the index of the current
/// character, `read_position` the index of the character a `peek_char` would
/// look at, and `ch` the current character, `None` exactly at end of input.
/// Every advance produces a new value; the input itself is never changed.
#[derive(Debug, PartialEq, Clone, Copy)]
pub struct Lexer<'a> {
    pub input: &'a str,
    pub position: usize,
    pub read_position: usize,
    pub ch: Option<char>,
}

impl<'a> Lexer<'a> {
    /// Well-formedness of the cursor: the lookahead index is one past the
    /// current one, the position never leaves the input (it rests at the
    /// length at end of input), and `ch` is the character under `position`,
    /// or `None` exactly at end of input.
    pub open spec fn wf(self) -> bool {
        &&& self.input@.len() < usize::MAX
        &&& self.position <= self.input@.len()
        &&& self.read_position == self.position + 1
        &&& self.ch == (if self.position < self.input@.len() {
            Some(self.input@[self.position as int])
        } else {
            None::<char>
        })
    }

    /// A cursor at the start of `input`, already holding the first character
    /// (or the end marker for empty input).
    pub fn new(input: &'a str) -> (r: Lexer<'a>)
        requires
            input@.len() < usize::MAX,
        ensures
            r.wf(),
            r.input == input,
            r.position == 0,
    {
        let len = input.unicode_len();
        let ch = if len > 0 {
            Some(input.get_char(0))
        } else {
            None
        };
        Lexer { input, position: 0, read_position: 1, ch }
    }

    /// The cursor one character further on. At end of input the cursor is a
    /// fixed point: the end marker stays and the position does not move.
    pub fn read_char(self) -> (r: Self)
        requires
            self.wf(),
        ensures
            r.wf(),
            r.input == self.input,
            self.position < self.input@.len() ==> r.position == self.position + 1,
            self.position >= self.input@.len() ==> r == self,
    {
        let len = self.input.unicode_len();
        if self.position >= len {
            self
        } else {
            let position = self.read_position;
            let ch = if position < len {
                Some(self.input.get_char(position))
            } else {
                None
            };
            Lexer { input: self.input, position, read_position: position + 1, ch }
        }
    }

    /// The character under `read_position`, without advancing; `None` when
    /// the lookahead is past the end of the input.
    pub fn peek_char(&self) -> (r: Option<char>)
        requires
            self.wf(),
        ensures
            r == (if self.position + 1 < self.input@.len() {
                Some(self.input@[self.position as int + 1])
            } else {
                None::<char>
            }),
    {
        let len = self.input.unicode_len();
        if self.read_position < len {
            Some(self.input.get_char(self.read_position))
        } else {
            None
        }
    }

    /// The cursor moved past the maximal run of whitespace under it.
    pub fn eat_whitespace(self) -> (r: Self)
        requires
            self.wf(),
        ensures
            r.wf(),
            r.input == self.input,
            r.position as int == skip_ws(self.input@, self.position as int),
    {
        let mut lx = self;
        loop
            invariant
                lx.wf(),
                lx.input == self.input,
                skip_ws(self.input@, self.position as int) == skip_ws(
                    self.input@,
                    lx.position as int,
                ),
            ensures
                skip_ws(self.input@, lx.position as int) == lx.position as int,
            decreases self.input@.len() - lx.position,
        {
            match lx.ch {
                Some(c) => {
                    if is_blank_char(c) {
                        lx = lx.read_char();
                    } else {
                        break ;
                    }
                },
                None => {
                    break ;
                },
            }
        }
        lx
    }

    /// One step of scanning: skip whitespace and `;`-comments, recognize the
    /// token that starts there, and return the cursor standing after that
    /// token together with the token. The pair is exactly what
    /// [`token_after`] says for the current position: category, literal text,
    /// and new position. At end of input the token is `EndOfInput` and the
    /// cursor does not move, so repeated calls keep returning `EndOfInput`.
    pub fn next_token(self) -> (r: (Self, Token))
        requires
            self.wf(),
        ensures
            r.0.wf(),
            r.0.input == self.input,
            r.0.position as int == token_after(self.input@, self.position as int).2,
            r.1.token_type == token_after(self.input@, self.position as int).0,
            r.1.literal@ == token_after(self.input@, self.position as int).1,
    {
        let ghost s = self.input@;
        let ghost pos0 = self.position as int;
        let mut lx = self;
        loop
            invariant
                lx.wf(),
                lx.input == self.input,
                self.wf(),
                self.position <= lx.position,
                skip_trivia(s, pos0) == skip_trivia(s, lx.position as int),
                s == self.input@,
                pos0 == self.position as int,
            ensures
                lx.wf(),
                lx.input == self.input,
                lx.position as int == skip_trivia(s, pos0),
            decreases s.len() - lx.position,
        {
            let before = lx;
            lx = lx.eat_whitespace();
            proof {
                lemma_skip_ws_bounds(s, before.position as int);
                lemma_skip_trivia_absorbs_ws(s, before.position as int);
            }
            let at_comment = match lx.ch {
                Some(c) => c == ';',
                None => false,
            };
            if at_comment {
                proof {
                    lemma_find_from_bounds(s, lx.position as int + 1, '\n');
                }
                let (after_comment, _) = lx.consume_line();
                lx = after_comment;
            } else {
                break ;
            }
        }
        let ghost p = lx.position as int;
        proof {
            lemma_skip_trivia_bounds(s, pos0);
        }
        match lx.ch {
            None => {
                (
                    lx.read_char(),
                    Token { token_type: TokenType::EndOfInput, literal: String::new() },
                )
            },
            Some(c) => {
                if c == ':' {
                    (lx.read_char(), Token { token_type: TokenType::Colon, literal: ":".to_owned() })
                } else if c == '{' {
                    (
                        lx.read_char(),
                        Token { token_type: TokenType::LeftBrace, literal: "{".to_owned() },
                    )
                } else if c == '}' {
                    (
                        lx.read_char(),
                        Token { token_type: TokenType::RightBrace, literal: "}".to_owned() },
                    )
                } else if c == ',' {
                    (lx.read_char(), Token { token_type: TokenType::Comma, literal: ",".to_owned() })
                } else if c == '"' {
                    proof {
                        lemma_find_from_bounds(s, p + 1, '"');
                    }
                    let (closed, scanned) = lx.consume_string();
                    let advanced = closed.read_char();
                    match scanned {
                        Some(_) => {
                            let literal = self.input.substring_char(
                                lx.position,
                                closed.position + 1,
                            ).to_owned();
                            (advanced, Token { token_type: TokenType::String, literal })
                        },
                        None => {
                            (
                                advanced,
                                Token {
                                    token_type: TokenType::Invalid,
                                    literal: "malformed string".to_owned(),
                                },
                            )
                        },
                    }
                } else if is_alpha_char(c) {
                    let (scanned, _) = lx.consume_ident();
                    proof {
                        lemma_scan_alnum_bounds(s, p + 1);
                    }
                    let literal = self.input.substring_char(
                        lx.position,
                        scanned.position + 1,
                    ).to_owned();
                    (scanned.read_char(), Token { token_type: TokenType::Ident, literal })
                } else if is_digit_char(c) || c == '-' {
                    let (scanned, body) = lx.consume_number();
                    proof {
                        lemma_scan_num_body_bounds(s, p + 1);
                    }
                    let advanced = scanned.read_char();
                    match body {
                        Some(_) => {
                            let literal = self.input.substring_char(
                                lx.position,
                                scanned.position + 1,
                            ).to_owned();
                            (advanced, Token { token_type: TokenType::Numeric, literal })
                        },
                        None => {
                            (
                                advanced,
                                Token {
                                    token_type: TokenType::Invalid,
                                    literal: "malformed number".to_owned(),
                                },
                            )
                        },
                    }
                } else {
                    let offending = self.input.substring_char(lx.position, lx.position + 1);
                    let literal = "'".to_owned().concat(offending).concat("' is invalid");
                    proof {
                        assert(s.subrange(p, p + 1) =~= seq![c]);
                        assert(literal@ == invalid_char_text(c));
                    }
                    (lx.read_char(), Token { token_type: TokenType::Invalid, literal })
                }
            },
        }
    }

    /// The cursor moved to the end of the current line (onto the newline, or
    /// to end of input when the line is the last), together with the text
    /// between the current character (exclusive) and the line end. Scanning
    /// a `;` comment consumes the rest of its line this way.
    pub fn consume_line(self) -> (r: (Self, String))
        requires
            self.wf(),
        ensures
            r.0.wf(),
            r.0.input == self.input,
            r.0.position as int == find_from(self.input@, self.position as int + 1, '\n'),
            self.position < self.input@.len() ==> r.1@ == self.input@.subrange(
                self.position as int + 1,
                find_from(self.input@, self.position as int + 1, '\n'),
            ),
            self.position >= self.input@.len() ==> r.1@ == Seq::<char>::empty(),
    {
        let mut lx = self.read_char();
        loop
            invariant
                lx.wf(),
                lx.input == self.input,
                self.wf(),
                self.position < self.input@.len() ==> self.position + 1 <= lx.position,
                self.position >= self.input@.len() ==> lx == self,
                find_from(self.input@, self.position as int + 1, '\n') == find_from(
                    self.input@,
                    lx.position as int,
                    '\n',
                ),
            ensures
                find_from(self.input@, lx.position as int, '\n') == lx.position as int,
            decreases self.input@.len() - lx.position,
        {
            match lx.ch {
                Some(c) => {
                    if c == '\n' {
                        break ;
                    } else {
                        lx = lx.read_char();
                    }
                },
                None => {
                    break ;
                },
            }
        }
        let len = self.input.unicode_len();
        let comment = if self.position < len {
            self.input.substring_char(self.position + 1, lx.position).to_owned()
        } else {
            String::new()
        };
        (lx, comment)
    }

    /// The cursor moved onto the last character of the maximal alphanumeric
    /// run that follows the current character, together with that run's
    /// text. Scanning an identifier consumes its body this way; the
    /// triggering alphabetic character itself is not part of the returned
    /// text.
    pub fn consume_ident(self) -> (r: (Self, String))
        requires
            self.wf(),
        ensures
            r.0.wf(),
            r.0.input == self.input,
            r.0.position as int == scan_alnum(self.input@, self.position as int + 1) - 1,
            self.position < self.input@.len() ==> r.1@ == self.input@.subrange(
                self.position as int + 1,
                scan_alnum(self.input@, self.position as int + 1),
            ),
            self.position >= self.input@.len() ==> r.1@ == Seq::<char>::empty(),
    {
        let mut lx = self;
        loop
            invariant
                lx.wf(),
                lx.input == self.input,
                self.wf(),
                self.position <= lx.position,
                self.position >= self.input@.len() ==> lx == self,
                scan_alnum(self.input@, self.position as int + 1) == scan_alnum(
                    self.input@,
                    lx.position as int + 1,
                ),
            ensures
                scan_alnum(self.input@, lx.position as int + 1) == lx.position as int + 1,
            decreases self.input@.len() - lx.position,
        {
            let go = match lx.peek_char() {
                Some(c) => is_alnum_char(c),
                None => false,
            };
            if go {
                lx = lx.read_char();
            } else {
                break ;
            }
        }
        let len = self.input.unicode_len();
        let body = if self.position < len {
            proof {
                lemma_scan_alnum_bounds(self.input@, self.position as int + 1);
            }
            self.input.substring_char(self.position + 1, lx.position + 1).to_owned()
        } else {
            String::new()
        };
        (lx, body)
    }

    /// Scan for the closing quote of a string whose opening quote is under
    /// the cursor. When a closing quote exists, the cursor ends on it and
    /// the returned text runs from the character after the opening quote
    /// through the closing quote. When the input ends first, the result is
    /// `None` and the cursor rests on the last character of the input.
    pub fn consume_string(self) -> (r: (Self, Option<String>))
        requires
            self.wf(),
        ensures
            r.0.wf(),
            r.0.input == self.input,
            ({
                let e = find_from(self.input@, self.position as int + 1, '"');
                &&& (self.position as int) < self.input@.len() ==> (if e < self.input@.len() {
                    &&& r.0.position as int == e
                    &&& (match r.1 {
                        Some(st) => st@ == self.input@.subrange(self.position as int + 1, e + 1),
                        None => false,
                    })
                } else {
                    &&& r.0.position as int == self.input@.len() - 1
                    &&& r.1 is None
                })
                &&& (self.position as int) >= self.input@.len() ==> r.0 == self && r.1 is None
            }),
    {
        let mut lx = self;
        loop
            invariant
                lx.wf(),
                lx.input == self.input,
                self.wf(),
                self.position <= lx.position,
                self.position < self.input@.len() ==> lx.position < self.input@.len(),
                self.position >= self.input@.len() ==> lx == self,
                find_from(self.input@, self.position as int + 1, '"') == find_from(
                    self.input@,
                    lx.position as int + 1,
                    '"',
                ),
            decreases self.input@.len() - lx.position,
        {
            match lx.peek_char() {
                None => {
                    return (lx, None);
                },
                Some(c) => {
                    if c == '"' {
                        let closed = lx.read_char();
                        let text = self.input.substring_char(
                            self.position + 1,
                            closed.position + 1,
                        ).to_owned();
                        return (closed, Some(text));
                    } else {
                        lx = lx.read_char();
                    }
                },
            }
        }
    }

    /// Scan the body of a numeric literal whose first character (a digit or
    /// a leading `-`) is under the cursor: the cursor moves onto the last of
    /// the digits and dots that follow. When the body ends at a valid
    /// terminator (whitespace, a comma, or end of input) the result is the
    /// body's text, the terminator not included; when any other character
    /// follows the body, the literal is malformed and the result is `None`.
    pub fn consume_number(self) -> (r: (Self, Option<String>))
        requires
            self.wf(),
        ensures
            r.0.wf(),
            r.0.input == self.input,
            r.0.position as int == scan_num_body(self.input@, self.position as int + 1) - 1,
            (self.position as int) >= self.input@.len() ==> r.0 == self && (match r.1 {
                Some(st) => st@ == Seq::<char>::empty(),
                None => false,
            }),
            (self.position as int) < self.input@.len() ==> ({
                let e = scan_num_body(self.input@, self.position as int + 1);
                if e == self.input@.len() || is_num_end(self.input@[e]) {
                    match r.1 {
                        Some(st) => st@ == self.input@.subrange(self.position as int + 1, e),
                        None => false,
                    }
                } else {
                    r.1 is None
                }
            }),
    {
        let mut lx = self;
        loop
            invariant
                lx.wf(),
                lx.input == self.input,
                self.wf(),
                self.position <= lx.position,
                self.position < self.input@.len() ==> lx.position < self.input@.len(),
                self.position >= self.input@.len() ==> lx == self,
                scan_num_body(self.input@, self.position as int + 1) == scan_num_body(
                    self.input@,
                    lx.position as int + 1,
                ),
            decreases self.input@.len() - lx.position,
        {
            match lx.peek_char() {
                None => {
                    let len = self.input.unicode_len();
                    let body = if self.position < len {
                        self.input.substring_char(self.position + 1, lx.position + 1).to_owned()
                    } else {
                        String::new()
                    };
                    return (lx, Some(body));
                },
                Some(c) => {
                    if is_digit_char(c) || c == '.' {
                        lx = lx.read_char();
                    } else if is_num_end_char(c) {
                        let body = self.input.substring_char(
                            self.position + 1,
                            lx.position + 1,
                        ).to_owned();
                        return (lx, Some(body));
                    } else {
                        return (lx, None);
                    }
                },
            }
        }
    }
}

} // verus!
