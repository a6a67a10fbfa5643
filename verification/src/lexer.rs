//! The scanner: a cursor over a byte buffer that hands out one token for
//! each pull.

pub mod bytes;
pub mod grammar;
pub mod laws;
pub mod stream;
pub mod strings;
pub mod text;
pub mod token;

use bytes::{
    byte_is_digit, byte_is_lower, byte_is_space, symbol, unescape, BACKSLASH, BACKTICK, LOOP,
    MINUS, NEWLINE, PERIOD, QUOTE,
};
use grammar::{
    lends_literal, next_step, number_from, run_end, skip_blank, span_token, string_from, token_at,
    ByteClass,
};
use laws::lemma_step_progress;
use std::borrow::Cow;
use stream::{lexemes, token_stream};
use text::{decode, literal_text, lossy};
use token::{Lexeme, Token, TokenType};
use vstd::prelude::*;
use vstd::slice::slice_subrange;
use vstd::utf8::{encode_utf8, encode_utf8_valid_utf8, valid_utf8};

verus! {

/// A cursor over a source buffer. The buffer is borrowed and never changed;
/// the offset only grows and never passes the end of the buffer.
#[derive(Debug)]
pub struct Lexer<'s> {
    source: &'s [u8],
    idx: usize,
}

/// Where the scanner stands while it reads one token.
#[derive(Clone, Copy)]
enum State {
    /// Between tokens, before the first byte of the next one.
    Start,
    /// In a run of whitespace.
    Whitespace,
    /// Inside a comment.
    Comment,
    /// In the digits of a number, before any decimal point.
    Integer,
    /// In the digits after the decimal point.
    Float,
    /// In the letters of a variable.
    Variable,
    /// Inside a string literal.
    StringLiteral,
    /// Inside a string literal, just after a backslash.
    Backslash,
    /// On a minus sign that may be the sign of a number.
    Minus,
}

/// What the scanner has established in `state` at offset `idx`, having
/// started this pull at `origin`: between tokens, that the next token starts
/// where it did at `origin`; inside the token that starts at `start`, that
/// reading on from `idx` gives that token.
spec fn on_track(
    state: State,
    src: Seq<u8>,
    origin: int,
    start: int,
    idx: int,
    text: Seq<u8>,
) -> bool {
    &&& 0 <= origin <= idx <= src.len()
    &&& match state {
        State::Start | State::Whitespace => skip_blank(src, idx, false) == skip_blank(
            src,
            origin,
            false,
        ),
        State::Comment => skip_blank(src, idx, true) == skip_blank(src, origin, false),
        _ => {
            &&& start == skip_blank(src, origin, false)
            &&& origin <= start <= idx
            &&& start < src.len()
            &&& match state {
                State::Minus => idx == start && src[start] == MINUS,
                State::Integer => number_from(src, start, idx) == token_at(src, start),
                State::Float => span_token(
                    src,
                    TokenType::Float,
                    start,
                    run_end(src, idx, ByteClass::Digit),
                ) == token_at(src, start),
                State::Variable => span_token(
                    src,
                    TokenType::Variable,
                    start,
                    run_end(src, idx, ByteClass::Lower),
                ) == token_at(src, start),
                State::StringLiteral => start < idx && string_from(src, start, idx, text)
                    == token_at(src, start),
                State::Backslash => start + 1 < idx && src[idx - 1] == BACKSLASH && string_from(
                    src,
                    start,
                    idx - 1,
                    text,
                ) == token_at(src, start),
                _ => true,
            }
        },
    }
}

/// Orders the states that may follow one another without a byte being
/// consumed in between.
spec fn rank(state: State) -> nat {
    match state {
        State::Whitespace => 2,
        State::Start => 1,
        _ => 0,
    }
}

impl<'s> Lexer<'s> {
    #[verifier::type_invariant]
    spec fn within_source(&self) -> bool {
        self.idx <= self.source@.len()
    }

    /// The bytes of the buffer that the scanner reads.
    pub closed spec fn source(&self) -> Seq<u8> {
        self.source@
    }

    /// The offset of the next byte that the scanner will read.
    pub closed spec fn position(&self) -> int {
        self.idx as int
    }

    /// A scanner at the start of a text; it reads the UTF-8 encoding of the
    /// text.
    pub fn new(source: &'s str) -> (lexer: Self)
        ensures
            lexer.source() == encode_utf8(source@),
            valid_utf8(lexer.source()),
            lexer.position() == 0,
    {
        proof {
            encode_utf8_valid_utf8(source@);
        }
        Self { source: source.as_bytes(), idx: 0 }
    }

    /// A scanner at the start of a buffer of bytes, which need not be
    /// well-formed UTF-8.
    pub fn new_with_bytes(source: &'s [u8]) -> (lexer: Self)
        ensures
            lexer.source() == source@,
            lexer.position() == 0,
    {
        Self { source, idx: 0 }
    }

    /// The byte after the current one, if there is one.
    fn peek(&self) -> (byte: Option<u8>)
        ensures
            byte == if self.position() + 1 < self.source().len() {
                Some(self.source()[self.position() + 1])
            } else {
                None
            },
    {
        proof {
            use_type_invariant(self);
        }
        if self.source.len() - self.idx > 1 {
            Some(self.source[self.idx + 1])
        } else {
            None
        }
    }

    /// The current byte.
    fn get_byte(&self) -> (byte: u8)
        requires
            self.position() < self.source().len(),
        ensures
            byte == self.source()[self.position()],
    {
        self.source[self.idx]
    }

    /// The token of category `kind` whose literal is the source from `start`
    /// to `end`.
    fn spanning(src: &'s [u8], kind: TokenType, start: usize, end: usize) -> (tok: Token<'s>)
        requires
            start <= end <= src@.len(),
        ensures
            tok@ == (Lexeme {
                kind,
                text: literal_text(src@.subrange(start as int, end as int)),
            }),
            valid_utf8(src@.subrange(start as int, end as int)) ==> tok.literal is Borrowed,
    {
        Token { toktype: kind, literal: lossy(slice_subrange(src, start, end)) }
    }

    /// Produces the next token, or `None` once the input is exhausted.
    ///
    /// Whitespace and comments before the token are passed over. Malformed
    /// input gives an `Illegal` token, never a failure, and the scanner goes
    /// on behind it. Only the literal of a string is a new buffer; every
    /// other literal that is well-formed UTF-8 is lent from the source.
    #[verifier::rlimit(20)]
    pub fn next_token(&mut self) -> (tok: Option<Token<'s>>)
        ensures
            final(self).source() == old(self).source(),
            final(self).position() == next_step(old(self).source(), old(self).position()).end,
            match next_step(old(self).source(), old(self).position()).token {
                Some(lexeme) => tok is Some && tok->0@ == lexeme,
                None => tok is None,
            },
            tok is Some && lends_literal(
                old(self).source(),
                skip_blank(old(self).source(), old(self).position(), false),
            ) ==> tok->0.literal is Borrowed,
            old(self).position() <= final(self).position() <= old(self).source().len(),
            tok is Some ==> old(self).position() < final(self).position(),
            tok is None ==> final(self).position() == old(self).source().len(),
    {
        proof {
            use_type_invariant(&*self);
        }
        let src: &'s [u8] = self.source;
        let mut state = State::Start;
        let mut start_idx: usize = self.idx;
        let mut string_literal: Vec<u8> = Vec::new();

        loop
            invariant
                self.source@ == src@,
                src@ == old(self).source@,
                on_track(
                    state,
                    src@,
                    old(self).idx as int,
                    start_idx as int,
                    self.idx as int,
                    string_literal@,
                ),
            decreases src@.len() - self.idx, rank(state),
        {
            proof {
                lemma_step_progress(src@, old(self).idx as int);
            }
            if self.idx < src.len() {
                let byte = self.get_byte();
                match state {
                    State::Start => {
                        start_idx = self.idx;
                        if byte_is_space(byte) {
                            self.idx += 1;
                            state = State::Whitespace;
                        } else if byte == BACKTICK {
                            self.idx += 1;
                            state = State::Comment;
                        } else if byte == QUOTE {
                            self.idx += 1;
                            string_literal = Vec::with_capacity(25);
                            state = State::StringLiteral;
                        } else if byte == MINUS {
                            state = State::Minus;
                        } else if byte_is_digit(byte) {
                            state = State::Integer;
                        } else if byte_is_lower(byte) {
                            state = State::Variable;
                        } else if byte == LOOP {
                            let (kind, width): (TokenType, usize) = match self.peek() {
                                Some(0x4b) => (TokenType::LoopKey, 2),  // LK
                                Some(0x56) => (TokenType::LoopValue, 2),  // LV
                                _ => (TokenType::Loop, 1),
                            };
                            self.idx += width;
                            return Some(Self::spanning(src, kind, start_idx, self.idx));
                        } else {
                            let kind = match symbol(byte) {
                                Some(kind) => kind,
                                None => TokenType::Illegal,
                            };
                            self.idx += 1;
                            return Some(Self::spanning(src, kind, start_idx, self.idx));
                        }
                    },
                    State::Whitespace => {
                        if byte_is_space(byte) {
                            self.idx += 1;
                        } else {
                            state = State::Start;
                        }
                    },
                    State::Comment => {
                        if byte == NEWLINE || byte == BACKTICK {
                            state = State::Start;
                        }
                        self.idx += 1;
                    },
                    State::Minus => {
                        let next = self.peek();
                        let point = match next {
                            Some(byte) => byte == PERIOD,
                            None => false,
                        };
                        let digit = match next {
                            Some(byte) => byte_is_digit(byte),
                            None => false,
                        };
                        if point {
                            self.idx += 2;
                            state = State::Float;
                        } else if digit {
                            self.idx += 1;
                            state = State::Integer;
                        } else {
                            self.idx += 1;
                            return Some(
                                Self::spanning(src, TokenType::Minus, start_idx, self.idx),
                            );
                        }
                    },
                    State::Integer => {
                        if byte == PERIOD {
                            self.idx += 1;
                            state = State::Float;
                        } else if byte_is_digit(byte) {
                            self.idx += 1;
                        } else {
                            return Some(
                                Self::spanning(src, TokenType::Integer, start_idx, self.idx),
                            );
                        }
                    },
                    State::Float => {
                        if byte_is_digit(byte) {
                            self.idx += 1;
                        } else {
                            return Some(
                                Self::spanning(src, TokenType::Float, start_idx, self.idx),
                            );
                        }
                    },
                    State::Variable => {
                        if byte_is_lower(byte) {
                            self.idx += 1;
                        } else {
                            return Some(
                                Self::spanning(src, TokenType::Variable, start_idx, self.idx),
                            );
                        }
                    },
                    State::StringLiteral => {
                        if byte == QUOTE {
                            self.idx += 1;
                            return Some(
                                match decode(string_literal) {
                                    Some(text) => Token {
                                        toktype: TokenType::String,
                                        literal: Cow::Owned(text),
                                    },
                                    None => Self::spanning(
                                        src,
                                        TokenType::Illegal,
                                        start_idx,
                                        self.idx,
                                    ),
                                },
                            );
                        } else if byte == BACKSLASH {
                            self.idx += 1;
                            state = State::Backslash;
                        } else {
                            string_literal.push(byte);
                            self.idx += 1;
                        }
                    },
                    State::Backslash => {
                        match unescape(byte) {
                            Some(decoded) => {
                                string_literal.push(decoded);
                                self.idx += 1;
                                state = State::StringLiteral;
                            },
                            None => {
                                let slash = self.idx - 1;
                                self.idx += 1;
                                assert(src@.subrange(slash as int, slash + 1) =~= seq![BACKSLASH]);
                                return Some(
                                    Self::spanning(src, TokenType::Illegal, slash, slash + 1),
                                );
                            },
                        }
                    },
                }
            } else {
                assert(state is Backslash ==> src@.subrange(self.idx - 1, self.idx as int)
                    =~= seq![BACKSLASH]);
                return match state {
                    State::Start | State::Whitespace | State::Comment => None,
                    State::Integer => Some(
                        Self::spanning(src, TokenType::Integer, start_idx, self.idx),
                    ),
                    State::Float => Some(
                        Self::spanning(src, TokenType::Float, start_idx, self.idx),
                    ),
                    State::Variable => Some(
                        Self::spanning(src, TokenType::Variable, start_idx, self.idx),
                    ),
                    State::Minus => Some(
                        Self::spanning(src, TokenType::Minus, start_idx, self.idx),
                    ),
                    State::StringLiteral => Some(
                        Self::spanning(src, TokenType::Illegal, start_idx, self.idx),
                    ),
                    State::Backslash => Some(
                        Self::spanning(src, TokenType::Illegal, self.idx - 1, self.idx),
                    ),
                };
            }
        }
    }

    /// Pulls on the token stream: the same as `next_token`.
    pub fn next(&mut self) -> (tok: Option<Token<'s>>)
        ensures
            final(self).source() == old(self).source(),
            final(self).position() == next_step(old(self).source(), old(self).position()).end,
            match next_step(old(self).source(), old(self).position()).token {
                Some(lexeme) => tok is Some && tok->0@ == lexeme,
                None => tok is None,
            },
            tok is Some && lends_literal(
                old(self).source(),
                skip_blank(old(self).source(), old(self).position(), false),
            ) ==> tok->0.literal is Borrowed,
            old(self).position() <= final(self).position() <= old(self).source().len(),
            tok is Some ==> old(self).position() < final(self).position(),
            tok is None ==> final(self).position() == old(self).source().len(),
    {
        self.next_token()
    }

    /// Pulls every token that is left, in source order, and leaves the
    /// scanner at the end of the input.
    pub fn drain(&mut self) -> (tokens: Vec<Token<'s>>)
        ensures
            final(self).source() == old(self).source(),
            final(self).position() == old(self).source().len(),
            lexemes(tokens@) == token_stream(old(self).source(), old(self).position()),
    {
        proof {
            use_type_invariant(&*self);
        }
        let mut tokens: Vec<Token<'s>> = Vec::new();
        assert(lexemes(tokens@) =~= Seq::<Lexeme>::empty());
        loop
            invariant
                self.source@ == old(self).source@,
                old(self).idx <= self.idx <= self.source@.len(),
                lexemes(tokens@) + token_stream(self.source@, self.idx as int) == token_stream(
                    old(self).source@,
                    old(self).idx as int,
                ),
            decreases self.source@.len() - self.idx,
        {
            let ghost before = tokens@;
            match self.next_token() {
                Some(tok) => {
                    tokens.push(tok);
                    assert(lexemes(tokens@) =~= lexemes(before) + seq![tok@]);
                },
                None => {
                    assert(lexemes(tokens@) + Seq::<Lexeme>::empty() =~= lexemes(tokens@));
                    return tokens;
                },
            }
        }
    }
}

} // verus!
