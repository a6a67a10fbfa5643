//! The lexical grammar: what the next token of a byte buffer is, stated over
//! sequences of bytes and positions in them.

use super::bytes::{
    ends_comment, escaped_byte, is_digit, is_lower, is_space, symbol_kind, BACKSLASH, BACKTICK,
    LOOP, LOOP_KEY, LOOP_VALUE, MINUS, PERIOD, QUOTE,
};
use super::text::literal_text;
use super::token::{Lexeme, TokenType};
use vstd::prelude::*;
use vstd::utf8::valid_utf8;

verus! {

/// The two classes of bytes of which a token takes the longest run.
pub enum ByteClass {
    Digit,
    Lower,
}

impl ByteClass {
    /// Whether `byte` belongs to the class.
    pub open spec fn holds(self, byte: u8) -> bool {
        match self {
            ByteClass::Digit => is_digit(byte),
            ByteClass::Lower => is_lower(byte),
        }
    }
}

/// The end of the longest run of bytes of `class` that starts at `pos`:
/// `pos` itself where no such byte stands there.
pub open spec fn run_end(src: Seq<u8>, pos: int, class: ByteClass) -> int
    decreases src.len() - pos,
{
    if 0 <= pos < src.len() && class.holds(src[pos]) {
        run_end(src, pos + 1, class)
    } else {
        pos
    }
}

/// The first position at or after `pos` that is neither whitespace nor
/// inside a comment, or the length of `src` where there is none, for a `pos`
/// inside the buffer. `in_comment` says whether `pos` lies inside a comment.
///
/// A comment opens with a backtick and closes with the next backtick or line
/// feed; one that is still open at the end of the buffer ends there.
pub open spec fn skip_blank(src: Seq<u8>, pos: int, in_comment: bool) -> int
    decreases src.len() - pos,
{
    if pos < 0 || pos >= src.len() {
        pos
    } else if in_comment {
        skip_blank(src, pos + 1, !ends_comment(src[pos]))
    } else if is_space(src[pos]) {
        skip_blank(src, pos + 1, false)
    } else if src[pos] == BACKTICK {
        skip_blank(src, pos + 1, true)
    } else {
        pos
    }
}

/// A token before its literal is turned into text: the category, the bytes of
/// the literal, and the position after the last byte that the token consumes.
pub struct RawToken {
    pub kind: TokenType,
    pub literal: Seq<u8>,
    pub end: int,
}

/// The token of category `kind` whose literal is the source from `start` to
/// `end`.
pub open spec fn span_token(src: Seq<u8>, kind: TokenType, start: int, end: int) -> RawToken {
    RawToken { kind, literal: src.subrange(start, end), end }
}

/// The number that begins at `start` and whose digits go on at `pos`: the
/// longest run of digits, and where a period follows it, the period and the
/// longest run of digits after it, which make it a float.
pub open spec fn number_from(src: Seq<u8>, start: int, pos: int) -> RawToken {
    let point = run_end(src, pos, ByteClass::Digit);
    if point < src.len() && src[point] == PERIOD {
        span_token(src, TokenType::Float, start, run_end(src, point + 1, ByteClass::Digit))
    } else {
        span_token(src, TokenType::Integer, start, point)
    }
}

/// The string literal that opens at `start`, read on from `pos` with `text`
/// decoded so far.
///
/// A quote closes the literal, and the token holds the decoded bytes. A
/// backslash and the byte after it stand for one byte, by `escaped_byte`;
/// where that byte names no escape, or the buffer ends after the backslash,
/// the token is illegal and its literal is the backslash. Where the buffer
/// ends before the closing quote, the token is illegal and its literal is the
/// source from the opening quote on.
pub open spec fn string_from(src: Seq<u8>, start: int, pos: int, text: Seq<u8>) -> RawToken
    decreases src.len() - pos,
{
    if pos < 0 || pos >= src.len() {
        span_token(src, TokenType::Illegal, start, src.len() as int)
    } else if src[pos] == QUOTE {
        RawToken { kind: TokenType::String, literal: text, end: pos + 1 }
    } else if src[pos] == BACKSLASH {
        if pos + 1 < src.len() {
            match escaped_byte(src[pos + 1]) {
                Some(byte) => string_from(src, start, pos + 2, text.push(byte)),
                None => RawToken { kind: TokenType::Illegal, literal: seq![BACKSLASH], end: pos + 2 },
            }
        } else {
            RawToken { kind: TokenType::Illegal, literal: seq![BACKSLASH], end: src.len() as int }
        }
    } else {
        string_from(src, start, pos + 1, text.push(src[pos]))
    }
}

/// The token that starts at `start`, a position that holds neither
/// whitespace nor the backtick of a comment.
pub open spec fn token_at(src: Seq<u8>, start: int) -> RawToken
    recommends
        0 <= start < src.len(),
{
    let byte = src[start];
    let more = start + 1 < src.len();
    if byte == QUOTE {
        string_from(src, start, start + 1, Seq::empty())
    } else if byte == MINUS {
        if more && (src[start + 1] == PERIOD || is_digit(src[start + 1])) {
            number_from(src, start, start + 1)
        } else {
            span_token(src, TokenType::Minus, start, start + 1)
        }
    } else if is_digit(byte) {
        number_from(src, start, start)
    } else if is_lower(byte) {
        span_token(src, TokenType::Variable, start, run_end(src, start, ByteClass::Lower))
    } else if byte == LOOP {
        if more && src[start + 1] == LOOP_KEY {
            span_token(src, TokenType::LoopKey, start, start + 2)
        } else if more && src[start + 1] == LOOP_VALUE {
            span_token(src, TokenType::LoopValue, start, start + 2)
        } else {
            span_token(src, TokenType::Loop, start, start + 1)
        }
    } else {
        match symbol_kind(byte) {
            Some(kind) => span_token(src, kind, start, start + 1),
            None => span_token(src, TokenType::Illegal, start, start + 1),
        }
    }
}

/// The token as it is handed out. The literal becomes text; a string whose
/// decoded bytes are not well-formed UTF-8 becomes an illegal token whose
/// literal is the source from the opening quote to the closing one.
pub open spec fn lexeme_of(src: Seq<u8>, start: int, raw: RawToken) -> Lexeme {
    if raw.kind == TokenType::String && !valid_utf8(raw.literal) {
        Lexeme { kind: TokenType::Illegal, text: literal_text(src.subrange(start, raw.end)) }
    } else {
        Lexeme { kind: raw.kind, text: literal_text(raw.literal) }
    }
}

/// Whether the token that starts at `start` lends its literal from the
/// source, without a copy: its literal is not a decoded string, and is
/// well-formed UTF-8.
pub open spec fn lends_literal(src: Seq<u8>, start: int) -> bool {
    token_at(src, start).kind != TokenType::String && valid_utf8(token_at(src, start).literal)
}

/// What one pull on the scanner gives: the token, or `None` at the end of
/// the input, and the position at which the next pull starts.
pub struct Step {
    pub token: Option<Lexeme>,
    pub end: int,
}

/// One pull on the scanner at `pos`: whitespace and comments are passed
/// over, and the token that starts after them is read.
pub open spec fn next_step(src: Seq<u8>, pos: int) -> Step {
    let start = skip_blank(src, pos, false);
    if 0 <= start < src.len() {
        let raw = token_at(src, start);
        Step { token: Some(lexeme_of(src, start, raw)), end: raw.end }
    } else {
        Step { token: None, end: src.len() as int }
    }
}

} // verus!
