//! What holds of the lexical grammar for every input.

use super::bytes::{ends_comment, escaped_byte, is_space, BACKSLASH, BACKTICK, MINUS, QUOTE};
use super::grammar::{
    lexeme_of, next_step, number_from, run_end, skip_blank, string_from, token_at, ByteClass,
};
use super::text::{ascii_chars, is_ascii_bytes, lemma_ascii_text};
use super::token::TokenType;
use vstd::prelude::*;

verus! {

/// Maximal munch: a run ends inside the buffer, holds only bytes of its
/// class, and cannot be made longer.
pub proof fn lemma_run_is_longest(src: Seq<u8>, pos: int, class: ByteClass)
    requires
        0 <= pos <= src.len(),
    ensures
        pos <= run_end(src, pos, class) <= src.len(),
        forall|i: int| pos <= i < run_end(src, pos, class) ==> class.holds(#[trigger] src[i]),
        run_end(src, pos, class) < src.len() ==> !class.holds(src[run_end(src, pos, class)]),
    decreases src.len() - pos,
{
    if pos < src.len() && class.holds(src[pos]) {
        lemma_run_is_longest(src, pos + 1, class);
    }
}

/// Passing over blanks moves forward and stays inside the buffer.
pub proof fn lemma_skip_blank_bounds(src: Seq<u8>, pos: int, in_comment: bool)
    requires
        0 <= pos <= src.len(),
    ensures
        pos <= skip_blank(src, pos, in_comment) <= src.len(),
    decreases src.len() - pos,
{
    if pos < src.len() {
        if in_comment {
            lemma_skip_blank_bounds(src, pos + 1, !ends_comment(src[pos]));
        } else if is_space(src[pos]) {
            lemma_skip_blank_bounds(src, pos + 1, false);
        } else if src[pos] == BACKTICK {
            lemma_skip_blank_bounds(src, pos + 1, true);
        }
    }
}

/// Where the blanks end, a token starts: the byte there is neither
/// whitespace nor a backtick.
pub proof fn lemma_skip_blank_stops_at_token(src: Seq<u8>, pos: int, in_comment: bool)
    requires
        0 <= pos <= src.len(),
    ensures
        ({
            let start = skip_blank(src, pos, in_comment);
            start < src.len() ==> !is_space(src[start]) && src[start] != BACKTICK
        }),
    decreases src.len() - pos,
{
    if pos < src.len() {
        if in_comment {
            lemma_skip_blank_stops_at_token(src, pos + 1, !ends_comment(src[pos]));
        } else if is_space(src[pos]) {
            lemma_skip_blank_stops_at_token(src, pos + 1, false);
        } else if src[pos] == BACKTICK {
            lemma_skip_blank_stops_at_token(src, pos + 1, true);
        }
    }
}

/// A string literal read on from `pos` ends after `pos`, inside the buffer.
pub proof fn lemma_string_ends_after(src: Seq<u8>, start: int, pos: int, text: Seq<u8>)
    requires
        0 <= pos <= src.len(),
    ensures
        pos <= string_from(src, start, pos, text).end <= src.len(),
        pos < src.len() ==> pos < string_from(src, start, pos, text).end,
    decreases src.len() - pos,
{
    if pos < src.len() && src[pos] != QUOTE {
        if src[pos] == BACKSLASH {
            if pos + 1 < src.len() {
                match escaped_byte(src[pos + 1]) {
                    Some(byte) => {
                        lemma_string_ends_after(src, start, pos + 2, text.push(byte));
                    },
                    None => {},
                }
            }
        } else {
            lemma_string_ends_after(src, start, pos + 1, text.push(src[pos]));
        }
    }
}

/// A number whose digits go on at `pos` ends at or after `pos`, inside the
/// buffer.
pub proof fn lemma_number_ends_after(src: Seq<u8>, start: int, pos: int)
    requires
        0 <= pos <= src.len(),
    ensures
        pos <= number_from(src, start, pos).end <= src.len(),
{
    let point = run_end(src, pos, ByteClass::Digit);
    lemma_run_is_longest(src, pos, ByteClass::Digit);
    if point < src.len() {
        lemma_run_is_longest(src, point + 1, ByteClass::Digit);
    }
}

/// No token is empty: the token that starts at `start` consumes at least
/// one byte, and none beyond the end of the buffer.
pub proof fn lemma_token_is_not_empty(src: Seq<u8>, start: int)
    requires
        0 <= start < src.len(),
    ensures
        start < token_at(src, start).end <= src.len(),
{
    lemma_string_ends_after(src, start, start + 1, Seq::empty());
    lemma_number_ends_after(src, start, start + 1);
    lemma_number_ends_after(src, start, start);
    lemma_run_is_longest(src, start, ByteClass::Digit);
    lemma_run_is_longest(src, start, ByteClass::Lower);
    lemma_run_is_longest(src, start + 1, ByteClass::Digit);
    lemma_run_is_longest(src, start + 1, ByteClass::Lower);
}

/// The offset only grows and never passes the end of the buffer; a pull that
/// gives a token consumes at least one byte, and one that gives none has
/// consumed the whole buffer.
pub proof fn lemma_step_progress(src: Seq<u8>, pos: int)
    requires
        0 <= pos <= src.len(),
    ensures
        pos <= next_step(src, pos).end <= src.len(),
        next_step(src, pos).token is Some ==> pos < next_step(src, pos).end,
        next_step(src, pos).token is None ==> next_step(src, pos).end == src.len(),
{
    lemma_skip_blank_bounds(src, pos, false);
    let start = skip_blank(src, pos, false);
    if start < src.len() {
        lemma_token_is_not_empty(src, start);
    }
}

/// Outside string literals nothing is decoded: the literal of a token is
/// the source that the token spans.
pub proof fn lemma_literal_is_span(src: Seq<u8>, start: int)
    requires
        0 <= start < src.len(),
        src[start] != QUOTE,
    ensures
        token_at(src, start).literal == src.subrange(start, token_at(src, start).end),
{
}

/// A token that is neither a string nor illegal spans ASCII bytes only, and
/// its text has one character for each byte of the span.
pub proof fn lemma_plain_token_text(src: Seq<u8>, start: int)
    requires
        0 <= start < src.len(),
        src[start] != QUOTE,
        token_at(src, start).kind != TokenType::Illegal,
    ensures
        token_at(src, start).kind != TokenType::String,
        is_ascii_bytes(token_at(src, start).literal),
        lexeme_of(src, start, token_at(src, start)).text == ascii_chars(
            src.subrange(start, token_at(src, start).end),
        ),
{
    let raw = token_at(src, start);
    lemma_token_is_not_empty(src, start);
    let body = if src[start] == MINUS {
        start + 1
    } else {
        start
    };
    let point = run_end(src, body, ByteClass::Digit);
    lemma_run_is_longest(src, body, ByteClass::Digit);
    if point < src.len() {
        lemma_run_is_longest(src, point + 1, ByteClass::Digit);
    }
    lemma_run_is_longest(src, start, ByteClass::Lower);
    assert forall|i: int| 0 <= i < raw.literal.len() implies #[trigger] raw.literal[i] < 0x80 by {
        let at = start + i;
        assert(raw.literal[i] == src[at]);
        if at == start {
        } else if at < point {
            assert(ByteClass::Digit.holds(src[at]));
        } else if at == point {
        } else {
            assert(ByteClass::Digit.holds(src[at]) || ByteClass::Lower.holds(src[at])
                || raw.end == start + 2);
        }
    }
    lemma_ascii_text(raw.literal);
}

} // verus!
