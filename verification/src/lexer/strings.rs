//! What holds of string literals for every input.

use super::bytes::{escaped_byte, BACKSLASH, QUOTE};
use super::grammar::{lexeme_of, next_step, skip_blank, string_from, token_at, RawToken, Step};
use super::text::literal_text;
use super::token::{Lexeme, TokenType};
use vstd::prelude::*;
use vstd::utf8::{
    char_is_scalar, char_u32_cast, encode_scalar, encode_utf8, encode_utf8_decode_utf8,
    encode_utf8_valid_utf8, has_width_1_encoding, is_char_boundary_iff_not_is_continuation_byte,
    is_scalar, pop_first_scalar, valid_utf8, valid_utf8_concat, valid_utf8_split,
};

verus! {

/// Setting the high bit of a byte takes it out of the ASCII range.
proof fn lemma_high_bit_is_not_ascii(low: u8)
    by (bit_vector)
    ensures
        0x80u8 | low >= 0x80,
        0xC0u8 | low >= 0x80,
        0xE0u8 | low >= 0x80,
        0xF0u8 | low >= 0x80,
{
}

/// The low seven bits of an ASCII scalar are the scalar.
proof fn lemma_ascii_scalar_is_its_byte(scalar: u32)
    by (bit_vector)
    requires
        scalar <= 0x7F,
    ensures
        ((scalar & 0x7F) as u8) as u32 == scalar,
{
}

/// An ASCII byte in the encoding of a scalar is the whole encoding: the
/// scalar is ASCII and the byte is the scalar.
proof fn lemma_ascii_byte_of_scalar(scalar: u32, i: int)
    requires
        is_scalar(scalar),
        0 <= i < encode_scalar(scalar).len(),
        encode_scalar(scalar)[i] < 0x80,
    ensures
        has_width_1_encoding(scalar),
        encode_scalar(scalar)[i] as u32 == scalar,
{
    lemma_high_bit_is_not_ascii(((scalar >> 6) & 0x1F) as u8);
    lemma_high_bit_is_not_ascii(((scalar >> 12) & 0x0F) as u8);
    lemma_high_bit_is_not_ascii(((scalar >> 18) & 0x7) as u8);
    lemma_high_bit_is_not_ascii((scalar & 0x3F) as u8);
    lemma_high_bit_is_not_ascii(((scalar >> 6) & 0x3F) as u8);
    lemma_high_bit_is_not_ascii(((scalar >> 12) & 0x3F) as u8);
    if has_width_1_encoding(scalar) {
        lemma_ascii_scalar_is_its_byte(scalar);
    }
}

/// An ASCII byte in the encoding of a text is one of its characters.
pub proof fn lemma_ascii_byte_of_text(chars: Seq<char>, i: int) -> (j: int)
    requires
        0 <= i < encode_utf8(chars).len(),
        encode_utf8(chars)[i] < 0x80,
    ensures
        0 <= j < chars.len(),
        chars[j] as u32 == encode_utf8(chars)[i] as u32,
    decreases chars.len(),
{
    let head = encode_scalar(chars[0] as u32);
    let tail = chars.drop_first();
    char_is_scalar(chars[0]);
    if i < head.len() {
        lemma_ascii_byte_of_scalar(chars[0] as u32, i);
        0
    } else {
        assert(encode_utf8(chars)[i] == encode_utf8(tail)[i - head.len()]);
        let j = lemma_ascii_byte_of_text(tail, i - head.len());
        j + 1
    }
}

/// A string literal without escapes holds the bytes between its quotes:
/// read from `pos` on, where neither a quote nor a backslash stands before
/// the quote at `close`.
pub proof fn lemma_string_without_escapes(
    src: Seq<u8>,
    start: int,
    pos: int,
    close: int,
    text: Seq<u8>,
)
    requires
        0 <= pos <= close < src.len(),
        src[close] == QUOTE,
        forall|i: int| pos <= i < close ==> #[trigger] src[i] != QUOTE && src[i] != BACKSLASH,
    ensures
        string_from(src, start, pos, text) == (RawToken {
            kind: TokenType::String,
            literal: text + src.subrange(pos, close),
            end: close + 1,
        }),
    decreases close - pos,
{
    if pos < close {
        lemma_string_without_escapes(src, start, pos + 1, close, text.push(src[pos]));
        assert(text.push(src[pos]) + src.subrange(pos + 1, close) =~= text + src.subrange(
            pos,
            close,
        ));
    } else {
        assert(text + src.subrange(pos, close) =~= text);
    }
}

/// Text between quotes comes back unchanged: the encoding of a text that
/// holds neither a quote nor a backslash, put between two quotes, is one
/// string token whose literal is that text.
pub proof fn lemma_quoted_text_round_trips(chars: Seq<char>)
    requires
        forall|j: int| 0 <= j < chars.len() ==> #[trigger] chars[j] != '"' && chars[j] != '\\',
    ensures
        next_step(seq![QUOTE] + encode_utf8(chars) + seq![QUOTE], 0) == (Step {
            token: Some(Lexeme { kind: TokenType::String, text: chars }),
            end: encode_utf8(chars).len() as int + 2,
        }),
{
    let body = encode_utf8(chars);
    let src = seq![QUOTE] + body + seq![QUOTE];
    let close = body.len() as int + 1;
    assert forall|i: int| 1 <= i < close implies #[trigger] src[i] != QUOTE && src[i]
        != BACKSLASH by {
        assert(src[i] == body[i - 1]);
        if body[i - 1] < 0x80 {
            let j = lemma_ascii_byte_of_text(chars, i - 1);
            assert(chars[j] != '"' && chars[j] != '\\');
            char_u32_cast(chars[j], chars[j] as u32);
            char_u32_cast('"', 0x22);
            char_u32_cast('\\', 0x5c);
        }
    }
    lemma_string_without_escapes(src, 0, 1, close, Seq::empty());
    assert(Seq::<u8>::empty() + src.subrange(1, close) =~= body);
    encode_utf8_valid_utf8(chars);
    encode_utf8_decode_utf8(chars);
    assert(skip_blank(src, 0, false) == 0);
    assert(token_at(src, 0) == string_from(src, 0, 1, Seq::empty()));
}

/// An ASCII byte is at most seven bits wide.
proof fn lemma_ascii_byte_is_its_scalar(byte: u8)
    by (bit_vector)
    requires
        byte < 0x80,
    ensures
        (byte & 0x7F) as u32 <= 0x7F,
{
}

/// An ASCII byte is a character by itself: with it in front, bytes are
/// well-formed exactly when they are without it.
proof fn lemma_ascii_head(byte: u8, rest: Seq<u8>)
    requires
        byte < 0x80,
    ensures
        valid_utf8(seq![byte] + rest) <==> valid_utf8(rest),
{
    let all = seq![byte] + rest;
    lemma_ascii_byte_is_its_scalar(byte);
    assert(all[0] == byte);
    assert(pop_first_scalar(all) =~= rest);
}

/// Well-formed bytes cut before an ASCII byte, or at their end, are
/// well-formed on both sides of the cut.
proof fn lemma_cut_before_ascii(head: Seq<u8>, tail: Seq<u8>)
    requires
        valid_utf8(head + tail),
        tail.len() > 0 ==> tail[0] < 0x80,
    ensures
        valid_utf8(head),
        valid_utf8(tail),
{
    let all = head + tail;
    if tail.len() == 0 {
        assert(all =~= head);
    } else {
        assert(all[head.len() as int] == tail[0]);
        is_char_boundary_iff_not_is_continuation_byte(all, head.len() as int);
        valid_utf8_split(all, head.len() as int);
        assert(all.subrange(0, head.len() as int) =~= head);
        assert(all.subrange(head.len() as int, all.len() as int) =~= tail);
    }
}

/// Where the bytes decoded so far and the source that is left are
/// well-formed together, a string literal that closes holds well-formed
/// bytes.
proof fn lemma_string_stays_text(src: Seq<u8>, start: int, pos: int, text: Seq<u8>)
    requires
        0 <= pos <= src.len(),
        valid_utf8(text + src.subrange(pos, src.len() as int)),
    ensures
        string_from(src, start, pos, text).kind == TokenType::String ==> valid_utf8(
            string_from(src, start, pos, text).literal,
        ),
    decreases src.len() - pos,
{
    let end = src.len() as int;
    let rest = src.subrange(pos, end);
    if pos < end {
        if src[pos] == QUOTE {
            lemma_cut_before_ascii(text, rest);
        } else if src[pos] == BACKSLASH {
            if pos + 1 < end {
                match escaped_byte(src[pos + 1]) {
                    Some(byte) => {
                        let after = src.subrange(pos + 2, end);
                        lemma_cut_before_ascii(text, rest);
                        assert(rest =~= seq![src[pos]] + (seq![src[pos + 1]] + after));
                        lemma_ascii_head(src[pos], seq![src[pos + 1]] + after);
                        lemma_ascii_head(src[pos + 1], after);
                        lemma_ascii_head(byte, after);
                        valid_utf8_concat(text, seq![byte] + after);
                        assert(text.push(byte) + after =~= text + (seq![byte] + after));
                        lemma_string_stays_text(src, start, pos + 2, text.push(byte));
                    },
                    None => {},
                }
            }
        } else {
            assert(text.push(src[pos]) + src.subrange(pos + 1, end) =~= text + rest);
            lemma_string_stays_text(src, start, pos + 1, text.push(src[pos]));
        }
    }
}

/// Over a source that is a text, decoding never fails: every token keeps the
/// category that the grammar gives it, and a string literal that closes is a
/// string token.
pub proof fn lemma_text_source_decodes(src: Seq<u8>, start: int)
    requires
        valid_utf8(src),
        0 <= start < src.len(),
    ensures
        lexeme_of(src, start, token_at(src, start)) == (Lexeme {
            kind: token_at(src, start).kind,
            text: literal_text(token_at(src, start).literal),
        }),
{
    if src[start] == QUOTE {
        let end = src.len() as int;
        let rest = src.subrange(start + 1, end);
        assert(src =~= src.subrange(0, start) + src.subrange(start, end));
        lemma_cut_before_ascii(src.subrange(0, start), src.subrange(start, end));
        assert(src.subrange(start, end) =~= seq![src[start]] + rest);
        lemma_ascii_head(src[start], rest);
        assert(Seq::<u8>::empty() + rest =~= rest);
        lemma_string_stays_text(src, start, start + 1, Seq::empty());
    }
}

} // verus!
