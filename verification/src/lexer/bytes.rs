//! The byte-level vocabulary of the language: which bytes are blanks, digits
//! and letters, and which single bytes are tokens by themselves.

use super::token::TokenType;
use vstd::prelude::*;

verus! {

/// `"`, which opens and closes a string literal.
pub const QUOTE: u8 = 0x22;

/// `\`, which introduces an escape inside a string literal.
pub const BACKSLASH: u8 = 0x5c;

/// `` ` ``, which opens a comment and may close it.
pub const BACKTICK: u8 = 0x60;

/// The line feed, which also closes a comment.
pub const NEWLINE: u8 = 0x0a;

/// `-`, an operator or the sign of a number.
pub const MINUS: u8 = 0x2d;

/// `.`, an operator or the decimal point of a number.
pub const PERIOD: u8 = 0x2e;

/// `L`, the loop keyword and the first letter of the two compound keywords.
pub const LOOP: u8 = 0x4c;

/// `K`, which after `L` makes the loop-key keyword.
pub const LOOP_KEY: u8 = 0x4b;

/// `V`, which after `L` makes the loop-value keyword.
pub const LOOP_VALUE: u8 = 0x56;

/// ASCII whitespace: space, tab, line feed, form feed and carriage return.
pub open spec fn is_space(byte: u8) -> bool {
    byte == 0x20 || byte == 0x09 || byte == 0x0a || byte == 0x0c || byte == 0x0d
}

/// The ASCII digits `0` to `9`.
pub open spec fn is_digit(byte: u8) -> bool {
    0x30 <= byte <= 0x39
}

/// The ASCII lowercase letters `a` to `z`.
pub open spec fn is_lower(byte: u8) -> bool {
    0x61 <= byte <= 0x7a
}

/// The bytes that end a comment: the line feed and the backtick.
pub open spec fn ends_comment(byte: u8) -> bool {
    byte == NEWLINE || byte == BACKTICK
}

/// The category of a byte that is a token by itself wherever a token may
/// start: the punctuation marks, the brackets and the one-letter keywords
/// other than `L`. `None` for every other byte.
pub open spec fn symbol_kind(byte: u8) -> Option<TokenType> {
    match byte {
        0x2e => Some(TokenType::Period),  // .
        0x2c => Some(TokenType::Comma),  // ,
        0x2b => Some(TokenType::Plus),  // +
        0x2a => Some(TokenType::Star),  // *
        0x2f => Some(TokenType::Slash),  // /
        0x5c => Some(TokenType::Backslash),  // \
        0x7c => Some(TokenType::Vert),  // |
        0x21 => Some(TokenType::Bang),  // !
        0x3d => Some(TokenType::Equal),  // =
        0x3c => Some(TokenType::Less),  // <
        0x3e => Some(TokenType::Great),  // >
        0x40 => Some(TokenType::At),  // @
        0x5e => Some(TokenType::Hat),  // ^
        0x5f => Some(TokenType::Underscore),  // _
        0x23 => Some(TokenType::Sharp),  // #
        0x25 => Some(TokenType::Percent),  // %
        0x26 => Some(TokenType::Ampersand),  // &
        0x24 => Some(TokenType::Dollar),  // $
        0x7e => Some(TokenType::Tilde),  // ~
        0x3a => Some(TokenType::Colon),  // :
        0x3b => Some(TokenType::Semicolon),  // ;
        0x27 => Some(TokenType::Quote),  // '
        0x28 => Some(TokenType::LeftParen),  // (
        0x29 => Some(TokenType::RightParen),  // )
        0x7b => Some(TokenType::LeftBracket),  // {
        0x7d => Some(TokenType::RightBracket),  // }
        0x5b => Some(TokenType::LeftSquare),  // [
        0x5d => Some(TokenType::RightSquare),  // ]
        0x41 => Some(TokenType::AssignPop),  // A
        0x43 => Some(TokenType::Assign),  // C
        0x44 => Some(TokenType::Decrement),  // D
        0x45 => Some(TokenType::Exponent),  // E
        0x46 => Some(TokenType::FloatType),  // F
        0x48 => Some(TokenType::Hashmap),  // H
        0x49 => Some(TokenType::IntegerType),  // I
        0x4d => Some(TokenType::Mapping),  // M
        0x50 => Some(TokenType::Print),  // P
        0x55 => Some(TokenType::Increment),  // U
        _ => None,
    }
}

/// The byte that an escape stands for, by the byte after the backslash:
/// `n` is a line feed, `t` a tab, and a backslash or a quote is itself.
/// `None` where the byte names no escape.
pub open spec fn escaped_byte(byte: u8) -> Option<u8> {
    match byte {
        0x6e => Some(0x0au8),  // n
        0x74 => Some(0x09u8),  // t
        0x5c => Some(0x5cu8),  // \
        0x22 => Some(0x22u8),  // "
        _ => None,
    }
}

/// Tells whether a byte is ASCII whitespace.
pub(crate) fn byte_is_space(byte: u8) -> (yes: bool)
    ensures
        yes == is_space(byte),
{
    byte == 0x20 || byte == 0x09 || byte == 0x0a || byte == 0x0c || byte == 0x0d
}

/// Tells whether a byte is an ASCII digit.
pub(crate) fn byte_is_digit(byte: u8) -> (yes: bool)
    ensures
        yes == is_digit(byte),
{
    0x30 <= byte && byte <= 0x39
}

/// Tells whether a byte is an ASCII lowercase letter.
pub(crate) fn byte_is_lower(byte: u8) -> (yes: bool)
    ensures
        yes == is_lower(byte),
{
    0x61 <= byte && byte <= 0x7a
}

/// Looks a byte up in the table of one-byte tokens.
pub(crate) fn symbol(byte: u8) -> (kind: Option<TokenType>)
    ensures
        kind == symbol_kind(byte),
{
    match byte {
        0x2e => Some(TokenType::Period),  // .
        0x2c => Some(TokenType::Comma),  // ,
        0x2b => Some(TokenType::Plus),  // +
        0x2a => Some(TokenType::Star),  // *
        0x2f => Some(TokenType::Slash),  // /
        0x5c => Some(TokenType::Backslash),  // \
        0x7c => Some(TokenType::Vert),  // |
        0x21 => Some(TokenType::Bang),  // !
        0x3d => Some(TokenType::Equal),  // =
        0x3c => Some(TokenType::Less),  // <
        0x3e => Some(TokenType::Great),  // >
        0x40 => Some(TokenType::At),  // @
        0x5e => Some(TokenType::Hat),  // ^
        0x5f => Some(TokenType::Underscore),  // _
        0x23 => Some(TokenType::Sharp),  // #
        0x25 => Some(TokenType::Percent),  // %
        0x26 => Some(TokenType::Ampersand),  // &
        0x24 => Some(TokenType::Dollar),  // $
        0x7e => Some(TokenType::Tilde),  // ~
        0x3a => Some(TokenType::Colon),  // :
        0x3b => Some(TokenType::Semicolon),  // ;
        0x27 => Some(TokenType::Quote),  // '
        0x28 => Some(TokenType::LeftParen),  // (
        0x29 => Some(TokenType::RightParen),  // )
        0x7b => Some(TokenType::LeftBracket),  // {
        0x7d => Some(TokenType::RightBracket),  // }
        0x5b => Some(TokenType::LeftSquare),  // [
        0x5d => Some(TokenType::RightSquare),  // ]
        0x41 => Some(TokenType::AssignPop),  // A
        0x43 => Some(TokenType::Assign),  // C
        0x44 => Some(TokenType::Decrement),  // D
        0x45 => Some(TokenType::Exponent),  // E
        0x46 => Some(TokenType::FloatType),  // F
        0x48 => Some(TokenType::Hashmap),  // H
        0x49 => Some(TokenType::IntegerType),  // I
        0x4d => Some(TokenType::Mapping),  // M
        0x50 => Some(TokenType::Print),  // P
        0x55 => Some(TokenType::Increment),  // U
        _ => None,
    }
}

/// Decodes the byte after a backslash.
pub(crate) fn unescape(byte: u8) -> (decoded: Option<u8>)
    ensures
        decoded == escaped_byte(byte),
{
    match byte {
        0x6e => Some(0x0a),  // n
        0x74 => Some(0x09),  // t
        0x5c => Some(0x5c),  // \
        0x22 => Some(0x22),  // "
        _ => None,
    }
}

} // verus!
