use std::borrow::Cow;
use vstd::prelude::*;

verus! {

/// The closed vocabulary of lexical categories.
#[derive(Debug, Clone, Copy, PartialEq, Eq)]
pub enum TokenType {
    // literals
    Integer,
    Float,
    String,
    Variable,
    // symbols
    Period,  // .
    Comma,  // ,
    Plus,  // +
    Minus,  // -
    Star,  // *
    Slash,  // /
    Backslash,  // \
    Vert,  // |
    Bang,  // !
    Equal,  // =
    Less,  // <
    Great,  // >
    At,  // @
    Hat,  // ^
    Underscore,  // _
    Sharp,  // #
    Percent,  // %
    Ampersand,  // &
    Dollar,  // $
    Tilde,  // ~
    Colon,  // :
    Semicolon,  // ;
    Quote,  // '
    Doublequote,  // "
    // brackets
    LeftParen,  // (
    RightParen,  // )
    LeftBracket,  // {
    RightBracket,  // }
    LeftSquare,  // [
    RightSquare,  // ]
    // keywords
    AssignPop,  // the A character
    Assign,  // the C character
    Decrement,  // the D character
    Exponent,  // the E character
    FloatType,  // the F character
    Hashmap,  // the H character
    IntegerType,  // the I character
    Loop,  // the L character
    LoopKey,  // the LK characters
    LoopValue,  // the LV characters
    Mapping,  // the M character
    Print,  // the P character
    Increment,  // the U character
    /// Any lexically invalid content.
    Illegal,
}

/// A classified fragment of source text.
///
/// `literal` is the source text of the fragment; for a `String` token it is
/// the content between the quotes with the escape sequences decoded.
#[derive(Debug)]
pub struct Token<'tok> {
    pub toktype: TokenType,
    pub literal: Cow<'tok, str>,
}

/// What a token says: its category and its text.
pub struct Lexeme {
    pub kind: TokenType,
    pub text: Seq<char>,
}

impl<'tok> View for Token<'tok> {
    type V = Lexeme;

    open spec fn view(&self) -> Lexeme {
        Lexeme { kind: self.toktype, text: self.literal@ }
    }
}

impl<'tok> Clone for Token<'tok> {
    fn clone(&self) -> (copy: Self)
        ensures
            copy == *self,
    {
        let literal = match &self.literal {
            Cow::Borrowed(text) => Cow::Borrowed(*text),
            Cow::Owned(text) => Cow::Owned(text.clone()),
        };
        Token { toktype: self.toktype, literal }
    }
}

} // verus!
