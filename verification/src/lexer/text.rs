//! From bytes to text: the conversions between a span of the source and the
//! literal of a token.

use std::borrow::Cow;
use vstd::prelude::*;
use vstd::utf8::{
    decode_utf8, encode_utf8, encode_utf8_decode_utf8, encode_utf8_valid_utf8, is_ascii_chars,
    is_ascii_chars_encode_utf8, valid_utf8,
};

verus! {

/// The text that the lossy conversion of the standard library makes of
/// `bytes`: their decoding, with each ill-formed sequence replaced by the
/// replacement character.
pub uninterp spec fn lossy_text(bytes: Seq<u8>) -> Seq<char>;

/// The text of a literal that spans `bytes`: their decoding where they are
/// well-formed UTF-8, the lossy conversion where they are not.
pub open spec fn literal_text(bytes: Seq<u8>) -> Seq<char> {
    if valid_utf8(bytes) {
        decode_utf8(bytes)
    } else {
        lossy_text(bytes)
    }
}

/// True when every byte is in the ASCII range.
pub open spec fn is_ascii_bytes(bytes: Seq<u8>) -> bool {
    forall|i: int| 0 <= i < bytes.len() ==> #[trigger] bytes[i] < 0x80
}

/// The characters of a sequence of ASCII bytes, one for each byte.
pub open spec fn ascii_chars(bytes: Seq<u8>) -> Seq<char> {
    Seq::new(bytes.len(), |i: int| bytes[i] as char)
}

/// Calls `String::from_utf8_lossy`. Not proved: that the result is a function
/// of the bytes alone, named `lossy_text`, and that on well-formed UTF-8 it
/// is the decoding of the bytes, lent from them without a copy, as the
/// documentation of the standard library says (only ill-formed sequences are
/// replaced, and only then is a new string made).
#[verifier::external_body]
pub(crate) fn lossy<'a>(bytes: &'a [u8]) -> (text: Cow<'a, str>)
    ensures
        text@ == lossy_text(bytes@),
        valid_utf8(bytes@) ==> text@ == decode_utf8(bytes@),
        valid_utf8(bytes@) ==> text is Borrowed,
{
    String::from_utf8_lossy(bytes)
}

/// Calls `String::from_utf8`. Not proved: that it succeeds exactly on
/// well-formed UTF-8, and that the string it returns is the decoding of the
/// bytes.
#[verifier::external_body]
pub(crate) fn decode(bytes: Vec<u8>) -> (text: Option<String>)
    ensures
        text is Some <==> valid_utf8(bytes@),
        text is Some ==> text->0@ == decode_utf8(bytes@),
{
    String::from_utf8(bytes).ok()
}

/// ASCII bytes are well-formed UTF-8, and their text has one character for
/// each byte, with the same code.
pub proof fn lemma_ascii_text(bytes: Seq<u8>)
    requires
        is_ascii_bytes(bytes),
    ensures
        valid_utf8(bytes),
        literal_text(bytes) == ascii_chars(bytes),
{
    let chars = ascii_chars(bytes);
    assert(is_ascii_chars(chars)) by {
        assert forall|i: int| 0 <= i < chars.len() implies '\0' <= #[trigger] chars[i]
            <= '\u{7f}' by {
            assert(bytes[i] < 0x80);
        }
    }
    is_ascii_chars_encode_utf8(chars);
    assert(encode_utf8(chars) =~= bytes) by {
        assert forall|i: int| 0 <= i < bytes.len() implies encode_utf8(chars)[i] == bytes[i] by {
            assert(bytes[i] < 0x80);
            assert(chars[i] as u8 == bytes[i]);
        }
    }
    encode_utf8_valid_utf8(chars);
    encode_utf8_decode_utf8(chars);
}

} // verus!
