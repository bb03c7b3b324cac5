//! ASCII names on the wire: what bytes they may hold and how they relate to strings.

use std::string::FromUtf8Error;
use vstd::prelude::*;
use vstd::utf8::*;

verus! {

/// Trusted: the error type of `String::from_utf8`, an opaque value.
#[verifier::external_type_specification]
#[verifier::external_body]
pub struct ExFromUtf8Error(FromUtf8Error);

/// Trusted: `String::from_utf8` accepts exactly the valid UTF-8 byte strings, and gives the
/// characters that they encode.
pub assume_specification[ String::from_utf8 ](bytes: Vec<u8>) -> (result: Result<
    String,
    FromUtf8Error,
>)
    ensures
        result is Ok <==> valid_utf8(bytes@),
        result matches Ok(text) ==> text@ == decode_utf8(bytes@),
;

/// Printable ASCII without the space: the bytes of a client ID.
pub open spec fn is_client_id_byte(byte: u8) -> bool {
    0x21 <= byte <= 0x7e
}

/// ASCII letters and digits, `.`, `_`, `-` and `/`: the bytes of a topic.
pub open spec fn is_topic_byte(byte: u8) -> bool {
    ||| 0x30 <= byte <= 0x39
    ||| 0x41 <= byte <= 0x5a
    ||| 0x61 <= byte <= 0x7a
    ||| byte == 0x2e
    ||| byte == 0x5f
    ||| byte == 0x2d
    ||| byte == 0x2f
}

/// `bytes` is a client ID of at most `max_len` bytes.
pub open spec fn is_client_id(bytes: Seq<u8>, max_len: nat) -> bool {
    &&& 0 < bytes.len() <= max_len
    &&& forall|i: int| 0 <= i < bytes.len() ==> is_client_id_byte(#[trigger] bytes[i])
}

/// `bytes` is a topic of at most `max_len` bytes.
pub open spec fn is_topic(bytes: Seq<u8>, max_len: nat) -> bool {
    &&& 0 < bytes.len() <= max_len
    &&& forall|i: int| 0 <= i < bytes.len() ==> is_topic_byte(#[trigger] bytes[i])
}

/// The characters whose codes are the given bytes.
pub open spec fn characters(bytes: Seq<u8>) -> Seq<char> {
    Seq::new(bytes.len(), |i: int| bytes[i] as char)
}

/// The low bytes of the codes of the given characters.
pub open spec fn octets(text: Seq<char>) -> Seq<u8> {
    Seq::new(text.len(), |i: int| text[i] as u8)
}

/// ASCII bytes are the UTF-8 encoding of the characters with the same codes.
pub proof fn ascii_bytes_are_utf8(bytes: Seq<u8>)
    requires
        forall|i: int| 0 <= i < bytes.len() ==> #[trigger] bytes[i] < 0x80,
    ensures
        octets(characters(bytes)) == bytes,
        encode_utf8(characters(bytes)) == bytes,
        valid_utf8(bytes),
        decode_utf8(bytes) == characters(bytes),
{
    let text = characters(bytes);
    assert(is_ascii_chars(text));
    is_ascii_chars_encode_utf8(text);
    assert forall|i: int| 0 <= i < bytes.len() implies text[i] as u8 == #[trigger] bytes[i] by {
        assert(bytes[i] < 0x80);
        assert(text[i] == bytes[i] as char);
    }
    assert(encode_utf8(text) =~= bytes);
    assert(octets(text) =~= bytes);
    encode_utf8_valid_utf8(text);
    encode_utf8_decode_utf8(text);
}

/// The UTF-8 encoding of ASCII text is one byte per character.
pub proof fn ascii_text_is_octets(text: Seq<char>)
    requires
        is_ascii_chars(text),
    ensures
        encode_utf8(text) == octets(text),
        characters(octets(text)) == text,
{
    is_ascii_chars_encode_utf8(text);
    assert(encode_utf8(text) =~= octets(text));
    assert(characters(octets(text)) =~= text);
}

} // verus!
