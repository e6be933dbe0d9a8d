//! The sled engine: what a lookup answers. The store itself lives on disk,
//! in the host.

use vstd::prelude::*;
use vstd::utf8::{decode_utf8, encode_utf8, valid_utf8};
use crate::proto::{BackendError, BackendResult, Str};

verus! {

/// The message of the error that `String::from_utf8` gives for `bytes`
/// where they are not UTF-8: where the first bad sequence starts, and how
/// long it is or that the bytes end inside it.
pub uninterp spec fn utf8_error_message(bytes: Seq<u8>) -> Seq<char>;

/// Calls `String::from_utf8` of std and, where it fails, turns its error
/// into the error's message. A string comes back iff the bytes are valid
/// UTF-8, and its characters are those the bytes encode; the message of the
/// failure is named by [`utf8_error_message`], a function of the bytes.
#[verifier::external_body]
fn string_from_utf8(bytes: Vec<u8>) -> (r: Result<String, String>)
    ensures
        r is Ok <==> valid_utf8(bytes@),
        r matches Ok(s) ==> s@ == decode_utf8(bytes@),
        r matches Err(m) ==> m@ == utf8_error_message(bytes@),
{
    match String::from_utf8(bytes) {
        Ok(s) => Ok(s),
        Err(e) => Err(e.to_string()),
    }
}

/// The characters that `raw` holds, where it is UTF-8.
pub open spec fn decoded_value(raw: Seq<u8>) -> Option<Seq<char>> {
    if valid_utf8(raw) {
        Some(decode_utf8(raw))
    } else {
        None
    }
}

/// The answer to a lookup from the outcome of decoding the stored bytes:
/// the string, or the decoding error with its message.
pub fn decoded(text: Result<String, String>) -> (r: BackendResult<Str>)
    ensures
        match text {
            Ok(s) => r matches Ok(v) && v.val@ == s@,
            Err(m) => r matches Err(BackendError::InvalidUtf8(e)) && e@ == m@,
        },
{
    match text {
        Ok(s) => Ok(Str { val: s }),
        Err(m) => Err(BackendError::InvalidUtf8(m)),
    }
}

/// The answer to a lookup, from what reading the store gave: its error, if
/// it failed; the value as a string, if the key held UTF-8 bytes; the
/// decoding error, if it held other bytes; the empty string, if it held
/// nothing.
pub fn answer(read: Result<Option<Vec<u8>>, String>) -> (r: BackendResult<Str>)
    ensures
        match read {
            Err(e) => r matches Err(BackendError::Store(m)) && m@ == e@,
            Ok(Some(raw)) => match decoded_value(raw@) {
                Some(text) => r matches Ok(v) && v.val@ == text,
                None => r matches Err(BackendError::InvalidUtf8(m))
                    && m@ == utf8_error_message(raw@),
            },
            Ok(None) => r matches Ok(v) && v.val@.len() == 0,
        },
{
    match read {
        Err(e) => Err(BackendError::Store(e)),
        Ok(Some(raw)) => decoded(string_from_utf8(raw)),
        Ok(None) => Ok(Str { val: String::new() }),
    }
}

/// What is stored as the UTF-8 bytes of a string reads back as that string.
pub proof fn lemma_utf8_round_trip(text: Seq<char>)
    ensures
        decoded_value(encode_utf8(text)) == Some(text),
{
    vstd::utf8::encode_utf8_valid_utf8(text);
    vstd::utf8::encode_utf8_decode_utf8(text);
}

/// Decoding gives back exactly the characters whose UTF-8 encoding is the
/// stored bytes, and nothing where the bytes are not text: bytes that start
/// with a continuation byte, or with a byte no UTF-8 sequence starts with,
/// decode to nothing.
pub proof fn lemma_decoding_is_exact(raw: Seq<u8>)
    ensures
        decoded_value(raw) matches Some(text) ==> encode_utf8(text) == raw,
        raw.len() > 0 && 0x80 <= raw[0] <= 0xbf ==> decoded_value(raw) is None,
        raw.len() > 0 && raw[0] >= 0xf8 ==> decoded_value(raw) is None,
        raw.len() == 0 ==> decoded_value(raw) == Some(Seq::<char>::empty()),
{
    if valid_utf8(raw) {
        vstd::utf8::decode_utf8_encode_utf8(raw);
    }
}

} // verus!
