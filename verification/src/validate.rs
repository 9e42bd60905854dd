//! What the `http` crate accepts as header names, header values, URIs and
//! status codes.
//!
//! The tunnel hands requests and responses to a gRPC stack that is built on
//! the `http` crate, so a frame is only as good as what that crate makes of
//! its parts. The functions here ask the crate itself; their contracts are
//! taken on trust from its source.

use vstd::prelude::*;
use vstd::utf8::encode_utf8;

verus! {

/// The longest header name that is accepted, in bytes.
pub const MAX_HEADER_NAME_LEN: usize = 65535;

/// What a byte of a header name is read as: itself where it may stand in a
/// name, its lower-case form where it is an upper-case letter, and zero
/// where it may not stand in a name.
pub open spec fn header_name_byte(b: u8) -> u8 {
    if (33 <= b <= 39) || b == 42 || b == 43 || b == 45 || b == 46 || (48 <= b <= 57) || (94 <= b
        <= 122) || b == 124 || b == 126 {
        b
    } else if 65 <= b <= 90 {
        (b + 32) as u8
    } else {
        0
    }
}

/// Whether `src` is accepted as a header name: between one byte and the
/// longest length, and every byte may stand in a name.
pub open spec fn header_name_accepted(src: Seq<u8>) -> bool {
    &&& 1 <= src.len() <= MAX_HEADER_NAME_LEN
    &&& forall|i: int| 0 <= i < src.len() ==> header_name_byte(#[trigger] src[i]) != 0
}

/// The name that `src` is read as: each byte as `header_name_byte` has it.
pub open spec fn header_name_text(src: Seq<u8>) -> Seq<char> {
    Seq::new(src.len(), |i: int| header_name_byte(src[i]) as char)
}

/// Whether a byte may stand in a header value: anything from the space on
/// but the delete character, and the tab.
pub open spec fn value_byte_accepted(b: u8) -> bool {
    (b >= 32 && b != 127) || b == 9
}

/// Whether a byte of a header value is visible ASCII: the space to the
/// tilde, and the tab.
pub open spec fn value_byte_visible(b: u8) -> bool {
    (32 <= b < 127) || b == 9
}

/// Whether `bytes` are accepted as a header value.
pub open spec fn header_value_accepted(bytes: Seq<u8>) -> bool {
    forall|i: int| 0 <= i < bytes.len() ==> value_byte_accepted(#[trigger] bytes[i])
}

/// Whether `bytes` can be shown as text: all of them visible ASCII.
pub open spec fn header_value_visible(bytes: Seq<u8>) -> bool {
    forall|i: int| 0 <= i < bytes.len() ==> value_byte_visible(#[trigger] bytes[i])
}

/// ASCII bytes as text: each byte as the character with its number.
pub open spec fn bytes_text(bytes: Seq<u8>) -> Seq<char> {
    Seq::new(bytes.len(), |i: int| bytes[i] as char)
}

/// Whether a status code is accepted: three digits.
pub open spec fn status_accepted(code: u16) -> bool {
    100 <= code < 1000
}

/// The path of the URI that `uri` is read as; `None` where `uri` is not read
/// as a URI at all. It stands for what `http::Uri` makes of the text: the
/// grammar of URIs is that crate's and is not restated here.
pub uninterp spec fn uri_path_of(uri: Seq<char>) -> Option<Seq<char>>;

/// Calls `http::header::HeaderName::from_bytes` and hands out the name's
/// text. By the crate's source the call succeeds exactly on one to 65535
/// bytes that its table of name characters all maps to something other than
/// zero, and the name is the image of the bytes under that table, which maps
/// upper-case letters to lower case and every other accepted byte to itself.
#[verifier::external_body]
pub(crate) fn header_name_from_bytes(src: &[u8]) -> (name: Option<String>)
    ensures
        name is Some <==> header_name_accepted(src@),
        name is Some ==> name.unwrap()@ == header_name_text(src@),
{
    match http::header::HeaderName::from_bytes(src) {
        Ok(name) => Some(name.as_str().to_string()),
        Err(_) => None,
    }
}

/// Calls `http::header::HeaderValue::from_str` and hands out the value's
/// bytes. By the crate's source the call succeeds exactly where every byte of
/// the text is 32 or more and not 127, or is the tab, and the value holds
/// the text's bytes unchanged.
#[verifier::external_body]
pub(crate) fn header_value_from_str(text: &str) -> (value: Option<Vec<u8>>)
    ensures
        value is Some <==> header_value_accepted(encode_utf8(text@)),
        value is Some ==> value.unwrap()@ == encode_utf8(text@),
{
    match http::header::HeaderValue::from_str(text) {
        Ok(value) => Some(value.as_bytes().to_vec()),
        Err(_) => None,
    }
}

/// Makes a header value of `bytes` with `http::header::HeaderValue::from_bytes`
/// and calls `to_str` on it. By the crate's source `to_str` succeeds exactly
/// where every byte is visible ASCII (32 to 126, or the tab), which
/// `from_bytes` accepts too, and the text has the value's bytes unchanged.
#[verifier::external_body]
pub(crate) fn header_value_to_str(bytes: &[u8]) -> (text: Option<String>)
    ensures
        text is Some <==> header_value_visible(bytes@),
        text is Some ==> text.unwrap()@ == bytes_text(bytes@),
{
    match http::header::HeaderValue::from_bytes(bytes) {
        Ok(value) => match value.to_str() {
            Ok(text) => Some(text.to_string()),
            Err(_) => None,
        },
        Err(_) => None,
    }
}

/// Calls `http::StatusCode::from_u16`, which by its documentation accepts
/// exactly the codes from 100 up to, and not including, 1000.
#[verifier::external_body]
pub(crate) fn status_code_accepted(code: u16) -> (ok: bool)
    ensures
        ok == status_accepted(code),
{
    http::StatusCode::from_u16(code).is_ok()
}

/// Parses `uri` as an `http::Uri` and hands out its `path()`. The result
/// depends on the text alone; the contract only gives it its name.
#[verifier::external_body]
pub(crate) fn uri_path(uri: &str) -> (path: Option<String>)
    ensures
        match path {
            Some(p) => uri_path_of(uri@) == Some(p@),
            None => uri_path_of(uri@).is_none(),
        },
{
    match uri.parse::<http::Uri>() {
        Ok(parsed) => Some(parsed.path().to_string()),
        Err(_) => None,
    }
}

} // verus!
