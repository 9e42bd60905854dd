//! Text and bytes on the wire. Text is a run of bytes that must be UTF-8.

use crate::wire::{len_field, Payload, RawValue};
use vstd::prelude::*;
use vstd::slice::slice_to_vec;
use vstd::utf8::{decode_utf8, encode_utf8, valid_utf8};

verus! {

/// A text field: left out where the text is empty.
pub open spec fn string_field(number: nat, text: Seq<char>) -> Seq<u8> {
    if text.len() == 0 {
        Seq::empty()
    } else {
        len_field(number, encode_utf8(text))
    }
}

/// A bytes field: left out where there are no bytes.
pub open spec fn bytes_field(number: nat, data: Seq<u8>) -> Seq<u8> {
    if data.len() == 0 {
        Seq::empty()
    } else {
        len_field(number, data)
    }
}

/// The text that a field carries: its value must be a run of bytes that is
/// valid UTF-8.
pub open spec fn payload_text(payload: Payload) -> Option<Seq<char>> {
    match payload {
        Payload::Bytes(bytes) => if valid_utf8(bytes) {
            Some(decode_utf8(bytes))
        } else {
            None
        },
        _ => None,
    }
}

/// The bytes that a field carries: its value must be a run of bytes.
pub open spec fn payload_bytes(payload: Payload) -> Option<Seq<u8>> {
    match payload {
        Payload::Bytes(bytes) => Some(bytes),
        _ => None,
    }
}

/// Calls `String::from_utf8`, which checks that the bytes are well-formed
/// UTF-8 and, if so, hands them back as a `String` without changing them.
/// The contract says so over vstd's model of UTF-8: success exactly on valid
/// input, and the text is what the bytes decode to.
#[verifier::external_body]
pub(crate) fn string_from_utf8(bytes: Vec<u8>) -> (text: Option<String>)
    ensures
        text is Some <==> valid_utf8(bytes@),
        text is Some ==> text.unwrap()@ == decode_utf8(bytes@),
{
    String::from_utf8(bytes).ok()
}

/// Takes the text out of a field's value.
pub fn read_text(value: &RawValue<'_>) -> (text: Option<String>)
    ensures
        match text {
            Some(t) => payload_text(value@) == Some(t@),
            None => payload_text(value@).is_none(),
        },
{
    match value {
        RawValue::Bytes(bytes) => string_from_utf8(slice_to_vec(bytes)),
        _ => None,
    }
}

/// Takes the bytes out of a field's value.
pub fn read_bytes(value: &RawValue<'_>) -> (data: Option<Vec<u8>>)
    ensures
        match data {
            Some(d) => payload_bytes(value@) == Some(d@),
            None => payload_bytes(value@).is_none(),
        },
{
    match value {
        RawValue::Bytes(bytes) => Some(slice_to_vec(bytes)),
        _ => None,
    }
}

} // verus!
