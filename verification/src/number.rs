//! Numbers on the wire: 32-bit fields, written as variable-length integers.

use crate::wire::{varint_field, Payload, RawValue};
use vstd::prelude::*;

verus! {

/// A signed 32-bit number as the 64-bit integer written for it: a negative
/// number is written as its two's complement in 64 bits.
pub open spec fn int32_wire(value: i32) -> u64 {
    if value >= 0 {
        value as u64
    } else {
        (value + 0x1_0000_0000_0000_0000) as u64
    }
}

/// The signed 32-bit number that a 64-bit integer is read as: its low 32
/// bits, as two's complement.
pub open spec fn wire_int32(wire: u64) -> i32 {
    let low = wire % 0x1_0000_0000;
    if low < 0x8000_0000 {
        low as i32
    } else {
        (low - 0x1_0000_0000) as i32
    }
}

/// A number that was written as a signed 32-bit field reads back as itself.
pub proof fn lemma_int32_wire(value: i32)
    ensures
        wire_int32(int32_wire(value)) == value,
{
}

/// The unsigned 32-bit number that a 64-bit integer is read as: its low 32
/// bits.
pub open spec fn wire_uint32(wire: u64) -> u32 {
    (wire % 0x1_0000_0000) as u32
}

/// A signed 32-bit field: left out where the number is zero.
pub open spec fn int32_field(number: nat, value: i32) -> Seq<u8> {
    if value == 0 {
        Seq::empty()
    } else {
        varint_field(number, int32_wire(value))
    }
}

/// An unsigned 32-bit field: left out where the number is zero.
pub open spec fn uint32_field(number: nat, value: u32) -> Seq<u8> {
    if value == 0 {
        Seq::empty()
    } else {
        varint_field(number, value as u64)
    }
}

/// The signed 32-bit number that a field carries: its value must be one
/// integer.
pub open spec fn payload_int32(payload: Payload) -> Option<i32> {
    match payload {
        Payload::Varint(wire) => Some(wire_int32(wire)),
        _ => None,
    }
}

/// The unsigned 32-bit number that a field carries: its value must be one
/// integer.
pub open spec fn payload_uint32(payload: Payload) -> Option<u32> {
    match payload {
        Payload::Varint(wire) => Some(wire_uint32(wire)),
        _ => None,
    }
}

/// Takes a signed 32-bit number out of a field's value.
pub fn read_int32(value: &RawValue<'_>) -> (number: Option<i32>)
    ensures
        number == payload_int32(value@),
{
    match value {
        RawValue::Varint(wire) => {
            let low: u64 = *wire % 0x1_0000_0000;
            if low < 0x8000_0000 {
                Some(low as i32)
            } else {
                Some((low as i64 - 0x1_0000_0000) as i32)
            }
        },
        _ => None,
    }
}

/// Takes an unsigned 32-bit number out of a field's value.
pub fn read_uint32(value: &RawValue<'_>) -> (number: Option<u32>)
    ensures
        number == payload_uint32(value@),
{
    match value {
        RawValue::Varint(wire) => Some((*wire % 0x1_0000_0000) as u32),
        _ => None,
    }
}

} // verus!
