//! Fields on the wire.
//!
//! A message is a run of fields. Each starts with a key, a variable-length
//! integer that holds the field's number and, in its low three bits, how the
//! value that follows is laid out. A reader that does not know a field's
//! number steps over its value.

use crate::varint::{
    lemma_parse_varint_bounds, lemma_parse_varint_bytes, parse_varint, read_varint, varint_bytes,
    write_varint,
};
use vstd::prelude::*;
use vstd::slice::slice_subrange;

verus! {

/// The value is one variable-length integer.
pub const WIRE_VARINT: u8 = 0;

/// The value is eight bytes.
pub const WIRE_FIXED64: u8 = 1;

/// The value is a length and then that many bytes.
pub const WIRE_LEN: u8 = 2;

/// The value is a run of fields that ends at the matching end key.
pub const WIRE_START_GROUP: u8 = 3;

/// The key that ends a group.
pub const WIRE_END_GROUP: u8 = 4;

/// The value is four bytes.
pub const WIRE_FIXED32: u8 = 5;

/// The largest field number a key can hold.
pub const MAX_FIELD_NUMBER: u32 = 0x1FFF_FFFF;

/// How deep groups may nest below a message read from a frame.
pub const NESTING_LIMIT: u32 = 100;

/// How deep groups may nest inside an envelope or a body.
pub const PART_BUDGET: u32 = 99;

/// How deep groups may nest inside a header.
pub const HEADER_BUDGET: u32 = 98;

/// The key of field `number` with layout `wire_type`.
pub open spec fn key_bytes(number: nat, wire_type: nat) -> Seq<u8> {
    varint_bytes(number * 8 + wire_type)
}

/// A field whose value is one integer.
pub open spec fn varint_field(number: nat, value: u64) -> Seq<u8> {
    key_bytes(number, WIRE_VARINT as nat) + varint_bytes(value as nat)
}

/// A field whose value is a run of bytes, preceded by its length.
pub open spec fn len_field(number: nat, payload: Seq<u8>) -> Seq<u8> {
    key_bytes(number, WIRE_LEN as nat) + varint_bytes(payload.len()) + payload
}

/// Reads a key: the field's number, its layout and the bytes the key takes.
/// A key must fit in 32 bits, name one of the six layouts and a number other
/// than zero.
pub open spec fn parse_key(bytes: Seq<u8>) -> Option<(u32, u8, nat)> {
    match parse_varint(bytes) {
        Some((key, used)) => {
            if key > u32::MAX || key % 8 > 5 || key / 8 == 0 {
                None
            } else {
                Some(((key / 8) as u32, (key % 8) as u8, used))
            }
        },
        None => None,
    }
}

/// How many bytes the value of a field takes, given its layout, where the
/// reader only steps over it. `budget` bounds how deep groups may nest.
pub open spec fn skip_value(bytes: Seq<u8>, wire_type: u8, number: u32, budget: nat) -> Option<nat>
    decreases bytes.len(), 1nat,
{
    if budget == 0 {
        None
    } else if wire_type == WIRE_VARINT {
        match parse_varint(bytes) {
            Some((_, used)) => Some(used),
            None => None,
        }
    } else if wire_type == WIRE_FIXED64 {
        if bytes.len() >= 8 {
            Some(8)
        } else {
            None
        }
    } else if wire_type == WIRE_LEN {
        match parse_varint(bytes) {
            Some((len, used)) => if len <= bytes.len() - used {
                Some(used + len as nat)
            } else {
                None
            },
            None => None,
        }
    } else if wire_type == WIRE_START_GROUP {
        skip_group(bytes, number, budget)
    } else if wire_type == WIRE_FIXED32 {
        if bytes.len() >= 4 {
            Some(4)
        } else {
            None
        }
    } else {
        None
    }
}

/// How many bytes the rest of group `number` takes, its end key included:
/// the fields in it are stepped over one by one, with one less to the budget,
/// until the end key of this group comes. (A key takes at least one byte and
/// no more than there are; the tests on `used` and `n` say so where the
/// definition needs it to be well founded.)
pub open spec fn skip_group(bytes: Seq<u8>, number: u32, budget: nat) -> Option<nat>
    decreases bytes.len(), 0nat,
{
    match parse_key(bytes) {
        Some((inner, wire_type, used)) => {
            if wire_type == WIRE_END_GROUP {
                if inner == number {
                    Some(used)
                } else {
                    None
                }
            } else if budget == 0 || used > bytes.len() || used == 0 {
                None
            } else {
                match skip_value(bytes.skip(used as int), wire_type, inner, (budget - 1) as nat) {
                    Some(n) => {
                        if used + n > bytes.len() {
                            None
                        } else {
                            match skip_group(bytes.skip((used + n) as int), number, budget) {
                                Some(m) => Some(used + n + m),
                                None => None,
                            }
                        }
                    },
                    None => None,
                }
            }
        },
        None => None,
    }
}

/// What a field carries.
pub ghost enum Payload {
    /// One integer.
    Varint(u64),
    /// A run of bytes.
    Bytes(Seq<u8>),
    /// A value of another layout, which no message here reads.
    Skipped,
}

/// One field as it stands at the front of a run of bytes.
pub ghost struct Field {
    /// The field's number.
    pub number: u32,
    /// Its value.
    pub payload: Payload,
    /// The bytes that key and value take together.
    pub size: nat,
}

/// Reads the field at the front of `bytes`.
pub open spec fn next_field(bytes: Seq<u8>, budget: nat) -> Option<Field> {
    match parse_key(bytes) {
        Some((number, wire_type, used)) => {
            let rest = bytes.skip(used as int);
            if wire_type == WIRE_VARINT {
                match parse_varint(rest) {
                    Some((value, n)) => Some(
                        Field { number, payload: Payload::Varint(value), size: used + n },
                    ),
                    None => None,
                }
            } else if wire_type == WIRE_LEN {
                match parse_varint(rest) {
                    Some((len, n)) => if len <= rest.len() - n {
                        Some(
                            Field {
                                number,
                                payload: Payload::Bytes(rest.subrange(n as int, n + len)),
                                size: used + n + len as nat,
                            },
                        )
                    } else {
                        None
                    },
                    None => None,
                }
            } else {
                match skip_value(rest, wire_type, number, budget) {
                    Some(n) => Some(Field { number, payload: Payload::Skipped, size: used + n }),
                    None => None,
                }
            }
        },
        None => None,
    }
}

/// Reads a whole message: folds its fields, front to back, into `acc`.
/// `merge` says what a field does to the message read so far, or refuses it.
/// (A field takes at least one byte and no more than there are; the test on
/// its size says so where the definition needs it to be well founded.)
pub open spec fn parse_fields<M>(
    bytes: Seq<u8>,
    budget: nat,
    acc: M,
    merge: spec_fn(M, Field) -> Option<M>,
) -> Option<M>
    decreases bytes.len(),
{
    if bytes.len() == 0 {
        Some(acc)
    } else {
        match next_field(bytes, budget) {
            Some(field) => {
                if 1 <= field.size <= bytes.len() {
                    match merge(acc, field) {
                        Some(next) => parse_fields(
                            bytes.skip(field.size as int),
                            budget,
                            next,
                            merge,
                        ),
                        None => None,
                    }
                } else {
                    None
                }
            },
            None => None,
        }
    }
}

/// Reading a run that starts with one whole field: that field is merged,
/// and reading goes on behind it.
pub proof fn lemma_parse_fields_step<M>(
    first: Seq<u8>,
    rest: Seq<u8>,
    budget: nat,
    acc: M,
    merge: spec_fn(M, Field) -> Option<M>,
    field: Field,
)
    requires
        next_field(first + rest, budget) == Some(field),
        field.size == first.len(),
        first.len() >= 1,
    ensures
        parse_fields(first + rest, budget, acc, merge) == match merge(acc, field) {
            Some(next) => parse_fields(rest, budget, next, merge),
            None => None,
        },
{
    assert((first + rest).skip(first.len() as int) =~= rest);
}

/// A value as the reader hands it out.
pub enum RawValue<'a> {
    /// One integer.
    Varint(u64),
    /// A run of bytes, borrowed from the frame.
    Bytes(&'a [u8]),
    /// A value of another layout, stepped over.
    Skipped,
}

/// A field as the reader hands it out.
pub struct RawField<'a> {
    /// The field's number.
    pub number: u32,
    /// Its value.
    pub value: RawValue<'a>,
    /// The bytes that key and value take together.
    pub size: usize,
}

impl<'a> View for RawValue<'a> {
    type V = Payload;

    open spec fn view(&self) -> Payload {
        match self {
            RawValue::Varint(v) => Payload::Varint(*v),
            RawValue::Bytes(b) => Payload::Bytes(b@),
            RawValue::Skipped => Payload::Skipped,
        }
    }
}

impl<'a> View for RawField<'a> {
    type V = Field;

    open spec fn view(&self) -> Field {
        Field { number: self.number, payload: self.value@, size: self.size as nat }
    }
}

/// A key that was written is read back, whatever follows it.
pub proof fn lemma_parse_key_bytes(number: u32, wire_type: u8, rest: Seq<u8>)
    requires
        1 <= number <= MAX_FIELD_NUMBER,
        wire_type <= 5,
    ensures
        parse_key(key_bytes(number as nat, wire_type as nat) + rest) == Some(
            (number, wire_type, key_bytes(number as nat, wire_type as nat).len()),
        ),
        key_bytes(number as nat, wire_type as nat).len() >= 1,
{
    let key = (number as nat * 8 + wire_type as nat) as u64;
    lemma_parse_varint_bytes(key, rest);
}

/// An integer field that was written is read back, whatever follows it.
pub proof fn lemma_next_field_varint(number: u32, value: u64, rest: Seq<u8>, budget: nat)
    requires
        1 <= number <= MAX_FIELD_NUMBER,
    ensures
        next_field(varint_field(number as nat, value) + rest, budget) == Some(
            Field {
                number,
                payload: Payload::Varint(value),
                size: varint_field(number as nat, value).len(),
            },
        ),
        varint_field(number as nat, value).len() >= 1,
{
    let key = key_bytes(number as nat, WIRE_VARINT as nat);
    let body = varint_bytes(value as nat);
    let all = varint_field(number as nat, value) + rest;
    assert(all =~= key + (body + rest));
    lemma_parse_key_bytes(number, WIRE_VARINT, body + rest);
    assert(all.skip(key.len() as int) =~= body + rest);
    lemma_parse_varint_bytes(value, rest);
}

/// A length-delimited field that was written is read back, whatever follows
/// it.
pub proof fn lemma_next_field_len(number: u32, payload: Seq<u8>, rest: Seq<u8>, budget: nat)
    requires
        1 <= number <= MAX_FIELD_NUMBER,
        payload.len() <= u64::MAX,
    ensures
        next_field(len_field(number as nat, payload) + rest, budget) == Some(
            Field {
                number,
                payload: Payload::Bytes(payload),
                size: len_field(number as nat, payload).len(),
            },
        ),
        len_field(number as nat, payload).len() >= 1,
{
    let key = key_bytes(number as nat, WIRE_LEN as nat);
    let prefix = varint_bytes(payload.len());
    let all = len_field(number as nat, payload) + rest;
    assert(all =~= key + (prefix + (payload + rest)));
    lemma_parse_key_bytes(number, WIRE_LEN, prefix + (payload + rest));
    let after = all.skip(key.len() as int);
    assert(after =~= prefix + (payload + rest));
    lemma_parse_varint_bytes(payload.len() as u64, payload + rest);
    assert(after.subrange(prefix.len() as int, (prefix.len() + payload.len()) as int) =~= payload);
}

/// Appends the key of field `number` with layout `wire_type`.
pub fn write_key(number: u32, wire_type: u8, out: &mut Vec<u8>)
    requires
        1 <= number <= MAX_FIELD_NUMBER,
        wire_type <= 5,
    ensures
        final(out)@ == old(out)@ + key_bytes(number as nat, wire_type as nat),
{
    write_varint(number as u64 * 8 + wire_type as u64, out);
}

/// Appends a field whose value is one integer.
pub fn write_varint_field(number: u32, value: u64, out: &mut Vec<u8>)
    requires
        1 <= number <= MAX_FIELD_NUMBER,
    ensures
        final(out)@ == old(out)@ + varint_field(number as nat, value),
{
    write_key(number, WIRE_VARINT, out);
    write_varint(value, out);
    proof {
        assert(out@ =~= old(out)@ + varint_field(number as nat, value));
    }
}

/// Appends a field whose value is `payload`, preceded by its length.
pub fn write_len_field(number: u32, payload: &[u8], out: &mut Vec<u8>)
    requires
        1 <= number <= MAX_FIELD_NUMBER,
    ensures
        final(out)@ == old(out)@ + len_field(number as nat, payload@),
{
    write_key(number, WIRE_LEN, out);
    write_varint(payload.len() as u64, out);
    out.extend_from_slice(payload);
    proof {
        assert(out@ =~= old(out)@ + len_field(number as nat, payload@));
    }
}

/// Reads the key at the front of `buf`.
pub fn read_key(buf: &[u8]) -> (r: Option<(u32, u8, usize)>)
    ensures
        match r {
            Some((number, wire_type, used)) => parse_key(buf@) == Some(
                (number, wire_type, used as nat),
            ) && 1 <= used <= buf@.len(),
            None => parse_key(buf@).is_none(),
        },
{
    proof {
        lemma_parse_varint_bounds(buf@);
    }
    match read_varint(buf) {
        Some((key, used)) => {
            if key > 0xFFFF_FFFF || key % 8 > 5 || key / 8 == 0 {
                None
            } else {
                Some(((key / 8) as u32, (key % 8) as u8, used))
            }
        },
        None => None,
    }
}

/// Steps over the value of a field that the reader does not keep: the number
/// of bytes it takes.
pub fn skip_field_value(buf: &[u8], wire_type: u8, number: u32, budget: u32) -> (r: Option<usize>)
    ensures
        match r {
            Some(n) => skip_value(buf@, wire_type, number, budget as nat) == Some(n as nat) && n
                <= buf@.len(),
            None => skip_value(buf@, wire_type, number, budget as nat).is_none(),
        },
    decreases buf@.len(), 1nat,
{
    proof {
        lemma_parse_varint_bounds(buf@);
    }
    if budget == 0 {
        None
    } else if wire_type == WIRE_VARINT {
        match read_varint(buf) {
            Some((_, used)) => Some(used),
            None => None,
        }
    } else if wire_type == WIRE_FIXED64 {
        if buf.len() >= 8 {
            Some(8)
        } else {
            None
        }
    } else if wire_type == WIRE_LEN {
        match read_varint(buf) {
            Some((len, used)) => {
                if len <= (buf.len() - used) as u64 {
                    Some(used + len as usize)
                } else {
                    None
                }
            },
            None => None,
        }
    } else if wire_type == WIRE_START_GROUP {
        skip_group_rest(buf, number, budget)
    } else if wire_type == WIRE_FIXED32 {
        if buf.len() >= 4 {
            Some(4)
        } else {
            None
        }
    } else {
        None
    }
}

/// Steps over the rest of group `number`, its end key included.
pub fn skip_group_rest(buf: &[u8], number: u32, budget: u32) -> (r: Option<usize>)
    ensures
        match r {
            Some(n) => skip_group(buf@, number, budget as nat) == Some(n as nat) && n
                <= buf@.len(),
            None => skip_group(buf@, number, budget as nat).is_none(),
        },
    decreases buf@.len(), 0nat,
{
    match read_key(buf) {
        Some((inner, wire_type, used)) => {
            if wire_type == WIRE_END_GROUP {
                if inner == number {
                    Some(used)
                } else {
                    None
                }
            } else if budget == 0 {
                None
            } else {
                let rest = slice_subrange(buf, used, buf.len());
                match skip_field_value(rest, wire_type, inner, budget - 1) {
                    Some(n) => {
                        let tail = slice_subrange(buf, used + n, buf.len());
                        match skip_group_rest(tail, number, budget) {
                            Some(m) => Some(used + n + m),
                            None => None,
                        }
                    },
                    None => None,
                }
            }
        },
        None => None,
    }
}

/// Reads the field at the front of `buf`.
pub fn read_field<'a>(buf: &'a [u8], budget: u32) -> (r: Option<RawField<'a>>)
    ensures
        match r {
            Some(field) => next_field(buf@, budget as nat) == Some(field@) && 1 <= field.size
                <= buf@.len(),
            None => next_field(buf@, budget as nat).is_none(),
        },
{
    match read_key(buf) {
        Some((number, wire_type, used)) => {
            let rest = slice_subrange(buf, used, buf.len());
            proof {
                lemma_parse_varint_bounds(rest@);
            }
            if wire_type == WIRE_VARINT {
                match read_varint(rest) {
                    Some((value, n)) => Some(
                        RawField { number, value: RawValue::Varint(value), size: used + n },
                    ),
                    None => None,
                }
            } else if wire_type == WIRE_LEN {
                match read_varint(rest) {
                    Some((len, n)) => {
                        if len <= (rest.len() - n) as u64 {
                            let payload = slice_subrange(rest, n, n + len as usize);
                            Some(
                                RawField {
                                    number,
                                    value: RawValue::Bytes(payload),
                                    size: used + n + len as usize,
                                },
                            )
                        } else {
                            None
                        }
                    },
                    None => None,
                }
            } else {
                match skip_field_value(rest, wire_type, number, budget) {
                    Some(n) => Some(RawField { number, value: RawValue::Skipped, size: used + n }),
                    None => None,
                }
            }
        },
        None => None,
    }
}

} // verus!
