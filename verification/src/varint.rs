//! Base-128 variable-length integers, the building block of the wire format.
//!
//! A value is written seven bits at a time, least significant group first;
//! every byte but the last has its top bit set. A reader accepts at most ten
//! bytes and keeps the low 64 bits of what they spell.

use vstd::prelude::*;

verus! {

/// The bytes that spell `value`.
pub open spec fn varint_bytes(value: nat) -> Seq<u8>
    decreases value,
{
    if value < 128 {
        seq![value as u8]
    } else {
        seq![(value % 128 + 128) as u8] + varint_bytes(value / 128)
    }
}

/// `128` to the power `n`.
pub open spec fn pow128(n: nat) -> nat
    decreases n,
{
    if n == 0 {
        1
    } else {
        128 * pow128((n - 1) as nat)
    }
}

/// How many bytes the integer at the front of `bytes` takes, looking at no
/// more than `limit` of them: one more than the index of the first byte whose
/// top bit is clear.
pub open spec fn varint_span(bytes: Seq<u8>, limit: nat) -> Option<nat>
    decreases limit,
{
    if limit == 0 || bytes.len() == 0 {
        None
    } else if bytes[0] < 128 {
        Some(1)
    } else {
        match varint_span(bytes.drop_first(), (limit - 1) as nat) {
            Some(n) => Some(n + 1),
            None => None,
        }
    }
}

/// The number that the low seven bits of the first `n` bytes spell, least
/// significant group first.
pub open spec fn varint_payload(bytes: Seq<u8>, n: nat) -> nat
    decreases n,
{
    if n == 0 || bytes.len() == 0 {
        0
    } else {
        (bytes[0] % 128) as nat + 128 * varint_payload(bytes.drop_first(), (n - 1) as nat)
    }
}

/// Reads the integer at the front of `bytes`: its value and the number of
/// bytes it takes. `None` where the first ten bytes hold no final byte.
pub open spec fn parse_varint(bytes: Seq<u8>) -> Option<(u64, nat)> {
    match varint_span(bytes, 10) {
        Some(n) => Some(((varint_payload(bytes, n) % 0x1_0000_0000_0000_0000) as u64, n)),
        None => None,
    }
}

/// The powers of 128 that a reader of ten bytes meets.
pub proof fn lemma_pow128_values()
    ensures
        pow128(0) == 1,
        pow128(1) == 0x80,
        pow128(2) == 0x4000,
        pow128(3) == 0x20_0000,
        pow128(4) == 0x1000_0000,
        pow128(5) == 0x8_0000_0000,
        pow128(6) == 0x400_0000_0000,
        pow128(7) == 0x2_0000_0000_0000,
        pow128(8) == 0x100_0000_0000_0000,
        pow128(9) == 0x8000_0000_0000_0000,
        pow128(10) == 0x40_0000_0000_0000_0000,
{
    reveal_with_fuel(pow128, 11);
}

/// The encoding is never empty and its length grows with the value.
pub proof fn lemma_varint_bytes_len(value: nat, k: nat)
    requires
        k >= 1,
        value < pow128(k),
    ensures
        1 <= varint_bytes(value).len() <= k,
    decreases value,
{
    if value >= 128 {
        assert(k >= 2) by {
            reveal_with_fuel(pow128, 2);
        }
        assert(pow128(k) == 128 * pow128((k - 1) as nat));
        lemma_varint_bytes_len(value / 128, (k - 1) as nat);
    }
}

/// Reading what was written gives the value back, whatever follows it.
pub proof fn lemma_varint_round_trip(value: nat, rest: Seq<u8>, limit: nat)
    requires
        limit >= 1,
        value < pow128(limit),
    ensures
        varint_span(varint_bytes(value) + rest, limit) == Some(varint_bytes(value).len()),
        varint_payload(varint_bytes(value) + rest, varint_bytes(value).len()) == value,
    decreases value,
{
    let all = varint_bytes(value) + rest;
    if value < 128 {
        assert(all[0] == value as u8);
        assert(varint_payload(all.drop_first(), 0) == 0);
    } else {
        assert(limit >= 2) by {
            reveal_with_fuel(pow128, 2);
        }
        assert(pow128(limit) == 128 * pow128((limit - 1) as nat));
        let tail = varint_bytes(value / 128);
        assert(all[0] == (value % 128 + 128) as u8);
        assert(all.drop_first() =~= tail + rest);
        lemma_varint_round_trip(value / 128, rest, (limit - 1) as nat);
        assert(varint_bytes(value).len() == tail.len() + 1);
        assert(all[0] % 128 == value % 128);
    }
}

/// A 64-bit value, written and read again.
pub proof fn lemma_parse_varint_bytes(value: u64, rest: Seq<u8>)
    ensures
        parse_varint(varint_bytes(value as nat) + rest) == Some(
            (value, varint_bytes(value as nat).len()),
        ),
        1 <= varint_bytes(value as nat).len() <= 10,
{
    lemma_pow128_values();
    lemma_varint_round_trip(value as nat, rest, 10);
    lemma_varint_bytes_len(value as nat, 10);
}

/// An integer at the front of `bytes` never takes more bytes than there are.
pub proof fn lemma_parse_varint_bounds(bytes: Seq<u8>)
    ensures
        match parse_varint(bytes) {
            Some((_, used)) => 1 <= used <= bytes.len() && used <= 10,
            None => true,
        },
{
    lemma_varint_span_bounds(bytes, 10);
}

/// A span is at least one byte, and no more than there are or than the limit.
pub proof fn lemma_varint_span_bounds(bytes: Seq<u8>, limit: nat)
    ensures
        match varint_span(bytes, limit) {
            Some(n) => 1 <= n <= bytes.len() && n <= limit,
            None => true,
        },
    decreases limit,
{
    if limit > 0 && bytes.len() > 0 && bytes[0] >= 128 {
        lemma_varint_span_bounds(bytes.drop_first(), (limit - 1) as nat);
    }
}

/// Counting one byte further adds its seven bits at the next place.
pub proof fn lemma_varint_payload_step(bytes: Seq<u8>, n: nat)
    requires
        n < bytes.len(),
    ensures
        varint_payload(bytes, n + 1) == varint_payload(bytes, n) + (bytes[n as int] % 128)
            * pow128(n),
        varint_payload(bytes, n) < pow128(n),
    decreases n,
{
    if n == 0 {
        assert(varint_payload(bytes.drop_first(), 0) == 0);
    } else {
        let tail = bytes.drop_first();
        let m = (n - 1) as nat;
        lemma_varint_payload_step(tail, m);
        assert(tail[m as int] == bytes[n as int]);
        let digit = (bytes[n as int] % 128) as nat;
        let first = (bytes[0] % 128) as nat;
        assert(128 * (digit * pow128(m)) == digit * (128 * pow128(m))) by (nonlinear_arith);
        assert(pow128(n) == 128 * pow128(m));
        assert(varint_payload(bytes, n + 1) == first + 128 * varint_payload(tail, n));
        assert(varint_payload(bytes, n) == first + 128 * varint_payload(tail, m));
        assert(varint_payload(tail, n) == varint_payload(tail, m) + digit * pow128(m));
    }
}

/// Where the first `i` bytes all have their top bit set, the span is decided
/// by byte `i`.
pub proof fn lemma_varint_span_at(bytes: Seq<u8>, i: nat, limit: nat)
    requires
        i <= bytes.len(),
        i <= limit,
        forall|j: int| 0 <= j < i ==> bytes[j] >= 128,
    ensures
        i < bytes.len() && i < limit && bytes[i as int] < 128 ==> varint_span(bytes, limit)
            == Some(i + 1),
        i == bytes.len() || i == limit ==> varint_span(bytes, limit).is_none(),
    decreases i,
{
    if i > 0 {
        let tail = bytes.drop_first();
        assert forall|j: int| 0 <= j < i - 1 implies tail[j] >= 128 by {
            assert(tail[j] == bytes[j + 1]);
        }
        lemma_varint_span_at(tail, (i - 1) as nat, (limit - 1) as nat);
        if i < bytes.len() {
            assert(tail[i - 1] == bytes[i as int]);
        }
    }
}

/// Appends the encoding of `value` to `out`.
pub fn write_varint(value: u64, out: &mut Vec<u8>)
    ensures
        final(out)@ == old(out)@ + varint_bytes(value as nat),
{
    let ghost start = out@;
    let mut v: u64 = value;
    while v >= 128
        invariant
            out@ + varint_bytes(v as nat) == start + varint_bytes(value as nat),
        decreases v,
    {
        let ghost before = out@;
        out.push((v % 128 + 128) as u8);
        proof {
            assert(varint_bytes(v as nat) == seq![(v % 128 + 128) as u8] + varint_bytes(
                (v / 128) as nat,
            ));
            assert(out@ + varint_bytes((v / 128) as nat) =~= before + varint_bytes(v as nat));
        }
        v = v / 128;
    }
    out.push(v as u8);
    proof {
        assert(out@ =~= start + varint_bytes(value as nat));
    }
}

/// Reads the integer at the front of `buf`.
pub fn read_varint(buf: &[u8]) -> (r: Option<(u64, usize)>)
    ensures
        match r {
            Some((value, used)) => parse_varint(buf@) == Some((value, used as nat)),
            None => parse_varint(buf@).is_none(),
        },
{
    let mut acc: u128 = 0;
    let mut scale: u128 = 1;
    let mut i: usize = 0;
    proof {
        lemma_pow128_values();
    }
    while i < 10 && i < buf.len()
        invariant
            i <= 10,
            i <= buf.len(),
            scale == pow128(i as nat),
            acc == varint_payload(buf@, i as nat),
            forall|j: int| 0 <= j < i ==> buf@[j] >= 128,
        decreases 10 - i,
    {
        let b = buf[i];
        proof {
            lemma_pow128_values();
            lemma_varint_payload_step(buf@, i as nat);
            assert(pow128(i as nat) <= 0x8000_0000_0000_0000) by {
                reveal_with_fuel(pow128, 11);
            }
            assert((b % 128) * pow128(i as nat) <= 127 * pow128(i as nat)) by (nonlinear_arith)
                requires
                    b % 128 <= 127,
            ;
        }
        acc = acc + (b % 128) as u128 * scale;
        if b < 128 {
            proof {
                lemma_varint_span_at(buf@, i as nat, 10);
            }
            return Some(((acc % 0x1_0000_0000_0000_0000) as u64, i + 1));
        }
        scale = scale * 128;
        i = i + 1;
    }
    proof {
        lemma_varint_span_at(buf@, i as nat, 10);
    }
    None
}

} // verus!
