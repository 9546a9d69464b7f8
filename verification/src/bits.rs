//! The encoding of bit lists and of the justification bits.

use vstd::prelude::*;
use crate::merkle::{append, bits_bytes, bits_value, pack_bits, weight};

verus! {

/// Whether the bit of place `k` is set in a byte, the lowest bit being of place 0.
pub open spec fn bit_at(byte: u8, k: nat) -> bool {
    (byte as nat / weight(k)) % 2 == 1
}

/// The place of the highest bit that is set in a byte; 0 where none is.
pub open spec fn top_bit(byte: u8) -> nat {
    if byte >= 128 {
        7
    } else if byte >= 64 {
        6
    } else if byte >= 32 {
        5
    } else if byte >= 16 {
        4
    } else if byte >= 8 {
        3
    } else if byte >= 4 {
        2
    } else if byte >= 2 {
        1
    } else {
        0
    }
}

/// The encoding of a list of bits: the bits, then one set bit that marks the end, eight
/// to a byte.
pub open spec fn bitlist_encode(bits: Seq<bool>) -> Seq<u8> {
    bits_bytes(bits.push(true))
}

/// The number of bits that bytes hold before the bit that marks the end.
pub open spec fn bitlist_len(bytes: Seq<u8>) -> nat {
    (8 * (bytes.len() - 1) + top_bit(bytes.last())) as nat
}

/// The list of bits that bytes encode: the last byte has the bit that marks the end, and
/// the list is within its limit.
pub open spec fn bitlist_decode(bytes: Seq<u8>, limit: nat) -> Option<Seq<bool>> {
    if bytes.len() == 0 || bytes.last() == 0 || bitlist_len(bytes) > limit {
        None
    } else {
        Some(Seq::new(bitlist_len(bytes), |i: int| bit_at(bytes[i / 8], (i % 8) as nat)))
    }
}

/// The encoding of the four justification bits: one byte.
pub open spec fn justification_encode(bits: Seq<bool>) -> Seq<u8> {
    seq![bits_value(bits, 0, 4) as u8]
}

/// The four justification bits that a byte encodes: no bit above them is set.
pub open spec fn justification_decode(bytes: Seq<u8>) -> Option<Seq<bool>> {
    if bytes.len() != 1 || bytes[0] >= 16 {
        None
    } else {
        Some(Seq::new(4, |i: int| bit_at(bytes[0], i as nat)))
    }
}

/// Eight bits make a byte, and the byte gives each of them back.
proof fn lemma_eight_bits(b0: u32, b1: u32, b2: u32, b3: u32, b4: u32, b5: u32, b6: u32, b7: u32)
    requires
        b0 <= 1,
        b1 <= 1,
        b2 <= 1,
        b3 <= 1,
        b4 <= 1,
        b5 <= 1,
        b6 <= 1,
        b7 <= 1,
    ensures
        ({
            let v = b0 + 2 * b1 + 4 * b2 + 8 * b3 + 16 * b4 + 32 * b5 + 64 * b6 + 128 * b7;
            &&& v < 256
            &&& (v / 1) % 2 == b0
            &&& (v / 2) % 2 == b1
            &&& (v / 4) % 2 == b2
            &&& (v / 8) % 2 == b3
            &&& (v / 16) % 2 == b4
            &&& (v / 32) % 2 == b5
            &&& (v / 64) % 2 == b6
            &&& (v / 128) % 2 == b7
        }),
{
    let v: u32 = (b0 + 2 * b1 + 4 * b2 + 8 * b3 + 16 * b4 + 32 * b5 + 64 * b6 + 128 * b7) as u32;
    assert(v < 256 && (v / 1) % 2 == b0 && (v / 2) % 2 == b1 && (v / 4) % 2 == b2 && (v / 8) % 2
        == b3 && (v / 16) % 2 == b4 && (v / 32) % 2 == b5 && (v / 64) % 2 == b6 && (v / 128) % 2
        == b7) by (bit_vector)
        requires
            b0 <= 1,
            b1 <= 1,
            b2 <= 1,
            b3 <= 1,
            b4 <= 1,
            b5 <= 1,
            b6 <= 1,
            b7 <= 1,
            v == b0 + 2 * b1 + 4 * b2 + 8 * b3 + 16 * b4 + 32 * b5 + 64 * b6 + 128 * b7,
    ;
}

/// The value of the first places grows by the bit of the next place times its weight.
proof fn lemma_value_step(s: Seq<bool>, start: int, k: nat)
    requires
        0 <= start,
    ensures
        bits_value(s, start, k + 1) == bits_value(s, start, k) + bit_number(s, start + k)
            * weight(k),
{
    assert(bit_number(s, start + k) * weight(k) == if bit_number(s, start + k) == 1 {
        weight(k)
    } else {
        0
    }) by (nonlinear_arith)
        requires
            bit_number(s, start + k) <= 1,
    ;
}

/// The value of eight places of a sequence of bits, written out.
proof fn lemma_byte_sum(s: Seq<bool>, start: int)
    requires
        0 <= start,
    ensures
        bits_value(s, start, 8) == bit_number(s, start) + 2 * bit_number(s, start + 1) + 4
            * bit_number(s, start + 2) + 8 * bit_number(s, start + 3) + 16 * bit_number(
            s,
            start + 4,
        ) + 32 * bit_number(s, start + 5) + 64 * bit_number(s, start + 6) + 128 * bit_number(
            s,
            start + 7,
        ),
{
    assert(weight(0) == 1 && weight(1) == 2 && weight(2) == 4 && weight(3) == 8 && weight(4) == 16
        && weight(5) == 32 && weight(6) == 64 && weight(7) == 128) by {
        reveal_with_fuel(weight, 9);
    }
    assert(bits_value(s, start, 0) == 0);
    lemma_value_step(s, start, 0);
    lemma_value_step(s, start, 1);
    lemma_value_step(s, start, 2);
    lemma_value_step(s, start, 3);
    lemma_value_step(s, start, 4);
    lemma_value_step(s, start, 5);
    lemma_value_step(s, start, 6);
    lemma_value_step(s, start, 7);
}

/// The bit of a place as a number; places past the end are clear.
pub open spec fn bit_number(s: Seq<bool>, at: int) -> nat {
    if 0 <= at < s.len() && s[at] {
        1
    } else {
        0
    }
}

/// The bits of a packed byte are the bits that were packed; places past the end are clear.
pub proof fn lemma_byte_bits(s: Seq<bool>, start: int, k: nat)
    requires
        0 <= start,
        k < 8,
    ensures
        bits_value(s, start, 8) < 256,
        bit_at(bits_value(s, start, 8) as u8, k) == (start + k < s.len() && s[start + k]),
{
    lemma_byte_sum(s, start);
    lemma_eight_bits(
        bit_number(s, start) as u32,
        bit_number(s, start + 1) as u32,
        bit_number(s, start + 2) as u32,
        bit_number(s, start + 3) as u32,
        bit_number(s, start + 4) as u32,
        bit_number(s, start + 5) as u32,
        bit_number(s, start + 6) as u32,
        bit_number(s, start + 7) as u32,
    );
    assert(weight(0) == 1 && weight(1) == 2 && weight(2) == 4 && weight(3) == 8 && weight(4) == 16
        && weight(5) == 32 && weight(6) == 64 && weight(7) == 128) by {
        reveal_with_fuel(weight, 9);
    }
}

/// Decoding the encoding of a list of bits within its limit gives the list.
pub proof fn lemma_bitlist_round_trip(bits: Seq<bool>, limit: nat)
    requires
        bits.len() <= limit,
    ensures
        bitlist_decode(bitlist_encode(bits), limit) == Some(bits),
{
    let n = bits.len() as int;
    let ext = bits.push(true);
    let bytes = bitlist_encode(bits);
    let last = n / 8;
    let p = (n % 8) as nat;
    assert(bytes.len() == last + 1);
    assert(bytes.last() == bits_value(ext, 8 * last, 8) as u8);
    assert(top_bit(bytes.last()) == p && bytes.last() != 0) by {
        lemma_byte_sum(ext, 8 * last);
        lemma_byte_bits(ext, 8 * last, 0);
        assert(ext[n] == true);
        assert(bit_number(ext, n) == 1);
        assert(forall|q: int| q > n ==> bit_number(ext, q) == 0);
    }
    assert(bitlist_len(bytes) == n);
    let decoded = bitlist_decode(bytes, limit)->Some_0;
    assert forall|i: int| 0 <= i < n implies decoded[i] == bits[i] by {
        lemma_byte_bits(ext, 8 * (i / 8), (i % 8) as nat);
        assert(bytes[i / 8] == bits_value(ext, 8 * (i / 8), 8) as u8);
        assert(ext[i] == bits[i]);
    }
    assert(decoded =~= bits);
}

/// Decoding the encoding of four justification bits gives the bits.
pub proof fn lemma_justification_round_trip(bits: Seq<bool>)
    requires
        bits.len() == 4,
    ensures
        justification_decode(justification_encode(bits)) == Some(bits),
{
    lemma_byte_sum(bits, 0);
    lemma_byte_bits(bits, 0, 0);
    lemma_byte_bits(bits, 0, 1);
    lemma_byte_bits(bits, 0, 2);
    lemma_byte_bits(bits, 0, 3);
    lemma_value_step(bits, 0, 0);
    lemma_value_step(bits, 0, 1);
    lemma_value_step(bits, 0, 2);
    lemma_value_step(bits, 0, 3);
    assert(weight(0) == 1 && weight(1) == 2 && weight(2) == 4 && weight(3) == 8) by {
        reveal_with_fuel(weight, 5);
    }
    assert(bits_value(bits, 0, 0) == 0);
    assert(bits_value(bits, 0, 4) < 16);
    assert(bits_value(bits, 0, 4) == bits_value(bits, 0, 8));
    let decoded = justification_decode(justification_encode(bits))->Some_0;
    assert(decoded =~= bits);
}

fn power(k: usize) -> (w: u8)
    requires
        k < 8,
    ensures
        w == weight(k as nat),
        w > 0,
{
    proof {
        reveal_with_fuel(weight, 9);
    }
    if k == 0 {
        1
    } else if k == 1 {
        2
    } else if k == 2 {
        4
    } else if k == 3 {
        8
    } else if k == 4 {
        16
    } else if k == 5 {
        32
    } else if k == 6 {
        64
    } else {
        128
    }
}

/// Appends the encoding of a list of bits.
pub fn bitlist_append(bits: &Vec<bool>, buf: &mut Vec<u8>)
    ensures
        final(buf)@ == old(buf)@ + bitlist_encode(bits@),
{
    let mut ext: Vec<bool> = Vec::new();
    let mut i: usize = 0;
    while i < bits.len()
        invariant
            i <= bits@.len(),
            ext@ == bits@.take(i as int),
        decreases bits@.len() - i,
    {
        ext.push(bits[i]);
        assert(bits@.take(i as int + 1) =~= bits@.take(i as int).push(bits@[i as int]));
        i += 1;
    }
    assert(bits@.take(bits@.len() as int) =~= bits@);
    ext.push(true);
    let packed = pack_bits(&ext);
    append(buf, packed.as_slice());
}

/// Decodes a list of bits.
pub fn bitlist_parse(bytes: &[u8], limit: u64) -> (r: Option<Vec<bool>>)
    ensures
        match r {
            Some(bits) => bitlist_decode(bytes@, limit as nat) == Some(bits@),
            None => bitlist_decode(bytes@, limit as nat) is None,
        },
{
    let len = bytes.len();
    if len == 0 {
        return None;
    }
    let last = bytes[len - 1];
    if last == 0 {
        return None;
    }
    let top: u128 = if last >= 128 {
        7
    } else if last >= 64 {
        6
    } else if last >= 32 {
        5
    } else if last >= 16 {
        4
    } else if last >= 8 {
        3
    } else if last >= 4 {
        2
    } else if last >= 2 {
        1
    } else {
        0
    };
    let wide = 8 * ((len - 1) as u128) + top;
    if wide > limit as u128 {
        return None;
    }
    let n = wide as u64;
    let mut bits: Vec<bool> = Vec::new();
    let mut i: u64 = 0;
    while i < n
        invariant
            i <= n,
            len == bytes@.len(),
            n == bitlist_len(bytes@),
            n <= 8 * (len - 1) + 7,
            bits@.len() == i,
            forall|t: int|
                0 <= t < i ==> bits@[t] == bit_at(bytes@[t / 8], (t % 8) as nat),
        decreases n - i,
    {
        let byte = bytes[(i / 8) as usize];
        let w = power((i % 8) as usize);
        bits.push((byte / w) % 2 == 1);
        i += 1;
    }
    assert(bits@ =~= bitlist_decode(bytes@, limit as nat)->Some_0);
    Some(bits)
}

/// Appends the encoding of the four justification bits.
pub fn justification_append(bits: &[bool; 4], buf: &mut Vec<u8>)
    ensures
        final(buf)@ == old(buf)@ + justification_encode(bits@),
{
    let mut v: u8 = 0;
    if bits[0] {
        v = v + 1;
    }
    if bits[1] {
        v = v + 2;
    }
    if bits[2] {
        v = v + 4;
    }
    if bits[3] {
        v = v + 8;
    }
    proof {
        reveal_with_fuel(bits_value, 5);
        reveal_with_fuel(weight, 5);
        assert(v == bits_value(bits@, 0, 4));
    }
    buf.push(v);
    assert(buf@ =~= old(buf)@ + justification_encode(bits@));
}

/// Decodes the four justification bits.
pub fn justification_parse(bytes: &[u8]) -> (r: Option<[bool; 4]>)
    ensures
        match r {
            Some(bits) => justification_decode(bytes@) == Some(bits@),
            None => justification_decode(bytes@) is None,
        },
{
    if bytes.len() != 1 || bytes[0] >= 16 {
        return None;
    }
    let b = bytes[0];
    let bits = [b % 2 == 1, (b / 2) % 2 == 1, (b / 4) % 2 == 1, (b / 8) % 2 == 1];
    proof {
        assert(weight(0) == 1 && weight(1) == 2 && weight(2) == 4 && weight(3) == 8) by {
            reveal_with_fuel(weight, 5);
        }
        let want = justification_decode(bytes@)->Some_0;
        assert(bits@[0] == bit_at(b, 0));
        assert(bits@[1] == bit_at(b, 1));
        assert(bits@[2] == bit_at(b, 2));
        assert(bits@[3] == bit_at(b, 3));
        assert(want.len() == 4);
        assert(want[0] == bit_at(b, 0));
        assert(want[1] == bit_at(b, 1));
        assert(want[2] == bit_at(b, 2));
        assert(want[3] == bit_at(b, 3));
        assert(bits@ =~= want);
    }
    Some(bits)
}

} // verus!
