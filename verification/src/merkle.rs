//! The roots of values: leaves, lists and vectors.

use vstd::bytes::{spec_u64_to_le_bytes, u64_to_le_bytes};
use vstd::prelude::*;
use crate::config::Config;
use crate::crypto::{merkle_root, merkle_root_of, mix_in_length, mix_in_length_of};
use crate::primitives::{zeros, H256, PublicKeyBytes, SignatureBytes};

verus! {

/// The 32-byte leaf of a 64-bit number: its bytes, lowest first, then zeros.
pub open spec fn u64_chunk(x: u64) -> Seq<u8> {
    spec_u64_to_le_bytes(x) + zeros(24)
}

/// The 32-byte leaf of a truth value.
pub open spec fn bool_chunk(b: bool) -> Seq<u8> {
    seq![if b { 1u8 } else { 0u8 }] + zeros(31)
}

/// The 32-byte leaf of four bytes.
pub open spec fn bytes4_chunk(v: Seq<u8>) -> Seq<u8> {
    v + zeros(28)
}

/// The root of a container or a vector: the Merkle root of its leaves.
pub open spec fn container_root(leaves: Seq<u8>) -> Seq<u8> {
    merkle_root_of(leaves, 0)
}

/// The root of a list: the Merkle root of its leaves in a tree made for the list's limit,
/// mixed with the list's length.
pub open spec fn list_root(leaves: Seq<u8>, limit_chunks: u64, len: nat) -> Seq<u8> {
    mix_in_length_of(merkle_root_of(leaves, limit_chunks as nat), len)
}

/// The bytes of a sequence of 64-bit numbers, packed eight bytes each.
pub open spec fn pack_u64s(s: Seq<u64>) -> Seq<u8>
    decreases s.len(),
{
    if s.len() == 0 {
        Seq::empty()
    } else {
        pack_u64s(s.drop_last()) + spec_u64_to_le_bytes(s.last())
    }
}

/// The value of `k` bits from position `start` on, the first bit counting least. Positions
/// past the end count as clear.
pub open spec fn bits_value(bits: Seq<bool>, start: int, k: nat) -> nat
    decreases k,
{
    if k == 0 {
        0
    } else {
        let below = bits_value(bits, start, (k - 1) as nat);
        let p = start + k - 1;
        if 0 <= p < bits.len() && bits[p] {
            below + weight((k - 1) as nat)
        } else {
            below
        }
    }
}

/// Two to the power `k`.
pub open spec fn weight(k: nat) -> nat
    decreases k,
{
    if k == 0 {
        1
    } else {
        2 * weight((k - 1) as nat)
    }
}

/// The bytes of a bit list, eight bits to a byte, the first bit lowest.
pub open spec fn bits_bytes(bits: Seq<bool>) -> Seq<u8> {
    Seq::new(((bits.len() + 7) / 8) as nat, |j: int| bits_value(bits, 8 * j, 8) as u8)
}

/// The 32-byte leaf of the four justification bits.
pub open spec fn justification_chunk(bits: Seq<bool>) -> Seq<u8> {
    seq![bits_value(bits, 0, 4) as u8] + zeros(31)
}

pub(crate) fn append(buf: &mut Vec<u8>, src: &[u8])
    ensures
        final(buf)@ == old(buf)@ + src@,
{
    let mut i: usize = 0;
    while i < src.len()
        invariant
            i <= src@.len(),
            buf@ == old(buf)@ + src@.take(i as int),
        decreases src@.len() - i,
    {
        buf.push(src[i]);
        assert(src@.take(i as int + 1) =~= src@.take(i as int).push(src@[i as int]));
        assert(buf@ =~= old(buf)@ + src@.take(i as int + 1));
        i += 1;
    }
    assert(src@.take(src@.len() as int) =~= src@);
}

pub(crate) fn append_zeros(buf: &mut Vec<u8>, n: usize)
    ensures
        final(buf)@ == old(buf)@ + zeros(n as nat),
{
    let mut i: usize = 0;
    while i < n
        invariant
            i <= n,
            buf@ == old(buf)@ + zeros(i as nat),
        decreases n - i,
    {
        buf.push(0u8);
        assert(buf@ =~= old(buf)@ + zeros((i + 1) as nat));
        i += 1;
    }
}

pub(crate) fn put_u64(buf: &mut Vec<u8>, x: u64)
    ensures
        final(buf)@ == old(buf)@ + u64_chunk(x),
        final(buf)@.len() == old(buf)@.len() + 32,
{
    let b = u64_to_le_bytes(x);
    append(buf, b.as_slice());
    append_zeros(buf, 24);
    assert(buf@ =~= old(buf)@ + u64_chunk(x));
}

pub(crate) fn put_bool(buf: &mut Vec<u8>, b: bool)
    ensures
        final(buf)@ == old(buf)@ + bool_chunk(b),
        final(buf)@.len() == old(buf)@.len() + 32,
{
    buf.push(if b { 1u8 } else { 0u8 });
    append_zeros(buf, 31);
    assert(buf@ =~= old(buf)@ + bool_chunk(b));
}

pub(crate) fn put_bytes4(buf: &mut Vec<u8>, v: &[u8; 4])
    ensures
        final(buf)@ == old(buf)@ + bytes4_chunk(v@),
        final(buf)@.len() == old(buf)@.len() + 32,
{
    append(buf, v.as_slice());
    append_zeros(buf, 28);
    assert(buf@ =~= old(buf)@ + bytes4_chunk(v@));
}

pub(crate) fn put_root(buf: &mut Vec<u8>, r: &H256)
    ensures
        final(buf)@ == old(buf)@ + r@,
        final(buf)@.len() == old(buf)@.len() + 32,
{
    append(buf, r.0.as_slice());
}

pub(crate) fn put_justification(buf: &mut Vec<u8>, bits: &[bool; 4])
    ensures
        final(buf)@ == old(buf)@ + justification_chunk(bits@),
        final(buf)@.len() == old(buf)@.len() + 32,
{
    let mut v: u8 = 0;
    if bits[0] {
        v = v + 1;
    }
    if bits[1] {
        v = v + 2;
    }
    if bits[2] {
        v = v + 4;
    }
    if bits[3] {
        v = v + 8;
    }
    proof {
        reveal_with_fuel(bits_value, 5);
        reveal_with_fuel(weight, 5);
        assert(v == bits_value(bits@, 0, 4));
    }
    buf.push(v);
    append_zeros(buf, 31);
    assert(buf@ =~= old(buf)@ + justification_chunk(bits@));
}

/// The root of a container whose leaves are in `buf`.
pub(crate) fn finish(buf: &Vec<u8>) -> (root: H256)
    requires
        buf@.len() <= 0x10_0000,
    ensures
        root@ == container_root(buf@),
{
    merkle_root(buf.as_slice(), 0)
}

/// The root of a list whose leaves are in `buf`.
pub(crate) fn finish_list(buf: &Vec<u8>, limit_chunks: u64, len: usize) -> (root: H256)
    requires
        buf@.len() <= 0x20_0000_0000_0000,
        limit_chunks <= 0x100_0000_0000,
        limit_chunks <= usize::MAX,
    ensures
        root@ == list_root(buf@, limit_chunks, len as nat),
{
    let inner = merkle_root(buf.as_slice(), limit_chunks as usize);
    mix_in_length(&inner, len)
}

/// The bytes of a bit list.
pub fn pack_bits(bits: &Vec<bool>) -> (out: Vec<u8>)
    ensures
        out@ == bits_bytes(bits@),
{
    let n = bits.len();
    let count = n / 8 + if n % 8 != 0 {
        1
    } else {
        0
    };
    assert(count == (n + 7) / 8);
    let mut out: Vec<u8> = Vec::new();
    let mut j: usize = 0;
    while j < count
        invariant
            j <= count,
            n == bits@.len(),
            count == (n + 7) / 8,
            out@.len() == j,
            forall|t: int| 0 <= t < j ==> out@[t] == bits_value(bits@, 8 * t, 8) as u8,
        decreases count - j,
    {
        let mut v: u16 = 0;
        let mut w: u16 = 1;
        let mut k: usize = 0;
        while k < 8
            invariant
                k <= 8,
                j < count,
                n == bits@.len(),
                count == (n + 7) / 8,
                v == bits_value(bits@, 8 * j, k as nat),
                w == weight(k as nat),
                v < w,
                w <= 256,
                k < 8 ==> w <= 128,
            decreases 8 - k,
        {
            let base = 8 * j;
            if k < n - base && bits[base + k] {
                v = v + w;
            }
            proof {
                reveal_with_fuel(weight, 9);
                assert(8 * j + (k + 1) - 1 == base + k);
            }
            k += 1;
            if k < 8 {
                w = w * 2;
            } else {
                proof {
                    assert(w == 128);
                }
                w = 256;
            }
        }
        proof {
            reveal_with_fuel(weight, 9);
        }
        out.push(v as u8);
        j += 1;
    }
    assert(out@ =~= bits_bytes(bits@));
    out
}

/// A value of the consensus protocol has a root: 32 bytes that stand for it wherever it is
/// signed or referred to.
pub trait TreeHash {
    /// The value's lists are within the sizes that a tree can be made for.
    spec fn hashable(&self, config: Config) -> bool;

    /// The root, as a function of what the value holds.
    spec fn tree_root(&self, config: Config) -> Seq<u8>;

    fn tree_hash_root(&self, config: &Config) -> (root: H256)
        requires
            config.wf(),
            self.hashable(*config),
        ensures
            root@ == self.tree_root(*config),
    ;
}

/// The roots of a sequence of values, one after the other.
pub open spec fn roots_concat<T: TreeHash>(items: Seq<T>, config: Config) -> Seq<u8>
    decreases items.len(),
{
    if items.len() == 0 {
        Seq::empty()
    } else {
        roots_concat(items.drop_last(), config) + items.last().tree_root(config)
    }
}

pub(crate) fn collect_roots<T: TreeHash>(items: &Vec<T>, config: &Config) -> (buf: Vec<u8>)
    requires
        config.wf(),
        forall|i: int| 0 <= i < items@.len() ==> (#[trigger] items@[i]).hashable(*config),
    ensures
        buf@ == roots_concat(items@, *config),
        buf@.len() == 32 * items@.len(),
{
    let mut buf: Vec<u8> = Vec::new();
    let mut i: usize = 0;
    while i < items.len()
        invariant
            i <= items@.len(),
            config.wf(),
            forall|i: int| 0 <= i < items@.len() ==> (#[trigger] items@[i]).hashable(*config),
            buf@ == roots_concat(items@.take(i as int), *config),
            buf@.len() == 32 * i,
        decreases items@.len() - i,
    {
        let r = items[i].tree_hash_root(config);
        put_root(&mut buf, &r);
        proof {
            let next = items@.take(i as int + 1);
            assert(next.drop_last() =~= items@.take(i as int));
            assert(next.last() == items@[i as int]);
        }
        i += 1;
    }
    assert(items@.take(items@.len() as int) =~= items@);
    buf
}

/// The root of a list of values under a limit on its length.
pub fn hash_list<T: TreeHash>(items: &Vec<T>, limit: u64, config: &Config) -> (root: H256)
    requires
        config.wf(),
        limit <= 0x100_0000_0000,
        limit <= usize::MAX,
        items@.len() <= 0x100_0000_0000,
        forall|i: int| 0 <= i < items@.len() ==> (#[trigger] items@[i]).hashable(*config),
    ensures
        root@ == list_root(roots_concat(items@, *config), limit, items@.len()),
{
    let buf = collect_roots(items, config);
    finish_list(&buf, limit, items.len())
}

/// The root of a vector of values.
pub fn hash_vector<T: TreeHash>(items: &Vec<T>, config: &Config) -> (root: H256)
    requires
        config.wf(),
        items@.len() <= 0x100_0000_0000,
        forall|i: int| 0 <= i < items@.len() ==> (#[trigger] items@[i]).hashable(*config),
    ensures
        root@ == container_root(roots_concat(items@, *config)),
{
    let buf = collect_roots(items, config);
    merkle_root(buf.as_slice(), 0)
}

pub(crate) fn collect_u64s(items: &Vec<u64>) -> (buf: Vec<u8>)
    ensures
        buf@ == pack_u64s(items@),
        buf@.len() == 8 * items@.len(),
{
    let mut buf: Vec<u8> = Vec::new();
    let mut i: usize = 0;
    while i < items.len()
        invariant
            i <= items@.len(),
            buf@ == pack_u64s(items@.take(i as int)),
            buf@.len() == 8 * i,
        decreases items@.len() - i,
    {
        let b = u64_to_le_bytes(items[i]);
        append(&mut buf, b.as_slice());
        proof {
            let next = items@.take(i as int + 1);
            assert(next.drop_last() =~= items@.take(i as int));
            assert(next.last() == items@[i as int]);
        }
        i += 1;
    }
    assert(items@.take(items@.len() as int) =~= items@);
    buf
}

/// The number of leaves that `limit` packed 64-bit numbers take.
pub open spec fn spec_u64_chunks(limit: u64) -> u64 {
    ((limit + 3) / 4) as u64
}

/// The root of a list of 64-bit numbers under a limit on its length.
pub fn hash_u64_list(items: &Vec<u64>, limit: u64) -> (root: H256)
    requires
        limit <= 0x100_0000_0000,
        limit <= usize::MAX,
        items@.len() <= 0x100_0000_0000,
    ensures
        root@ == list_root(pack_u64s(items@), spec_u64_chunks(limit), items@.len()),
{
    let buf = collect_u64s(items);
    finish_list(&buf, (limit + 3) / 4, items.len())
}

/// The root of a vector of 64-bit numbers.
pub fn hash_u64_vector(items: &Vec<u64>) -> (root: H256)
    requires
        items@.len() <= 0x100_0000_0000,
    ensures
        root@ == container_root(pack_u64s(items@)),
{
    let buf = collect_u64s(items);
    merkle_root(buf.as_slice(), 0)
}

/// The number of leaves that `limit` bytes take.
pub open spec fn spec_byte_chunks(limit: u64) -> u64 {
    ((limit + 31) / 32) as u64
}

/// The root of a list of bytes under a limit on its length.
pub fn hash_byte_list(items: &Vec<u8>, limit: u64) -> (root: H256)
    requires
        limit <= 0x100_0000_0000,
        limit <= usize::MAX,
        items@.len() <= 0x100_0000_0000,
    ensures
        root@ == list_root(items@, spec_byte_chunks(limit), items@.len()),
{
    finish_list(items, (limit + 31) / 32, items.len())
}

/// The number of leaves that `limit` bits take.
pub open spec fn spec_bit_chunks(limit: u64) -> u64 {
    ((limit + 255) / 256) as u64
}

/// The root of a list of bits under a limit on its length.
pub fn hash_bit_list(bits: &Vec<bool>, limit: u64) -> (root: H256)
    requires
        limit <= 0x100_0000_0000,
        limit <= usize::MAX,
        bits@.len() <= 0x100_0000_0000,
    ensures
        root@ == list_root(bits_bytes(bits@), spec_bit_chunks(limit), bits@.len()),
{
    let buf = pack_bits(bits);
    finish_list(&buf, (limit + 255) / 256, bits.len())
}

impl TreeHash for H256 {
    open spec fn hashable(&self, config: Config) -> bool {
        true
    }

    open spec fn tree_root(&self, config: Config) -> Seq<u8> {
        self@
    }

    fn tree_hash_root(&self, config: &Config) -> (root: H256) {
        *self
    }
}

impl TreeHash for u64 {
    open spec fn hashable(&self, config: Config) -> bool {
        true
    }

    open spec fn tree_root(&self, config: Config) -> Seq<u8> {
        Seq::<u8>::empty() + u64_chunk(*self)
    }

    fn tree_hash_root(&self, config: &Config) -> (root: H256) {
        let mut buf: Vec<u8> = Vec::new();
        put_u64(&mut buf, *self);
        H256::from_slice(buf.as_slice())
    }
}

impl TreeHash for PublicKeyBytes {
    open spec fn hashable(&self, config: Config) -> bool {
        true
    }

    open spec fn tree_root(&self, config: Config) -> Seq<u8> {
        container_root(self@)
    }

    fn tree_hash_root(&self, config: &Config) -> (root: H256) {
        merkle_root(self.0.as_slice(), 0)
    }
}

impl TreeHash for SignatureBytes {
    open spec fn hashable(&self, config: Config) -> bool {
        true
    }

    open spec fn tree_root(&self, config: Config) -> Seq<u8> {
        container_root(self@)
    }

    fn tree_hash_root(&self, config: &Config) -> (root: H256) {
        merkle_root(self.0.as_slice(), 0)
    }
}

/// The root of a value of the consensus protocol.
pub fn hash_tree_root<T: TreeHash>(object: &T, config: &Config) -> (root: H256)
    requires
        config.wf(),
        object.hashable(*config),
    ensures
        root@ == object.tree_root(*config),
{
    object.tree_hash_root(config)
}

} // verus!
