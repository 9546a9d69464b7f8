//! The shuffle of validator indices.

use vstd::bytes::{spec_u32_to_le_bytes, spec_u64_from_le_bytes, u32_to_le_bytes, u64_from_le_bytes};
use vstd::prelude::*;
use vstd::slice::slice_subrange;
use crate::config::Config;
use crate::crypto::{hash, sha256};
use crate::merkle::append;

verus! {

/// The pivot of one round: a number below `n` drawn from the seed and the round.
pub open spec fn round_pivot(seed: Seq<u8>, round: u8, n: u64) -> u64 {
    spec_u64_from_le_bytes(sha256(Seq::<u8>::empty() + seed + seq![round]).take(8)) % n
}

/// The digest that decides for the 256 positions round `position`.
pub open spec fn round_source(seed: Seq<u8>, round: u8, position: u64) -> Seq<u8> {
    sha256(
        Seq::<u8>::empty() + seed + seq![round] + spec_u32_to_le_bytes((position / 256) as u32),
    )
}

/// Whether the pair that `position` is the larger one of swaps in this round.
pub open spec fn round_bit(seed: Seq<u8>, round: u8, position: u64) -> bool {
    (round_source(seed, round, position)[((position % 256) / 8) as int] >> ((position % 8) as u8))
        & 1u8 == 1u8
}

/// The partner of `index` in a round with the given pivot.
pub open spec fn spec_flip(index: u64, pivot: u64, n: u64) -> u64 {
    ((pivot + n - index) % (n as int)) as u64
}

/// One round of the shuffle: an index and its partner swap, or both stay.
pub open spec fn shuffle_round(index: u64, n: u64, seed: Seq<u8>, round: u8) -> u64 {
    let flip = spec_flip(index, round_pivot(seed, round, n), n);
    let position = if index >= flip {
        index
    } else {
        flip
    };
    if round_bit(seed, round, position) {
        flip
    } else {
        index
    }
}

/// Where `index` stands after the first `rounds` rounds of the shuffle of `n` indices.
pub open spec fn spec_shuffled_index(index: u64, n: u64, seed: Seq<u8>, rounds: nat) -> u64
    decreases rounds,
{
    if rounds == 0 {
        index
    } else {
        shuffle_round(
            spec_shuffled_index(index, n, seed, (rounds - 1) as nat),
            n,
            seed,
            (rounds - 1) as u8,
        )
    }
}

/// The index that stands at `position` after the first `rounds` rounds.
pub open spec fn spec_unshuffled_index(position: u64, n: u64, seed: Seq<u8>, rounds: nat) -> u64
    decreases rounds,
{
    if rounds == 0 {
        position
    } else {
        spec_unshuffled_index(
            shuffle_round(position, n, seed, (rounds - 1) as u8),
            n,
            seed,
            (rounds - 1) as nat,
        )
    }
}

proof fn lemma_flip(index: u64, pivot: u64, n: u64)
    requires
        index < n,
        pivot < n,
    ensures
        spec_flip(index, pivot, n) < n,
        spec_flip(spec_flip(index, pivot, n), pivot, n) == index,
        index <= pivot ==> spec_flip(index, pivot, n) == pivot - index,
        index > pivot ==> spec_flip(index, pivot, n) == pivot + n - index,
{
    let x = pivot + n - index;
    if index <= pivot {
        assert(x % (n as int) == x - n) by (nonlinear_arith)
            requires
                n <= x < 2 * n,
        ;
        let f = pivot - index;
        let y = pivot + n - f;
        assert(y % (n as int) == y - n) by (nonlinear_arith)
            requires
                n <= y < 2 * n,
        ;
    } else {
        assert(x % (n as int) == x) by (nonlinear_arith)
            requires
                0 <= x < n,
        ;
        let f = x;
        let y = pivot + n - f;
        assert(y % (n as int) == y) by (nonlinear_arith)
            requires
                0 <= y < n,
        ;
    }
}

/// One round maps the indices below `n` to themselves and undoes itself.
pub proof fn lemma_shuffle_round_involution(index: u64, n: u64, seed: Seq<u8>, round: u8)
    requires
        index < n,
    ensures
        shuffle_round(index, n, seed, round) < n,
        shuffle_round(shuffle_round(index, n, seed, round), n, seed, round) == index,
{
    let pivot = round_pivot(seed, round, n);
    let h = spec_u64_from_le_bytes(sha256(Seq::<u8>::empty() + seed + seq![round]).take(8));
    assert(0 <= h % n < n) by (nonlinear_arith)
        requires
            n > 0,
            h >= 0,
    ;
    lemma_flip(index, pivot, n);
    lemma_flip(spec_flip(index, pivot, n), pivot, n);
}

/// The shuffle is a bijection on the indices below `n`: it maps them to themselves, and
/// the reverse walk through the rounds is its inverse on both sides.
pub proof fn lemma_shuffle_is_bijection(index: u64, n: u64, seed: Seq<u8>, rounds: nat)
    requires
        index < n,
        rounds <= 256,
    ensures
        spec_shuffled_index(index, n, seed, rounds) < n,
        spec_unshuffled_index(index, n, seed, rounds) < n,
        spec_unshuffled_index(spec_shuffled_index(index, n, seed, rounds), n, seed, rounds)
            == index,
        spec_shuffled_index(spec_unshuffled_index(index, n, seed, rounds), n, seed, rounds)
            == index,
    decreases rounds,
{
    if rounds > 0 {
        let r = (rounds - 1) as nat;
        let round = r as u8;
        lemma_shuffle_is_bijection(index, n, seed, r);
        let before = spec_shuffled_index(index, n, seed, r);
        lemma_shuffle_round_involution(before, n, seed, round);
        lemma_shuffle_round_involution(index, n, seed, round);
        let stepped = shuffle_round(index, n, seed, round);
        lemma_shuffle_is_bijection(stepped, n, seed, r);
    }
}

/// Two indices below `n` never land on one position.
pub proof fn lemma_shuffle_is_injective(i: u64, j: u64, n: u64, seed: Seq<u8>, rounds: nat)
    requires
        i < n,
        j < n,
        rounds <= 256,
        spec_shuffled_index(i, n, seed, rounds) == spec_shuffled_index(j, n, seed, rounds),
    ensures
        i == j,
{
    lemma_shuffle_is_bijection(i, n, seed, rounds);
    lemma_shuffle_is_bijection(j, n, seed, rounds);
}

/// Where `index` stands after the shuffle of `index_count` indices under `seed`.
pub fn compute_shuffled_index(index: u64, index_count: u64, seed: &[u8], config: &Config) -> (r:
    u64)
    requires
        config.wf(),
        index < index_count,
        index_count <= 0x100_0000_0000,
        seed@.len() == 32,
    ensures
        r == spec_shuffled_index(index, index_count, seed@, config.shuffle_round_count as nat),
        r < index_count,
{
    let n = index_count;
    let mut idx = index;
    let mut round: u64 = 0;
    while round < config.shuffle_round_count
        invariant
            config.wf(),
            round <= config.shuffle_round_count,
            index < n,
            n <= 0x100_0000_0000,
            seed@.len() == 32,
            idx < n,
            idx == spec_shuffled_index(index, n, seed@, round as nat),
        decreases config.shuffle_round_count - round,
    {
        let rb = round as u8;
        let mut input: Vec<u8> = Vec::new();
        append(&mut input, seed);
        input.push(rb);
        assert(input@ =~= Seq::<u8>::empty() + seed@ + seq![rb]);
        let h = hash(input.as_slice());
        let pivot = u64_from_le_bytes(slice_subrange(h.as_slice(), 0, 8)) % n;
        assert(h@.subrange(0, 8) =~= h@.take(8));
        let flip = (pivot + n - idx) % n;
        let position = if idx >= flip {
            idx
        } else {
            flip
        };
        let pb = u32_to_le_bytes((position / 256) as u32);
        append(&mut input, pb.as_slice());
        let source = hash(input.as_slice());
        let byte = source[((position % 256) / 8) as usize];
        let bit = (byte >> ((position % 8) as u8)) & 1u8 == 1u8;
        proof {
            lemma_shuffle_round_involution(idx, n, seed@, rb);
            assert(pivot == round_pivot(seed@, rb, n));
            assert(flip == spec_flip(idx, pivot, n));
            assert(source@ == round_source(seed@, rb, position));
            assert(bit == round_bit(seed@, rb, position));
        }
        if bit {
            idx = flip;
        }
        round += 1;
    }
    idx
}

} // verus!
