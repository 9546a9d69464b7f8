//! Digests, Merkle roots and signatures: what the library has from libraries outside it.

use vstd::prelude::*;
use crate::primitives::{h256_from, lemma_h256_from, Domain, H256, PublicKeyBytes, SignatureBytes};

verus! {

/// The SHA-256 digest of a byte string.
pub uninterp spec fn sha256(input: Seq<u8>) -> Seq<u8>;

/// The Merkle root of a byte string cut into 32-byte leaves, in a tree of at least
/// `min_leaves` leaves that is filled up with zero leaves to a power of two.
pub uninterp spec fn merkle_root_of(bytes: Seq<u8>, min_leaves: nat) -> Seq<u8>;

/// The node above a list's root and the list's length.
pub uninterp spec fn mix_in_length_of(root: Seq<u8>, length: nat) -> Seq<u8>;

/// Whether 48 bytes are the encoding of a public key.
pub uninterp spec fn bls_pubkey_decodes(pubkey: Seq<u8>) -> bool;

/// Whether 96 bytes are the encoding of a signature.
pub uninterp spec fn bls_signature_decodes(signature: Seq<u8>) -> bool;

/// Whether a signature is one of the key's over the message with the domain before it, in
/// the scheme that the tag names.
pub uninterp spec fn bls_verifies_under(
    scheme: Seq<u8>,
    pubkey: Seq<u8>,
    message: Seq<u8>,
    signature: Seq<u8>,
    domain: Seq<u8>,
) -> bool;

/// The tag of the signature scheme of the chain: signatures in the second group, messages
/// hashed to the curve with SHA-256, keys with proofs of possession. It is the text
/// `BLS_SIG_BLS12381G2_XMD:SHA-256_SSWU_RO_POP_`.
pub open spec fn spec_scheme_tag() -> Seq<u8> {
    seq![
        0x42u8, 0x4c, 0x53, 0x5f, 0x53, 0x49, 0x47, 0x5f, 0x42, 0x4c, 0x53, 0x31, 0x32, 0x33,
        0x38, 0x31, 0x47, 0x32, 0x5f, 0x58, 0x4d, 0x44, 0x3a, 0x53, 0x48, 0x41, 0x2d, 0x32,
        0x35, 0x36, 0x5f, 0x53, 0x53, 0x57, 0x55, 0x5f, 0x52, 0x4f, 0x5f, 0x50, 0x4f, 0x50,
        0x5f,
    ]
}

/// Whether a signature is one of the key over the message under the domain, in the scheme
/// of the chain.
pub open spec fn bls_verifies(
    pubkey: Seq<u8>,
    message: Seq<u8>,
    signature: Seq<u8>,
    domain: Seq<u8>,
) -> bool {
    bls_verifies_under(spec_scheme_tag(), pubkey, message, signature, domain)
}

/// The encoding of the sum of two public keys.
pub uninterp spec fn bls_pubkey_sum(a: Seq<u8>, b: Seq<u8>) -> Seq<u8>;

/// The error of the BLS library.
#[verifier::external_type_specification]
#[verifier::external_body]
pub struct ExBlstError(blst::BLST_ERROR);

/// `ring::digest::digest` with `SHA256`: the digest is a function of the input alone and is
/// 32 bytes long. The call fails on inputs of 2^61 bytes or more, which are left out.
#[verifier::external_body]
pub fn hash(input: &[u8]) -> (digest: Vec<u8>)
    requires
        input@.len() < 0x2000_0000_0000_0000,
    ensures
        digest@ == sha256(input@),
        digest@.len() == 32,
{
    ring::digest::digest(&ring::digest::SHA256, input).as_ref().to_vec()
}

/// `tree_hash::merkle_root`: the root is a function of the bytes and of the least number of
/// leaves. Trees deeper than 48 levels make it fail and are left out.
#[verifier::external_body]
pub(crate) fn merkle_root_raw(bytes: &[u8], min_leaves: usize) -> (root: H256)
    requires
        min_leaves <= 0x1_0000_0000_0000,
        bytes@.len() <= 0x20_0000_0000_0000,
    ensures
        root@ == merkle_root_of(bytes@, min_leaves as nat),
{
    H256(tree_hash::merkle_root(bytes, min_leaves).0)
}

/// `tree_hash::mix_in_length`: the node is a function of the root and of the length.
#[verifier::external_body]
pub(crate) fn mix_in_length_raw(root: &H256, length: usize) -> (mixed: H256)
    ensures
        mixed@ == mix_in_length_of(root@, length as nat),
{
    H256(tree_hash::mix_in_length(&tree_hash::Hash256::from(root.0), length).0)
}

/// Decodes the key and the signature with `blst::min_pk::PublicKey::from_bytes` and
/// `blst::min_pk::Signature::from_bytes`, then checks the signature with
/// `blst::min_pk::Signature::verify` under the scheme's tag, the domain being handed over
/// as the message's augmentation. It fails exactly when one of the two does not decode;
/// else it says whether the signature verifies.
#[verifier::external_body]
pub(crate) fn bls_verify_under(
    scheme: &[u8],
    pubkey: &PublicKeyBytes,
    message: &[u8],
    signature: &SignatureBytes,
    domain: &Domain,
) -> (r: Result<bool, blst::BLST_ERROR>)
    ensures
        r.is_ok() == (bls_pubkey_decodes(pubkey@) && bls_signature_decodes(signature@)),
        r matches Ok(valid) ==> valid == bls_verifies_under(
            scheme@,
            pubkey@,
            message@,
            signature@,
            domain@,
        ),
{
    let key = blst::min_pk::PublicKey::from_bytes(&pubkey.0)?;
    let sig = blst::min_pk::Signature::from_bytes(&signature.0)?;
    Ok(sig.verify(true, message, scheme, &domain.0, &key, true) == blst::BLST_ERROR::BLST_SUCCESS)
}

/// The tag of the signature scheme of the chain.
pub fn scheme_tag() -> (tag: Vec<u8>)
    ensures
        tag@ == spec_scheme_tag(),
{
    let tag = vec![
        0x42u8, 0x4c, 0x53, 0x5f, 0x53, 0x49, 0x47, 0x5f, 0x42, 0x4c, 0x53, 0x31, 0x32, 0x33,
        0x38, 0x31, 0x47, 0x32, 0x5f, 0x58, 0x4d, 0x44, 0x3a, 0x53, 0x48, 0x41, 0x2d, 0x32,
        0x35, 0x36, 0x5f, 0x53, 0x53, 0x57, 0x55, 0x5f, 0x52, 0x4f, 0x5f, 0x50, 0x4f, 0x50,
        0x5f,
    ];
    assert(tag@ =~= spec_scheme_tag());
    tag
}

/// Checks a signature of a key over a message under a domain, in the scheme of the chain.
/// It fails where the key or the signature is not the encoding of one; else it says whether
/// the signature verifies.
pub fn bls_verify(
    pubkey: &PublicKeyBytes,
    message: &[u8],
    signature: &SignatureBytes,
    domain: Domain,
) -> (r: Result<bool, blst::BLST_ERROR>)
    ensures
        r.is_ok() == (bls_pubkey_decodes(pubkey@) && bls_signature_decodes(signature@)),
        r matches Ok(valid) ==> valid == bls_verifies(pubkey@, message@, signature@, domain@),
{
    let tag = scheme_tag();
    bls_verify_under(tag.as_slice(), pubkey, message, signature, &domain)
}

/// Decodes two keys with `blst::min_pk::PublicKey::from_bytes` and adds the second to the
/// first with `blst::min_pk::AggregatePublicKey::add_public_key`. It fails exactly when one
/// of the two does not decode; else it gives the encoding of the sum.
#[verifier::external_body]
pub(crate) fn bls_add_pubkeys(a: &PublicKeyBytes, b: &PublicKeyBytes) -> (r: Result<
    PublicKeyBytes,
    blst::BLST_ERROR,
>)
    ensures
        r.is_ok() == (bls_pubkey_decodes(a@) && bls_pubkey_decodes(b@)),
        r matches Ok(sum) ==> sum@ == bls_pubkey_sum(a@, b@),
{
    let first = blst::min_pk::PublicKey::from_bytes(&a.0)?;
    let second = blst::min_pk::PublicKey::from_bytes(&b.0)?;
    let mut sum = blst::min_pk::AggregatePublicKey::from_public_key(&first);
    sum.add_public_key(&second, false)?;
    Ok(PublicKeyBytes(sum.to_public_key().to_bytes()))
}

/// The Merkle root of `bytes` as a root value.
pub open spec fn spec_merkle_root(bytes: Seq<u8>, min_leaves: nat) -> H256 {
    h256_from(merkle_root_of(bytes, min_leaves))
}

/// The Merkle root of a byte string in a tree of at least `min_leaves` leaves.
pub fn merkle_root(bytes: &[u8], min_leaves: usize) -> (root: H256)
    requires
        min_leaves <= 0x1_0000_0000_0000,
        bytes@.len() <= 0x20_0000_0000_0000,
    ensures
        root == spec_merkle_root(bytes@, min_leaves as nat),
        root@ == merkle_root_of(bytes@, min_leaves as nat),
{
    let root = merkle_root_raw(bytes, min_leaves);
    proof {
        lemma_h256_from(root);
    }
    root
}

/// The root of a list: the node above the root of its items and its length.
pub fn mix_in_length(root: &H256, length: usize) -> (mixed: H256)
    ensures
        mixed == h256_from(mix_in_length_of(root@, length as nat)),
        mixed@ == mix_in_length_of(root@, length as nat),
{
    let mixed = mix_in_length_raw(root, length);
    proof {
        lemma_h256_from(mixed);
    }
    mixed
}

/// The sum of a sequence of public keys, as the encoding of a key: the neutral element
/// for no key, the key itself for one, and else the sum of all but the last and the last.
/// There is none where a key that is to be added, or a sum that is added to, does not
/// decode.
pub open spec fn spec_aggregate_pubkeys(keys: Seq<PublicKeyBytes>) -> Option<Seq<u8>>
    decreases keys.len(),
{
    if keys.len() == 0 {
        Some(PublicKeyBytes::spec_neutral())
    } else if keys.len() == 1 {
        Some(keys[0]@)
    } else {
        match spec_aggregate_pubkeys(keys.drop_last()) {
            Some(sum) => if bls_pubkey_decodes(sum) && bls_pubkey_decodes(keys.last()@) {
                Some(bls_pubkey_sum(sum, keys.last()@))
            } else {
                None
            },
            None => None,
        }
    }
}

/// The sum of the given public keys.
pub fn bls_aggregate_pubkeys(pubkeys: &Vec<PublicKeyBytes>) -> (r: Result<
    PublicKeyBytes,
    crate::error::Error,
>)
    ensures
        match spec_aggregate_pubkeys(pubkeys@) {
            Some(sum) => r is Ok && r->Ok_0@ == sum,
            None => r == Err::<PublicKeyBytes, crate::error::Error>(
                crate::error::Error::InvalidSignatureEncoding,
            ),
        },
{
    if pubkeys.len() == 0 {
        return Ok(PublicKeyBytes::neutral());
    }
    let mut sum = pubkeys[0];
    let mut i: usize = 1;
    assert(pubkeys@.take(1).len() == 1);
    while i < pubkeys.len()
        invariant
            1 <= i <= pubkeys@.len(),
            spec_aggregate_pubkeys(pubkeys@.take(i as int)) == Some(sum@),
        decreases pubkeys@.len() - i,
    {
        proof {
            let next = pubkeys@.take(i as int + 1);
            assert(next.drop_last() =~= pubkeys@.take(i as int));
            assert(next.last() == pubkeys@[i as int]);
        }
        match bls_add_pubkeys(&sum, &pubkeys[i]) {
            Ok(s) => {
                sum = s;
            },
            Err(_) => {
                proof {
                    lemma_aggregate_fails(pubkeys@, i as int + 1);
                }
                return Err(crate::error::Error::InvalidSignatureEncoding);
            },
        }
        i += 1;
    }
    assert(pubkeys@.take(pubkeys@.len() as int) =~= pubkeys@);
    Ok(sum)
}

/// Once the sum of a prefix fails, the sum of every longer prefix fails.
proof fn lemma_aggregate_fails(keys: Seq<PublicKeyBytes>, n: int)
    requires
        0 <= n <= keys.len(),
        spec_aggregate_pubkeys(keys.take(n)) is None,
    ensures
        spec_aggregate_pubkeys(keys) is None,
    decreases keys.len() - n,
{
    if n < keys.len() {
        let next = keys.take(n + 1);
        assert(next.drop_last() =~= keys.take(n));
        assert(next.len() >= 2) by {
            if next.len() < 2 {
                assert(keys.take(n).len() == 0);
            }
        }
        lemma_aggregate_fails(keys, n + 1);
    } else {
        assert(keys.take(n) =~= keys);
    }
}

/// The custody bit of a chunk of data under a key. Custody is not part of the transition:
/// the bit is always clear.
pub fn compute_custody_bit(key: &SignatureBytes, bytes: &Vec<u8>) -> (bit: bool)
    ensures
        !bit,
{
    false
}

} // verus!
