use beacon_transition::config::Config;
use beacon_transition::crypto::{
    bls_aggregate_pubkeys, bls_verify, compute_custody_bit, hash, merkle_root, mix_in_length,
};
use beacon_transition::error::Error;
use beacon_transition::merkle::{
    hash_bit_list, hash_byte_list, hash_list, hash_tree_root, hash_u64_list, hash_u64_vector,
    hash_vector, pack_bits,
};
use beacon_transition::primitives::{xor, PublicKeyBytes, SignatureBytes, H256};
use beacon_transition::types::{Checkpoint, Validator};

const DST: &[u8] = b"BLS_SIG_BLS12381G2_XMD:SHA-256_SSWU_RO_POP_";

fn secret(i: u8) -> blst::min_pk::SecretKey {
    blst::min_pk::SecretKey::key_gen(&[i + 1; 32], &[]).unwrap()
}

fn public(i: u8) -> PublicKeyBytes {
    PublicKeyBytes(secret(i).sk_to_pk().to_bytes())
}

fn chunk(bytes: &[u8]) -> Vec<u8> {
    let mut out = bytes.to_vec();
    out.resize(32, 0);
    out
}

fn pair(left: &[u8], right: &[u8]) -> Vec<u8> {
    let mut both = left.to_vec();
    both.extend_from_slice(right);
    hash(&both)
}

#[test]
fn hash_is_sha256() {
    let expected: [u8; 32] = [
        0xba, 0x78, 0x16, 0xbf, 0x8f, 0x01, 0xcf, 0xea, 0x41, 0x41, 0x40, 0xde, 0x5d, 0xae,
        0x22, 0x23, 0xb0, 0x03, 0x61, 0xa3, 0x96, 0x17, 0x7a, 0x9c, 0xb4, 0x10, 0xff, 0x61,
        0xf2, 0x00, 0x15, 0xad,
    ];
    assert_eq!(hash(b"abc"), expected.to_vec());
}

#[test]
fn hash_of_nothing_is_32_bytes() {
    let digest = hash(&[]);
    assert_eq!(digest.len(), 32);
    assert_eq!(digest[0], 0xe3);
    assert_eq!(digest[31], 0x55);
}

#[test]
fn merkle_root_of_one_leaf_is_the_padded_leaf() {
    let root = merkle_root(&[7u8, 8u8], 0);
    assert_eq!(root.0.to_vec(), chunk(&[7, 8]));
}

#[test]
fn merkle_root_of_two_leaves_is_their_hash() {
    let mut bytes = vec![1u8; 32];
    bytes.extend_from_slice(&[2u8; 32]);
    let root = merkle_root(&bytes, 0);
    assert_eq!(root.0.to_vec(), pair(&[1u8; 32], &[2u8; 32]));
}

#[test]
fn merkle_root_fills_up_with_zero_leaves() {
    let root = merkle_root(&[1u8; 32], 4);
    let left = pair(&[1u8; 32], &[0u8; 32]);
    let right = pair(&[0u8; 32], &[0u8; 32]);
    assert_eq!(root.0.to_vec(), pair(&left, &right));
}

#[test]
fn mix_in_length_hashes_root_and_length() {
    let mixed = mix_in_length(&H256([9u8; 32]), 3);
    assert_eq!(mixed.0.to_vec(), pair(&[9u8; 32], &chunk(&[3])));
}

#[test]
fn root_of_a_number_is_its_bytes() {
    let config = Config::minimal();
    let root = hash_tree_root(&0x0102u64, &config);
    assert_eq!(root.0.to_vec(), chunk(&[2, 1]));
}

#[test]
fn root_of_a_checkpoint() {
    let config = Config::minimal();
    let checkpoint = Checkpoint { epoch: 1, root: H256([2u8; 32]) };
    let root = hash_tree_root(&checkpoint, &config);
    assert_eq!(root.0.to_vec(), pair(&chunk(&[1]), &[2u8; 32]));
}

#[test]
fn root_of_a_public_key() {
    let config = Config::minimal();
    let key = PublicKeyBytes([5u8; 48]);
    let root = hash_tree_root(&key, &config);
    assert_eq!(root.0.to_vec(), pair(&[5u8; 32], &chunk(&[5u8; 16])));
}

#[test]
fn root_of_a_validator() {
    let config = Config::minimal();
    let v = Validator {
        pubkey: PublicKeyBytes([5u8; 48]),
        withdrawal_credentials: H256([6u8; 32]),
        effective_balance: 7,
        slashed: true,
        activation_eligibility_epoch: 8,
        activation_epoch: 9,
        exit_epoch: 10,
        withdrawable_epoch: 11,
    };
    let key = pair(&[5u8; 32], &chunk(&[5u8; 16]));
    let a = pair(&pair(&key, &[6u8; 32]), &pair(&chunk(&[7]), &chunk(&[1])));
    let b = pair(&pair(&chunk(&[8]), &chunk(&[9])), &pair(&chunk(&[10]), &chunk(&[11])));
    assert_eq!(hash_tree_root(&v, &config).0.to_vec(), pair(&a, &b));
}

#[test]
fn root_of_a_list_of_numbers() {
    let root = hash_u64_list(&vec![1, 2], 4);
    let mut packed = vec![0u8; 32];
    packed[0] = 1;
    packed[8] = 2;
    assert_eq!(root.0.to_vec(), pair(&packed, &chunk(&[2])));
}

#[test]
fn root_of_a_list_of_numbers_under_a_large_limit() {
    let root = hash_u64_list(&vec![1], 8);
    let inner = pair(&chunk(&[1]), &[0u8; 32]);
    assert_eq!(root.0.to_vec(), pair(&inner, &chunk(&[1])));
}

#[test]
fn root_of_a_vector_of_numbers() {
    let root = hash_u64_vector(&vec![1, 2, 3, 4, 5]);
    let mut first = vec![0u8; 32];
    first[0] = 1;
    first[8] = 2;
    first[16] = 3;
    first[24] = 4;
    assert_eq!(root.0.to_vec(), pair(&first, &chunk(&[5])));
}

#[test]
fn root_of_a_list_of_bytes() {
    let root = hash_byte_list(&vec![1, 2, 3], 32);
    assert_eq!(root.0.to_vec(), pair(&chunk(&[1, 2, 3]), &chunk(&[3])));
}

#[test]
fn root_of_a_list_of_bits() {
    let root = hash_bit_list(&vec![true, false, true], 8);
    assert_eq!(root.0.to_vec(), pair(&chunk(&[5]), &chunk(&[3])));
}

#[test]
fn bits_are_packed_lowest_first() {
    let bits = vec![true, false, false, false, false, false, false, true, true];
    assert_eq!(pack_bits(&bits), vec![0x81, 0x01]);
    assert_eq!(pack_bits(&vec![]), Vec::<u8>::new());
}

#[test]
fn root_of_a_list_of_roots() {
    let config = Config::minimal();
    let items = vec![H256([1u8; 32]), H256([2u8; 32])];
    let root = hash_list(&items, 2, &config);
    assert_eq!(root.0.to_vec(), pair(&pair(&[1u8; 32], &[2u8; 32]), &chunk(&[2])));
    let vector = hash_vector(&items, &config);
    assert_eq!(vector.0.to_vec(), pair(&[1u8; 32], &[2u8; 32]));
}

#[test]
fn xor_is_bytewise() {
    let mixed = xor(&H256([0x0f; 32]), &H256([0x35; 32]));
    assert_eq!(mixed, H256([0x3a; 32]));
}

#[test]
fn custody_bit_is_clear() {
    assert_eq!(compute_custody_bit(&SignatureBytes([1u8; 96]), &vec![1, 2, 3]), false);
}

#[test]
fn bls_verify_accepts_a_signature() {
    let domain = H256([3u8; 32]);
    let message = [4u8; 32];
    let signature = SignatureBytes(secret(0).sign(&message, DST, &domain.0).to_bytes());
    assert_eq!(bls_verify(&public(0), &message, &signature, domain), Ok(true));
}

#[test]
fn bls_verify_rejects_another_message_key_or_domain() {
    let domain = H256([3u8; 32]);
    let message = [4u8; 32];
    let signature = SignatureBytes(secret(0).sign(&message, DST, &domain.0).to_bytes());
    assert_eq!(bls_verify(&public(0), &[5u8; 32], &signature, domain), Ok(false));
    assert_eq!(bls_verify(&public(1), &message, &signature, domain), Ok(false));
    assert_eq!(bls_verify(&public(0), &message, &signature, H256([9u8; 32])), Ok(false));
}

#[test]
fn bls_verify_fails_on_bad_encodings() {
    let domain = H256([3u8; 32]);
    let message = [4u8; 32];
    let signature = SignatureBytes(secret(0).sign(&message, DST, &domain.0).to_bytes());
    assert!(bls_verify(&PublicKeyBytes([1u8; 48]), &message, &signature, domain).is_err());
    assert!(bls_verify(&public(0), &message, &SignatureBytes([1u8; 96]), domain).is_err());
}

#[test]
fn aggregate_of_no_key_is_the_neutral_element() {
    let sum = bls_aggregate_pubkeys(&vec![]).unwrap();
    let mut expected = [0u8; 48];
    expected[0] = 0xc0;
    assert_eq!(sum, PublicKeyBytes(expected));
}

#[test]
fn aggregate_of_one_key_is_the_key() {
    assert_eq!(bls_aggregate_pubkeys(&vec![public(3)]), Ok(public(3)));
}

#[test]
fn aggregate_of_keys_is_their_sum() {
    let a = secret(0).sk_to_pk();
    let b = secret(1).sk_to_pk();
    let c = secret(2).sk_to_pk();
    let expected = blst::min_pk::AggregatePublicKey::aggregate(&[&a, &b, &c], false)
        .unwrap()
        .to_public_key()
        .to_bytes();
    let sum = bls_aggregate_pubkeys(&vec![public(0), public(1), public(2)]).unwrap();
    assert_eq!(sum, PublicKeyBytes(expected));
    assert_ne!(sum, public(0));
}

#[test]
fn aggregate_fails_on_a_bad_key() {
    assert_eq!(
        bls_aggregate_pubkeys(&vec![public(0), PublicKeyBytes([1u8; 48])]),
        Err(Error::InvalidSignatureEncoding)
    );
}

#[test]
fn aggregate_signature_verifies_against_aggregate_key() {
    let domain = H256([3u8; 32]);
    let message = [4u8; 32];
    let first = secret(0).sign(&message, DST, &domain.0);
    let second = secret(1).sign(&message, DST, &domain.0);
    let both = blst::min_pk::AggregateSignature::aggregate(&[&first, &second], true)
        .unwrap()
        .to_signature();
    let key = bls_aggregate_pubkeys(&vec![public(0), public(1)]).unwrap();
    assert_eq!(bls_verify(&key, &message, &SignatureBytes(both.to_bytes()), domain), Ok(true));
    assert_eq!(
        bls_verify(&public(0), &message, &SignatureBytes(both.to_bytes()), domain),
        Ok(false)
    );
}
