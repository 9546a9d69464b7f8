use beacon_transition::bits::bitlist_append;
use beacon_transition::codec::ssz_encode;
use beacon_transition::config::Config;
use beacon_transition::merkle::{
    hash_bit_list, hash_byte_list, hash_list, hash_tree_root, hash_u64_list, hash_u64_vector,
    hash_vector,
};
use beacon_transition::primitives::{PublicKeyBytes, SignatureBytes, H256};
use beacon_transition::sequences::{items_append, var_items_append};
use ssz::Encode;
use ssz_types::{BitList, FixedVector, VariableList};
use tree_hash::TreeHash;
use typenum::{U1024, U16, U2048, U4, U5, U8};

fn bit_list(bits: &[bool]) -> BitList<U2048> {
    let mut list = BitList::with_capacity(bits.len()).unwrap();
    for (i, bit) in bits.iter().enumerate() {
        list.set(i, *bit).unwrap();
    }
    list
}

#[test]
fn roots_of_numbers_and_bytes_agree() {
    let config = Config::minimal();
    assert_eq!(hash_tree_root(&0x0102_0304_0506u64, &config).0, 0x0102_0304_0506u64.tree_hash_root().0);
    assert_eq!(hash_tree_root(&H256([7u8; 32]), &config).0, [7u8; 32].tree_hash_root().0);
    assert_eq!(
        hash_tree_root(&PublicKeyBytes([5u8; 48]), &config).0,
        [5u8; 48].tree_hash_root().0
    );
    assert_eq!(
        hash_tree_root(&SignatureBytes([6u8; 96]), &config).0,
        [6u8; 96].tree_hash_root().0
    );
}

#[test]
fn roots_of_lists_of_numbers_agree() {
    for items in [vec![], vec![1u64], vec![1, 2, 3], vec![1, 2, 3, 4, 5, 6, 7, 8]] {
        let list: VariableList<u64, U8> = VariableList::new(items.clone()).unwrap();
        assert_eq!(hash_u64_list(&items, 8).0, list.tree_hash_root().0);
        let large: VariableList<u64, U1024> = VariableList::new(items.clone()).unwrap();
        assert_eq!(hash_u64_list(&items, 1024).0, large.tree_hash_root().0);
    }
    let five: FixedVector<u64, U5> = FixedVector::new(vec![1, 2, 3, 4, 5]).unwrap();
    assert_eq!(hash_u64_vector(&vec![1, 2, 3, 4, 5]).0, five.tree_hash_root().0);
}

#[test]
fn roots_of_lists_of_bytes_agree() {
    let items = vec![1u8, 2, 3, 4, 5];
    let list: VariableList<u8, U1024> = VariableList::new(items.clone()).unwrap();
    assert_eq!(hash_byte_list(&items, 1024).0, list.tree_hash_root().0);
}

#[test]
fn roots_of_lists_of_roots_agree() {
    let config = Config::minimal();
    let items = vec![H256([1u8; 32]), H256([2u8; 32]), H256([3u8; 32])];
    let outside: Vec<tree_hash::Hash256> =
        items.iter().map(|h| tree_hash::Hash256::from(h.0)).collect();
    let list: VariableList<tree_hash::Hash256, U16> = VariableList::new(outside.clone()).unwrap();
    assert_eq!(hash_list(&items, 16, &config).0, list.tree_hash_root().0);
    let four = vec![items[0], items[1], items[2], items[0]];
    let vector: FixedVector<tree_hash::Hash256, U4> =
        FixedVector::new(four.iter().map(|h| tree_hash::Hash256::from(h.0)).collect()).unwrap();
    assert_eq!(hash_vector(&four, &config).0, vector.tree_hash_root().0);
}

#[test]
fn roots_of_bit_lists_agree() {
    for n in [0usize, 1, 7, 8, 9, 255, 256, 257, 600] {
        let bits: Vec<bool> = (0..n).map(|i| i % 3 == 0 || i % 7 == 2).collect();
        assert_eq!(hash_bit_list(&bits, 2048).0, bit_list(&bits).tree_hash_root().0);
    }
}

#[test]
fn encodings_of_bit_lists_agree() {
    for n in [0usize, 1, 7, 8, 9, 15, 16, 17, 300] {
        let bits: Vec<bool> = (0..n).map(|i| i % 3 == 0 || i % 7 == 2).collect();
        let mut bytes = Vec::new();
        bitlist_append(&bits, &mut bytes);
        assert_eq!(bytes, bit_list(&bits).as_ssz_bytes());
    }
}

#[test]
fn encodings_of_lists_agree() {
    let items = vec![1u64, 2, 0xffff_ffff_ffff_ffff];
    let list: VariableList<u64, U8> = VariableList::new(items.clone()).unwrap();
    let mut bytes = Vec::new();
    items_append::<u64>(&items, &mut bytes);
    assert_eq!(bytes, list.as_ssz_bytes());
    assert_eq!(ssz_encode(&7u64), 7u64.as_ssz_bytes());
    assert_eq!(ssz_encode(&true), true.as_ssz_bytes());
}

#[test]
fn encodings_of_lists_of_lists_agree() {
    let items: Vec<Vec<u64>> = vec![vec![1, 2], vec![], vec![3], vec![4, 5, 6]];
    let inner: Vec<VariableList<u64, U8>> =
        items.iter().map(|l| VariableList::new(l.clone()).unwrap()).collect();
    let list: VariableList<VariableList<u64, U8>, U16> = VariableList::new(inner).unwrap();
    let mut bytes = Vec::new();
    var_items_append::<Vec<u64>>(&items, &mut bytes);
    assert_eq!(bytes, list.as_ssz_bytes());
    let none: VariableList<VariableList<u64, U8>, U16> = VariableList::new(vec![]).unwrap();
    let mut empty = Vec::new();
    var_items_append::<Vec<u64>>(&vec![], &mut empty);
    assert_eq!(empty, none.as_ssz_bytes());
}
