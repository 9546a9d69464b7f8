use beacon_transition::beacon_state::BeaconState;
use beacon_transition::bits::{
    bitlist_append, bitlist_parse, justification_append, justification_parse,
};
use beacon_transition::codec::{ssz_decode, ssz_encode};
use beacon_transition::config::{Config, FAR_FUTURE_EPOCH};
use beacon_transition::merkle::hash_tree_root;
use beacon_transition::primitives::{PublicKeyBytes, SignatureBytes, H256};
use beacon_transition::sequences::{
    bytes_parse, items_append, list_parse, var_items_append, var_list_parse, var_vector_parse,
    vector_parse,
};
use beacon_transition::types::{
    Attestation, AttestationData, AttesterSlashing, BeaconBlock, BeaconBlockBody,
    BeaconBlockHeader, Checkpoint, CompactCommittee, Deposit, DepositData, Eth1Data, Fork,
    IndexedAttestation, PendingAttestation, ProposerSlashing, ShardState,
    SignedBeaconBlock, SignedBeaconBlockHeader, SignedVoluntaryExit, Validator, VoluntaryExit,
};

fn data(seed: u8) -> AttestationData {
    AttestationData {
        slot: seed as u64,
        index: 2,
        beacon_block_root: H256([seed; 32]),
        source: Checkpoint { epoch: 3, root: H256([4u8; 32]) },
        target: Checkpoint { epoch: 5, root: H256([6u8; 32]) },
    }
}

fn indexed(seed: u8) -> IndexedAttestation {
    IndexedAttestation {
        custody_bit_0_indices: vec![1, 2, seed as u64],
        custody_bit_1_indices: vec![7],
        data: data(seed),
        signature: SignatureBytes([seed; 96]),
    }
}

fn attestation(seed: u8, bits: usize) -> Attestation {
    Attestation {
        aggregation_bits: (0..bits).map(|i| i % 3 == 0).collect(),
        data: data(seed),
        signature: SignatureBytes([seed; 96]),
    }
}

fn header(seed: u8) -> SignedBeaconBlockHeader {
    SignedBeaconBlockHeader {
        message: BeaconBlockHeader {
            slot: 1,
            proposer_index: 2,
            parent_root: H256([seed; 32]),
            state_root: H256([4u8; 32]),
            body_root: H256([5u8; 32]),
        },
        signature: SignatureBytes([seed; 96]),
    }
}

fn deposit(seed: u8) -> Deposit {
    Deposit {
        proof: (0..33).map(|i| H256([i as u8; 32])).collect(),
        data: DepositData {
            pubkey: PublicKeyBytes([seed; 48]),
            withdrawal_credentials: H256([2u8; 32]),
            amount: 32_000_000_000,
            signature: SignatureBytes([3u8; 96]),
        },
    }
}

fn block() -> SignedBeaconBlock {
    SignedBeaconBlock {
        message: BeaconBlock {
            slot: 9,
            proposer_index: 3,
            parent_root: H256([1u8; 32]),
            state_root: H256([2u8; 32]),
            body: BeaconBlockBody {
                randao_reveal: SignatureBytes([3u8; 96]),
                eth1_data: Eth1Data {
                    deposit_root: H256([4u8; 32]),
                    deposit_count: 5,
                    block_hash: H256([6u8; 32]),
                },
                graffiti: H256([7u8; 32]),
                proposer_slashings: vec![ProposerSlashing {
                    signed_header_1: header(1),
                    signed_header_2: header(2),
                }],
                attester_slashings: vec![AttesterSlashing {
                    attestation_1: indexed(1),
                    attestation_2: indexed(2),
                }],
                attestations: vec![attestation(1, 4), attestation(2, 0), attestation(3, 17)],
                deposits: vec![deposit(1), deposit(2)],
                voluntary_exits: vec![SignedVoluntaryExit {
                    message: VoluntaryExit { epoch: 1, validator_index: 2 },
                    signature: SignatureBytes([8u8; 96]),
                }],
            },
        },
        signature: SignatureBytes([9u8; 96]),
    }
}

#[test]
fn numbers_are_encoded_lowest_byte_first() {
    assert_eq!(ssz_encode(&0x0102_0304u64), vec![4, 3, 2, 1, 0, 0, 0, 0]);
    let config = Config::minimal();
    assert_eq!(ssz_decode::<u64>(&[4, 3, 2, 1, 0, 0, 0, 0], &config), Some(0x0102_0304));
    assert_eq!(ssz_decode::<u64>(&[4, 3, 2, 1, 0, 0, 0], &config), None);
    assert_eq!(ssz_encode(&true), vec![1]);
    assert_eq!(ssz_decode::<bool>(&[0], &config), Some(false));
    assert_eq!(ssz_decode::<bool>(&[2], &config), None);
}

#[test]
fn checkpoint_is_its_fields_one_after_the_other() {
    let config = Config::minimal();
    let checkpoint = Checkpoint { epoch: 1, root: H256([2u8; 32]) };
    let mut expected = vec![1u8, 0, 0, 0, 0, 0, 0, 0];
    expected.extend_from_slice(&[2u8; 32]);
    assert_eq!(ssz_encode(&checkpoint), expected);
    assert_eq!(ssz_decode::<Checkpoint>(&expected, &config), Some(checkpoint));
    assert_eq!(ssz_decode::<Checkpoint>(&expected[1..], &config), None);
}

#[test]
fn validator_round_trip() {
    let config = Config::minimal();
    let v = Validator {
        pubkey: PublicKeyBytes([5u8; 48]),
        withdrawal_credentials: H256([6u8; 32]),
        effective_balance: 7,
        slashed: true,
        activation_eligibility_epoch: 8,
        activation_epoch: 9,
        exit_epoch: FAR_FUTURE_EPOCH,
        withdrawable_epoch: FAR_FUTURE_EPOCH,
    };
    let bytes = ssz_encode(&v);
    assert_eq!(bytes.len(), 121);
    assert_eq!(bytes[88], 1);
    assert_eq!(bytes[113], 0xff);
    let back = ssz_decode::<Validator>(&bytes, &config).unwrap();
    assert_eq!(hash_tree_root(&back, &config), hash_tree_root(&v, &config));
    assert_eq!(ssz_encode(&back), bytes);
    let mut bad = bytes.clone();
    bad[88] = 2;
    assert!(ssz_decode::<Validator>(&bad, &config).is_none());
}

#[test]
fn fixed_containers_round_trip() {
    let config = Config::minimal();
    let fork = Fork { previous_version: [1, 2, 3, 4], current_version: [5, 6, 7, 8], epoch: 9 };
    let bytes = ssz_encode(&fork);
    assert_eq!(bytes, vec![1, 2, 3, 4, 5, 6, 7, 8, 9, 0, 0, 0, 0, 0, 0, 0]);
    let back = ssz_decode::<Fork>(&bytes, &config).unwrap();
    assert_eq!(back.current_version, [5, 6, 7, 8]);
    assert_eq!(back.epoch, 9);
    let d = data(9);
    assert_eq!(ssz_encode(&d).len(), 128);
    assert_eq!(ssz_decode::<AttestationData>(&ssz_encode(&d), &config), Some(d));
    let h = header(3);
    assert_eq!(ssz_encode(&h).len(), 208);
    let back = ssz_decode::<SignedBeaconBlockHeader>(&ssz_encode(&h), &config).unwrap();
    assert_eq!(back.message, h.message);
    assert_eq!(back.signature, h.signature);
    let shard = ShardState {
        slot: 1,
        gasprice: 2,
        data: H256([3u8; 32]),
        latest_block_root: H256([4u8; 32]),
    };
    let back = ssz_decode::<ShardState>(&ssz_encode(&shard), &config).unwrap();
    assert_eq!(hash_tree_root(&back, &config), hash_tree_root(&shard, &config));
}

#[test]
fn bit_lists_end_with_a_set_bit() {
    let mut bytes = Vec::new();
    bitlist_append(&vec![true, false, true], &mut bytes);
    assert_eq!(bytes, vec![0b1101]);
    assert_eq!(bitlist_parse(&bytes, 8), Some(vec![true, false, true]));
    assert_eq!(bitlist_parse(&bytes, 2), None);
    let mut empty = Vec::new();
    bitlist_append(&vec![], &mut empty);
    assert_eq!(empty, vec![1]);
    assert_eq!(bitlist_parse(&empty, 8), Some(vec![]));
    let mut eight = Vec::new();
    bitlist_append(&vec![true; 8], &mut eight);
    assert_eq!(eight, vec![0xff, 1]);
    assert_eq!(bitlist_parse(&eight, 8), Some(vec![true; 8]));
    assert_eq!(bitlist_parse(&[0xff, 0], 8), None);
    assert_eq!(bitlist_parse(&[], 8), None);
}

#[test]
fn justification_bits_are_one_byte() {
    let mut bytes = Vec::new();
    justification_append(&[true, false, true, true], &mut bytes);
    assert_eq!(bytes, vec![0b1101]);
    assert_eq!(justification_parse(&bytes), Some([true, false, true, true]));
    assert_eq!(justification_parse(&[16]), None);
    assert_eq!(justification_parse(&[1, 0]), None);
}

#[test]
fn lists_of_fixed_items_are_the_items() {
    let config = Config::minimal();
    let mut bytes = Vec::new();
    items_append::<u64>(&vec![1, 2], &mut bytes);
    assert_eq!(bytes, vec![1, 0, 0, 0, 0, 0, 0, 0, 2, 0, 0, 0, 0, 0, 0, 0]);
    assert_eq!(list_parse::<u64>(&bytes, 2, &config), Some(vec![1, 2]));
    assert_eq!(list_parse::<u64>(&bytes, 1, &config), None);
    assert_eq!(list_parse::<u64>(&bytes[1..], 2, &config), None);
    assert_eq!(list_parse::<u64>(&[], 2, &config), Some(vec![]));
    assert_eq!(vector_parse::<u64>(&bytes, 2, &config), Some(vec![1, 2]));
    assert_eq!(vector_parse::<u64>(&bytes, 3, &config), None);
    assert_eq!(bytes_parse(&[1, 2, 3], 3), Some(vec![1, 2, 3]));
    assert_eq!(bytes_parse(&[1, 2, 3], 2), None);
}

#[test]
fn lists_of_varying_items_begin_with_their_places() {
    let config = Config::minimal();
    let items: Vec<Vec<u64>> = vec![vec![1], vec![], vec![2, 3]];
    let mut bytes = Vec::new();
    var_items_append::<Vec<u64>>(&items, &mut bytes);
    let mut expected = vec![12u8, 0, 0, 0, 20, 0, 0, 0, 20, 0, 0, 0];
    for x in [1u64, 2, 3] {
        expected.extend_from_slice(&x.to_le_bytes());
    }
    assert_eq!(bytes, expected);
    assert_eq!(var_list_parse::<Vec<u64>>(&bytes, 3, &config), Some(items.clone()));
    assert_eq!(var_list_parse::<Vec<u64>>(&bytes, 2, &config), None);
    assert_eq!(var_vector_parse::<Vec<u64>>(&bytes, 3, &config), Some(items));
    assert_eq!(var_vector_parse::<Vec<u64>>(&bytes, 4, &config), None);
    assert_eq!(var_list_parse::<Vec<u64>>(&[], 3, &config), Some(vec![]));
    let mut disordered = expected.clone();
    disordered[4] = 24;
    assert_eq!(var_list_parse::<Vec<u64>>(&disordered, 3, &config), None);
    let mut past = expected.clone();
    past[8] = 40;
    assert_eq!(var_list_parse::<Vec<u64>>(&past, 3, &config), None);
    let mut odd = expected.clone();
    odd[0] = 13;
    assert_eq!(var_list_parse::<Vec<u64>>(&odd, 3, &config), None);
}

#[test]
fn attestation_puts_its_bits_after_its_fixed_parts() {
    let config = Config::minimal();
    let a = Attestation {
        aggregation_bits: vec![true, false, true],
        data: AttestationData::default(),
        signature: SignatureBytes([0u8; 96]),
    };
    let bytes = ssz_encode(&a);
    let mut expected = vec![228u8, 0, 0, 0];
    expected.extend_from_slice(&[0u8; 224]);
    expected.push(0b1101);
    assert_eq!(bytes, expected);
    let back = ssz_decode::<Attestation>(&bytes, &config).unwrap();
    assert_eq!(back.aggregation_bits, a.aggregation_bits);
    assert_eq!(back.data, a.data);
    let mut shifted = bytes.clone();
    shifted[0] = 229;
    assert!(ssz_decode::<Attestation>(&shifted, &config).is_none());
    assert!(ssz_decode::<Attestation>(&bytes[0..228], &config).is_none());
    let mut unmarked = bytes.clone();
    unmarked[228] = 0;
    assert!(ssz_decode::<Attestation>(&unmarked, &config).is_none());
}

#[test]
fn indexed_attestation_round_trip() {
    let config = Config::minimal();
    let a = indexed(9);
    let bytes = ssz_encode(&a);
    assert_eq!(bytes.len(), 232 + 24 + 8);
    assert_eq!(&bytes[0..8], &[232, 0, 0, 0, 0, 1, 0, 0]);
    let back = ssz_decode::<IndexedAttestation>(&bytes, &config).unwrap();
    assert_eq!(back.custody_bit_0_indices, vec![1, 2, 9]);
    assert_eq!(back.custody_bit_1_indices, vec![7]);
    assert_eq!(back.data, a.data);
    assert_eq!(back.signature, a.signature);
}

#[test]
fn pending_attestation_and_committee_round_trip() {
    let config = Config::minimal();
    let p = PendingAttestation {
        aggregation_bits: vec![false, true, true, false, true, false, false, false, true],
        data: data(4),
        inclusion_delay: 3,
        proposer_index: 11,
    };
    let back = ssz_decode::<PendingAttestation>(&ssz_encode(&p), &config).unwrap();
    assert_eq!(back.aggregation_bits, p.aggregation_bits);
    assert_eq!(back.inclusion_delay, 3);
    assert_eq!(back.proposer_index, 11);
    assert_eq!(hash_tree_root(&back, &config), hash_tree_root(&p, &config));
    let k = CompactCommittee {
        pubkeys: vec![PublicKeyBytes([1u8; 48]), PublicKeyBytes([2u8; 48])],
        compact_validators: vec![5, 6, 7],
    };
    let back = ssz_decode::<CompactCommittee>(&ssz_encode(&k), &config).unwrap();
    assert_eq!(back.pubkeys, k.pubkeys);
    assert_eq!(back.compact_validators, k.compact_validators);
}

#[test]
fn deposit_has_no_part_of_varying_length() {
    let config = Config::minimal();
    let d = deposit(4);
    let bytes = ssz_encode(&d);
    assert_eq!(bytes.len(), 33 * 32 + 184);
    let back = ssz_decode::<Deposit>(&bytes, &config).unwrap();
    assert_eq!(back.proof, d.proof);
    assert_eq!(hash_tree_root(&back, &config), hash_tree_root(&d, &config));
    assert!(ssz_decode::<Deposit>(&bytes[32..], &config).is_none());
}

#[test]
fn block_round_trip() {
    let config = Config::minimal();
    let signed = block();
    let bytes = ssz_encode(&signed);
    assert_eq!(&bytes[0..4], &[100, 0, 0, 0]);
    let back = ssz_decode::<SignedBeaconBlock>(&bytes, &config).unwrap();
    assert_eq!(back.signature, signed.signature);
    assert_eq!(back.message.slot, 9);
    assert_eq!(back.message.body.attestations.len(), 3);
    assert_eq!(back.message.body.attestations[2].aggregation_bits.len(), 17);
    assert_eq!(back.message.body.deposits.len(), 2);
    assert_eq!(
        hash_tree_root(&back.message, &config),
        hash_tree_root(&signed.message, &config)
    );
    assert_eq!(ssz_encode(&back), bytes);
}

#[test]
fn block_over_its_limits_does_not_decode() {
    let config = Config::minimal();
    let mut signed = block();
    signed.message.body.attester_slashings.push(AttesterSlashing {
        attestation_1: indexed(3),
        attestation_2: indexed(4),
    });
    assert!(ssz_decode::<SignedBeaconBlock>(&ssz_encode(&signed), &config).is_none());
}

#[test]
fn state_round_trip() {
    let config = Config::minimal();
    let mut state = BeaconState::default(&config);
    state.slot = 77;
    state.genesis_time = 5;
    for i in 0..5u8 {
        state.validators.push(Validator {
            pubkey: PublicKeyBytes([i; 48]),
            effective_balance: 32_000_000_000,
            exit_epoch: FAR_FUTURE_EPOCH,
            withdrawable_epoch: FAR_FUTURE_EPOCH,
            ..Validator::default()
        });
        state.balances.push(31_000_000_000 + i as u64);
    }
    state.block_roots[3] = H256([3u8; 32]);
    state.randao_mixes[9] = H256([9u8; 32]);
    state.slashings[2] = 17;
    state.historical_roots.push(H256([1u8; 32]));
    state.eth1_data_votes.push(Eth1Data::default());
    state.justification_bits = [true, false, false, true];
    state.previous_epoch_attestations.push(PendingAttestation {
        aggregation_bits: vec![true, true, false],
        data: data(1),
        inclusion_delay: 1,
        proposer_index: 2,
    });
    state.current_epoch_attestations.push(PendingAttestation {
        aggregation_bits: vec![],
        data: data(2),
        inclusion_delay: 2,
        proposer_index: 3,
    });
    state.online_countdown = vec![1, 2, 3];
    state.exposed_derived_secrets[5] = vec![1, 2];
    state.current_light_committee.compact_validators.push(4);
    let bytes = ssz_encode(&state);
    let back = ssz_decode::<BeaconState>(&bytes, &config).unwrap();
    assert_eq!(back.slot, 77);
    assert_eq!(back.validators.len(), 5);
    assert_eq!(back.balances, state.balances);
    assert_eq!(back.justification_bits, state.justification_bits);
    assert_eq!(back.exposed_derived_secrets, state.exposed_derived_secrets);
    assert_eq!(back.online_countdown, state.online_countdown);
    assert_eq!(hash_tree_root(&back, &config), hash_tree_root(&state, &config));
    assert_eq!(ssz_encode(&back), bytes);
    assert!(ssz_decode::<BeaconState>(&bytes, &Config::mainnet()).is_none());
    assert!(ssz_decode::<BeaconState>(&bytes[1..], &config).is_none());
}
