use beacon_transition::beacon_state::BeaconState;
use beacon_transition::config::Config;
use beacon_transition::error::Error;
use beacon_transition::predicates::{
    is_active_validator, is_slashable_attestation_data, is_slashable_validator,
    is_valid_indexed_attestation, slashing_offence,
};
use beacon_transition::primitives::H256;
use beacon_transition::types::{AttestationData, Checkpoint, IndexedAttestation, Validator};

#[test]
fn test_is_slashable_validator() {
    let v = Validator {
        slashed: false,
        activation_epoch: 0,
        withdrawable_epoch: 1,
        ..Validator::default()
    };
    assert_eq!(is_slashable_validator(&v, 0), true);
}

#[test]
fn test_is_slashable_validator_already_slashed() {
    let v = Validator {
        slashed: true,
        activation_epoch: 0,
        withdrawable_epoch: 1,
        ..Validator::default()
    };
    assert_eq!(is_slashable_validator(&v, 0), false);
}

#[test]
fn test_is_slashable_validator_activation_epoch_greater_than_epoch() {
    let v = Validator {
        slashed: false,
        activation_epoch: 1,
        withdrawable_epoch: 2,
        ..Validator::default()
    };
    assert_eq!(is_slashable_validator(&v, 0), false);
}

#[test]
fn test_is_slashable_validator_withdrawable_epoch_equals_epoch() {
    let v = Validator {
        slashed: false,
        activation_epoch: 0,
        withdrawable_epoch: 1,
        ..Validator::default()
    };
    assert_eq!(is_slashable_validator(&v, 1), false);
}

#[test]
fn test_is_active_validator() {
    let v = Validator {
        activation_epoch: 0,
        exit_epoch: 1,
        ..Validator::default()
    };
    assert_eq!(is_active_validator(&v, 0), true);
}

#[test]
fn test_is_active_validator_activation_epoch_greater_than_epoch() {
    let v = Validator {
        activation_epoch: 1,
        exit_epoch: 2,
        ..Validator::default()
    };
    assert_eq!(is_active_validator(&v, 0), false);
}

#[test]
fn test_is_active_validator_exit_epoch_equals_epoch() {
    let v = Validator {
        activation_epoch: 0,
        exit_epoch: 1,
        ..Validator::default()
    };
    assert_eq!(is_active_validator(&v, 1), false);
}

#[test]
fn test_is_slashable_attestation_data_double_vote_false() {
    let attestation_data_1 = AttestationData {
        target: Checkpoint {
            epoch: 1,
            root: H256::from([0; 32]),
        },
        ..AttestationData::default()
    };
    let attestation_data_2 = AttestationData {
        target: Checkpoint {
            epoch: 1,
            root: H256::from([0; 32]),
        },
        ..AttestationData::default()
    };
    assert_eq!(
        is_slashable_attestation_data(&attestation_data_1, &attestation_data_2),
        false
    );
}

#[test]
fn test_is_slashable_attestation_data_double_vote_true() {
    let attestation_data_1 = AttestationData {
        target: Checkpoint {
            epoch: 1,
            root: H256::from([0; 32]),
        },
        ..AttestationData::default()
    };
    let attestation_data_2 = AttestationData {
        target: Checkpoint {
            epoch: 1,
            root: H256::from([1; 32]),
        },
        ..AttestationData::default()
    };
    assert_eq!(
        is_slashable_attestation_data(&attestation_data_1, &attestation_data_2),
        true
    );
}

#[test]
fn test_is_slashable_attestation_data_surround_vote_true() {
    let attestation_data_1 = AttestationData {
        source: Checkpoint {
            epoch: 0,
            root: H256::from([0; 32]),
        },
        target: Checkpoint {
            epoch: 3,
            root: H256::from([0; 32]),
        },
        ..AttestationData::default()
    };
    let attestation_data_2 = AttestationData {
        source: Checkpoint {
            epoch: 1,
            root: H256::from([1; 32]),
        },
        target: Checkpoint {
            epoch: 2,
            root: H256::from([0; 32]),
        },
        ..AttestationData::default()
    };
    assert_eq!(
        is_slashable_attestation_data(&attestation_data_1, &attestation_data_2),
        true
    );
}

#[test]
fn test_is_valid_indexed_attestation_max_indices_exceeded() {
    let config = Config::mainnet();
    let state = BeaconState::default(&config);
    let bit_0_indices: Vec<u64> = (0u64..4096u64).collect();
    let bit_1_indices: Vec<u64> = vec![1];
    let attestation = IndexedAttestation {
        custody_bit_0_indices: bit_0_indices,
        custody_bit_1_indices: bit_1_indices,
        ..IndexedAttestation::default()
    };
    assert_eq!(
        is_valid_indexed_attestation(&state, &attestation, &config),
        Err(Error::MaxIndicesExceeded)
    );
}

#[test]
fn test_is_valid_indexed_attestation_custody_bit_validators_intersect() {
    let config = Config::mainnet();
    let state = BeaconState::default(&config);
    let bit_0_indices: Vec<u64> = (0u64..64u64).collect();
    let bit_1_indices: Vec<u64> = vec![1u64];
    let attestation = IndexedAttestation {
        custody_bit_0_indices: bit_0_indices,
        custody_bit_1_indices: bit_1_indices,
        ..IndexedAttestation::default()
    };
    assert_eq!(
        is_valid_indexed_attestation(&state, &attestation, &config),
        Err(Error::CustodyBitValidatorsIntersect)
    );
}

#[test]
fn test_is_valid_indexed_attestation_bad_validator_indices_ordering() {
    let config = Config::mainnet();
    let state = BeaconState::default(&config);
    let bit_0_indices: Vec<u64> = (0u64..64u64).collect();
    let bit_1_indices: Vec<u64> = vec![66u64, 65u64];
    let attestation = IndexedAttestation {
        custody_bit_0_indices: bit_0_indices,
        custody_bit_1_indices: bit_1_indices,
        ..IndexedAttestation::default()
    };
    assert_eq!(
        is_valid_indexed_attestation(&state, &attestation, &config),
        Err(Error::BadValidatorIndicesOrdering)
    );
}

#[test]
fn offences_are_named() {
    let base = AttestationData {
        source: Checkpoint { epoch: 1, root: H256::from([0; 32]) },
        target: Checkpoint { epoch: 4, root: H256::from([0; 32]) },
        ..AttestationData::default()
    };
    let mut double = base;
    double.beacon_block_root = H256::from([1; 32]);
    let mut inner = base;
    inner.source.epoch = 2;
    inner.target.epoch = 3;
    let mut later = base;
    later.target.epoch = 5;
    assert_eq!(slashing_offence(&base, &base), None);
    assert_eq!(slashing_offence(&base, &double), Some(Error::DoubleVote));
    assert_eq!(slashing_offence(&base, &inner), Some(Error::SurroundVote));
    assert_eq!(slashing_offence(&inner, &base), None);
    assert_eq!(slashing_offence(&base, &later), None);
    assert!(!is_slashable_attestation_data(&inner, &base));
}

#[test]
fn test_is_valid_indexed_attestation_empty() {
    let config = Config::mainnet();
    let state = BeaconState::default(&config);
    let attestation = IndexedAttestation::default();
    assert_eq!(
        is_valid_indexed_attestation(&state, &attestation, &config),
        Err(Error::EmptyIndices)
    );
}

#[test]
fn test_is_valid_indexed_attestation_at_the_limit_is_not_exceeded() {
    let config = Config::mainnet();
    let state = BeaconState::default(&config);
    let attestation = IndexedAttestation {
        custody_bit_0_indices: (0u64..4095u64).collect(),
        custody_bit_1_indices: vec![5000],
        ..IndexedAttestation::default()
    };
    assert_eq!(
        is_valid_indexed_attestation(&state, &attestation, &config),
        Err(Error::UnknownValidator)
    );
}
