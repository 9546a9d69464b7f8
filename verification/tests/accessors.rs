use beacon_transition::accessors::{
    compute_domain, compute_epoch_at_slot, compute_signing_root, compute_start_slot_at_epoch,
    get_active_validator_indices, get_current_epoch, get_domain, get_previous_epoch,
    get_randao_mix, get_seed,
};
use beacon_transition::attesters::{
    block_root_at_slot, block_root_of_epoch, get_block_root, get_block_root_at_slot,
    get_total_active_balance,
};
use beacon_transition::beacon_state::{BeaconState, Error};
use beacon_transition::committee::{get_beacon_committee, get_committee_count_at_slot};
use beacon_transition::config::{Config, FAR_FUTURE_EPOCH};
use beacon_transition::crypto::hash;
use beacon_transition::math::integer_squareroot;
use beacon_transition::merkle::hash_tree_root;
use beacon_transition::primitives::{PublicKeyBytes, H256};
use beacon_transition::proposer::{compute_proposer_index, get_beacon_proposer_index};
use beacon_transition::registry::{compute_activation_exit_epoch, get_validator_churn_limit};
use beacon_transition::shuffling::compute_shuffled_index;
use beacon_transition::types::{Checkpoint, Fork, ForkData, SigningData, Validator};

fn active(config: &Config) -> Validator {
    Validator {
        pubkey: PublicKeyBytes([1u8; 48]),
        effective_balance: config.max_effective_balance,
        activation_eligibility_epoch: 0,
        activation_epoch: 0,
        exit_epoch: FAR_FUTURE_EPOCH,
        withdrawable_epoch: FAR_FUTURE_EPOCH,
        ..Validator::default()
    }
}

fn state_with(config: &Config, n: usize) -> BeaconState {
    let mut state = BeaconState::default(config);
    for _ in 0..n {
        state.validators.push(active(config));
        state.balances.push(config.max_effective_balance);
    }
    state
}

#[test]
fn epochs_of_slots() {
    let config = Config::mainnet();
    assert_eq!(compute_epoch_at_slot(0, &config), 0);
    assert_eq!(compute_epoch_at_slot(31, &config), 0);
    assert_eq!(compute_epoch_at_slot(32, &config), 1);
    assert_eq!(compute_epoch_at_slot(65, &config), 2);
    assert_eq!(compute_start_slot_at_epoch(3, &config), 96);
    assert_eq!(compute_start_slot_at_epoch(u64::MAX, &config), u64::MAX);
}

#[test]
fn current_and_previous_epoch() {
    let config = Config::minimal();
    let mut state = BeaconState::default(&config);
    assert_eq!(get_current_epoch(&state, &config), 0);
    assert_eq!(get_previous_epoch(&state, &config), 0);
    state.slot = 17;
    assert_eq!(get_current_epoch(&state, &config), 2);
    assert_eq!(get_previous_epoch(&state, &config), 1);
}

#[test]
fn active_indices_are_ascending_and_active() {
    let config = Config::minimal();
    let mut state = state_with(&config, 5);
    state.validators[1].exit_epoch = 3;
    state.validators[3].activation_epoch = 4;
    assert_eq!(get_active_validator_indices(&state, 0), vec![0, 1, 2, 4]);
    assert_eq!(get_active_validator_indices(&state, 3), vec![0, 2, 4]);
    assert_eq!(get_active_validator_indices(&state, 4), vec![0, 2, 3, 4]);
}

#[test]
fn randao_mix_goes_round_the_vector() {
    let config = Config::minimal();
    let mut state = BeaconState::default(&config);
    state.randao_mixes[3] = H256([7u8; 32]);
    assert_eq!(get_randao_mix(&state, 3, &config), H256([7u8; 32]));
    assert_eq!(get_randao_mix(&state, 67, &config), H256([7u8; 32]));
    assert_eq!(get_randao_mix(&state, 4, &config), H256([0u8; 32]));
}

#[test]
fn seed_is_digest_of_purpose_epoch_and_mix() {
    let config = Config::minimal();
    let mut state = BeaconState::default(&config);
    state.randao_mixes[3] = H256([7u8; 32]);
    let mut input = vec![2u8, 0, 0, 0];
    input.extend_from_slice(&5u64.to_le_bytes());
    input.extend_from_slice(&[7u8; 32]);
    assert_eq!(get_seed(&state, 5, 2, &config), hash(&input));
}

#[test]
fn domain_is_purpose_and_fork_data_root() {
    let config = Config::minimal();
    let version = [1u8, 2, 3, 4];
    let chain = H256([9u8; 32]);
    let data = ForkData { current_version: version, genesis_validators_root: chain };
    let root = hash_tree_root(&data, &config);
    let mut expected = vec![4u8, 0, 0, 0];
    expected.extend_from_slice(&root.0[0..28]);
    assert_eq!(compute_domain(4, version, chain, &config).0.to_vec(), expected);
}

#[test]
fn domain_of_an_epoch_follows_the_fork() {
    let config = Config::minimal();
    let mut state = BeaconState::default(&config);
    state.fork = Fork { previous_version: [1, 1, 1, 1], current_version: [2, 2, 2, 2], epoch: 5 };
    state.genesis_validators_root = H256([9u8; 32]);
    state.slot = 48;
    let chain = state.genesis_validators_root;
    assert_eq!(
        get_domain(&state, 1, Some(4), &config),
        compute_domain(1, [1, 1, 1, 1], chain, &config)
    );
    assert_eq!(
        get_domain(&state, 1, Some(5), &config),
        compute_domain(1, [2, 2, 2, 2], chain, &config)
    );
    assert_eq!(
        get_domain(&state, 1, None, &config),
        compute_domain(1, [2, 2, 2, 2], chain, &config)
    );
}

#[test]
fn signing_root_is_root_of_object_root_and_domain() {
    let config = Config::minimal();
    let checkpoint = Checkpoint { epoch: 1, root: H256([2u8; 32]) };
    let domain = H256([3u8; 32]);
    let data = SigningData { object_root: hash_tree_root(&checkpoint, &config), domain };
    assert_eq!(
        compute_signing_root(&checkpoint, domain, &config),
        hash_tree_root(&data, &config)
    );
    assert_ne!(compute_signing_root(&checkpoint, domain, &config), domain);
}

#[test]
fn block_roots_go_round_the_vector() {
    let config = Config::minimal();
    let mut state = BeaconState::default(&config);
    state.block_roots[8] = H256([5u8; 32]);
    assert_eq!(block_root_at_slot(&state, 8, &config), H256([5u8; 32]));
    assert_eq!(block_root_at_slot(&state, 72, &config), H256([5u8; 32]));
    assert_eq!(block_root_of_epoch(&state, 1, &config), H256([5u8; 32]));
}

#[test]
fn block_roots_are_kept_for_a_while() {
    let config = Config::minimal();
    let mut state = BeaconState::default(&config);
    state.block_roots[8] = H256([5u8; 32]);
    state.slot = 8;
    assert_eq!(get_block_root_at_slot(&state, 8, &config), Err(Error::SlotOutOfBounds));
    state.slot = 9;
    assert_eq!(get_block_root_at_slot(&state, 8, &config), Ok(H256([5u8; 32])));
    assert_eq!(get_block_root(&state, 1, &config), Ok(H256([5u8; 32])));
    assert_eq!(get_block_root(&state, 2, &config), Err(Error::SlotOutOfBounds));
    state.slot = 72;
    assert_eq!(get_block_root_at_slot(&state, 8, &config), Ok(H256([5u8; 32])));
    state.slot = 73;
    assert_eq!(get_block_root_at_slot(&state, 8, &config), Err(Error::SlotOutOfBounds));
}

#[test]
fn integer_square_roots() {
    assert_eq!(integer_squareroot(0), 0);
    assert_eq!(integer_squareroot(1), 1);
    assert_eq!(integer_squareroot(3), 1);
    assert_eq!(integer_squareroot(4), 2);
    assert_eq!(integer_squareroot(17), 4);
    assert_eq!(integer_squareroot(1 << 32), 1 << 16);
    assert_eq!(integer_squareroot(u64::MAX), 0xffff_ffff);
}

#[test]
fn shuffle_is_a_permutation() {
    let config = Config::minimal();
    let seed = [7u8; 32];
    let mut seen = vec![false; 25];
    let mut moved = false;
    for i in 0..25u64 {
        let at = compute_shuffled_index(i, 25, &seed, &config);
        assert!(at < 25);
        assert!(!seen[at as usize]);
        seen[at as usize] = true;
        if at != i {
            moved = true;
        }
    }
    assert!(moved);
}

#[test]
fn shuffle_of_one_index_is_that_index() {
    let config = Config::mainnet();
    assert_eq!(compute_shuffled_index(0, 1, &[7u8; 32], &config), 0);
}

#[test]
fn shuffle_depends_on_the_seed() {
    let config = Config::mainnet();
    let first: Vec<u64> =
        (0..50).map(|i| compute_shuffled_index(i, 50, &[1u8; 32], &config)).collect();
    let second: Vec<u64> =
        (0..50).map(|i| compute_shuffled_index(i, 50, &[2u8; 32], &config)).collect();
    assert_ne!(first, second);
}

#[test]
fn total_active_balance_is_sum_or_one_increment() {
    let config = Config::minimal();
    let empty = BeaconState::default(&config);
    assert_eq!(get_total_active_balance(&empty, &config), config.effective_balance_increment);
    let mut state = state_with(&config, 3);
    state.validators[2].exit_epoch = 0;
    assert_eq!(get_total_active_balance(&state, &config), 64_000_000_000);
}

#[test]
fn churn_limit_and_activation_exit_epoch() {
    let config = Config::minimal();
    let state = state_with(&config, 3);
    assert_eq!(get_validator_churn_limit(&state, &config), 4);
    assert_eq!(compute_activation_exit_epoch(5, &config), 10);
    assert_eq!(compute_activation_exit_epoch(u64::MAX - 1, &config), u64::MAX);
}

#[test]
fn committees_split_the_active_validators() {
    let config = Config::minimal();
    let state = state_with(&config, 64);
    assert_eq!(get_committee_count_at_slot(&state, 0, &config), 2);
    let mut seen = vec![false; 64];
    for slot in 0..8u64 {
        for index in 0..2u64 {
            let committee = get_beacon_committee(&state, slot, index, &config).unwrap();
            assert_eq!(committee.len(), 4);
            for member in committee {
                assert!(!seen[member as usize]);
                seen[member as usize] = true;
            }
        }
    }
    assert!(seen.iter().all(|s| *s));
    assert_eq!(get_beacon_committee(&state, 0, 2, &config), Err(Error::NoCommitteeForSlot));
}

#[test]
fn proposer_is_an_active_validator() {
    let config = Config::minimal();
    let mut state = state_with(&config, 8);
    state.validators[0].exit_epoch = 0;
    let proposer = get_beacon_proposer_index(&state, &config).unwrap();
    assert!(proposer >= 1 && proposer < 8);
    state.slot = 1;
    let next = get_beacon_proposer_index(&state, &config).unwrap();
    assert!(next >= 1 && next < 8);
}

#[test]
fn nobody_proposes_in_an_empty_registry() {
    let config = Config::minimal();
    let state = BeaconState::default(&config);
    assert_eq!(get_beacon_proposer_index(&state, &config), Err(Error::UnableToDetermineProducer));
}

#[test]
fn proposer_sampling_skips_small_balances() {
    let config = Config::minimal();
    let mut state = state_with(&config, 4);
    for i in 0..4 {
        state.validators[i].effective_balance = 0;
    }
    state.validators[2].effective_balance = config.max_effective_balance;
    let indices = vec![0, 1, 2, 3];
    let seed = [5u8; 32];
    let found = compute_proposer_index(&state, &indices, &seed, &config);
    let zero = hash(&[&seed[..], &0u64.to_le_bytes()[..]].concat());
    if zero[0] == 0 {
        assert!(found.is_ok());
    } else {
        assert_eq!(found, Ok(2));
    }
}

#[test]
fn shuffle_gives_the_known_permutation() {
    let minimal = Config::minimal();
    let mainnet = Config::mainnet();
    let seed = [7u8; 32];
    let ten: Vec<u64> = (0..10).map(|i| compute_shuffled_index(i, 10, &seed, &minimal)).collect();
    assert_eq!(ten, vec![9, 8, 6, 3, 7, 4, 5, 1, 0, 2]);
    let ninety: Vec<u64> =
        (0..10).map(|i| compute_shuffled_index(i, 10, &seed, &mainnet)).collect();
    assert_eq!(ninety, vec![5, 6, 8, 1, 7, 3, 4, 2, 9, 0]);
    let counting: Vec<u8> = (0..32).collect();
    assert_eq!(compute_shuffled_index(123, 1000, &counting, &mainnet), 357);
}

#[test]
fn proposer_sampling_gives_the_known_proposers() {
    let config = Config::minimal();
    let mut state = state_with(&config, 8);
    let all: Vec<u64> = (0..8).collect();
    assert_eq!(compute_proposer_index(&state, &all, &[5u8; 32], &config), Ok(2));
    for i in 0..4 {
        state.validators[2 * i].effective_balance = 16_000_000_000;
    }
    assert_eq!(compute_proposer_index(&state, &all, &[9u8; 32], &config), Ok(1));
    for i in 0..8 {
        state.validators[i].effective_balance = 1_000_000_000;
    }
    assert_eq!(compute_proposer_index(&state, &vec![3, 5, 6], &[1u8; 32], &config), Ok(3));
    assert_eq!(
        compute_proposer_index(&state, &vec![], &[1u8; 32], &config),
        Err(Error::UnableToDetermineProducer)
    );
}

#[test]
fn profiles_are_valid() {
    assert!(Config::mainnet().is_valid());
    assert!(Config::minimal().is_valid());
    let mut broken = Config::minimal();
    broken.slots_per_epoch = 0;
    assert!(!broken.is_valid());
    let mut uneven = Config::minimal();
    uneven.slots_per_historical_root = 60;
    assert!(!uneven.is_valid());
}
