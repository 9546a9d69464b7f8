use beacon_transition::beacon_state::BeaconState;
use beacon_transition::committee::get_beacon_committee;
use beacon_transition::config::{Config, FAR_FUTURE_EPOCH};
use beacon_transition::epoch::process_epoch;
use beacon_transition::final_updates::process_final_updates;
use beacon_transition::justification::process_justification_and_finalization;
use beacon_transition::merkle::hash_tree_root;
use beacon_transition::primitives::{PublicKeyBytes, H256};
use beacon_transition::process_slot::{process_slot, process_slots};
use beacon_transition::registry::{initiate_validator_exit, process_registry_updates};
use beacon_transition::rewards::process_rewards_and_penalties;
use beacon_transition::slashings::process_slashings;
use beacon_transition::types::{
    AttestationData, Checkpoint, Eth1Data, PendingAttestation, Validator,
};

fn active(config: &Config) -> Validator {
    Validator {
        pubkey: PublicKeyBytes([1u8; 48]),
        effective_balance: config.max_effective_balance,
        activation_eligibility_epoch: 0,
        activation_epoch: 0,
        exit_epoch: FAR_FUTURE_EPOCH,
        withdrawable_epoch: FAR_FUTURE_EPOCH,
        ..Validator::default()
    }
}

fn state_with(config: &Config, n: usize) -> BeaconState {
    let mut state = BeaconState::default(config);
    for _ in 0..n {
        state.validators.push(active(config));
        state.balances.push(config.max_effective_balance);
    }
    state
}

fn votes_of_previous_epoch(state: &BeaconState, config: &Config, all: bool) -> Vec<PendingAttestation> {
    let mut list = Vec::new();
    for slot in 8..16u64 {
        for index in 0..2u64 {
            let committee = get_beacon_committee(state, slot, index, config).unwrap();
            let mut bits = vec![all; committee.len()];
            bits[0] = true;
            list.push(PendingAttestation {
                aggregation_bits: bits,
                data: AttestationData {
                    slot,
                    index,
                    beacon_block_root: H256([0u8; 32]),
                    source: Checkpoint { epoch: 0, root: H256([0u8; 32]) },
                    target: Checkpoint { epoch: 1, root: H256([0u8; 32]) },
                },
                inclusion_delay: 1,
                proposer_index: 0,
            });
        }
    }
    list
}

#[test]
fn default_state_is_valid() {
    let config = Config::minimal();
    let state = BeaconState::default(&config);
    assert!(state.is_valid(&config));
    assert_eq!(state.block_roots.len(), 64);
    assert_eq!(state.state_roots.len(), 64);
    assert_eq!(state.randao_mixes.len(), 64);
    assert_eq!(state.slashings.len(), 64);
    assert_eq!(state.exposed_derived_secrets.len(), 4096);
    assert_eq!(state.validators.len(), 0);
    assert_eq!(state.slot, 0);
    let main = BeaconState::default(&Config::mainnet());
    assert_eq!(main.block_roots.len(), 8192);
    assert_eq!(main.randao_mixes.len(), 65536);
    assert!(main.is_valid(&Config::mainnet()));
    assert!(!main.is_valid(&config));
}

#[test]
fn states_with_broken_invariants_are_not_valid() {
    let config = Config::minimal();
    let mut unbalanced = state_with(&config, 2);
    unbalanced.balances.pop();
    assert!(!unbalanced.is_valid(&config));
    let mut disordered = state_with(&config, 2);
    disordered.validators[1].exit_epoch = 3;
    disordered.validators[1].withdrawable_epoch = 2;
    assert!(!disordered.is_valid(&config));
    let mut ahead = state_with(&config, 2);
    ahead.current_justified_checkpoint.epoch = 1;
    assert!(!ahead.is_valid(&config));
    let mut finality = state_with(&config, 2);
    finality.slot = 40;
    finality.finalized_checkpoint.epoch = 2;
    finality.previous_justified_checkpoint.epoch = 1;
    finality.current_justified_checkpoint.epoch = 3;
    assert!(!finality.is_valid(&config));
    finality.previous_justified_checkpoint.epoch = 2;
    assert!(finality.is_valid(&config));
}

#[test]
fn slot_records_the_state_root() {
    let config = Config::minimal();
    let pre = BeaconState::default(&config);
    let mut post = pre.clone();
    process_slots(&mut post, 1, &config);
    assert_eq!(post.slot, 1);
    assert_eq!(post.state_roots[0], hash_tree_root(&pre, &config));
    assert_ne!(post.state_roots[0], H256([0u8; 32]));
    assert_eq!(post.state_roots[1], H256([0u8; 32]));
}

#[test]
fn slot_records_the_root_of_the_latest_header() {
    let config = Config::minimal();
    let mut pre = BeaconState::default(&config);
    pre.slot = 3;
    pre.latest_block_header.state_root = H256([4u8; 32]);
    let mut post = pre.clone();
    process_slots(&mut post, 4, &config);
    assert_eq!(post.slot, 4);
    assert_eq!(post.block_roots[3], hash_tree_root(&pre.latest_block_header, &config));
    assert_eq!(post.latest_block_header, pre.latest_block_header);
    assert_eq!(post.state_roots[3], hash_tree_root(&pre, &config));
}

#[test]
fn slot_closes_an_open_header_with_the_state_root() {
    let config = Config::minimal();
    let mut pre = BeaconState::default(&config);
    pre.slot = 3;
    let mut post = pre.clone();
    process_slot(&mut post, &config);
    assert_eq!(post.slot, 3);
    let mut closed = pre.latest_block_header;
    closed.state_root = hash_tree_root(&pre, &config);
    assert_eq!(post.latest_block_header, closed);
    assert_eq!(post.block_roots[3], hash_tree_root(&closed, &config));
}

#[test]
fn advancing_to_the_own_slot_changes_nothing() {
    let config = Config::minimal();
    let mut state = BeaconState::default(&config);
    state.slot = 5;
    let before = hash_tree_root(&state, &config);
    process_slots(&mut state, 5, &config);
    assert_eq!(hash_tree_root(&state, &config), before);
}

#[test]
fn epoch_is_processed_once_at_its_last_slot() {
    let config = Config::minimal();
    let mut state = state_with(&config, 1);
    state.slot = 7;
    state.randao_mixes[0] = H256([3u8; 32]);
    state.eth1_data_votes.push(Eth1Data {
        deposit_root: H256([1u8; 32]),
        deposit_count: 1,
        block_hash: H256([2u8; 32]),
    });
    state.current_epoch_attestations.push(PendingAttestation {
        aggregation_bits: vec![true],
        data: AttestationData::default(),
        inclusion_delay: 1,
        proposer_index: 0,
    });
    assert!(state.is_valid(&config));
    process_slots(&mut state, 8, &config);
    assert_eq!(state.slot, 8);
    assert_eq!(state.previous_epoch_attestations.len(), 1);
    assert_eq!(state.current_epoch_attestations.len(), 0);
    assert_eq!(state.randao_mixes[1], H256([3u8; 32]));
    assert_eq!(state.eth1_data_votes.len(), 1);
    assert!(state.is_valid(&config));
}

#[test]
fn epoch_is_not_processed_within_an_epoch() {
    let config = Config::minimal();
    let mut state = state_with(&config, 1);
    state.slot = 5;
    state.randao_mixes[0] = H256([3u8; 32]);
    state.current_epoch_attestations.push(PendingAttestation {
        aggregation_bits: vec![true],
        data: AttestationData::default(),
        inclusion_delay: 1,
        proposer_index: 0,
    });
    process_slots(&mut state, 7, &config);
    assert_eq!(state.slot, 7);
    assert_eq!(state.current_epoch_attestations.len(), 1);
    assert_eq!(state.randao_mixes[1], H256([0u8; 32]));
}

#[test]
fn votes_of_the_period_are_dropped_at_its_end() {
    let config = Config::minimal();
    let mut state = state_with(&config, 1);
    state.slot = 15;
    state.eth1_data_votes.push(Eth1Data::default());
    process_final_updates(&mut state, &config);
    assert_eq!(state.eth1_data_votes.len(), 0);
}

#[test]
fn history_is_recorded_at_the_end_of_its_period() {
    let config = Config::minimal();
    let mut state = state_with(&config, 1);
    state.slot = 63;
    process_final_updates(&mut state, &config);
    assert_eq!(state.historical_roots.len(), 1);
    let mut other = state_with(&config, 1);
    other.slot = 55;
    process_final_updates(&mut other, &config);
    assert_eq!(other.historical_roots.len(), 0);
}

#[test]
fn effective_balance_follows_the_balance_with_hysteresis() {
    let config = Config::minimal();
    let mut state = state_with(&config, 4);
    state.slot = 7;
    state.balances[0] = 31_800_000_000;
    state.balances[1] = 31_700_000_000;
    state.validators[2].effective_balance = 30_000_000_000;
    state.balances[2] = 31_250_000_000;
    state.validators[3].effective_balance = 30_000_000_000;
    state.balances[3] = 31_250_000_001;
    state.slashings[1] = 5;
    process_final_updates(&mut state, &config);
    assert_eq!(state.validators[0].effective_balance, 32_000_000_000);
    assert_eq!(state.validators[1].effective_balance, 31_000_000_000);
    assert_eq!(state.validators[2].effective_balance, 30_000_000_000);
    assert_eq!(state.validators[3].effective_balance, 31_000_000_000);
    assert_eq!(state.slashings[1], 0);
}

#[test]
fn previous_epoch_is_justified_by_two_thirds() {
    let config = Config::minimal();
    let mut state = state_with(&config, 64);
    state.slot = 23;
    state.previous_epoch_attestations = votes_of_previous_epoch(&state, &config, true);
    assert!(state.is_valid(&config));
    process_justification_and_finalization(&mut state, &config);
    assert_eq!(state.current_justified_checkpoint, Checkpoint { epoch: 1, root: H256([0u8; 32]) });
    assert_eq!(state.previous_justified_checkpoint, Checkpoint { epoch: 0, root: H256([0u8; 32]) });
    assert_eq!(state.justification_bits, [false, true, false, false]);
    assert_eq!(state.finalized_checkpoint.epoch, 0);
}

#[test]
fn previous_epoch_is_not_justified_by_a_quarter() {
    let config = Config::minimal();
    let mut state = state_with(&config, 64);
    state.slot = 23;
    state.justification_bits = [true, false, true, true];
    state.previous_epoch_attestations = votes_of_previous_epoch(&state, &config, false);
    process_justification_and_finalization(&mut state, &config);
    assert_eq!(state.current_justified_checkpoint.epoch, 0);
    assert_eq!(state.justification_bits, [false, true, false, true]);
}

#[test]
fn justified_epochs_are_finalized() {
    let config = Config::minimal();
    let mut state = state_with(&config, 64);
    state.slot = 23;
    state.justification_bits = [true, false, false, false];
    state.previous_justified_checkpoint = Checkpoint { epoch: 0, root: H256([7u8; 32]) };
    state.current_justified_checkpoint = Checkpoint { epoch: 1, root: H256([8u8; 32]) };
    state.previous_epoch_attestations = votes_of_previous_epoch(&state, &config, true);
    assert!(state.is_valid(&config));
    process_justification_and_finalization(&mut state, &config);
    assert_eq!(state.justification_bits, [false, true, false, false]);
    assert_eq!(state.previous_justified_checkpoint.epoch, 1);
    assert_eq!(state.current_justified_checkpoint.epoch, 1);
    assert_eq!(state.finalized_checkpoint.epoch, 0);
    let mut next = state_with(&config, 64);
    next.slot = 23;
    next.justification_bits = [true, true, false, false];
    next.previous_justified_checkpoint = Checkpoint { epoch: 0, root: H256([7u8; 32]) };
    next.current_justified_checkpoint = Checkpoint { epoch: 0, root: H256([7u8; 32]) };
    next.previous_epoch_attestations = votes_of_previous_epoch(&next, &config, true);
    process_justification_and_finalization(&mut next, &config);
    assert_eq!(next.justification_bits, [false, true, true, false]);
    assert_eq!(next.finalized_checkpoint, Checkpoint { epoch: 0, root: H256([7u8; 32]) });
}

#[test]
fn nothing_is_justified_in_the_first_two_epochs() {
    let config = Config::minimal();
    let mut state = state_with(&config, 64);
    state.slot = 15;
    state.justification_bits = [true, false, false, false];
    process_justification_and_finalization(&mut state, &config);
    assert_eq!(state.justification_bits, [true, false, false, false]);
}

#[test]
fn attesters_and_their_proposer_are_rewarded() {
    let config = Config::minimal();
    let mut state = state_with(&config, 64);
    state.slot = 23;
    state.previous_epoch_attestations = votes_of_previous_epoch(&state, &config, true);
    process_rewards_and_penalties(&mut state, &config);
    assert_eq!(state.balances[1], 32_000_000_000 + 1_386_363);
    assert_eq!(state.balances[63], 32_000_000_000 + 1_386_363);
    assert_eq!(state.balances[0], 32_000_000_000 + 1_386_363 + 2_862_144);
}

#[test]
fn absent_validators_are_penalized() {
    let config = Config::minimal();
    let mut state = state_with(&config, 64);
    state.slot = 23;
    state.previous_epoch_attestations = votes_of_previous_epoch(&state, &config, false);
    let committee = get_beacon_committee(&state, 8, 0, &config).unwrap();
    let present = committee[0] as usize;
    let absent = committee[1] as usize;
    process_rewards_and_penalties(&mut state, &config);
    assert_eq!(state.balances[absent], 32_000_000_000 - 3 * 357_771);
    let own = 3 * 89_442 + 313_050;
    if present == 0 {
        assert_eq!(state.balances[present], 32_000_000_000 + own + 16 * 44_721);
    } else {
        assert_eq!(state.balances[present], 32_000_000_000 + own);
    }
}

#[test]
fn inactivity_is_penalized_while_finality_lags() {
    let config = Config::minimal();
    let mut state = state_with(&config, 64);
    state.slot = 55;
    process_rewards_and_penalties(&mut state, &config);
    let base = 357_771u64;
    let leak = 32_000_000_000u64 * 5 / 33_554_432;
    assert_eq!(state.balances[5], 32_000_000_000 - 3 * base - 4 * base - leak);
}

#[test]
fn no_rewards_in_the_first_epoch() {
    let config = Config::minimal();
    let mut state = state_with(&config, 64);
    state.slot = 7;
    process_rewards_and_penalties(&mut state, &config);
    assert_eq!(state.balances[5], 32_000_000_000);
}

#[test]
fn exits_queue_up_behind_the_churn_limit() {
    let config = Config::minimal();
    let mut state = state_with(&config, 8);
    for i in 0..6 {
        initiate_validator_exit(&mut state, i, &config);
    }
    for i in 0..4 {
        assert_eq!(state.validators[i].exit_epoch, 5);
        assert_eq!(state.validators[i].withdrawable_epoch, 5 + 256);
    }
    assert_eq!(state.validators[4].exit_epoch, 6);
    assert_eq!(state.validators[5].exit_epoch, 6);
    initiate_validator_exit(&mut state, 0, &config);
    assert_eq!(state.validators[0].exit_epoch, 5);
    assert_eq!(state.validators[7].exit_epoch, FAR_FUTURE_EPOCH);
    assert!(state.is_valid(&config));
}

#[test]
fn registry_queues_ejects_and_activates() {
    let config = Config::minimal();
    let mut state = state_with(&config, 10);
    state.slot = 23;
    state.finalized_checkpoint.epoch = 0;
    state.validators[0].activation_eligibility_epoch = FAR_FUTURE_EPOCH;
    state.validators[0].activation_epoch = FAR_FUTURE_EPOCH;
    state.validators[1].effective_balance = config.ejection_balance;
    for i in 2..8 {
        state.validators[i].activation_eligibility_epoch = 0;
        state.validators[i].activation_epoch = FAR_FUTURE_EPOCH;
    }
    state.validators[7].activation_eligibility_epoch = 1;
    state.validators[3].activation_eligibility_epoch = 1;
    state.finalized_checkpoint.epoch = 1;
    state.previous_justified_checkpoint.epoch = 1;
    state.current_justified_checkpoint.epoch = 1;
    assert!(state.is_valid(&config));
    process_registry_updates(&mut state, &config);
    assert_eq!(state.validators[0].activation_eligibility_epoch, 3);
    assert_eq!(state.validators[0].activation_epoch, FAR_FUTURE_EPOCH);
    assert_eq!(state.validators[1].exit_epoch, 7);
    assert_eq!(state.validators[1].withdrawable_epoch, 7 + 256);
    assert_eq!(state.validators[2].activation_epoch, 7);
    assert_eq!(state.validators[4].activation_epoch, 7);
    assert_eq!(state.validators[5].activation_epoch, 7);
    assert_eq!(state.validators[6].activation_epoch, 7);
    assert_eq!(state.validators[3].activation_epoch, FAR_FUTURE_EPOCH);
    assert_eq!(state.validators[7].activation_epoch, FAR_FUTURE_EPOCH);
    assert_eq!(state.validators[8].exit_epoch, FAR_FUTURE_EPOCH);
    assert!(state.is_valid(&config));
}

#[test]
fn slashed_validators_pay_when_their_penalty_is_due() {
    let config = Config::minimal();
    let mut state = state_with(&config, 4);
    state.slot = 8;
    state.validators[1].slashed = true;
    state.validators[1].exit_epoch = 6;
    state.validators[1].withdrawable_epoch = 1 + 32;
    state.validators[2].slashed = true;
    state.validators[2].exit_epoch = 6;
    state.validators[2].withdrawable_epoch = 2 + 32;
    state.slashings[0] = 32_000_000_000;
    process_slashings(&mut state, &config);
    assert_eq!(state.balances[0], 32_000_000_000);
    assert_eq!(state.balances[2], 32_000_000_000);
    assert_eq!(state.balances[1], 32_000_000_000 - 24_000_000_000);
}

#[test]
fn whole_epoch_keeps_the_state_valid() {
    let config = Config::minimal();
    let mut state = state_with(&config, 64);
    state.slot = 23;
    state.previous_epoch_attestations = votes_of_previous_epoch(&state, &config, true);
    assert!(state.is_valid(&config));
    process_epoch(&mut state, &config);
    assert_eq!(state.slot, 23);
    assert_eq!(state.current_justified_checkpoint.epoch, 1);
    assert_eq!(state.previous_epoch_attestations.len(), 0);
    assert_eq!(state.balances.len(), state.validators.len());
    state.slot = 24;
    assert!(state.is_valid(&config));
}

#[test]
fn slots_pass_over_several_epochs() {
    let config = Config::minimal();
    let mut state = state_with(&config, 16);
    process_slots(&mut state, 70, &config);
    assert_eq!(state.slot, 70);
    assert!(state.is_valid(&config));
    assert_eq!(state.historical_roots.len(), 1);
    assert_eq!(state.validators.len(), 16);
    assert_eq!(state.balances.len(), 16);
    assert!(state.balances[0] < 32_000_000_000);
}
