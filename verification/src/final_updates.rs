//! The last step of an epoch's processing.

use vstd::prelude::*;
use crate::accessors::{get_current_epoch, spec_current_epoch};
use crate::beacon_state::{sizes_ok, wf_core, BeaconState, BeaconStateView};
use crate::config::Config;
use crate::merkle::{container_root, finish, hash_vector, put_root, roots_concat, TreeHash};
use crate::primitives::{h256_from, lemma_h256_from, H256};
use crate::types::Validator;

verus! {

/// The effective balance that follows a balance: it moves only when the balance has left
/// it by more than the hysteresis allows, and then to the balance rounded down to whole
/// increments, and at most to the largest effective balance.
pub open spec fn spec_effective_balance(balance: u64, effective: u64, config: Config) -> u64 {
    let step = config.effective_balance_increment / config.hysteresis_quotient;
    let down = step * config.hysteresis_downward_multiplier;
    let up = step * config.hysteresis_upward_multiplier;
    if balance + down < effective || effective + up < balance {
        let rounded = balance - balance % config.effective_balance_increment;
        if rounded < config.max_effective_balance {
            rounded as u64
        } else {
            config.max_effective_balance
        }
    } else {
        effective
    }
}

/// The root of the block roots and the state roots of one period of history.
pub open spec fn spec_historical_batch_root(s: BeaconStateView, config: Config) -> Seq<u8> {
    container_root(
        Seq::<u8>::empty() + container_root(roots_concat(s.block_roots, config)) + container_root(
            roots_concat(s.state_roots, config),
        ),
    )
}

/// The number of epochs that one period of history covers.
pub open spec fn spec_epochs_per_history(config: Config) -> u64 {
    config.slots_per_historical_root / config.slots_per_epoch
}

/// The last step of an epoch: the votes on the deposit contract are dropped at the end of
/// their period; every effective balance follows its balance; the record of slashed stake
/// and the randomness are made ready for the next epoch; at the end of a period of history
/// its root is added to the historical roots, while they have room; and the attestations
/// of the current epoch become those of the previous one.
pub open spec fn spec_final_updates(s: BeaconStateView, config: Config) -> BeaconStateView {
    let current = spec_current_epoch(s, config);
    let next = current + 1;
    BeaconStateView {
        eth1_data_votes: if (s.slot + 1) % (config.slots_per_eth1_voting_period as int) == 0 {
            Seq::empty()
        } else {
            s.eth1_data_votes
        },
        validators: Seq::new(
            s.validators.len(),
            |i: int|
                Validator {
                    effective_balance: spec_effective_balance(
                        s.balances[i],
                        s.validators[i].effective_balance,
                        config,
                    ),
                    ..s.validators[i]
                },
        ),
        slashings: s.slashings.update(next % (config.epochs_per_slashings_vector as int), 0),
        randao_mixes: s.randao_mixes.update(
            next % (config.epochs_per_historical_vector as int),
            s.randao_mixes[(current % config.epochs_per_historical_vector) as int],
        ),
        historical_roots: if next % (spec_epochs_per_history(config) as int) == 0
            && s.historical_roots.len() < config.historical_roots_limit {
            s.historical_roots.push(h256_from(spec_historical_batch_root(s, config)))
        } else {
            s.historical_roots
        },
        previous_epoch_attestations: s.current_epoch_attestations,
        current_epoch_attestations: Seq::empty(),
        ..s
    }
}

/// The final updates leave a valid state valid.
pub proof fn lemma_final_updates_keep_wf(s: BeaconStateView, config: Config)
    requires
        config.wf(),
        wf_core(s, config),
    ensures
        wf_core(spec_final_updates(s, config), config),
        spec_final_updates(s, config).slot == s.slot,
        spec_final_updates(s, config).validators.len() == s.validators.len(),
        spec_final_updates(s, config).latest_block_header == s.latest_block_header,
        spec_final_updates(s, config).block_roots == s.block_roots,
        spec_final_updates(s, config).state_roots == s.state_roots,
{
    let after = spec_final_updates(s, config);
    assert forall|k: int| 0 <= k < after.validators.len() implies (
    #[trigger] after.validators[k]).lifecycle_ordered() by {
        assert(s.validators[k].lifecycle_ordered());
    }
}

fn effective_balance(balance: u64, effective: u64, config: &Config) -> (r: u64)
    requires
        config.wf(),
    ensures
        r == spec_effective_balance(balance, effective, *config),
{
    let step = (config.effective_balance_increment / config.hysteresis_quotient) as u128;
    let down_by = config.hysteresis_downward_multiplier as u128;
    let up_by = config.hysteresis_upward_multiplier as u128;
    assert(step * down_by <= 0x1_0000_0000_0000 * 0x10_0000) by (nonlinear_arith)
        requires
            0 <= step <= 0x1_0000_0000_0000,
            0 <= down_by <= 0x10_0000,
    ;
    assert(step * up_by <= 0x1_0000_0000_0000 * 0x10_0000) by (nonlinear_arith)
        requires
            0 <= step <= 0x1_0000_0000_0000,
            0 <= up_by <= 0x10_0000,
    ;
    let down = step * down_by;
    let up = step * up_by;
    if (balance as u128) + down < effective as u128 || (effective as u128) + up
        < balance as u128 {
        let increment = config.effective_balance_increment;
        assert(balance % increment <= balance) by (nonlinear_arith)
            requires
                increment > 0,
                balance >= 0,
        ;
        let rounded = balance - balance % increment;
        if rounded < config.max_effective_balance {
            rounded
        } else {
            config.max_effective_balance
        }
    } else {
        effective
    }
}

/// The last step of an epoch's processing.
pub fn process_final_updates(state: &mut BeaconState, config: &Config)
    requires
        config.wf(),
        sizes_ok(old(state)@, *config),
        old(state).slot < u64::MAX,
    ensures
        final(state)@ == spec_final_updates(old(state)@, *config),
{
    let ghost s = state@;
    let current = get_current_epoch(state, config);
    assert(current < u64::MAX) by (nonlinear_arith)
        requires
            current == state.slot / config.slots_per_epoch,
            state.slot < u64::MAX,
            config.slots_per_epoch >= 1,
    ;
    let next = current + 1;
    let per_history = config.slots_per_historical_root / config.slots_per_epoch;
    assert(per_history >= 1) by (nonlinear_arith)
        requires
            per_history == config.slots_per_historical_root / config.slots_per_epoch,
            config.slots_per_historical_root % config.slots_per_epoch == 0,
            config.slots_per_historical_root > 0,
            config.slots_per_epoch > 0,
    ;
    let batch_due = next % per_history == 0 && (state.historical_roots.len() as u64)
        < config.historical_roots_limit;
    let mut batch = H256::zero();
    if batch_due {
        let mut buf: Vec<u8> = Vec::new();
        let r = hash_vector(&state.block_roots, config);
        put_root(&mut buf, &r);
        let r = hash_vector(&state.state_roots, config);
        put_root(&mut buf, &r);
        batch = finish(&buf);
        proof {
            lemma_h256_from(batch);
        }
    }
    if (state.slot + 1) % config.slots_per_eth1_voting_period == 0 {
        state.eth1_data_votes.clear();
    }
    let n = state.validators.len();
    let mut i: usize = 0;
    while i < n
        invariant
            config.wf(),
            n == s.validators.len(),
            s.balances.len() == n,
            i <= n,
            state@ == (BeaconStateView {
                validators: state@.validators,
                eth1_data_votes: state@.eth1_data_votes,
                ..s
            }),
            state@.eth1_data_votes == spec_final_updates(s, *config).eth1_data_votes,
            state@.validators.len() == n,
            forall|k: int|
                0 <= k < i ==> state@.validators[k] == spec_final_updates(s, *config).validators[k],
            forall|k: int| i <= k < n ==> state@.validators[k] == s.validators[k],
        decreases n - i,
    {
        let mut v = state.validators[i];
        v.effective_balance = effective_balance(state.balances[i], v.effective_balance, config);
        state.validators.set(i, v);
        i += 1;
    }
    assert(state@.validators =~= spec_final_updates(s, *config).validators);
    state.slashings.set((next % config.epochs_per_slashings_vector) as usize, 0);
    let mix = state.randao_mixes[(current % config.epochs_per_historical_vector) as usize];
    state.randao_mixes.set((next % config.epochs_per_historical_vector) as usize, mix);
    if batch_due {
        state.historical_roots.push(batch);
    }
    state.previous_epoch_attestations.clear();
    state.previous_epoch_attestations.append(&mut state.current_epoch_attestations);
    proof {
        let ghost want = spec_final_updates(s, *config);
        assert(state@.previous_epoch_attestations =~= want.previous_epoch_attestations);
        assert(state@.current_epoch_attestations =~= want.current_epoch_attestations);
    }
}

} // verus!
