//! Changes of balances, and the slashing of a validator.

use vstd::prelude::*;
use crate::accessors::{get_current_epoch, spec_current_epoch};
use crate::beacon_state::{block_frame, sizes_ok, wf_core, BeaconState, BeaconStateView};
use crate::block_processing::{outcome_is, Error};
use crate::config::Config;
use crate::math::{sat_add, sat_sub};
use crate::proposer::{get_beacon_proposer_index, spec_beacon_proposer_index};
use crate::registry::{
    initiate_validator_exit, lemma_exit_epoch_later, spec_initiate_validator_exit,
};
use crate::types::Validator;

verus! {

/// A balance grows, up to what 64 bits hold.
pub open spec fn spec_increase_balance(
    s: BeaconStateView,
    index: int,
    delta: u64,
) -> BeaconStateView {
    BeaconStateView { balances: s.balances.update(index, sat_add(s.balances[index], delta)), ..s }
}

/// A balance shrinks, down to zero.
pub open spec fn spec_decrease_balance(
    s: BeaconStateView,
    index: int,
    delta: u64,
) -> BeaconStateView {
    BeaconStateView { balances: s.balances.update(index, sat_sub(s.balances[index], delta)), ..s }
}

/// Adds to a balance, up to what 64 bits hold.
pub fn increase_balance(state: &mut BeaconState, index: usize, delta: u64)
    requires
        index < old(state)@.balances.len(),
    ensures
        final(state)@ == spec_increase_balance(old(state)@, index as int, delta),
{
    let balance = state.balances[index].saturating_add(delta);
    state.balances.set(index, balance);
}

/// Takes off a balance, down to zero.
pub fn decrease_balance(state: &mut BeaconState, index: usize, delta: u64)
    requires
        index < old(state)@.balances.len(),
    ensures
        final(state)@ == spec_decrease_balance(old(state)@, index as int, delta),
{
    let balance = state.balances[index].saturating_sub(delta);
    state.balances.set(index, balance);
}

/// A validator as it is marked when it is slashed: it cannot withdraw before the record
/// of slashed stake has gone once round.
pub open spec fn spec_marked(v: Validator, epoch: u64, config: Config) -> Validator {
    let until = sat_add(epoch, config.epochs_per_slashings_vector);
    Validator {
        slashed: true,
        withdrawable_epoch: if v.withdrawable_epoch > until {
            v.withdrawable_epoch
        } else {
            until
        },
        ..v
    }
}

/// The state after a validator has been marked as slashed and has paid the first part of
/// its penalty: it begins to leave, its effective balance is added to the record of
/// slashed stake, and a fraction of it is taken off its balance.
pub open spec fn spec_slash_penalized(
    s: BeaconStateView,
    slashed: int,
    config: Config,
) -> BeaconStateView {
    let epoch = spec_current_epoch(s, config);
    let exiting = spec_initiate_validator_exit(s, slashed, config);
    let marked = spec_marked(exiting.validators[slashed], epoch, config);
    let at = (epoch % config.epochs_per_slashings_vector) as int;
    let recorded = BeaconStateView {
        validators: exiting.validators.update(slashed, marked),
        slashings: exiting.slashings.update(
            at,
            sat_add(exiting.slashings[at], marked.effective_balance),
        ),
        ..exiting
    };
    spec_decrease_balance(
        recorded,
        slashed,
        marked.effective_balance / config.min_slashing_penalty_quotient,
    )
}

/// A validator is slashed: it is marked and penalized as above, and the proposer of the
/// slot, who also stands for the whistleblower, is rewarded with a fraction of the slashed
/// validator's effective balance.
pub open spec fn spec_slash_validator(s: BeaconStateView, slashed: int, config: Config) -> Result<
    BeaconStateView,
    Error,
> {
    let penalized = spec_slash_penalized(s, slashed, config);
    match spec_beacon_proposer_index(penalized, config) {
        None => Err(Error::UnableToDetermineProducer),
        Some(proposer) => {
            let reward = penalized.validators[slashed].effective_balance
                / config.whistleblower_reward_quotient;
            let proposer_reward = reward / config.proposer_reward_quotient;
            Ok(
                spec_increase_balance(
                    spec_increase_balance(penalized, proposer as int, proposer_reward),
                    proposer as int,
                    (reward - proposer_reward) as u64,
                ),
            )
        },
    }
}

/// Slashing an activated validator leaves a valid state valid.
pub proof fn lemma_slash_keeps_wf(s: BeaconStateView, slashed: int, config: Config)
    requires
        config.wf(),
        wf_core(s, config),
        0 <= slashed < s.validators.len(),
        s.validators[slashed].activation_epoch <= spec_current_epoch(s, config),
    ensures
        spec_slash_validator(s, slashed, config) matches Ok(after) ==> wf_core(after, config)
            && block_frame(s, after) && after.validators.len() == s.validators.len(),
        wf_core(spec_slash_penalized(s, slashed, config), config),
{
    let v = s.validators[slashed];
    assert(v.lifecycle_ordered());
    lemma_exit_epoch_later(s, config);
    let penalized = spec_slash_penalized(s, slashed, config);
    crate::proposer::lemma_proposer_known(penalized, config);
    assert forall|k: int| 0 <= k < penalized.validators.len() implies (
    #[trigger] penalized.validators[k]).lifecycle_ordered() by {
        assert(s.validators[k].lifecycle_ordered());
    }
}

/// Slashes a validator and rewards the proposer of the slot.
pub fn slash_validator(state: &mut BeaconState, slashed: usize, config: &Config) -> (r: Result<
    (),
    Error,
>)
    requires
        config.wf(),
        sizes_ok(old(state)@, *config),
        slashed < old(state)@.validators.len(),
    ensures
        outcome_is(r, final(state)@, spec_slash_validator(old(state)@, slashed as int, *config)),
{
    let epoch = get_current_epoch(state, config);
    initiate_validator_exit(state, slashed, config);
    let mut v = state.validators[slashed];
    v.slashed = true;
    let until = epoch.saturating_add(config.epochs_per_slashings_vector);
    if v.withdrawable_epoch <= until {
        v.withdrawable_epoch = until;
    }
    state.validators.set(slashed, v);
    let at = (epoch % config.epochs_per_slashings_vector) as usize;
    let recorded = state.slashings[at].saturating_add(v.effective_balance);
    state.slashings.set(at, recorded);
    decrease_balance(state, slashed, v.effective_balance / config.min_slashing_penalty_quotient);
    assert(state@ == spec_slash_penalized(old(state)@, slashed as int, *config));
    let registry = state.validators.len();
    let proposer = match get_beacon_proposer_index(state, config) {
        Ok(proposer) => proposer,
        Err(_) => {
            return Err(Error::UnableToDetermineProducer);
        },
    };
    let reward = v.effective_balance / config.whistleblower_reward_quotient;
    let proposer_reward = reward / config.proposer_reward_quotient;
    increase_balance(state, proposer as usize, proposer_reward);
    increase_balance(state, proposer as usize, reward - proposer_reward);
    Ok(())
}

} // verus!
