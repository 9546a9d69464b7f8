//! The voluntary exits of a block.

use vstd::prelude::*;
use crate::accessors::{
    compute_signing_root, get_current_epoch, get_domain, spec_current_epoch, spec_get_domain,
    spec_is_active_validator, spec_signing_root,
};
use crate::beacon_state::{block_frame, sizes_ok, wf_core, BeaconState, BeaconStateView};
use crate::block_processing::{is_signed, outcome_is, spec_signed, Error};
use crate::config::{Config, FAR_FUTURE_EPOCH};
use crate::merkle::TreeHash;
use crate::registry::{
    initiate_validator_exit, lemma_exit_epoch_later, spec_initiate_validator_exit,
};
use crate::types::SignedVoluntaryExit;

verus! {

/// Whether an exit bears the signature of the validator that wants to leave: over the
/// signing root of the exit under the exit domain of the exit's epoch.
pub open spec fn spec_exit_signed(
    s: BeaconStateView,
    signed: SignedVoluntaryExit,
    config: Config,
) -> bool {
    let domain = spec_get_domain(
        s,
        config.domain_voluntary_exit,
        Some(signed.message.epoch),
        config,
    );
    spec_signed(
        s.validators[signed.message.validator_index as int].pubkey,
        spec_signing_root(signed.message.tree_root(config), domain, config),
        signed.signature,
        domain,
    )
}

/// A voluntary exit is accepted where its validator is in the registry, is active and not
/// leaving yet, the exit's epoch has come, the validator has been active for the period
/// that is asked of it, and the exit bears its signature. The validator then begins to
/// leave.
pub open spec fn spec_process_voluntary_exit(
    s: BeaconStateView,
    signed: SignedVoluntaryExit,
    config: Config,
) -> Result<BeaconStateView, Error> {
    let exit = signed.message;
    if exit.validator_index >= s.validators.len() {
        Err(Error::UnknownValidator)
    } else {
        let v = s.validators[exit.validator_index as int];
        let current = spec_current_epoch(s, config);
        if !spec_is_active_validator(v, current) {
            Err(Error::ValidatorNotActive)
        } else if v.exit_epoch != FAR_FUTURE_EPOCH {
            Err(Error::ExitAlreadyInitiated)
        } else if current < exit.epoch {
            Err(Error::ExitNotYetValid)
        } else if current < v.activation_epoch + config.persistent_committee_period {
            Err(Error::ValidatorTooYoung)
        } else if !spec_exit_signed(s, signed, config) {
            Err(Error::InvalidExitSignature)
        } else {
            Ok(spec_initiate_validator_exit(s, exit.validator_index as int, config))
        }
    }
}

/// A voluntary exit leaves a valid state valid.
pub proof fn lemma_voluntary_exit_keeps_wf(
    s: BeaconStateView,
    signed: SignedVoluntaryExit,
    config: Config,
)
    requires
        config.wf(),
        wf_core(s, config),
    ensures
        spec_process_voluntary_exit(s, signed, config) matches Ok(after) ==> wf_core(
            after,
            config,
        ) && block_frame(s, after) && after.validators.len() == s.validators.len(),
{
    match spec_process_voluntary_exit(s, signed, config) {
        Ok(after) => {
            lemma_exit_epoch_later(s, config);
            assert forall|k: int| 0 <= k < after.validators.len() implies (
            #[trigger] after.validators[k]).lifecycle_ordered() by {
                assert(s.validators[k].lifecycle_ordered());
            }
        },
        Err(_) => {},
    }
}

/// Checks a voluntary exit and lets its validator begin to leave.
pub fn process_voluntary_exit(
    state: &mut BeaconState,
    signed: &SignedVoluntaryExit,
    config: &Config,
) -> (r: Result<(), Error>)
    requires
        config.wf(),
        sizes_ok(old(state)@, *config),
    ensures
        outcome_is(r, final(state)@, spec_process_voluntary_exit(old(state)@, *signed, *config)),
{
    let exit = &signed.message;
    if exit.validator_index >= state.validators.len() as u64 {
        return Err(Error::UnknownValidator);
    }
    let index = exit.validator_index as usize;
    let v = state.validators[index];
    let current = get_current_epoch(state, config);
    if !crate::predicates::is_active_validator(&v, current) {
        return Err(Error::ValidatorNotActive);
    }
    if v.exit_epoch != FAR_FUTURE_EPOCH {
        return Err(Error::ExitAlreadyInitiated);
    }
    if current < exit.epoch {
        return Err(Error::ExitNotYetValid);
    }
    if (current as u128) < v.activation_epoch as u128 + config.persistent_committee_period as u128 {
        return Err(Error::ValidatorTooYoung);
    }
    let domain = get_domain(state, config.domain_voluntary_exit, Some(exit.epoch), config);
    let root = compute_signing_root(exit, domain, config);
    if !is_signed(&v.pubkey, &root, &signed.signature, domain) {
        return Err(Error::InvalidExitSignature);
    }
    initiate_validator_exit(state, index, config);
    Ok(())
}

} // verus!
