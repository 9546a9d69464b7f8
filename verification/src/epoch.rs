//! The processing of an epoch at its last slot.

use vstd::prelude::*;
use crate::beacon_state::{wf, wf_core, BeaconState, BeaconStateView};
use crate::config::Config;
use crate::final_updates::{lemma_final_updates_keep_wf, process_final_updates, spec_final_updates};
use crate::justification::{
    lemma_justification_keeps_wf, process_justification_and_finalization, spec_justification,
};
use crate::registry::{lemma_registry_keeps_wf, process_registry_updates, spec_registry_updates};
use crate::rewards::{process_rewards_and_penalties, spec_rewards};
use crate::slashings::{lemma_slashings_keep_wf, process_slashings, spec_slashings};

verus! {

/// The processing of an epoch at its last slot: justification and finalization, rewards
/// and penalties, registry updates, slashings, and the final updates, in this order.
pub open spec fn spec_process_epoch(s: BeaconStateView, config: Config) -> BeaconStateView {
    spec_final_updates(
        spec_slashings(
            spec_registry_updates(spec_rewards(spec_justification(s, config), config), config),
            config,
        ),
        config,
    )
}

/// Rewards change balances only, and leave the state valid.
pub proof fn lemma_rewards_keep_wf(s: BeaconStateView, config: Config)
    requires
        config.wf(),
        wf_core(s, config),
    ensures
        wf_core(spec_rewards(s, config), config),
        spec_rewards(s, config).slot == s.slot,
        spec_rewards(s, config).validators == s.validators,
{
}

/// The processing of an epoch leaves a valid state valid within the epoch; it changes
/// neither the slot nor the number of validators nor the history of roots.
pub proof fn lemma_epoch_keeps_wf(s: BeaconStateView, config: Config)
    requires
        config.wf(),
        wf(s, config),
    ensures
        wf_core(spec_process_epoch(s, config), config),
        spec_process_epoch(s, config).slot == s.slot,
        spec_process_epoch(s, config).validators.len() == s.validators.len(),
        spec_process_epoch(s, config).balances.len() == s.balances.len(),
        spec_process_epoch(s, config).latest_block_header == s.latest_block_header,
        spec_process_epoch(s, config).block_roots == s.block_roots,
        spec_process_epoch(s, config).state_roots == s.state_roots,
{
    let a = spec_justification(s, config);
    lemma_justification_keeps_wf(s, config);
    let b = spec_rewards(a, config);
    lemma_rewards_keep_wf(a, config);
    let c = spec_registry_updates(b, config);
    lemma_registry_keeps_wf(b, config);
    crate::registry::lemma_sweep_keeps_wf(b, config, b.validators.len());
    let d = spec_slashings(c, config);
    lemma_slashings_keep_wf(c, config);
    lemma_final_updates_keep_wf(d, config);
}

/// Processes the epoch that ends with the state's slot.
pub fn process_epoch(state: &mut BeaconState, config: &Config)
    requires
        config.wf(),
        wf(old(state)@, *config),
        old(state).slot < u64::MAX,
    ensures
        final(state)@ == spec_process_epoch(old(state)@, *config),
        wf_core(final(state)@, *config),
        final(state).slot == old(state).slot,
{
    let ghost s = state@;
    proof {
        lemma_epoch_keeps_wf(s, *config);
        lemma_justification_keeps_wf(s, *config);
    }
    process_justification_and_finalization(state, config);
    proof {
        lemma_rewards_keep_wf(state@, *config);
    }
    process_rewards_and_penalties(state, config);
    proof {
        lemma_registry_keeps_wf(state@, *config);
    }
    process_registry_updates(state, config);
    proof {
        lemma_slashings_keep_wf(state@, *config);
    }
    process_slashings(state, config);
    process_final_updates(state, config);
}

} // verus!
