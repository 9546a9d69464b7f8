//! Justification and finalization.

use vstd::prelude::*;
use crate::accessors::{
    get_current_epoch, get_previous_epoch, spec_current_epoch, spec_previous_epoch,
};
use crate::attesters::{
    attestation_committees, attester_flags, block_root_of_epoch, get_total_active_balance,
    get_total_balance, spec_block_root, spec_total_active_balance, spec_total_balance,
    unslashed_attester_flags, Matching,
};
use crate::beacon_state::{sizes_ok, wf, wf_core, BeaconState, BeaconStateView};
use crate::config::Config;
use crate::primitives::Epoch;
use crate::types::{Checkpoint, PendingAttestationView};

verus! {

/// The combined effective balance of the unslashed validators that took part in an
/// attestation of `atts` that counts for `kind`.
pub open spec fn spec_attesting_balance(
    s: BeaconStateView,
    atts: Seq<PendingAttestationView>,
    epoch: Epoch,
    kind: Matching,
    config: Config,
) -> u64 {
    spec_total_balance(
        s.validators,
        unslashed_attester_flags(s, atts, epoch, kind, config),
        config,
    )
}

/// At least two thirds of the whole stake.
pub open spec fn is_supermajority(part: u64, whole: u64) -> bool {
    part * 3 >= whole * 2
}

/// Justification and finalization at the end of an epoch. Nothing happens in the first two
/// epochs. After them the bits move on by one place; the previous and the current epoch
/// are justified where two thirds of the active stake voted for their targets; and the
/// newest checkpoint is finalized that the pattern of the bits allows: two justified
/// epochs out of the last three, or three out of the last four.
pub open spec fn spec_justification(s: BeaconStateView, config: Config) -> BeaconStateView {
    let current = spec_current_epoch(s, config);
    if current <= config.genesis_epoch + 1 {
        s
    } else {
        let previous = spec_previous_epoch(s, config);
        let old_previous = s.previous_justified_checkpoint;
        let old_current = s.current_justified_checkpoint;
        let total = spec_total_active_balance(s, config);
        let previous_votes = spec_attesting_balance(
            s,
            s.previous_epoch_attestations,
            previous,
            Matching::Target,
            config,
        );
        let current_votes = spec_attesting_balance(
            s,
            s.current_epoch_attestations,
            current,
            Matching::Target,
            config,
        );
        let previous_justified = is_supermajority(previous_votes, total);
        let current_justified = is_supermajority(current_votes, total);
        let b = s.justification_bits;
        let bits = seq![current_justified, b[0] || previous_justified, b[1], b[2]];
        let after_previous = if previous_justified {
            Checkpoint { epoch: previous, root: spec_block_root(s, previous, config) }
        } else {
            old_current
        };
        let justified = if current_justified {
            Checkpoint { epoch: current, root: spec_block_root(s, current, config) }
        } else {
            after_previous
        };
        let f0 = s.finalized_checkpoint;
        let f1 = if bits[1] && bits[2] && bits[3] && old_previous.epoch + 3 == current {
            old_previous
        } else {
            f0
        };
        let f2 = if bits[1] && bits[2] && old_previous.epoch + 2 == current {
            old_previous
        } else {
            f1
        };
        let f3 = if bits[0] && bits[1] && bits[2] && old_current.epoch + 2 == current {
            old_current
        } else {
            f2
        };
        let f4 = if bits[0] && bits[1] && old_current.epoch + 1 == current {
            old_current
        } else {
            f3
        };
        BeaconStateView {
            previous_justified_checkpoint: old_current,
            current_justified_checkpoint: justified,
            justification_bits: bits,
            finalized_checkpoint: f4,
            ..s
        }
    }
}

/// Justification keeps a state valid: the checkpoints stay in order and none lies after
/// the state's own epoch.
pub proof fn lemma_justification_keeps_wf(s: BeaconStateView, config: Config)
    requires
        config.wf(),
        wf(s, config),
    ensures
        wf_core(spec_justification(s, config), config),
        spec_justification(s, config).slot == s.slot,
        spec_justification(s, config).validators == s.validators,
        spec_justification(s, config).balances == s.balances,
{
}

/// Justifies and finalizes checkpoints at the end of an epoch.
pub fn process_justification_and_finalization(state: &mut BeaconState, config: &Config)
    requires
        config.wf(),
        sizes_ok(old(state)@, *config),
    ensures
        final(state)@ == spec_justification(old(state)@, *config),
{
    let current = get_current_epoch(state, config);
    if current <= config.genesis_epoch + 1 {
        return ;
    }
    let previous = get_previous_epoch(state, config);
    let old_previous = state.previous_justified_checkpoint;
    let old_current = state.current_justified_checkpoint;
    let total = get_total_active_balance(state, config);
    let previous_committees = attestation_committees(
        state,
        &state.previous_epoch_attestations,
        config,
    );
    let previous_flags = attester_flags(
        state,
        &state.previous_epoch_attestations,
        &previous_committees,
        previous,
        Matching::Target,
        config,
    );
    let previous_votes = get_total_balance(state, &previous_flags, config);
    let current_committees = attestation_committees(
        state,
        &state.current_epoch_attestations,
        config,
    );
    let current_flags = attester_flags(
        state,
        &state.current_epoch_attestations,
        &current_committees,
        current,
        Matching::Target,
        config,
    );
    let current_votes = get_total_balance(state, &current_flags, config);
    let previous_justified = (previous_votes as u128) * 3 >= (total as u128) * 2;
    let current_justified = (current_votes as u128) * 3 >= (total as u128) * 2;
    let b = state.justification_bits;
    let bits = [current_justified, b[0] || previous_justified, b[1], b[2]];
    let mut justified = old_current;
    if previous_justified {
        justified = Checkpoint { epoch: previous, root: block_root_of_epoch(state, previous, config) };
    }
    if current_justified {
        justified = Checkpoint { epoch: current, root: block_root_of_epoch(state, current, config) };
    }
    let mut finalized = state.finalized_checkpoint;
    if bits[1] && bits[2] && bits[3] && old_previous.epoch as u128 + 3 == current as u128 {
        finalized = old_previous;
    }
    if bits[1] && bits[2] && old_previous.epoch as u128 + 2 == current as u128 {
        finalized = old_previous;
    }
    if bits[0] && bits[1] && bits[2] && old_current.epoch as u128 + 2 == current as u128 {
        finalized = old_current;
    }
    if bits[0] && bits[1] && old_current.epoch as u128 + 1 == current as u128 {
        finalized = old_current;
    }
    proof {
        assert(bits@ =~= seq![current_justified, b@[0] || previous_justified, b@[1], b@[2]]);
    }
    state.previous_justified_checkpoint = old_current;
    state.current_justified_checkpoint = justified;
    state.justification_bits = bits;
    state.finalized_checkpoint = finalized;
}

} // verus!
