//! The limits of blocks and the validity of states, checked at run time.

use vstd::prelude::*;
use crate::beacon_state::{inclusions_ok, pending_views, sizes_ok, wf, BeaconState};
use crate::config::Config;
use crate::merkle::TreeHash;
use crate::types::{
    Attestation, AttesterSlashing, BeaconBlock, Deposit, IndexedAttestation, PendingAttestation,
};

verus! {

fn indexed_within_limits(a: &IndexedAttestation, config: &Config) -> (r: bool)
    ensures
        r == a.hashable(*config),
{
    a.custody_bit_0_indices.len() as u64 <= config.max_validators_per_committee
        && a.custody_bit_1_indices.len() as u64 <= config.max_validators_per_committee
}

fn attester_slashings_within_limits(list: &Vec<AttesterSlashing>, config: &Config) -> (r: bool)
    ensures
        r == forall|i: int| 0 <= i < list@.len() ==> (#[trigger] list@[i]).hashable(*config),
{
    let mut i: usize = 0;
    while i < list.len()
        invariant
            i <= list@.len(),
            forall|k: int| 0 <= k < i ==> (#[trigger] list@[k]).hashable(*config),
        decreases list@.len() - i,
    {
        if !(indexed_within_limits(&list[i].attestation_1, config) && indexed_within_limits(
            &list[i].attestation_2,
            config,
        )) {
            assert(!list@[i as int].hashable(*config));
            return false;
        }
        i += 1;
    }
    true
}

fn attestations_within_limits(list: &Vec<Attestation>, config: &Config) -> (r: bool)
    ensures
        r == forall|i: int| 0 <= i < list@.len() ==> (#[trigger] list@[i]).hashable(*config),
{
    let mut i: usize = 0;
    while i < list.len()
        invariant
            i <= list@.len(),
            forall|k: int| 0 <= k < i ==> (#[trigger] list@[k]).hashable(*config),
        decreases list@.len() - i,
    {
        if list[i].aggregation_bits.len() as u64 > config.max_validators_per_committee {
            assert(!list@[i as int].hashable(*config));
            return false;
        }
        i += 1;
    }
    true
}

fn deposits_within_limits(list: &Vec<Deposit>, config: &Config) -> (r: bool)
    ensures
        r == forall|i: int| 0 <= i < list@.len() ==> (#[trigger] list@[i]).hashable(*config),
{
    let mut i: usize = 0;
    while i < list.len()
        invariant
            i <= list@.len(),
            forall|k: int| 0 <= k < i ==> (#[trigger] list@[k]).hashable(*config),
        decreases list@.len() - i,
    {
        if list[i].proof.len() != 33 {
            assert(!list@[i as int].hashable(*config));
            return false;
        }
        i += 1;
    }
    true
}

/// Whether every list of a block is within its limit, so that the block has a root.
pub fn block_within_limits(block: &BeaconBlock, config: &Config) -> (r: bool)
    ensures
        r == block.hashable(*config),
{
    let body = &block.body;
    body.proposer_slashings.len() as u64 <= config.max_proposer_slashings
        && body.attester_slashings.len() as u64 <= config.max_attester_slashings
        && attester_slashings_within_limits(&body.attester_slashings, config)
        && body.attestations.len() as u64 <= config.max_attestations
        && attestations_within_limits(&body.attestations, config) && body.deposits.len() as u64
        <= config.max_deposits && deposits_within_limits(&body.deposits, config)
        && body.voluntary_exits.len() as u64 <= config.max_voluntary_exits
}

fn pending_within_limits(list: &Vec<PendingAttestation>, registry: usize, config: &Config) -> (r:
    bool)
    requires
        config.wf(),
    ensures
        r == (list@.len() <= config.spec_max_attestations_per_epoch() && (forall|i: int|
            0 <= i < list@.len() ==> (#[trigger] pending_views(list@)[i]).aggregation_bits.len()
                <= config.max_validators_per_committee) && inclusions_ok(
            pending_views(list@),
            registry as nat,
        )),
{
    if list.len() as u64 > config.max_attestations_per_epoch() {
        return false;
    }
    let ghost views = pending_views(list@);
    let mut i: usize = 0;
    while i < list.len()
        invariant
            i <= list@.len(),
            views == pending_views(list@),
            forall|k: int|
                0 <= k < i ==> (#[trigger] views[k]).aggregation_bits.len()
                    <= config.max_validators_per_committee,
            forall|k: int|
                0 <= k < i ==> (#[trigger] views[k]).inclusion_delay > 0 && views[k].proposer_index
                    < registry,
        decreases list@.len() - i,
    {
        let a = &list[i];
        assert(views[i as int] == a.deep_view());
        if a.aggregation_bits.len() as u64 > config.max_validators_per_committee
            || a.inclusion_delay == 0 || a.proposer_index >= registry as u64 {
            return false;
        }
        i += 1;
    }
    true
}

impl BeaconState {
    /// Whether the lengths of the state's lists and vectors are what the profile asks for,
    /// and its pending attestations such as blocks leave them.
    fn has_sizes(&self, config: &Config) -> (r: bool)
        requires
            config.wf(),
        ensures
            r == (sizes_ok(self@, *config) && inclusions_ok(
                self@.previous_epoch_attestations,
                self@.validators.len(),
            ) && inclusions_ok(self@.current_epoch_attestations, self@.validators.len())),
    {
        let registry = self.validators.len();
        if !(self.block_roots.len() as u64 == config.slots_per_historical_root
            && self.state_roots.len() as u64 == config.slots_per_historical_root
            && self.historical_roots.len() as u64 <= config.historical_roots_limit
            && self.eth1_data_votes.len() as u64 <= config.slots_per_eth1_voting_period
            && registry as u64 <= config.validator_registry_limit && self.balances.len()
            == registry && self.randao_mixes.len() as u64 == config.epochs_per_historical_vector
            && self.slashings.len() as u64 == config.epochs_per_slashings_vector
            && self.shard_states.len() as u64 <= config.max_shards
            && self.online_countdown.len() as u64 <= config.validator_registry_limit
            && self.current_light_committee.pubkeys.len() as u64
            <= config.max_validators_per_committee
            && self.current_light_committee.compact_validators.len() as u64
            <= config.max_validators_per_committee && self.next_light_committee.pubkeys.len() as u64
            <= config.max_validators_per_committee
            && self.next_light_committee.compact_validators.len() as u64
            <= config.max_validators_per_committee && self.exposed_derived_secrets.len() as u64
            == config.early_derived_secret_penalty_max_future_epochs) {
            return false;
        }
        if !pending_within_limits(&self.previous_epoch_attestations, registry, config) {
            return false;
        }
        if !pending_within_limits(&self.current_epoch_attestations, registry, config) {
            return false;
        }
        let mut i: usize = 0;
        while i < self.exposed_derived_secrets.len()
            invariant
                i <= self.exposed_derived_secrets@.len(),
                forall|k: int|
                    0 <= k < i ==> (#[trigger] self@.exposed_derived_secrets[k]).len()
                        <= config.slots_per_epoch,
            decreases self.exposed_derived_secrets@.len() - i,
        {
            if self.exposed_derived_secrets[i].len() as u64 > config.slots_per_epoch {
                assert(self@.exposed_derived_secrets[i as int].len() > config.slots_per_epoch);
                return false;
            }
            i += 1;
        }
        true
    }

    /// Whether the state is one that the transition can start from: its sizes are what the
    /// profile asks for, the lifecycle of every validator is in order, the checkpoints of
    /// finality are in order and none lies in the state's own epoch unless that is the
    /// first, and the pending attestations are such as blocks leave them.
    pub fn is_valid(&self, config: &Config) -> (r: bool)
        requires
            config.wf(),
        ensures
            r == wf(self@, *config),
    {
        if !self.has_sizes(config) {
            return false;
        }
        let mut i: usize = 0;
        while i < self.validators.len()
            invariant
                i <= self.validators@.len(),
                forall|k: int| 0 <= k < i ==> (#[trigger] self@.validators[k]).lifecycle_ordered(),
            decreases self.validators@.len() - i,
        {
            let v = &self.validators[i];
            if !(v.activation_eligibility_epoch <= v.activation_epoch && v.activation_epoch
                <= v.exit_epoch && v.exit_epoch <= v.withdrawable_epoch) {
                assert(!self@.validators[i as int].lifecycle_ordered());
                return false;
            }
            i += 1;
        }
        let epoch = self.slot / config.slots_per_epoch;
        let justified = self.current_justified_checkpoint.epoch;
        self.finalized_checkpoint.epoch <= self.previous_justified_checkpoint.epoch
            && self.previous_justified_checkpoint.epoch <= justified && justified <= epoch && (
        justified < epoch || justified == 0)
    }
}

} // verus!
