//! The committees of a slot.

use vstd::prelude::*;
use crate::accessors::{
    compute_epoch_at_slot, get_active_validator_indices, get_seed, spec_active_indices, spec_seed,
};
use crate::beacon_state::{sizes_ok, spec_epoch_at, BeaconState, BeaconStateView, Error};
use crate::config::Config;
use crate::primitives::{CommitteeIndex, Slot, ValidatorIndex};
use crate::shuffling::{compute_shuffled_index, spec_shuffled_index};

verus! {

/// The number of committees in each slot of an epoch with `active` active validators.
pub open spec fn spec_committee_count(active: nat, config: Config) -> u64 {
    let raw = active / (config.slots_per_epoch as nat) / (config.target_committee_size as nat);
    if raw < 1 {
        1
    } else if raw > config.max_committees_per_slot {
        config.max_committees_per_slot
    } else {
        raw as u64
    }
}

/// The number of committees in a slot.
pub open spec fn spec_committee_count_at_slot(
    s: BeaconStateView,
    slot: Slot,
    config: Config,
) -> u64 {
    spec_committee_count(
        spec_active_indices(s.validators, spec_epoch_at(slot, config)).len(),
        config,
    )
}

/// The number of committees in a slot.
pub fn get_committee_count_at_slot(state: &BeaconState, slot: Slot, config: &Config) -> (count:
    u64)
    requires
        config.wf(),
    ensures
        count == spec_committee_count_at_slot(state@, slot, *config),
        1 <= count <= config.max_committees_per_slot,
{
    let epoch = compute_epoch_at_slot(slot, config);
    let indices = get_active_validator_indices(state, epoch);
    committee_count(indices.len(), config)
}

fn committee_count(active: usize, config: &Config) -> (count: u64)
    requires
        config.wf(),
    ensures
        count == spec_committee_count(active as nat, *config),
        1 <= count <= config.max_committees_per_slot,
{
    let raw = (active as u64) / config.slots_per_epoch / config.target_committee_size;
    if raw < 1 {
        1
    } else if raw > config.max_committees_per_slot {
        config.max_committees_per_slot
    } else {
        raw
    }
}

/// Where the committee at `position` of `count` begins among `len` shuffled validators.
pub open spec fn committee_start(len: nat, position: nat, count: nat) -> nat {
    (len * position) / count
}

/// The place of a committee among all the committees of its epoch.
pub open spec fn committee_position(
    slot: Slot,
    index: CommitteeIndex,
    per_slot: u64,
    config: Config,
) -> nat {
    ((slot % config.slots_per_epoch) * per_slot + index) as nat
}

/// The committee of a slot and an index: the validators that the shuffle of the epoch's
/// active validators puts into the committee's share of the positions.
pub open spec fn spec_beacon_committee(
    s: BeaconStateView,
    slot: Slot,
    index: CommitteeIndex,
    config: Config,
) -> Seq<ValidatorIndex> {
    let epoch = spec_epoch_at(slot, config);
    let indices = spec_active_indices(s.validators, epoch);
    let per_slot = spec_committee_count(indices.len(), config);
    let count = (per_slot * config.slots_per_epoch) as nat;
    let position = committee_position(slot, index, per_slot, config);
    let start = committee_start(indices.len(), position, count);
    let end = committee_start(indices.len(), position + 1, count);
    let seed = spec_seed(s, epoch, config.domain_beacon_attester, config);
    Seq::new(
        (end - start) as nat,
        |k: int|
            indices[spec_shuffled_index(
                (start + k) as u64,
                indices.len() as u64,
                seed,
                config.shuffle_round_count as nat,
            ) as int],
    )
}

proof fn lemma_committee_bounds(len: nat, position: nat, count: nat)
    requires
        count > 0,
        position < count,
    ensures
        committee_start(len, position, count) <= committee_start(len, position + 1, count),
        committee_start(len, position + 1, count) <= len,
{
    let a = (len * position) as int;
    let b = (len * (position + 1)) as int;
    let c = count as int;
    assert(a <= b) by (nonlinear_arith)
        requires
            a == len * position,
            b == len * (position + 1),
    ;
    assert(b <= len * c) by (nonlinear_arith)
        requires
            b == len * (position + 1),
            position + 1 <= c,
    ;
    assert(a / c <= b / c) by (nonlinear_arith)
        requires
            0 <= a <= b,
            c > 0,
    ;
    assert(b / c <= len) by (nonlinear_arith)
        requires
            0 <= b <= len * c,
            c > 0,
    ;
}

/// The committee of a slot and an index, or a failure where the slot has no committee of
/// that index.
pub fn get_beacon_committee(
    state: &BeaconState,
    slot: Slot,
    index: CommitteeIndex,
    config: &Config,
) -> (r: Result<Vec<ValidatorIndex>, Error>)
    requires
        config.wf(),
        sizes_ok(state@, *config),
    ensures
        index < spec_committee_count_at_slot(state@, slot, *config) ==> r is Ok && r->Ok_0@
            == spec_beacon_committee(state@, slot, index, *config),
        index >= spec_committee_count_at_slot(state@, slot, *config) ==> r == Err::<
            Vec<ValidatorIndex>,
            Error,
        >(Error::NoCommitteeForSlot),
        r matches Ok(members) ==> forall|k: int|
            0 <= k < members@.len() ==> (#[trigger] members@[k]) < state@.validators.len(),
{
    let epoch = compute_epoch_at_slot(slot, config);
    let indices = get_active_validator_indices(state, epoch);
    let per_slot = committee_count(indices.len(), config);
    if index >= per_slot {
        return Err(Error::NoCommitteeForSlot);
    }
    let len = indices.len() as u64;
    let within = slot % config.slots_per_epoch;
    assert(per_slot * config.slots_per_epoch <= 0x10_0000 * 0x10_0000) by (nonlinear_arith)
        requires
            per_slot <= 0x10_0000,
            config.slots_per_epoch <= 0x10_0000,
    ;
    assert(within * per_slot <= 0x10_0000 * 0x10_0000) by (nonlinear_arith)
        requires
            per_slot <= 0x10_0000,
            within <= 0x10_0000,
    ;
    let count = per_slot * config.slots_per_epoch;
    let position = within * per_slot + index;
    assert(position < count) by (nonlinear_arith)
        requires
            position == within * per_slot + index,
            count == per_slot * config.slots_per_epoch,
            index < per_slot,
            within < config.slots_per_epoch,
    ;
    proof {
        lemma_committee_bounds(len as nat, position as nat, count as nat);
        assert((len as u128) * (position as u128) <= 0x100_0000_0000 * 0x100_0000_0000)
            by (nonlinear_arith)
            requires
                len <= 0x100_0000_0000,
                position <= 0x100_0000_0000,
        ;
        assert((len as u128) * ((position + 1) as u128) <= 0x100_0000_0000 * 0x100_0000_0001)
            by (nonlinear_arith)
            requires
                len <= 0x100_0000_0000,
                position + 1 <= 0x100_0000_0001,
        ;
    }
    let start = ((len as u128) * (position as u128) / (count as u128)) as u64;
    let end = ((len as u128) * ((position + 1) as u128) / (count as u128)) as u64;
    assert(start == committee_start(len as nat, position as nat, count as nat));
    assert(end == committee_start(len as nat, (position + 1) as nat, count as nat));
    let seed = get_seed(state, epoch, config.domain_beacon_attester, config);
    let mut members: Vec<ValidatorIndex> = Vec::new();
    let mut at = start;
    while at < end
        invariant
            config.wf(),
            start <= at <= end <= len,
            len == indices@.len(),
            indices@.len() <= usize::MAX,
            len <= 0x100_0000_0000,
            seed@.len() == 32,
            members@.len() == at - start,
            forall|k: int|
                0 <= k < indices@.len() ==> (#[trigger] indices@[k]) < state@.validators.len(),
            forall|k: int|
                0 <= k < members@.len() ==> (
                    #[trigger] members@[k]
                ) == indices@[spec_shuffled_index(
                    (start + k) as u64,
                    len,
                    seed@,
                    config.shuffle_round_count as nat,
                ) as int],
            forall|k: int|
                0 <= k < members@.len() ==> (#[trigger] members@[k]) < state@.validators.len(),
        decreases end - at,
    {
        let shuffled = compute_shuffled_index(at, len, seed.as_slice(), config);
        members.push(indices[shuffled as usize]);
        at += 1;
    }
    assert(members@ =~= spec_beacon_committee(state@, slot, index, *config));
    Ok(members)
}

} // verus!
