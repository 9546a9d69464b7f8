//! The attestations of a block.

use vstd::prelude::*;
use crate::accessors::{
    compute_epoch_at_slot, get_current_epoch, get_previous_epoch, spec_current_epoch,
    spec_previous_epoch,
};
use crate::attesters::{is_member, member_at, member_upto};
use crate::beacon_state::{
    block_frame, pending_views, sizes_ok, spec_epoch_at, wf_core, BeaconState, BeaconStateView,
};
use crate::block_processing::{outcome_is, Error};
use crate::committee::{
    get_beacon_committee, get_committee_count_at_slot, spec_beacon_committee,
    spec_committee_count_at_slot,
};
use crate::config::Config;
use crate::math::filled;
use crate::merkle::TreeHash;
use crate::predicates::{is_valid_indexed_attestation, spec_indexed_outcome};
use crate::primitives::ValidatorIndex;
use crate::proposer::{get_beacon_proposer_index, lemma_proposer_known, spec_beacon_proposer_index};
use crate::types::{Attestation, IndexedAttestation, PendingAttestation, PendingAttestationView};

verus! {

/// The validators below `n` that stand in the committee with their bit set, in ascending
/// order.
pub open spec fn attesting_prefix(committee: Seq<ValidatorIndex>, bits: Seq<bool>, n: nat) -> Seq<
    ValidatorIndex,
>
    decreases n,
{
    if n == 0 {
        Seq::empty()
    } else {
        let before = attesting_prefix(committee, bits, (n - 1) as nat);
        if is_member(committee, bits, (n - 1) as u64) {
            before.push((n - 1) as u64)
        } else {
            before
        }
    }
}

/// The validators of a registry of `n` that took part in an attestation, in ascending
/// order.
pub fn get_attesting_indices(committee: &Vec<ValidatorIndex>, bits: &Vec<bool>, n: usize) -> (r:
    Vec<ValidatorIndex>)
    requires
        forall|p: int| 0 <= p < committee@.len() ==> (#[trigger] committee@[p]) < n,
    ensures
        r@ == attesting_prefix(committee@, bits@, n as nat),
{
    let limit = if committee.len() < bits.len() {
        committee.len()
    } else {
        bits.len()
    };
    let mut flags = filled(n, false);
    let mut p: usize = 0;
    while p < limit
        invariant
            forall|p: int| 0 <= p < committee@.len() ==> (#[trigger] committee@[p]) < n,
            limit <= committee@.len(),
            limit <= bits@.len(),
            p <= limit,
            flags@.len() == n,
            forall|i: int|
                0 <= i < n ==> flags@[i] == member_upto(committee@, bits@, i as u64, p as int),
        decreases limit - p,
    {
        if bits[p] {
            let j = committee[p];
            flags.set(j as usize, true);
            assert(member_at(committee@, bits@, j, p as int));
        }
        assert forall|i: int| 0 <= i < n implies flags@[i] == member_upto(
            committee@,
            bits@,
            i as u64,
            p as int + 1,
        ) by {
            if member_upto(committee@, bits@, i as u64, p as int + 1) {
                let q = choose|q: int|
                    0 <= q < p + 1 && #[trigger] member_at(committee@, bits@, i as u64, q);
                if q < p {
                    assert(member_upto(committee@, bits@, i as u64, p as int));
                }
            }
            if member_upto(committee@, bits@, i as u64, p as int) {
                let q = choose|q: int|
                    0 <= q < p && #[trigger] member_at(committee@, bits@, i as u64, q);
                assert(member_at(committee@, bits@, i as u64, q));
            }
        }
        p += 1;
    }
    assert forall|i: int| 0 <= i < n implies flags@[i] == is_member(
        committee@,
        bits@,
        i as u64,
    ) by {
        if member_upto(committee@, bits@, i as u64, limit as int) {
            let q = choose|q: int|
                0 <= q < limit && #[trigger] member_at(committee@, bits@, i as u64, q);
            assert(member_at(committee@, bits@, i as u64, q));
        }
        if is_member(committee@, bits@, i as u64) {
            let q = choose|q: int| #[trigger] member_at(committee@, bits@, i as u64, q);
            assert(0 <= q < limit);
        }
    }
    let mut r: Vec<ValidatorIndex> = Vec::new();
    let mut i: usize = 0;
    while i < n
        invariant
            i <= n,
            flags@.len() == n,
            forall|k: int| 0 <= k < n ==> flags@[k] == is_member(committee@, bits@, k as u64),
            r@ == attesting_prefix(committee@, bits@, i as nat),
        decreases n - i,
    {
        if flags[i] {
            r.push(i as u64);
        }
        i += 1;
    }
    r
}

fn copy_bits(bits: &Vec<bool>) -> (r: Vec<bool>)
    ensures
        r@ == bits@,
{
    let mut r: Vec<bool> = Vec::new();
    let mut i: usize = 0;
    while i < bits.len()
        invariant
            i <= bits@.len(),
            r@ == bits@.take(i as int),
        decreases bits@.len() - i,
    {
        r.push(bits[i]);
        assert(bits@.take(i as int + 1) =~= bits@.take(i as int).push(bits@[i as int]));
        i += 1;
    }
    assert(bits@.take(bits@.len() as int) =~= bits@);
    r
}

/// An attestation is accepted where its slot has a committee of its index; its target is
/// the current or the previous epoch and the epoch of its slot; it comes no earlier than
/// the least delay after its slot and no later than one epoch after it; it has one bit for
/// each member of its committee; its source is the checkpoint that the state has justified
/// for the target's epoch; the pending attestations of that epoch have room; and the
/// indexed attestation of those who took part is valid. It is then kept among the pending
/// attestations of its target's epoch, with its delay and the proposer who included it.
pub open spec fn spec_process_attestation(
    s: BeaconStateView,
    a: Attestation,
    config: Config,
) -> Result<
    BeaconStateView,
    Error,
> {
    let data = a.data;
    let current = spec_current_epoch(s, config);
    let previous = spec_previous_epoch(s, config);
    if data.index >= spec_committee_count_at_slot(s, data.slot, config) {
        Err(Error::NoCommitteeForSlot)
    } else if data.target.epoch != previous && data.target.epoch != current {
        Err(Error::TargetEpochOutOfBounds)
    } else if data.target.epoch != spec_epoch_at(data.slot, config) {
        Err(Error::TargetSlotMismatch)
    } else if !(data.slot + config.min_attestation_inclusion_delay <= s.slot && s.slot
        <= data.slot + config.slots_per_epoch) {
        Err(Error::SlotOutOfBounds)
    } else {
        let committee = spec_beacon_committee(s, data.slot, data.index, config);
        if a.aggregation_bits@.len() != committee.len() {
            Err(Error::AttestationBitsInvalid)
        } else {
            match spec_beacon_proposer_index(s, config) {
                None => Err(Error::UnableToDetermineProducer),
                Some(proposer) => {
                    let pending = PendingAttestationView {
                        aggregation_bits: a.aggregation_bits@,
                        data,
                        inclusion_delay: (s.slot - data.slot) as u64,
                        proposer_index: proposer,
                    };
                    let is_current = data.target.epoch == current;
                    let justified = if is_current {
                        s.current_justified_checkpoint
                    } else {
                        s.previous_justified_checkpoint
                    };
                    let kept = if is_current {
                        s.current_epoch_attestations
                    } else {
                        s.previous_epoch_attestations
                    };
                    if data.source != justified {
                        Err(Error::WrongSource)
                    } else if kept.len() >= config.spec_max_attestations_per_epoch() {
                        Err(Error::TooManyAttestations)
                    } else {
                        match spec_indexed_outcome(
                            s,
                            attesting_prefix(committee, a.aggregation_bits@, s.validators.len()),
                            Seq::empty(),
                            data,
                            a.signature,
                            config,
                        ) {
                            Err(e) => Err(Error::InvalidIndexedAttestation(e)),
                            Ok(_) => if is_current {
                                Ok(
                                    BeaconStateView {
                                        current_epoch_attestations: kept.push(pending),
                                        ..s
                                    },
                                )
                            } else {
                                Ok(
                                    BeaconStateView {
                                        previous_epoch_attestations: kept.push(pending),
                                        ..s
                                    },
                                )
                            },
                        }
                    }
                },
            }
        }
    }
}

/// An attestation whose bits are within the committee limit leaves a valid state valid.
pub proof fn lemma_attestation_keeps_wf(s: BeaconStateView, a: Attestation, config: Config)
    requires
        config.wf(),
        wf_core(s, config),
        a.hashable(config),
    ensures
        spec_process_attestation(s, a, config) matches Ok(after) ==> wf_core(after, config)
            && block_frame(s, after) && after.validators.len() == s.validators.len(),
{
    lemma_proposer_known(s, config);
    match spec_process_attestation(s, a, config) {
        Ok(after) => {
            let proposer = spec_beacon_proposer_index(s, config)->Some_0;
            let pending = PendingAttestationView {
                aggregation_bits: a.aggregation_bits@,
                data: a.data,
                inclusion_delay: (s.slot - a.data.slot) as u64,
                proposer_index: proposer,
            };
            if a.data.target.epoch == spec_current_epoch(s, config) {
                let kept = s.current_epoch_attestations;
                assert forall|i: int| 0 <= i < kept.push(pending).len() implies (
                #[trigger] kept.push(pending)[i]).aggregation_bits.len()
                    <= config.max_validators_per_committee && kept.push(
                    pending,
                )[i].inclusion_delay > 0 && kept.push(pending)[i].proposer_index
                    < s.validators.len() by {
                    if i < kept.len() {
                        assert(kept.push(pending)[i] == kept[i]);
                    }
                }
            } else {
                let kept = s.previous_epoch_attestations;
                assert forall|i: int| 0 <= i < kept.push(pending).len() implies (
                #[trigger] kept.push(pending)[i]).aggregation_bits.len()
                    <= config.max_validators_per_committee && kept.push(
                    pending,
                )[i].inclusion_delay > 0 && kept.push(pending)[i].proposer_index
                    < s.validators.len() by {
                    if i < kept.len() {
                        assert(kept.push(pending)[i] == kept[i]);
                    }
                }
            }
        },
        Err(_) => {},
    }
}

/// Checks an attestation of a block and keeps it among the pending attestations.
pub fn process_attestation(
    state: &mut BeaconState,
    attestation: &Attestation,
    config: &Config,
) -> (r:
    Result<(), Error>)
    requires
        config.wf(),
        sizes_ok(old(state)@, *config),
    ensures
        outcome_is(r, final(state)@, spec_process_attestation(old(state)@, *attestation, *config)),
{
    let data = attestation.data;
    let current = get_current_epoch(state, config);
    let previous = get_previous_epoch(state, config);
    if data.index >= get_committee_count_at_slot(state, data.slot, config) {
        return Err(Error::NoCommitteeForSlot);
    }
    if data.target.epoch != previous && data.target.epoch != current {
        return Err(Error::TargetEpochOutOfBounds);
    }
    if data.target.epoch != compute_epoch_at_slot(data.slot, config) {
        return Err(Error::TargetSlotMismatch);
    }
    if !(data.slot as u128 + config.min_attestation_inclusion_delay as u128 <= state.slot as u128
        && state.slot as u128 <= data.slot as u128 + config.slots_per_epoch as u128) {
        return Err(Error::SlotOutOfBounds);
    }
    let committee = match get_beacon_committee(state, data.slot, data.index, config) {
        Ok(committee) => committee,
        Err(_) => {
            return Err(Error::NoCommitteeForSlot);
        },
    };
    if attestation.aggregation_bits.len() != committee.len() {
        return Err(Error::AttestationBitsInvalid);
    }
    let registry = state.validators.len();
    let proposer = match get_beacon_proposer_index(state, config) {
        Ok(proposer) => proposer,
        Err(_) => {
            return Err(Error::UnableToDetermineProducer);
        },
    };
    let is_current = data.target.epoch == current;
    let justified = if is_current {
        state.current_justified_checkpoint
    } else {
        state.previous_justified_checkpoint
    };
    if data.source != justified {
        return Err(Error::WrongSource);
    }
    let limit = config.max_attestations_per_epoch();
    let kept = if is_current {
        state.current_epoch_attestations.len()
    } else {
        state.previous_epoch_attestations.len()
    };
    if kept as u64 >= limit {
        return Err(Error::TooManyAttestations);
    }
    let indexed = IndexedAttestation {
        custody_bit_0_indices: get_attesting_indices(
            &committee,
            &attestation.aggregation_bits,
            registry,
        ),
        custody_bit_1_indices: Vec::new(),
        data,
        signature: attestation.signature,
    };
    match is_valid_indexed_attestation(state, &indexed, config) {
        Err(e) => {
            return Err(Error::InvalidIndexedAttestation(e));
        },
        Ok(_) => {},
    }
    let pending = PendingAttestation {
        aggregation_bits: copy_bits(&attestation.aggregation_bits),
        data,
        inclusion_delay: state.slot - data.slot,
        proposer_index: proposer,
    };
    let ghost view = pending.deep_view();
    if is_current {
        let ghost before = pending_views(state.current_epoch_attestations@);
        state.current_epoch_attestations.push(pending);
        assert(pending_views(state.current_epoch_attestations@) =~= before.push(view));
    } else {
        let ghost before = pending_views(state.previous_epoch_attestations@);
        state.previous_epoch_attestations.push(pending);
        assert(pending_views(state.previous_epoch_attestations@) =~= before.push(view));
    }
    Ok(())
}

} // verus!
