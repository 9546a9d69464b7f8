//! What holds of every transition.

use vstd::prelude::*;
use crate::beacon_state::{state_root, wf, BeaconState, BeaconStateView};
use crate::block_processing::lemma_block_keeps_wf;
use crate::codec::Ssz;
use crate::config::Config;
use crate::epoch::lemma_epoch_keeps_wf;
use crate::merkle::TreeHash;
use crate::primitives::{h256_from, Slot};
use crate::process_slot::{
    lemma_advance_keeps_wf, lemma_slot_keeps_wf, spec_advance_slot, spec_closed_header,
    spec_history_index, spec_process_slot, spec_process_slots, spec_state_transition,
};
use crate::types::SignedBeaconBlock;

verus! {

/// The number of bits that are set.
pub open spec fn bits_set(bits: Seq<bool>) -> nat
    decreases bits.len(),
{
    if bits.len() == 0 {
        0
    } else {
        bits_set(bits.drop_last()) + if bits.last() {
            1nat
        } else {
            0nat
        }
    }
}

proof fn lemma_bits_set_bound(bits: Seq<bool>)
    ensures
        bits_set(bits) <= bits.len(),
    decreases bits.len(),
{
    if bits.len() > 0 {
        lemma_bits_set_bound(bits.drop_last());
    }
}

/// What is to hold of a state after every transition: the registry and the balances are
/// of one length; the lifecycle epochs of every validator follow one another, the sentinel
/// for "not scheduled" counting as the latest epoch; at most four justification bits are
/// set; and the checkpoints of finality follow one another.
pub open spec fn invariants_hold(s: BeaconStateView) -> bool {
    &&& s.validators.len() == s.balances.len()
    &&& forall|i: int|
        0 <= i < s.validators.len() ==> {
            &&& (#[trigger] s.validators[i]).activation_eligibility_epoch
                <= s.validators[i].activation_epoch
            &&& s.validators[i].activation_epoch <= s.validators[i].exit_epoch
            &&& s.validators[i].exit_epoch <= s.validators[i].withdrawable_epoch
        }
    &&& bits_set(s.justification_bits) <= 4
    &&& s.finalized_checkpoint.epoch <= s.previous_justified_checkpoint.epoch
    &&& s.previous_justified_checkpoint.epoch <= s.current_justified_checkpoint.epoch
}

/// A valid state has the invariants.
pub proof fn law_valid_state_has_invariants(s: BeaconStateView, config: Config)
    requires
        config.wf(),
        wf(s, config),
    ensures
        invariants_hold(s),
{
    lemma_bits_set_bound(s.justification_bits);
    assert forall|i: int| 0 <= i < s.validators.len() implies {
        &&& (#[trigger] s.validators[i]).activation_eligibility_epoch
            <= s.validators[i].activation_epoch
        &&& s.validators[i].activation_epoch <= s.validators[i].exit_epoch
        &&& s.validators[i].exit_epoch <= s.validators[i].withdrawable_epoch
    } by {
        assert(s.validators[i].lifecycle_ordered());
    }
}

/// Advancing a valid state to a later slot leaves it valid, brings it to that slot, and
/// changes nothing where the state is at that slot already.
pub proof fn law_slots_keep_validity(s: BeaconStateView, target: Slot, config: Config)
    requires
        config.wf(),
        wf(s, config),
        s.slot <= target,
    ensures
        wf(spec_process_slots(s, target, config), config),
        invariants_hold(spec_process_slots(s, target, config)),
        spec_process_slots(s, target, config).slot == target,
        spec_process_slots(s, target, config).latest_block_header.slot
            == s.latest_block_header.slot,
        spec_process_slots(s, target, config).validators.len() == s.validators.len(),
        target == s.slot ==> spec_process_slots(s, target, config) == s,
    decreases target - s.slot,
{
    if s.slot < target {
        lemma_advance_keeps_wf(s, config);
        lemma_slot_keeps_wf(s, config);
        if (s.slot + 1) % (config.slots_per_epoch as int) == 0 {
            lemma_epoch_keeps_wf(spec_process_slot(s, config), config);
        }
        law_slots_keep_validity(spec_advance_slot(s, config), target, config);
    }
    law_valid_state_has_invariants(spec_process_slots(s, target, config), config);
}

/// Every successful transition leaves a valid state valid, with all its invariants. It
/// brings the state to the block's slot, which is no earlier than the state's own, and
/// makes the block the latest one; the latest block's slot grows with every transition, so
/// that of the pair of the state's slot and its latest block's slot one always grows.
pub proof fn law_transition_keeps_validity(
    s: BeaconStateView,
    signed_block: SignedBeaconBlock,
    validate_result: bool,
    config: Config,
)
    requires
        config.wf(),
        wf(s, config),
    ensures
        spec_state_transition(s, signed_block, validate_result, config) matches Ok(after) ==> {
            &&& wf(after, config)
            &&& invariants_hold(after)
            &&& after.slot == signed_block.message.slot
            &&& after.slot >= s.slot
            &&& after.latest_block_header.slot == after.slot
            &&& after.latest_block_header.slot > s.latest_block_header.slot
            &&& after.validators.len() >= s.validators.len()
        },
{
    let block = signed_block.message;
    match spec_state_transition(s, signed_block, validate_result, config) {
        Ok(after) => {
            law_slots_keep_validity(s, block.slot, config);
            let advanced = spec_process_slots(s, block.slot, config);
            lemma_block_keeps_wf(advanced, block, config);
            law_valid_state_has_invariants(after, config);
        },
        Err(_) => {},
    }
}

/// The result of a transition is determined by the values of the state and of the block
/// and by the profile: states of one value give results of one value, with one root.
pub proof fn law_transition_is_deterministic(
    first: BeaconState,
    second: BeaconState,
    signed_block: SignedBeaconBlock,
    validate_result: bool,
    config: Config,
)
    requires
        first@ == second@,
    ensures
        spec_state_transition(first@, signed_block, validate_result, config)
            == spec_state_transition(second@, signed_block, validate_result, config),
        spec_state_transition(first@, signed_block, validate_result, config) matches Ok(after)
            ==> spec_state_transition(second@, signed_block, validate_result, config) matches Ok(
            other,
        ) && state_root(after, config) == state_root(other, config),
{
}

/// The root of a state depends on nothing but what the state holds: two states of one value
/// have one root.
pub proof fn law_state_root_depends_on_value(
    first: BeaconState,
    second: BeaconState,
    config: Config,
)
    requires
        first@ == second@,
    ensures
        first.tree_root(config) == second.tree_root(config),
{
}

/// The value that a state is encoded as is the value that the rules are stated over.
pub proof fn lemma_state_value(s: BeaconState)
    ensures
        <BeaconState as Ssz>::value(&s) == s@,
{
    let v = <BeaconState as Ssz>::value(&s);
    let w = s@;
    assert(v.block_roots =~= w.block_roots);
    assert(v.state_roots =~= w.state_roots);
    assert(v.historical_roots =~= w.historical_roots);
    assert(v.eth1_data_votes =~= w.eth1_data_votes);
    assert(v.validators =~= w.validators);
    assert(v.balances =~= w.balances);
    assert(v.randao_mixes =~= w.randao_mixes);
    assert(v.slashings =~= w.slashings);
    assert(v.previous_epoch_attestations =~= w.previous_epoch_attestations);
    assert(v.current_epoch_attestations =~= w.current_epoch_attestations);
    assert(v.shard_states =~= w.shard_states);
    assert(v.current_light_committee.pubkeys =~= w.current_light_committee.pubkeys);
    assert(v.current_light_committee.compact_validators
        =~= w.current_light_committee.compact_validators);
    assert(v.next_light_committee.pubkeys =~= w.next_light_committee.pubkeys);
    assert(v.next_light_committee.compact_validators
        =~= w.next_light_committee.compact_validators);
    assert(v.exposed_derived_secrets =~= w.exposed_derived_secrets) by {
        assert forall|i: int| 0 <= i < v.exposed_derived_secrets.len() implies (
        #[trigger] v.exposed_derived_secrets[i]) =~= w.exposed_derived_secrets[i] by {}
    }
}

/// The root of a state depends on nothing but its encoding: two states that their profile
/// admits and that have one encoding have one root.
pub proof fn law_state_root_depends_on_encoding(
    first: BeaconState,
    second: BeaconState,
    config: Config,
)
    requires
        config.wf(),
        <BeaconState as Ssz>::fits(first.value(), config),
        <BeaconState as Ssz>::fits(second.value(), config),
        <BeaconState as Ssz>::spec_encode(first.value()) == <BeaconState as Ssz>::spec_encode(
            second.value(),
        ),
    ensures
        first.tree_root(config) == second.tree_root(config),
{
    <BeaconState as Ssz>::lemma_round_trip(first.value(), config);
    <BeaconState as Ssz>::lemma_round_trip(second.value(), config);
    lemma_state_value(first);
    lemma_state_value(second);
}

/// Decoding the encoding of a value of the protocol that its profile admits gives the
/// value back, whatever its type.
pub proof fn law_encoding_round_trip<T: Ssz>(x: T, config: Config)
    requires
        config.wf(),
        T::fits(x.value(), config),
    ensures
        T::spec_decode(T::spec_encode(x.value()), config) == Some(x.value()),
{
    T::lemma_round_trip(x.value(), config);
}

/// Advancing by slots one after the other is advancing to the last of them.
pub proof fn law_slots_compose(s: BeaconStateView, middle: Slot, target: Slot, config: Config)
    requires
        config.wf(),
        wf(s, config),
        s.slot <= middle <= target,
    ensures
        spec_process_slots(spec_process_slots(s, middle, config), target, config)
            == spec_process_slots(s, target, config),
    decreases middle - s.slot,
{
    if s.slot < middle {
        lemma_advance_keeps_wf(s, config);
        law_slots_compose(spec_advance_slot(s, config), middle, target, config);
    }
}

proof fn lemma_places_differ(a: u64, b: u64, n: u64)
    requires
        n > 0,
        a < b,
        b - a < n,
    ensures
        a % n != b % n,
{
    let qa = a / n;
    let qb = b / n;
    assert(a == qa * n + a % n && 0 <= a % n < n) by (nonlinear_arith)
        requires
            qa == a / n,
            n > 0,
    ;
    assert(b == qb * n + b % n && 0 <= b % n < n) by (nonlinear_arith)
        requires
            qb == b / n,
            n > 0,
    ;
    if a % n == b % n {
        assert(b - a == (qb - qa) * n) by (nonlinear_arith)
            requires
                a == qa * n + a % n,
                b == qb * n + b % n,
                a % n == b % n,
        ;
        assert(false) by (nonlinear_arith)
            requires
                b - a == (qb - qa) * n,
                0 < b - a < n,
                n > 0,
        ;
    }
}

/// One slot's passing records the root of the closed header at the slot's place and
/// leaves the other block roots as they are.
proof fn lemma_advance_records_header(s: BeaconStateView, config: Config)
    requires
        config.wf(),
        wf(s, config),
        s.slot < u64::MAX,
    ensures
        spec_advance_slot(s, config).block_roots == s.block_roots.update(
            spec_history_index(s.slot, config),
            h256_from(spec_closed_header(s, config).tree_root(config)),
        ),
        0 <= spec_history_index(s.slot, config) < s.block_roots.len(),
{
    lemma_slot_keeps_wf(s, config);
    let recorded = spec_process_slot(s, config);
    if (s.slot + 1) % (config.slots_per_epoch as int) == 0 {
        lemma_epoch_keeps_wf(recorded, config);
    }
}

/// Advancing to the next slot is one slot's passing.
proof fn lemma_single_step(s: BeaconStateView, target: Slot, config: Config)
    requires
        s.slot + 1 == target,
    ensures
        spec_process_slots(s, target, config) == spec_advance_slot(s, config),
{
    let next = spec_advance_slot(s, config);
    assert(next.slot == target);
    assert(spec_process_slots(next, target, config) == next);
}

/// While a state advances, the block root that it keeps for a slot is the root of the
/// latest block's header as that slot closed it, for as long as no more slots have passed
/// since than the vector of block roots has places.
pub proof fn law_block_roots_record_headers(
    s: BeaconStateView,
    slot: Slot,
    target: Slot,
    config: Config,
)
    requires
        config.wf(),
        wf(s, config),
        s.slot <= slot < target,
        target - slot <= config.slots_per_historical_root,
    ensures
        spec_process_slots(s, target, config).block_roots[spec_history_index(slot, config)]
            == h256_from(
            spec_closed_header(spec_process_slots(s, slot, config), config).tree_root(config),
        ),
    decreases target - slot,
{
    let last = (target - 1) as u64;
    law_slots_compose(s, last, target, config);
    law_slots_keep_validity(s, last, config);
    let before = spec_process_slots(s, last, config);
    lemma_single_step(before, target, config);
    lemma_advance_records_header(before, config);
    if slot < last {
        law_block_roots_record_headers(s, slot, last, config);
        lemma_places_differ(slot, last, config.slots_per_historical_root);
    }
}

/// After a transition the block root that the state keeps for a slot that passed on the
/// way is the root of the latest block's header as that slot closed it, for as long as no
/// more slots have passed since than the vector of block roots has places: a block
/// changes no block root.
pub proof fn law_transition_records_headers(
    s: BeaconStateView,
    signed_block: SignedBeaconBlock,
    validate_result: bool,
    slot: Slot,
    config: Config,
)
    requires
        config.wf(),
        wf(s, config),
        s.slot <= slot < signed_block.message.slot,
        signed_block.message.slot - slot <= config.slots_per_historical_root,
    ensures
        spec_state_transition(s, signed_block, validate_result, config) matches Ok(after)
            ==> after.block_roots[spec_history_index(slot, config)] == h256_from(
            spec_closed_header(spec_process_slots(s, slot, config), config).tree_root(config),
        ),
{
    let block = signed_block.message;
    if spec_state_transition(s, signed_block, validate_result, config) is Ok {
        law_block_roots_record_headers(s, slot, block.slot, config);
        law_slots_keep_validity(s, block.slot, config);
        lemma_block_keeps_wf(spec_process_slots(s, block.slot, config), block, config);
    }
}

} // verus!
