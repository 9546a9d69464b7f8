//! The state transition: slots pass, and a block is applied.

use vstd::prelude::*;
use crate::accessors::{compute_signing_root, get_domain, spec_get_domain, spec_signing_root};
use crate::beacon_state::{sizes_ok, state_root, wf, BeaconState, BeaconStateView};
use crate::block_processing::{is_signed, process_block, spec_process_block, spec_signed};
use crate::config::Config;
use crate::epoch::{lemma_epoch_keeps_wf, process_epoch, spec_process_epoch};
use crate::limits::block_within_limits;
use crate::merkle::TreeHash;
use crate::primitives::{h256_from, lemma_h256_from, H256, Slot};
use crate::types::{BeaconBlockHeader, SignedBeaconBlock};

verus! {

/// Why a transition was rejected.
#[derive(Clone, Copy, Debug, PartialEq, Eq, Structural)]
pub enum Error {
    /// A list of the block is longer than its limit.
    OversizedBlock,
    /// The block is of a slot that the state has passed.
    SlotOutOfBounds,
    /// The block does not bear its proposer's signature.
    InvalidBlockSignature,
    /// The block was rejected while it was applied.
    InvalidBlock(crate::block_processing::Error),
    /// The state after the block is not the one that the block declares.
    BadStateRoot,
}

/// The header of the latest block as a slot closes: where its state root is still open,
/// it is filled with the root of the state as the slot began.
pub open spec fn spec_closed_header(s: BeaconStateView, config: Config) -> BeaconBlockHeader {
    if s.latest_block_header.state_root == H256::spec_zero() {
        BeaconBlockHeader {
            state_root: h256_from(state_root(s, config)),
            ..s.latest_block_header
        }
    } else {
        s.latest_block_header
    }
}

/// The place of a slot in the vectors of recent roots.
pub open spec fn spec_history_index(slot: Slot, config: Config) -> int {
    (slot % config.slots_per_historical_root) as int
}

/// What the end of a slot records: the state's root and the root of the closed header of
/// the latest block, both at the slot's place in the vectors of recent roots.
pub open spec fn spec_process_slot(s: BeaconStateView, config: Config) -> BeaconStateView {
    let at = spec_history_index(s.slot, config);
    let header = spec_closed_header(s, config);
    BeaconStateView {
        state_roots: s.state_roots.update(at, h256_from(state_root(s, config))),
        latest_block_header: header,
        block_roots: s.block_roots.update(at, h256_from(header.tree_root(config))),
        ..s
    }
}

/// Records the end of the state's slot in the vectors of recent roots.
pub fn process_slot(state: &mut BeaconState, config: &Config)
    requires
        config.wf(),
        sizes_ok(old(state)@, *config),
    ensures
        final(state)@ == spec_process_slot(old(state)@, *config),
{
    let previous_state_root = state.tree_hash_root(config);
    proof {
        lemma_h256_from(previous_state_root);
    }
    let at = (state.slot % config.slots_per_historical_root) as usize;
    state.state_roots.set(at, previous_state_root);
    if state.latest_block_header.state_root.is_zero() {
        state.latest_block_header.state_root = previous_state_root;
    }
    let previous_block_root = state.latest_block_header.tree_hash_root(config);
    proof {
        lemma_h256_from(previous_block_root);
    }
    state.block_roots.set(at, previous_block_root);
}

/// One slot passes: its end is recorded, the epoch is processed where the slot is the last
/// of its epoch, and the slot number moves on by one.
pub open spec fn spec_advance_slot(s: BeaconStateView, config: Config) -> BeaconStateView {
    let recorded = spec_process_slot(s, config);
    let processed = if (s.slot + 1) % (config.slots_per_epoch as int) == 0 {
        spec_process_epoch(recorded, config)
    } else {
        recorded
    };
    BeaconStateView { slot: (s.slot + 1) as u64, ..processed }
}

/// Slots pass until the state is at `target`.
pub open spec fn spec_process_slots(
    s: BeaconStateView,
    target: Slot,
    config: Config,
) -> BeaconStateView
    decreases target - s.slot,
{
    if s.slot >= target {
        s
    } else {
        spec_process_slots(spec_advance_slot(s, config), target, config)
    }
}

proof fn lemma_epoch_of_next_slot(slot: u64, per_epoch: u64)
    requires
        per_epoch > 0,
        slot < u64::MAX,
    ensures
        (slot + 1) % (per_epoch as int) == 0 ==> (slot + 1) / (per_epoch as int) == slot / per_epoch
            + 1,
        (slot + 1) % (per_epoch as int) != 0 ==> (slot + 1) / (per_epoch as int) == slot
            / per_epoch,
{
    let q = slot / per_epoch;
    let r = slot % per_epoch;
    assert(slot == q * per_epoch + r && 0 <= r < per_epoch) by (nonlinear_arith)
        requires
            q == slot / per_epoch,
            r == slot % per_epoch,
            per_epoch > 0,
    ;
    if r + 1 == per_epoch {
        assert(slot + 1 == (q + 1) * per_epoch) by (nonlinear_arith)
            requires
                slot == q * per_epoch + r,
                r + 1 == per_epoch,
        ;
        assert((slot + 1) / (per_epoch as int) == q + 1 && (slot + 1) % (per_epoch as int) == 0)
            by (nonlinear_arith)
            requires
                slot + 1 == (q + 1) * per_epoch,
                per_epoch > 0,
        ;
    } else {
        assert((slot + 1) / (per_epoch as int) == q && (slot + 1) % (per_epoch as int) == r + 1)
            by (nonlinear_arith)
            requires
                slot + 1 == q * per_epoch + (r + 1),
                0 <= r + 1 < per_epoch,
        ;
    }
}

/// The end of a slot leaves a valid state valid.
pub proof fn lemma_slot_keeps_wf(s: BeaconStateView, config: Config)
    requires
        config.wf(),
        wf(s, config),
    ensures
        wf(spec_process_slot(s, config), config),
        spec_process_slot(s, config).slot == s.slot,
{
}

/// A slot's passing leaves a valid state valid: the lists keep their lengths, every
/// validator's lifecycle stays in order, and so do the checkpoints.
pub proof fn lemma_advance_keeps_wf(s: BeaconStateView, config: Config)
    requires
        config.wf(),
        wf(s, config),
        s.slot < u64::MAX,
    ensures
        wf(spec_advance_slot(s, config), config),
        spec_advance_slot(s, config).slot == s.slot + 1,
        spec_advance_slot(s, config).validators.len() == s.validators.len(),
{
    let recorded = spec_process_slot(s, config);
    lemma_slot_keeps_wf(s, config);
    lemma_epoch_of_next_slot(s.slot, config.slots_per_epoch);
    if (s.slot + 1) % (config.slots_per_epoch as int) == 0 {
        lemma_epoch_keeps_wf(recorded, config);
    }
}

/// Advances the state slot by slot to `slot`, processing every epoch that ends on the way.
pub fn process_slots(state: &mut BeaconState, slot: Slot, config: &Config)
    requires
        config.wf(),
        wf(old(state)@, *config),
        old(state).slot <= slot,
    ensures
        final(state)@ == spec_process_slots(old(state)@, slot, *config),
        final(state).slot == slot,
        wf(final(state)@, *config),
        final(state)@.validators.len() == old(state)@.validators.len(),
{
    while state.slot < slot
        invariant
            config.wf(),
            wf(state@, *config),
            state.slot <= slot,
            spec_process_slots(state@, slot, *config) == spec_process_slots(
                old(state)@,
                slot,
                *config,
            ),
            state@.validators.len() == old(state)@.validators.len(),
        decreases slot - state.slot,
    {
        let ghost before = state@;
        proof {
            lemma_advance_keeps_wf(before, *config);
            lemma_slot_keeps_wf(before, *config);
        }
        process_slot(state, config);
        if (state.slot + 1) % config.slots_per_epoch == 0 {
            process_epoch(state, config);
        }
        state.slot = state.slot + 1;
        assert(state@ == spec_advance_slot(before, *config));
    }
}

/// Whether a block bears its proposer's signature: the proposer that the block names is in
/// the registry, and the signature is one of its key over the signing root of the block
/// under the proposer domain of the state's epoch.
pub open spec fn spec_block_signature_valid(
    s: BeaconStateView,
    signed_block: SignedBeaconBlock,
    config: Config,
) -> bool {
    let block = signed_block.message;
    let domain = spec_get_domain(s, config.domain_beacon_proposer, None, config);
    block.proposer_index < s.validators.len() && spec_signed(
        s.validators[block.proposer_index as int].pubkey,
        spec_signing_root(block.tree_root(config), domain, config),
        signed_block.signature,
        domain,
    )
}

/// Whether a block bears its proposer's signature.
pub fn verify_block_signature(
    state: &BeaconState,
    signed_block: &SignedBeaconBlock,
    config: &Config,
) -> (r: bool)
    requires
        config.wf(),
        signed_block.message.hashable(*config),
    ensures
        r == spec_block_signature_valid(state@, *signed_block, *config),
{
    let block = &signed_block.message;
    if block.proposer_index >= state.validators.len() as u64 {
        return false;
    }
    let proposer = &state.validators[block.proposer_index as usize];
    let domain = get_domain(state, config.domain_beacon_proposer, None, config);
    let signing_root = compute_signing_root(block, domain, config);
    is_signed(&proposer.pubkey, &signing_root, &signed_block.signature, domain)
}

/// The transition of a state by a block: the block has to be within its limits and not of
/// a passed slot; the state advances to the block's slot; where the result is validated,
/// the block has to bear its proposer's signature; the block is applied; and where the
/// result is validated, the root of the state has to be the one that the block declares.
pub open spec fn spec_state_transition(
    s: BeaconStateView,
    signed_block: SignedBeaconBlock,
    validate_result: bool,
    config: Config,
) -> Result<BeaconStateView, Error> {
    let block = signed_block.message;
    if !block.hashable(config) {
        Err(Error::OversizedBlock)
    } else if block.slot < s.slot {
        Err(Error::SlotOutOfBounds)
    } else {
        let advanced = spec_process_slots(s, block.slot, config);
        if validate_result && !spec_block_signature_valid(advanced, signed_block, config) {
            Err(Error::InvalidBlockSignature)
        } else {
            match spec_process_block(advanced, block, config) {
                Err(e) => Err(Error::InvalidBlock(e)),
                Ok(after) => if validate_result && block.state_root != h256_from(
                    state_root(after, config),
                ) {
                    Err(Error::BadStateRoot)
                } else {
                    Ok(after)
                },
            }
        }
    }
}

/// Applies a signed block to the state. On success the state is the post-state; on
/// failure it is to be thrown away.
pub fn state_transition(
    state: &mut BeaconState,
    signed_block: &SignedBeaconBlock,
    validate_result: bool,
    config: &Config,
) -> (r: Result<(), Error>)
    requires
        config.wf(),
        wf(old(state)@, *config),
    ensures
        match spec_state_transition(old(state)@, *signed_block, validate_result, *config) {
            Ok(after) => r is Ok && final(state)@ == after,
            Err(e) => r == Err::<(), Error>(e),
        },
        r is Ok ==> wf(final(state)@, *config) && final(state).slot == signed_block.message.slot
            && final(state).slot >= old(state).slot && final(state)@.validators.len()
            >= old(state)@.validators.len(),
{
    let block = &signed_block.message;
    if !block_within_limits(block, config) {
        return Err(Error::OversizedBlock);
    }
    if block.slot < state.slot {
        return Err(Error::SlotOutOfBounds);
    }
    process_slots(state, block.slot, config);
    if validate_result {
        if !verify_block_signature(state, signed_block, config) {
            return Err(Error::InvalidBlockSignature);
        }
    }
    match process_block(state, block, config) {
        Err(e) => {
            return Err(Error::InvalidBlock(e));
        },
        Ok(_) => {},
    }
    if validate_result {
        let root = state.tree_hash_root(config);
        proof {
            lemma_h256_from(root);
        }
        if block.state_root != root {
            return Err(Error::BadStateRoot);
        }
    }
    Ok(())
}

} // verus!
