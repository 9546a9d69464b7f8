//! The proposer slashings of a block.

use vstd::prelude::*;
use crate::accessors::{
    compute_epoch_at_slot, compute_signing_root, get_current_epoch, get_domain, spec_current_epoch,
    spec_get_domain, spec_signing_root,
};
use crate::beacon_state::{
    block_frame, sizes_ok, spec_epoch_at, wf_core, BeaconState, BeaconStateView,
};
use crate::block_processing::{is_signed, outcome_is, spec_signed, Error};
use crate::config::Config;
use crate::merkle::TreeHash;
use crate::penalties::{lemma_slash_keeps_wf, slash_validator, spec_slash_validator};
use crate::predicates::{is_slashable_validator, spec_is_slashable_validator};
use crate::primitives::PublicKeyBytes;
use crate::types::{ProposerSlashing, SignedBeaconBlockHeader};

verus! {

/// Whether a header bears the signature of the key: over the signing root of the header
/// under the proposer domain of the header's epoch.
pub open spec fn spec_header_signed(
    s: BeaconStateView,
    pubkey: PublicKeyBytes,
    signed: SignedBeaconBlockHeader,
    config: Config,
) -> bool {
    let domain = spec_get_domain(
        s,
        config.domain_beacon_proposer,
        Some(spec_epoch_at(signed.message.slot, config)),
        config,
    );
    spec_signed(
        pubkey,
        spec_signing_root(signed.message.tree_root(config), domain, config),
        signed.signature,
        domain,
    )
}

fn header_signed(
    state: &BeaconState,
    pubkey: &PublicKeyBytes,
    signed: &SignedBeaconBlockHeader,
    config: &Config,
) -> (r: bool)
    requires
        config.wf(),
    ensures
        r == spec_header_signed(state@, *pubkey, *signed, *config),
{
    let epoch = compute_epoch_at_slot(signed.message.slot, config);
    let domain = get_domain(state, config.domain_beacon_proposer, Some(epoch), config);
    let root = compute_signing_root(&signed.message, domain, config);
    is_signed(pubkey, &root, &signed.signature, domain)
}

/// A proposer slashing is accepted where its two headers are of one slot and one proposer
/// and differ, the proposer is in the registry and can be slashed, and both headers bear
/// its signature. The proposer is then slashed.
pub open spec fn spec_process_proposer_slashing(
    s: BeaconStateView,
    slashing: ProposerSlashing,
    config: Config,
) -> Result<BeaconStateView, Error> {
    let header_1 = slashing.signed_header_1.message;
    let header_2 = slashing.signed_header_2.message;
    if header_1.slot != header_2.slot {
        Err(Error::HeaderSlotsDiffer)
    } else if header_1.proposer_index != header_2.proposer_index {
        Err(Error::HeaderProposersDiffer)
    } else if header_1 == header_2 {
        Err(Error::HeadersEqual)
    } else if header_1.proposer_index >= s.validators.len() {
        Err(Error::UnknownValidator)
    } else {
        let proposer = s.validators[header_1.proposer_index as int];
        if !spec_is_slashable_validator(proposer, spec_current_epoch(s, config)) {
            Err(Error::ValidatorNotSlashable)
        } else if !(spec_header_signed(s, proposer.pubkey, slashing.signed_header_1, config)
            && spec_header_signed(s, proposer.pubkey, slashing.signed_header_2, config)) {
            Err(Error::InvalidHeaderSignature)
        } else {
            spec_slash_validator(s, header_1.proposer_index as int, config)
        }
    }
}

/// A proposer slashing leaves a valid state valid.
pub proof fn lemma_proposer_slashing_keeps_wf(
    s: BeaconStateView,
    slashing: ProposerSlashing,
    config: Config,
)
    requires
        config.wf(),
        wf_core(s, config),
    ensures
        spec_process_proposer_slashing(s, slashing, config) matches Ok(after) ==> wf_core(
            after,
            config,
        ) && block_frame(s, after) && after.validators.len() == s.validators.len(),
{
    let index = slashing.signed_header_1.message.proposer_index;
    if spec_process_proposer_slashing(s, slashing, config) is Ok {
        lemma_slash_keeps_wf(s, index as int, config);
    }
}

/// Checks a proposer slashing and slashes the proposer.
pub fn process_proposer_slashing(
    state: &mut BeaconState,
    slashing: &ProposerSlashing,
    config: &Config,
) -> (r: Result<(), Error>)
    requires
        config.wf(),
        sizes_ok(old(state)@, *config),
    ensures
        outcome_is(
            r,
            final(state)@,
            spec_process_proposer_slashing(old(state)@, *slashing, *config),
        ),
{
    let header_1 = &slashing.signed_header_1.message;
    let header_2 = &slashing.signed_header_2.message;
    if header_1.slot != header_2.slot {
        return Err(Error::HeaderSlotsDiffer);
    }
    if header_1.proposer_index != header_2.proposer_index {
        return Err(Error::HeaderProposersDiffer);
    }
    if header_1 == header_2 {
        return Err(Error::HeadersEqual);
    }
    if header_1.proposer_index >= state.validators.len() as u64 {
        return Err(Error::UnknownValidator);
    }
    let index = header_1.proposer_index as usize;
    let proposer = state.validators[index];
    if !is_slashable_validator(&proposer, get_current_epoch(state, config)) {
        return Err(Error::ValidatorNotSlashable);
    }
    if !(header_signed(state, &proposer.pubkey, &slashing.signed_header_1, config)
        && header_signed(state, &proposer.pubkey, &slashing.signed_header_2, config)) {
        return Err(Error::InvalidHeaderSignature);
    }
    slash_validator(state, index, config)
}

} // verus!
