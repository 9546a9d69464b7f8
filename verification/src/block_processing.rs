//! The application of a block to a state: header, reveal, vote on the deposit contract,
//! operations.

use vstd::prelude::*;
use crate::accessors::{
    get_current_epoch, get_domain, get_randao_mix, spec_current_epoch, spec_get_domain,
};
use crate::beacon_state::{block_frame, sizes_ok, wf, wf_core, BeaconState, BeaconStateView};
use crate::config::Config;
use crate::crypto::{
    bls_pubkey_decodes, bls_signature_decodes, bls_verifies, bls_verify, hash, sha256,
};
use crate::merkle::TreeHash;
use crate::primitives::{
    h256_from, lemma_h256_from, spec_xor, xor, Domain, H256, PublicKeyBytes, SignatureBytes,
};
use crate::proposer::{get_beacon_proposer_index, spec_beacon_proposer_index};
use crate::types::{
    Attestation, AttesterSlashing, BeaconBlock, BeaconBlockBody, BeaconBlockHeader, Deposit,
    Eth1Data, ProposerSlashing, SignedVoluntaryExit,
};

verus! {

/// Why a block was rejected.
#[derive(Clone, Copy, Debug, PartialEq, Eq, Structural)]
pub enum Error {
    /// The block is not of the state's slot.
    SlotMismatch,
    /// The block is not later than the latest block that the state knows.
    BlockNotLater,
    /// The state has nobody who could propose.
    UnableToDetermineProducer,
    /// The block names another proposer than the one whose turn it is.
    WrongProposer,
    /// The block does not follow the latest block that the state knows.
    WrongParentRoot,
    /// The proposer has been slashed.
    ProposerSlashed,
    /// The reveal is not the proposer's signature of the epoch.
    InvalidRandaoReveal,
    /// The votes on the deposit contract have no room left.
    TooManyEth1Votes,
    /// The block does not carry the deposits that are due.
    WrongDepositCount,
    /// The two headers of a proposer slashing are of different slots.
    HeaderSlotsDiffer,
    /// The two headers of a proposer slashing are of different proposers.
    HeaderProposersDiffer,
    /// The two headers of a proposer slashing are one and the same.
    HeadersEqual,
    /// An index names nobody in the registry.
    UnknownValidator,
    /// The validator cannot be slashed any more, or not yet.
    ValidatorNotSlashable,
    /// A header of a proposer slashing does not bear the proposer's signature.
    InvalidHeaderSignature,
    /// The two attestations of an attester slashing do not contradict each other.
    AttestationsNotSlashable,
    /// An indexed attestation breaks one of its rules.
    InvalidIndexedAttestation(crate::error::Error),
    /// An attester slashing slashes nobody.
    NobodySlashed,
    /// The attestation's slot has no committee of its index.
    NoCommitteeForSlot,
    /// The attestation's target is neither the current nor the previous epoch.
    TargetEpochOutOfBounds,
    /// The attestation's slot does not lie in its target epoch.
    TargetSlotMismatch,
    /// The attestation comes too early or too late for the state's slot.
    SlotOutOfBounds,
    /// The attestation has not one bit for each member of its committee.
    AttestationBitsInvalid,
    /// The attestation's source is not the checkpoint that the state has justified.
    WrongSource,
    /// The pending attestations have no room left.
    TooManyAttestations,
    /// The deposit's branch does not lead to the deposit root.
    InvalidDepositProof,
    /// The count of deposits has no room left.
    DepositIndexOverflow,
    /// The registry has no room left.
    TooManyValidators,
    /// The validator that wants to leave is not active.
    ValidatorNotActive,
    /// The validator is leaving already.
    ExitAlreadyInitiated,
    /// The exit is meant for a later epoch.
    ExitNotYetValid,
    /// The validator has not been active for long enough.
    ValidatorTooYoung,
    /// The exit does not bear the validator's signature.
    InvalidExitSignature,
}

/// How a step of block processing ended, against what it is meant to do: on success the
/// state is the one that is meant, and on failure the failure is.
pub open spec fn outcome_is(
    r: Result<(), Error>,
    now: BeaconStateView,
    want: Result<BeaconStateView, Error>,
) -> bool {
    match want {
        Ok(after) => r is Ok && now == after,
        Err(e) => r == Err::<(), Error>(e),
    }
}

/// Whether the check of a signature found it to hold: it does not where the signature was
/// checked and failed, nor where a key or the signature could not be decoded.
pub open spec fn spec_signature_holds(checked: Result<bool, blst::BLST_ERROR>) -> bool {
    checked matches Ok(valid) && valid
}

/// Whether the check of a signature found it to hold.
pub fn signature_holds(checked: &Result<bool, blst::BLST_ERROR>) -> (r: bool)
    ensures
        r == spec_signature_holds(*checked),
{
    match checked {
        Ok(valid) => *valid,
        Err(_) => false,
    }
}

/// Whether `signature` is a signature of the key over the message under the domain; it is
/// none where the key or the signature cannot be decoded.
pub open spec fn spec_signed(
    pubkey: PublicKeyBytes,
    message: Seq<u8>,
    signature: SignatureBytes,
    domain: Domain,
) -> bool {
    bls_pubkey_decodes(pubkey@) && bls_signature_decodes(signature@) && bls_verifies(
        pubkey@,
        message,
        signature@,
        domain@,
    )
}

/// Checks a signature of a key over a root under a domain.
pub fn is_signed(
    pubkey: &PublicKeyBytes,
    message: &H256,
    signature: &SignatureBytes,
    domain: Domain,
) -> (r: bool)
    ensures
        r == spec_signed(*pubkey, message@, *signature, domain),
{
    let checked = bls_verify(pubkey, message.0.as_slice(), signature, domain);
    signature_holds(&checked)
}

/// The header that a block leaves in the state: its state root is open until the slot
/// closes.
pub open spec fn spec_open_header(block: BeaconBlock, config: Config) -> BeaconBlockHeader {
    BeaconBlockHeader {
        slot: block.slot,
        proposer_index: block.proposer_index,
        parent_root: block.parent_root,
        state_root: H256::spec_zero(),
        body_root: h256_from(block.body.tree_root(config)),
    }
}

/// The header of a block is accepted where the block is of the state's slot and later than
/// the latest block, names the proposer whose turn it is, follows the latest block, and
/// its proposer has not been slashed. It then becomes the state's latest header.
pub open spec fn spec_process_block_header(
    s: BeaconStateView,
    block: BeaconBlock,
    config: Config,
) -> Result<
    BeaconStateView,
    Error,
> {
    if block.slot != s.slot {
        Err(Error::SlotMismatch)
    } else if block.slot <= s.latest_block_header.slot {
        Err(Error::BlockNotLater)
    } else {
        match spec_beacon_proposer_index(s, config) {
            None => Err(Error::UnableToDetermineProducer),
            Some(proposer) => if block.proposer_index != proposer {
                Err(Error::WrongProposer)
            } else if block.parent_root != h256_from(s.latest_block_header.tree_root(config)) {
                Err(Error::WrongParentRoot)
            } else if s.validators[proposer as int].slashed {
                Err(Error::ProposerSlashed)
            } else {
                Ok(BeaconStateView { latest_block_header: spec_open_header(block, config), ..s })
            },
        }
    }
}

/// Checks the header of a block and makes it the state's latest header.
pub fn process_block_header(state: &mut BeaconState, block: &BeaconBlock, config: &Config) -> (r:
    Result<(), Error>)
    requires
        config.wf(),
        sizes_ok(old(state)@, *config),
        block.hashable(*config),
    ensures
        outcome_is(r, final(state)@, spec_process_block_header(old(state)@, *block, *config)),
{
    if block.slot != state.slot {
        return Err(Error::SlotMismatch);
    }
    if block.slot <= state.latest_block_header.slot {
        return Err(Error::BlockNotLater);
    }
    let registry = state.validators.len();
    let proposer = match get_beacon_proposer_index(state, config) {
        Ok(proposer) => proposer,
        Err(_) => {
            return Err(Error::UnableToDetermineProducer);
        },
    };
    if block.proposer_index != proposer {
        return Err(Error::WrongProposer);
    }
    let parent = state.latest_block_header.tree_hash_root(config);
    proof {
        lemma_h256_from(parent);
    }
    if block.parent_root != parent {
        return Err(Error::WrongParentRoot);
    }
    if state.validators[proposer as usize].slashed {
        return Err(Error::ProposerSlashed);
    }
    let body_root = block.body.tree_hash_root(config);
    proof {
        lemma_h256_from(body_root);
    }
    state.latest_block_header = BeaconBlockHeader {
        slot: block.slot,
        proposer_index: block.proposer_index,
        parent_root: block.parent_root,
        state_root: H256::zero(),
        body_root,
    };
    Ok(())
}

/// The place of an epoch in the vector of mixes.
pub open spec fn spec_mix_index(s: BeaconStateView, config: Config) -> int {
    (spec_current_epoch(s, config) % config.epochs_per_historical_vector) as int
}

/// The reveal of a block is accepted where it is the proposer's signature of the epoch
/// under the domain of reveals. Its digest is then mixed into the epoch's randomness.
pub open spec fn spec_process_randao(
    s: BeaconStateView,
    body: BeaconBlockBody,
    config: Config,
) -> Result<
    BeaconStateView,
    Error,
> {
    match spec_beacon_proposer_index(s, config) {
        None => Err(Error::UnableToDetermineProducer),
        Some(proposer) => {
            let epoch = spec_current_epoch(s, config);
            let domain = spec_get_domain(s, config.domain_randao, None, config);
            if !spec_signed(
                s.validators[proposer as int].pubkey,
                epoch.tree_root(config),
                body.randao_reveal,
                domain,
            ) {
                Err(Error::InvalidRandaoReveal)
            } else {
                let at = spec_mix_index(s, config);
                Ok(
                    BeaconStateView {
                        randao_mixes: s.randao_mixes.update(
                            at,
                            spec_xor(s.randao_mixes[at], h256_from(sha256(body.randao_reveal@))),
                        ),
                        ..s
                    },
                )
            }
        },
    }
}

/// Checks the reveal of a block and mixes it into the randomness of the epoch.
pub fn process_randao(state: &mut BeaconState, body: &BeaconBlockBody, config: &Config) -> (r:
    Result<(), Error>)
    requires
        config.wf(),
        sizes_ok(old(state)@, *config),
    ensures
        outcome_is(r, final(state)@, spec_process_randao(old(state)@, *body, *config)),
{
    let registry = state.validators.len();
    let proposer = match get_beacon_proposer_index(state, config) {
        Ok(proposer) => proposer,
        Err(_) => {
            return Err(Error::UnableToDetermineProducer);
        },
    };
    let epoch = get_current_epoch(state, config);
    let domain = get_domain(state, config.domain_randao, None, config);
    let message = epoch.tree_hash_root(config);
    let pubkey = state.validators[proposer as usize].pubkey;
    if !is_signed(&pubkey, &message, &body.randao_reveal, domain) {
        return Err(Error::InvalidRandaoReveal);
    }
    let digest = hash(body.randao_reveal.0.as_slice());
    let revealed = H256::from_slice(digest.as_slice());
    proof {
        assert(digest@.take(32) =~= digest@);
        lemma_h256_from(revealed);
    }
    let at = (epoch % config.epochs_per_historical_vector) as usize;
    let mix = xor(&get_randao_mix(state, epoch, config), &revealed);
    state.randao_mixes.set(at, mix);
    Ok(())
}

/// The number of the first `n` votes that are for `vote`.
pub open spec fn vote_count(votes: Seq<Eth1Data>, vote: Eth1Data, n: nat) -> nat
    decreases n,
{
    if n == 0 {
        0
    } else {
        vote_count(votes, vote, (n - 1) as nat) + if votes[n - 1] == vote {
            1nat
        } else {
            0nat
        }
    }
}

/// The vote of a block on the deposit contract is added to the votes of the period, while
/// they have room. What more than half of a period's slots have voted for becomes the
/// state's view of the deposit contract.
pub open spec fn spec_process_eth1_data(
    s: BeaconStateView,
    body: BeaconBlockBody,
    config: Config,
) -> Result<
    BeaconStateView,
    Error,
> {
    if s.eth1_data_votes.len() >= config.slots_per_eth1_voting_period {
        Err(Error::TooManyEth1Votes)
    } else {
        let votes = s.eth1_data_votes.push(body.eth1_data);
        Ok(
            BeaconStateView {
                eth1_data_votes: votes,
                eth1_data: if vote_count(votes, body.eth1_data, votes.len()) * 2
                    > config.slots_per_eth1_voting_period {
                    body.eth1_data
                } else {
                    s.eth1_data
                },
                ..s
            },
        )
    }
}

/// Counts the vote of a block on the deposit contract.
pub fn process_eth1_data(state: &mut BeaconState, body: &BeaconBlockBody, config: &Config) -> (r:
    Result<(), Error>)
    requires
        config.wf(),
        sizes_ok(old(state)@, *config),
    ensures
        outcome_is(r, final(state)@, spec_process_eth1_data(old(state)@, *body, *config)),
{
    if state.eth1_data_votes.len() as u64 >= config.slots_per_eth1_voting_period {
        return Err(Error::TooManyEth1Votes);
    }
    state.eth1_data_votes.push(body.eth1_data);
    let n = state.eth1_data_votes.len();
    let mut count: u64 = 0;
    let mut i: usize = 0;
    while i < n
        invariant
            n == state@.eth1_data_votes.len(),
            n <= 0x10_0000,
            i <= n,
            count == vote_count(state@.eth1_data_votes, body.eth1_data, i as nat),
            count <= i,
        decreases n - i,
    {
        if state.eth1_data_votes[i] == body.eth1_data {
            count = count + 1;
        }
        i += 1;
    }
    if count * 2 > config.slots_per_eth1_voting_period {
        state.eth1_data = body.eth1_data;
    }
    Ok(())
}

/// The first `n` proposer slashings of a list are applied one after the other; the first
/// that is rejected ends it.
pub open spec fn spec_apply_proposer_slashings(
    s: BeaconStateView,
    list: Seq<ProposerSlashing>,
    n: nat,
    config: Config,
) -> Result<
    BeaconStateView,
    Error,
>
    decreases n,
{
    if n == 0 {
        Ok(s)
    } else {
        match spec_apply_proposer_slashings(s, list, (n - 1) as nat, config) {
            Err(e) => Err(e),
            Ok(before) => crate::proposer_slashing::spec_process_proposer_slashing(
                before,
                list[n - 1],
                config,
            ),
        }
    }
}

/// The proposer slashings of a list leave a valid state valid.
pub proof fn lemma_proposer_slashings_keep_wf(
    s: BeaconStateView,
    list: Seq<ProposerSlashing>,
    n: nat,
    config: Config,
)
    requires
        config.wf(),
        wf_core(s, config),
        n <= list.len(),
    ensures
        spec_apply_proposer_slashings(
            s,
            list,
            n,
            config,
        ) matches Ok(after) ==> wf_core(after, config)
            && block_frame(s, after),
    decreases n,
{
    if n > 0 {
        lemma_proposer_slashings_keep_wf(s, list, (n - 1) as nat, config);
        match spec_apply_proposer_slashings(s, list, (n - 1) as nat, config) {
            Err(e) => {},
            Ok(before) => {
                crate::proposer_slashing::lemma_proposer_slashing_keeps_wf(
                    before,
                    list[n - 1],
                    config,
                );
            },
        }
    }
}

fn apply_proposer_slashings(
    state: &mut BeaconState,
    list: &Vec<ProposerSlashing>,
    config: &Config,
) -> (r: Result<(), Error>)
    requires
        config.wf(),
        wf_core(old(state)@, *config),
    ensures
        outcome_is(
            r,
            final(state)@,
            spec_apply_proposer_slashings(old(state)@, list@, list@.len(), *config),
        ),
{
    let mut i: usize = 0;
    while i < list.len()
        invariant
            config.wf(),
            wf_core(old(state)@, *config),
            i <= list@.len(),
            spec_apply_proposer_slashings(
                old(state)@,
                list@,
                i as nat,
                *config,
            ) == Ok::<BeaconStateView, Error>(
                state@,
            ),
        decreases list@.len() - i,
    {
        proof {
            lemma_proposer_slashings_keep_wf(old(state)@, list@, i as nat, *config);
        }
        match crate::proposer_slashing::process_proposer_slashing(state, &list[i], config) {
            Err(e) => {
                proof {
                    let failed = spec_apply_proposer_slashings(
                        old(state)@,
                        list@,
                        (i + 1) as nat,
                        *config,
                    );
                    assert(failed == Err::<BeaconStateView, Error>(e));
                    lemma_proposer_slashings_fail(
                        old(state)@,
                        list@,
                        (i + 1) as nat,
                        list@.len(),
                        *config,
                    );
                }
                return Err(e);
            },
            Ok(_) => {},
        }
        i += 1;
    }
    Ok(())
}

proof fn lemma_proposer_slashings_fail(
    s: BeaconStateView,
    list: Seq<ProposerSlashing>,
    k: nat,
    n: nat,
    config: Config,
)
    requires
        k <= n,
        spec_apply_proposer_slashings(s, list, k, config) is Err,
    ensures
        spec_apply_proposer_slashings(
            s,
            list,
            n,
            config,
        ) == spec_apply_proposer_slashings(s, list, k, config),
    decreases n - k,
{
    if k < n {
        lemma_proposer_slashings_fail(s, list, k, (n - 1) as nat, config);
    }
}

/// The first `n` attester slashings of a list are applied one after the other; the first
/// that is rejected ends it.
pub open spec fn spec_apply_attester_slashings(
    s: BeaconStateView,
    list: Seq<AttesterSlashing>,
    n: nat,
    config: Config,
) -> Result<
    BeaconStateView,
    Error,
>
    decreases n,
{
    if n == 0 {
        Ok(s)
    } else {
        match spec_apply_attester_slashings(s, list, (n - 1) as nat, config) {
            Err(e) => Err(e),
            Ok(before) => crate::attester_slashing::spec_process_attester_slashing(
                before,
                list[n - 1],
                config,
            ),
        }
    }
}

/// The attester slashings of a list leave a valid state valid.
pub proof fn lemma_attester_slashings_keep_wf(
    s: BeaconStateView,
    list: Seq<AttesterSlashing>,
    n: nat,
    config: Config,
)
    requires
        config.wf(),
        wf_core(s, config),
        n <= list.len(),
    ensures
        spec_apply_attester_slashings(
            s,
            list,
            n,
            config,
        ) matches Ok(after) ==> wf_core(after, config)
            && block_frame(s, after),
    decreases n,
{
    if n > 0 {
        lemma_attester_slashings_keep_wf(s, list, (n - 1) as nat, config);
        match spec_apply_attester_slashings(s, list, (n - 1) as nat, config) {
            Err(e) => {},
            Ok(before) => {
                crate::attester_slashing::lemma_attester_slashing_keeps_wf(
                    before,
                    list[n - 1],
                    config,
                );
            },
        }
    }
}

fn apply_attester_slashings(
    state: &mut BeaconState,
    list: &Vec<AttesterSlashing>,
    config: &Config,
) -> (r: Result<(), Error>)
    requires
        config.wf(),
        wf_core(old(state)@, *config),
    ensures
        outcome_is(
            r,
            final(state)@,
            spec_apply_attester_slashings(old(state)@, list@, list@.len(), *config),
        ),
{
    let mut i: usize = 0;
    while i < list.len()
        invariant
            config.wf(),
            wf_core(old(state)@, *config),
            i <= list@.len(),
            spec_apply_attester_slashings(
                old(state)@,
                list@,
                i as nat,
                *config,
            ) == Ok::<BeaconStateView, Error>(
                state@,
            ),
        decreases list@.len() - i,
    {
        proof {
            lemma_attester_slashings_keep_wf(old(state)@, list@, i as nat, *config);
        }
        match crate::attester_slashing::process_attester_slashing(state, &list[i], config) {
            Err(e) => {
                proof {
                    let failed = spec_apply_attester_slashings(
                        old(state)@,
                        list@,
                        (i + 1) as nat,
                        *config,
                    );
                    assert(failed == Err::<BeaconStateView, Error>(e));
                    lemma_attester_slashings_fail(
                        old(state)@,
                        list@,
                        (i + 1) as nat,
                        list@.len(),
                        *config,
                    );
                }
                return Err(e);
            },
            Ok(_) => {},
        }
        i += 1;
    }
    Ok(())
}

proof fn lemma_attester_slashings_fail(
    s: BeaconStateView,
    list: Seq<AttesterSlashing>,
    k: nat,
    n: nat,
    config: Config,
)
    requires
        k <= n,
        spec_apply_attester_slashings(s, list, k, config) is Err,
    ensures
        spec_apply_attester_slashings(
            s,
            list,
            n,
            config,
        ) == spec_apply_attester_slashings(s, list, k, config),
    decreases n - k,
{
    if k < n {
        lemma_attester_slashings_fail(s, list, k, (n - 1) as nat, config);
    }
}

/// The first `n` attestations of a list are applied one after the other; the first
/// that is rejected ends it.
pub open spec fn spec_apply_attestations(
    s: BeaconStateView,
    list: Seq<Attestation>,
    n: nat,
    config: Config,
) -> Result<
    BeaconStateView,
    Error,
>
    decreases n,
{
    if n == 0 {
        Ok(s)
    } else {
        match spec_apply_attestations(s, list, (n - 1) as nat, config) {
            Err(e) => Err(e),
            Ok(before) => crate::attestation::spec_process_attestation(before, list[n - 1], config),
        }
    }
}

/// The attestations of a list leave a valid state valid.
pub proof fn lemma_attestations_keep_wf(
    s: BeaconStateView,
    list: Seq<Attestation>,
    n: nat,
    config: Config,
)
    requires
        config.wf(),
        wf_core(s, config),
        n <= list.len(),
        forall|i: int| 0 <= i < list.len() ==> (#[trigger] list[i]).hashable(config),
    ensures
        spec_apply_attestations(s, list, n, config) matches Ok(after) ==> wf_core(after, config)
            && block_frame(s, after),
    decreases n,
{
    if n > 0 {
        lemma_attestations_keep_wf(s, list, (n - 1) as nat, config);
        match spec_apply_attestations(s, list, (n - 1) as nat, config) {
            Err(e) => {},
            Ok(before) => {
                crate::attestation::lemma_attestation_keeps_wf(before, list[n - 1], config);
            },
        }
    }
}

fn apply_attestations(
    state: &mut BeaconState,
    list: &Vec<Attestation>,
    config: &Config,
) -> (r: Result<(), Error>)
    requires
        config.wf(),
        wf_core(old(state)@, *config),
        forall|i: int| 0 <= i < list@.len() ==> (#[trigger] list@[i]).hashable(*config),
    ensures
        outcome_is(
            r,
            final(state)@,
            spec_apply_attestations(old(state)@, list@, list@.len(), *config),
        ),
{
    let mut i: usize = 0;
    while i < list.len()
        invariant
            config.wf(),
            wf_core(old(state)@, *config),
            i <= list@.len(),
            forall|i: int| 0 <= i < list@.len() ==> (#[trigger] list@[i]).hashable(*config),
            spec_apply_attestations(
                old(state)@,
                list@,
                i as nat,
                *config,
            ) == Ok::<BeaconStateView, Error>(
                state@,
            ),
        decreases list@.len() - i,
    {
        proof {
            lemma_attestations_keep_wf(old(state)@, list@, i as nat, *config);
        }
        match crate::attestation::process_attestation(state, &list[i], config) {
            Err(e) => {
                proof {
                    let failed = spec_apply_attestations(
                        old(state)@,
                        list@,
                        (i + 1) as nat,
                        *config,
                    );
                    assert(failed == Err::<BeaconStateView, Error>(e));
                    lemma_attestations_fail(
                        old(state)@,
                        list@,
                        (i + 1) as nat,
                        list@.len(),
                        *config,
                    );
                }
                return Err(e);
            },
            Ok(_) => {},
        }
        i += 1;
    }
    Ok(())
}

proof fn lemma_attestations_fail(
    s: BeaconStateView,
    list: Seq<Attestation>,
    k: nat,
    n: nat,
    config: Config,
)
    requires
        k <= n,
        spec_apply_attestations(s, list, k, config) is Err,
    ensures
        spec_apply_attestations(s, list, n, config) == spec_apply_attestations(s, list, k, config),
    decreases n - k,
{
    if k < n {
        lemma_attestations_fail(s, list, k, (n - 1) as nat, config);
    }
}

/// The first `n` deposits of a list are applied one after the other; the first
/// that is rejected ends it.
pub open spec fn spec_apply_deposits(
    s: BeaconStateView,
    list: Seq<Deposit>,
    n: nat,
    config: Config,
) -> Result<
    BeaconStateView,
    Error,
>
    decreases n,
{
    if n == 0 {
        Ok(s)
    } else {
        match spec_apply_deposits(s, list, (n - 1) as nat, config) {
            Err(e) => Err(e),
            Ok(before) => crate::deposit::spec_process_deposit(before, list[n - 1], config),
        }
    }
}

/// The deposits of a list leave a valid state valid.
pub proof fn lemma_deposits_keep_wf(s: BeaconStateView, list: Seq<Deposit>, n: nat, config: Config)
    requires
        config.wf(),
        wf_core(s, config),
        n <= list.len(),
    ensures
        spec_apply_deposits(s, list, n, config) matches Ok(after) ==> wf_core(after, config)
            && block_frame(s, after),
    decreases n,
{
    if n > 0 {
        lemma_deposits_keep_wf(s, list, (n - 1) as nat, config);
        match spec_apply_deposits(s, list, (n - 1) as nat, config) {
            Err(e) => {},
            Ok(before) => {
                crate::deposit::lemma_deposit_keeps_wf(before, list[n - 1], config);
            },
        }
    }
}

fn apply_deposits(
    state: &mut BeaconState,
    list: &Vec<Deposit>,
    config: &Config,
) -> (r: Result<(), Error>)
    requires
        config.wf(),
        wf_core(old(state)@, *config),
    ensures
        outcome_is(r, final(state)@, spec_apply_deposits(old(state)@, list@, list@.len(), *config)),
{
    let mut i: usize = 0;
    while i < list.len()
        invariant
            config.wf(),
            wf_core(old(state)@, *config),
            i <= list@.len(),
            spec_apply_deposits(
                old(state)@,
                list@,
                i as nat,
                *config,
            ) == Ok::<BeaconStateView, Error>(
                state@,
            ),
        decreases list@.len() - i,
    {
        proof {
            lemma_deposits_keep_wf(old(state)@, list@, i as nat, *config);
        }
        match crate::deposit::process_deposit(state, &list[i], config) {
            Err(e) => {
                proof {
                    let failed = spec_apply_deposits(
                        old(state)@,
                        list@,
                        (i + 1) as nat,
                        *config,
                    );
                    assert(failed == Err::<BeaconStateView, Error>(e));
                    lemma_deposits_fail(old(state)@, list@, (i + 1) as nat, list@.len(), *config);
                }
                return Err(e);
            },
            Ok(_) => {},
        }
        i += 1;
    }
    Ok(())
}

proof fn lemma_deposits_fail(s: BeaconStateView, list: Seq<Deposit>, k: nat, n: nat, config: Config)
    requires
        k <= n,
        spec_apply_deposits(s, list, k, config) is Err,
    ensures
        spec_apply_deposits(s, list, n, config) == spec_apply_deposits(s, list, k, config),
    decreases n - k,
{
    if k < n {
        lemma_deposits_fail(s, list, k, (n - 1) as nat, config);
    }
}

/// The first `n` voluntary exits of a list are applied one after the other; the first
/// that is rejected ends it.
pub open spec fn spec_apply_voluntary_exits(
    s: BeaconStateView,
    list: Seq<SignedVoluntaryExit>,
    n: nat,
    config: Config,
) -> Result<
    BeaconStateView,
    Error,
>
    decreases n,
{
    if n == 0 {
        Ok(s)
    } else {
        match spec_apply_voluntary_exits(s, list, (n - 1) as nat, config) {
            Err(e) => Err(e),
            Ok(before) => crate::voluntary_exit::spec_process_voluntary_exit(
                before,
                list[n - 1],
                config,
            ),
        }
    }
}

/// The voluntary exits of a list leave a valid state valid.
pub proof fn lemma_voluntary_exits_keep_wf(
    s: BeaconStateView,
    list: Seq<SignedVoluntaryExit>,
    n: nat,
    config: Config,
)
    requires
        config.wf(),
        wf_core(s, config),
        n <= list.len(),
    ensures
        spec_apply_voluntary_exits(s, list, n, config) matches Ok(after) ==> wf_core(after, config)
            && block_frame(s, after),
    decreases n,
{
    if n > 0 {
        lemma_voluntary_exits_keep_wf(s, list, (n - 1) as nat, config);
        match spec_apply_voluntary_exits(s, list, (n - 1) as nat, config) {
            Err(e) => {},
            Ok(before) => {
                crate::voluntary_exit::lemma_voluntary_exit_keeps_wf(before, list[n - 1], config);
            },
        }
    }
}

fn apply_voluntary_exits(
    state: &mut BeaconState,
    list: &Vec<SignedVoluntaryExit>,
    config: &Config,
) -> (r: Result<(), Error>)
    requires
        config.wf(),
        wf_core(old(state)@, *config),
    ensures
        outcome_is(
            r,
            final(state)@,
            spec_apply_voluntary_exits(old(state)@, list@, list@.len(), *config),
        ),
{
    let mut i: usize = 0;
    while i < list.len()
        invariant
            config.wf(),
            wf_core(old(state)@, *config),
            i <= list@.len(),
            spec_apply_voluntary_exits(
                old(state)@,
                list@,
                i as nat,
                *config,
            ) == Ok::<BeaconStateView, Error>(
                state@,
            ),
        decreases list@.len() - i,
    {
        proof {
            lemma_voluntary_exits_keep_wf(old(state)@, list@, i as nat, *config);
        }
        match crate::voluntary_exit::process_voluntary_exit(state, &list[i], config) {
            Err(e) => {
                proof {
                    let failed = spec_apply_voluntary_exits(
                        old(state)@,
                        list@,
                        (i + 1) as nat,
                        *config,
                    );
                    assert(failed == Err::<BeaconStateView, Error>(e));
                    lemma_voluntary_exits_fail(
                        old(state)@,
                        list@,
                        (i + 1) as nat,
                        list@.len(),
                        *config,
                    );
                }
                return Err(e);
            },
            Ok(_) => {},
        }
        i += 1;
    }
    Ok(())
}

proof fn lemma_voluntary_exits_fail(
    s: BeaconStateView,
    list: Seq<SignedVoluntaryExit>,
    k: nat,
    n: nat,
    config: Config,
)
    requires
        k <= n,
        spec_apply_voluntary_exits(s, list, k, config) is Err,
    ensures
        spec_apply_voluntary_exits(
            s,
            list,
            n,
            config,
        ) == spec_apply_voluntary_exits(s, list, k, config),
    decreases n - k,
{
    if k < n {
        lemma_voluntary_exits_fail(s, list, k, (n - 1) as nat, config);
    }
}

/// The number of deposits that a block has to carry: those that the deposit contract has
/// and the state has not, and at most the limit of a block.
pub open spec fn spec_deposits_due(s: BeaconStateView, config: Config) -> u64 {
    let open = if s.eth1_data.deposit_count >= s.eth1_deposit_index {
        (s.eth1_data.deposit_count - s.eth1_deposit_index) as u64
    } else {
        0
    };
    if open < config.max_deposits {
        open
    } else {
        config.max_deposits
    }
}

/// The operations of a block are applied in this order: proposer slashings, attester
/// slashings, attestations, deposits, voluntary exits; each list from its first to its
/// last. The block has to carry the deposits that are due.
pub open spec fn spec_process_operations(
    s: BeaconStateView,
    body: BeaconBlockBody,
    config: Config,
) -> Result<
    BeaconStateView,
    Error,
> {
    if body.deposits@.len() != spec_deposits_due(s, config) {
        Err(Error::WrongDepositCount)
    } else {
        match spec_apply_proposer_slashings(
            s,
            body.proposer_slashings@,
            body.proposer_slashings@.len(),
            config,
        ) {
            Err(e) => Err(e),
            Ok(a) => match spec_apply_attester_slashings(
                a,
                body.attester_slashings@,
                body.attester_slashings@.len(),
                config,
            ) {
                Err(e) => Err(e),
                Ok(b) => match spec_apply_attestations(
                    b,
                    body.attestations@,
                    body.attestations@.len(),
                    config,
                ) {
                    Err(e) => Err(e),
                    Ok(c) => match spec_apply_deposits(
                        c,
                        body.deposits@,
                        body.deposits@.len(),
                        config,
                    ) {
                        Err(e) => Err(e),
                        Ok(d) => spec_apply_voluntary_exits(
                            d,
                            body.voluntary_exits@,
                            body.voluntary_exits@.len(),
                            config,
                        ),
                    },
                },
            },
        }
    }
}

/// The operations of a block that is within its limits leave a valid state valid.
pub proof fn lemma_operations_keep_wf(s: BeaconStateView, body: BeaconBlockBody, config: Config)
    requires
        config.wf(),
        wf_core(s, config),
        body.hashable(config),
    ensures
        spec_process_operations(s, body, config) matches Ok(after) ==> wf_core(after, config)
            && block_frame(s, after),
{
    lemma_proposer_slashings_keep_wf(
        s,
        body.proposer_slashings@,
        body.proposer_slashings@.len(),
        config,
    );
    match spec_apply_proposer_slashings(
        s,
        body.proposer_slashings@,
        body.proposer_slashings@.len(),
        config,
    ) {
        Err(e) => {},
        Ok(a) => {
            lemma_attester_slashings_keep_wf(
                a,
                body.attester_slashings@,
                body.attester_slashings@.len(),
                config,
            );
            match spec_apply_attester_slashings(
                a,
                body.attester_slashings@,
                body.attester_slashings@.len(),
                config,
            ) {
                Err(e) => {},
                Ok(b) => {
                    lemma_attestations_keep_wf(
                        b,
                        body.attestations@,
                        body.attestations@.len(),
                        config,
                    );
                    match spec_apply_attestations(
                        b,
                        body.attestations@,
                        body.attestations@.len(),
                        config,
                    ) {
                        Err(e) => {},
                        Ok(c) => {
                            lemma_deposits_keep_wf(
                                c,
                                body.deposits@,
                                body.deposits@.len(),
                                config,
                            );
                            match spec_apply_deposits(
                                c,
                                body.deposits@,
                                body.deposits@.len(),
                                config,
                            ) {
                                Err(e) => {},
                                Ok(d) => {
                                    lemma_voluntary_exits_keep_wf(
                                        d,
                                        body.voluntary_exits@,
                                        body.voluntary_exits@.len(),
                                        config,
                                    );
                                },
                            }
                        },
                    }
                },
            }
        },
    }
}

/// Applies the operations of a block, list by list.
pub fn process_operations(state: &mut BeaconState, body: &BeaconBlockBody, config: &Config) -> (r:
    Result<(), Error>)
    requires
        config.wf(),
        wf_core(old(state)@, *config),
        body.hashable(*config),
    ensures
        outcome_is(r, final(state)@, spec_process_operations(old(state)@, *body, *config)),
{
    let open = if state.eth1_data.deposit_count >= state.eth1_deposit_index {
        state.eth1_data.deposit_count - state.eth1_deposit_index
    } else {
        0
    };
    let due = if open < config.max_deposits {
        open
    } else {
        config.max_deposits
    };
    if body.deposits.len() as u64 != due {
        return Err(Error::WrongDepositCount);
    }
    let ghost s = state@;
    proof {
        lemma_proposer_slashings_keep_wf(
            s,
            body.proposer_slashings@,
            body.proposer_slashings@.len(),
            *config,
        );
    }
    match apply_proposer_slashings(state, &body.proposer_slashings, config) {
        Err(e) => {
            return Err(e);
        },
        Ok(_) => {},
    }
    let ghost a = state@;
    proof {
        lemma_attester_slashings_keep_wf(
            a,
            body.attester_slashings@,
            body.attester_slashings@.len(),
            *config,
        );
    }
    match apply_attester_slashings(state, &body.attester_slashings, config) {
        Err(e) => {
            return Err(e);
        },
        Ok(_) => {},
    }
    let ghost b = state@;
    proof {
        lemma_attestations_keep_wf(b, body.attestations@, body.attestations@.len(), *config);
    }
    match apply_attestations(state, &body.attestations, config) {
        Err(e) => {
            return Err(e);
        },
        Ok(_) => {},
    }
    let ghost c = state@;
    proof {
        lemma_deposits_keep_wf(c, body.deposits@, body.deposits@.len(), *config);
    }
    match apply_deposits(state, &body.deposits, config) {
        Err(e) => {
            return Err(e);
        },
        Ok(_) => {},
    }
    apply_voluntary_exits(state, &body.voluntary_exits, config)
}

/// A block is applied in this order: its header, its reveal, its vote on the deposit
/// contract, its operations. The first step that is rejected rejects the block.
pub open spec fn spec_process_block(
    s: BeaconStateView,
    block: BeaconBlock,
    config: Config,
) -> Result<
    BeaconStateView,
    Error,
> {
    match spec_process_block_header(s, block, config) {
        Err(e) => Err(e),
        Ok(a) => match spec_process_randao(a, block.body, config) {
            Err(e) => Err(e),
            Ok(b) => match spec_process_eth1_data(b, block.body, config) {
                Err(e) => Err(e),
                Ok(c) => spec_process_operations(c, block.body, config),
            },
        },
    }
}

/// A block that is within its limits leaves a valid state valid, and leaves the slot, the
/// recent roots and the checkpoints of finality as they are.
pub proof fn lemma_block_keeps_wf(s: BeaconStateView, block: BeaconBlock, config: Config)
    requires
        config.wf(),
        wf(s, config),
        block.hashable(config),
    ensures
        spec_process_block(s, block, config) matches Ok(after) ==> wf(after, config)
            && block_frame(
            BeaconStateView { latest_block_header: spec_open_header(block, config), ..s },
            after,
        ),
{
    match spec_process_block_header(s, block, config) {
        Err(e) => {},
        Ok(a) => match spec_process_randao(a, block.body, config) {
            Err(e) => {},
            Ok(b) => match spec_process_eth1_data(b, block.body, config) {
                Err(e) => {},
                Ok(c) => {
                    lemma_operations_keep_wf(c, block.body, config);
                },
            },
        },
    }
}

/// Applies a block to a state that is at the block's slot.
pub fn process_block(state: &mut BeaconState, block: &BeaconBlock, config: &Config) -> (r: Result<
    (),
    Error,
>)
    requires
        config.wf(),
        wf(old(state)@, *config),
        block.hashable(*config),
    ensures
        outcome_is(r, final(state)@, spec_process_block(old(state)@, *block, *config)),
        r is Ok ==> wf(final(state)@, *config) && final(state)@.validators.len()
            >= old(state)@.validators.len() && final(state).slot == old(state).slot,
{
    proof {
        lemma_block_keeps_wf(old(state)@, *block, *config);
    }
    match process_block_header(state, block, config) {
        Err(e) => {
            return Err(e);
        },
        Ok(_) => {},
    }
    match process_randao(state, &block.body, config) {
        Err(e) => {
            return Err(e);
        },
        Ok(_) => {},
    }
    match process_eth1_data(state, &block.body, config) {
        Err(e) => {
            return Err(e);
        },
        Ok(_) => {},
    }
    process_operations(state, &block.body, config)
}

} // verus!
