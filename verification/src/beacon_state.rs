//! The beacon state, its mathematical value, what makes it valid, and its root.

use vstd::prelude::*;
use crate::config::Config;
use crate::crypto::merkle_root;
use crate::error::SszError;
use crate::merkle::{
    bits_bytes, container_root, finish, finish_list, hash_bit_list, hash_byte_list, hash_list,
    hash_u64_list, hash_u64_vector, hash_vector, justification_chunk, list_root, pack_u64s,
    put_justification, put_root, put_u64, roots_concat, spec_bit_chunks, spec_byte_chunks,
    spec_u64_chunks, u64_chunk, TreeHash,
};
use crate::primitives::{H256, Slot, ValidatorIndex};
use crate::types::{
    BeaconBlockHeader, Checkpoint, CompactCommittee, CompactCommitteeView, Eth1Data, Fork,
    PendingAttestation, PendingAttestationView, ShardState, Validator,
};

verus! {

/// Why a query on the state failed.
#[derive(Clone, Copy, Debug, PartialEq, Eq, Structural)]
pub enum Error {
    EpochOutOfBounds,
    SlotOutOfBounds,
    ShardOutOfBounds,
    UnknownValidator,
    UnableToDetermineProducer,
    InvalidBitfield,
    ValidatorIsWithdrawable,
    UnableToShuffle,
    TooManyValidators,
    InsufficientValidators,
    InsufficientRandaoMixes,
    InsufficientBlockRoots,
    InsufficientIndexRoots,
    InsufficientAttestations,
    InsufficientCommittees,
    InsufficientStateRoots,
    InsufficientBalance,
    NoCommitteeForShard,
    NoCommitteeForSlot,
    ZeroSlotsPerEpoch,
    PubkeyCacheInconsistent,
    PubkeyCacheIncomplete { cache_len: usize, registry_len: usize },
    PreviousCommitteeCacheUninitialized,
    CurrentCommitteeCacheUninitialized,
    SszTypesError(SszError),
    HelperError(crate::error::Error),
}

impl From<SszError> for Error {
    fn from(error: SszError) -> (r: Error) {
        Error::SszTypesError(error)
    }
}

impl vstd::std_specs::convert::FromSpecImpl<SszError> for Error {
    open spec fn obeys_from_spec() -> bool {
        true
    }

    open spec fn from_spec(error: SszError) -> Error {
        Error::SszTypesError(error)
    }
}

impl From<crate::error::Error> for Error {
    fn from(error: crate::error::Error) -> (r: Error) {
        Error::HelperError(error)
    }
}

impl vstd::std_specs::convert::FromSpecImpl<crate::error::Error> for Error {
    open spec fn obeys_from_spec() -> bool {
        true
    }

    open spec fn from_spec(error: crate::error::Error) -> Error {
        Error::HelperError(error)
    }
}

/// The state of the beacon chain: the one object that a transition reads and changes.
#[derive(Clone, Debug)]
pub struct BeaconState {
    pub genesis_time: u64,
    pub genesis_validators_root: H256,
    pub slot: Slot,
    pub fork: Fork,
    pub latest_block_header: BeaconBlockHeader,
    pub block_roots: Vec<H256>,
    pub state_roots: Vec<H256>,
    pub historical_roots: Vec<H256>,
    pub eth1_data: Eth1Data,
    pub eth1_data_votes: Vec<Eth1Data>,
    pub eth1_deposit_index: u64,
    pub validators: Vec<Validator>,
    pub balances: Vec<u64>,
    pub randao_mixes: Vec<H256>,
    pub slashings: Vec<u64>,
    pub previous_epoch_attestations: Vec<PendingAttestation>,
    pub current_epoch_attestations: Vec<PendingAttestation>,
    pub justification_bits: [bool; 4],
    pub previous_justified_checkpoint: Checkpoint,
    pub current_justified_checkpoint: Checkpoint,
    pub finalized_checkpoint: Checkpoint,
    pub shard_states: Vec<ShardState>,
    pub online_countdown: Vec<u8>,
    pub current_light_committee: CompactCommittee,
    pub next_light_committee: CompactCommittee,
    pub exposed_derived_secrets: Vec<Vec<ValidatorIndex>>,
}

/// The mathematical value of a state: what the rules of the transition are stated over.
pub struct BeaconStateView {
    pub genesis_time: u64,
    pub genesis_validators_root: H256,
    pub slot: Slot,
    pub fork: Fork,
    pub latest_block_header: BeaconBlockHeader,
    pub block_roots: Seq<H256>,
    pub state_roots: Seq<H256>,
    pub historical_roots: Seq<H256>,
    pub eth1_data: Eth1Data,
    pub eth1_data_votes: Seq<Eth1Data>,
    pub eth1_deposit_index: u64,
    pub validators: Seq<Validator>,
    pub balances: Seq<u64>,
    pub randao_mixes: Seq<H256>,
    pub slashings: Seq<u64>,
    pub previous_epoch_attestations: Seq<PendingAttestationView>,
    pub current_epoch_attestations: Seq<PendingAttestationView>,
    pub justification_bits: Seq<bool>,
    pub previous_justified_checkpoint: Checkpoint,
    pub current_justified_checkpoint: Checkpoint,
    pub finalized_checkpoint: Checkpoint,
    pub shard_states: Seq<ShardState>,
    pub online_countdown: Seq<u8>,
    pub current_light_committee: CompactCommitteeView,
    pub next_light_committee: CompactCommitteeView,
    pub exposed_derived_secrets: Seq<Seq<ValidatorIndex>>,
}

/// The values of a sequence of pending attestations.
pub open spec fn pending_views(s: Seq<PendingAttestation>) -> Seq<PendingAttestationView> {
    Seq::new(s.len(), |i: int| s[i].deep_view())
}

/// The values of a sequence of index lists.
pub open spec fn nested_views(s: Seq<Vec<ValidatorIndex>>) -> Seq<Seq<ValidatorIndex>> {
    Seq::new(s.len(), |i: int| s[i]@)
}

impl View for BeaconState {
    type V = BeaconStateView;

    open spec fn view(&self) -> BeaconStateView {
        BeaconStateView {
            genesis_time: self.genesis_time,
            genesis_validators_root: self.genesis_validators_root,
            slot: self.slot,
            fork: self.fork,
            latest_block_header: self.latest_block_header,
            block_roots: self.block_roots@,
            state_roots: self.state_roots@,
            historical_roots: self.historical_roots@,
            eth1_data: self.eth1_data,
            eth1_data_votes: self.eth1_data_votes@,
            eth1_deposit_index: self.eth1_deposit_index,
            validators: self.validators@,
            balances: self.balances@,
            randao_mixes: self.randao_mixes@,
            slashings: self.slashings@,
            previous_epoch_attestations: pending_views(self.previous_epoch_attestations@),
            current_epoch_attestations: pending_views(self.current_epoch_attestations@),
            justification_bits: self.justification_bits@,
            previous_justified_checkpoint: self.previous_justified_checkpoint,
            current_justified_checkpoint: self.current_justified_checkpoint,
            finalized_checkpoint: self.finalized_checkpoint,
            shard_states: self.shard_states@,
            online_countdown: self.online_countdown@,
            current_light_committee: self.current_light_committee.deep_view(),
            next_light_committee: self.next_light_committee.deep_view(),
            exposed_derived_secrets: nested_views(self.exposed_derived_secrets@),
        }
    }
}

/// The root of a pending attestation.
pub open spec fn pending_root(p: PendingAttestationView, config: Config) -> Seq<u8> {
    container_root(
        Seq::<u8>::empty() + list_root(
            bits_bytes(p.aggregation_bits),
            spec_bit_chunks(config.max_validators_per_committee),
            p.aggregation_bits.len(),
        ) + p.data.tree_root(config) + u64_chunk(p.inclusion_delay) + u64_chunk(
            p.proposer_index,
        ),
    )
}

impl TreeHash for PendingAttestation {
    /// The bit list is within the committee limit.
    open spec fn hashable(&self, config: Config) -> bool {
        self.aggregation_bits@.len() <= config.max_validators_per_committee
    }

    open spec fn tree_root(&self, config: Config) -> Seq<u8> {
        pending_root(self.deep_view(), config)
    }

    fn tree_hash_root(&self, config: &Config) -> (root: H256) {
        let mut buf: Vec<u8> = Vec::new();
        let r = hash_bit_list(&self.aggregation_bits, config.max_validators_per_committee);
        put_root(&mut buf, &r);
        let r = self.data.tree_hash_root(config);
        put_root(&mut buf, &r);
        put_u64(&mut buf, self.inclusion_delay);
        put_u64(&mut buf, self.proposer_index);
        finish(&buf)
    }
}

/// The roots of a sequence of pending attestations, one after the other.
pub open spec fn pending_roots(s: Seq<PendingAttestationView>, config: Config) -> Seq<u8>
    decreases s.len(),
{
    if s.len() == 0 {
        Seq::empty()
    } else {
        pending_roots(s.drop_last(), config) + pending_root(s.last(), config)
    }
}

/// The root of a compact committee.
pub open spec fn compact_root(k: CompactCommitteeView, config: Config) -> Seq<u8> {
    container_root(
        Seq::<u8>::empty() + list_root(
            roots_concat(k.pubkeys, config),
            config.max_validators_per_committee,
            k.pubkeys.len(),
        ) + list_root(
            pack_u64s(k.compact_validators),
            spec_u64_chunks(config.max_validators_per_committee),
            k.compact_validators.len(),
        ),
    )
}

impl TreeHash for CompactCommittee {
    /// Both lists are within the committee limit.
    open spec fn hashable(&self, config: Config) -> bool {
        &&& self.pubkeys@.len() <= config.max_validators_per_committee
        &&& self.compact_validators@.len() <= config.max_validators_per_committee
    }

    open spec fn tree_root(&self, config: Config) -> Seq<u8> {
        compact_root(self.deep_view(), config)
    }

    fn tree_hash_root(&self, config: &Config) -> (root: H256) {
        let mut buf: Vec<u8> = Vec::new();
        let r = hash_list(&self.pubkeys, config.max_validators_per_committee, config);
        put_root(&mut buf, &r);
        let r = hash_u64_list(&self.compact_validators, config.max_validators_per_committee);
        put_root(&mut buf, &r);
        finish(&buf)
    }
}

/// The roots of a sequence of index lists, each under the limit of one epoch's slots.
pub open spec fn secrets_roots(s: Seq<Seq<ValidatorIndex>>, config: Config) -> Seq<u8>
    decreases s.len(),
{
    if s.len() == 0 {
        Seq::empty()
    } else {
        secrets_roots(s.drop_last(), config) + list_root(
            pack_u64s(s.last()),
            spec_u64_chunks(config.slots_per_epoch),
            s.last().len(),
        )
    }
}

/// The lengths of a state's lists and vectors are what the profile asks for.
pub open spec fn sizes_ok(s: BeaconStateView, config: Config) -> bool {
    &&& s.block_roots.len() == config.slots_per_historical_root
    &&& s.state_roots.len() == config.slots_per_historical_root
    &&& s.historical_roots.len() <= config.historical_roots_limit
    &&& s.eth1_data_votes.len() <= config.slots_per_eth1_voting_period
    &&& s.validators.len() <= config.validator_registry_limit
    &&& s.balances.len() == s.validators.len()
    &&& s.randao_mixes.len() == config.epochs_per_historical_vector
    &&& s.slashings.len() == config.epochs_per_slashings_vector
    &&& s.previous_epoch_attestations.len() <= config.spec_max_attestations_per_epoch()
    &&& s.current_epoch_attestations.len() <= config.spec_max_attestations_per_epoch()
    &&& forall|i: int|
        0 <= i < s.previous_epoch_attestations.len() ==> (
        #[trigger] s.previous_epoch_attestations[i]).aggregation_bits.len()
            <= config.max_validators_per_committee
    &&& forall|i: int|
        0 <= i < s.current_epoch_attestations.len() ==> (
        #[trigger] s.current_epoch_attestations[i]).aggregation_bits.len()
            <= config.max_validators_per_committee
    &&& s.justification_bits.len() == 4
    &&& s.shard_states.len() <= config.max_shards
    &&& s.online_countdown.len() <= config.validator_registry_limit
    &&& s.current_light_committee.pubkeys.len() <= config.max_validators_per_committee
    &&& s.current_light_committee.compact_validators.len()
        <= config.max_validators_per_committee
    &&& s.next_light_committee.pubkeys.len() <= config.max_validators_per_committee
    &&& s.next_light_committee.compact_validators.len() <= config.max_validators_per_committee
    &&& s.exposed_derived_secrets.len() == config.early_derived_secret_penalty_max_future_epochs
    &&& forall|i: int|
        0 <= i < s.exposed_derived_secrets.len() ==> (#[trigger] s.exposed_derived_secrets[i]).len()
            <= config.slots_per_epoch
}

/// The lifecycle epochs of every validator follow one another.
pub open spec fn registry_ordered(validators: Seq<Validator>) -> bool {
    forall|i: int| 0 <= i < validators.len() ==> (#[trigger] validators[i]).lifecycle_ordered()
}

/// The epoch that a slot lies in.
pub open spec fn spec_epoch_at(slot: Slot, config: Config) -> u64 {
    slot / config.slots_per_epoch
}

/// The three checkpoints of finality follow one another.
pub open spec fn checkpoints_ordered(s: BeaconStateView) -> bool {
    &&& s.finalized_checkpoint.epoch <= s.previous_justified_checkpoint.epoch
    &&& s.previous_justified_checkpoint.epoch <= s.current_justified_checkpoint.epoch
}

/// Every pending attestation was included after its own slot, by a proposer of the
/// registry.
pub open spec fn inclusions_ok(atts: Seq<PendingAttestationView>, registry: nat) -> bool {
    forall|i: int|
        0 <= i < atts.len() ==> (#[trigger] atts[i]).inclusion_delay > 0 && atts[i].proposer_index
            < registry
}

/// What holds of a state wherever the transition is within an epoch's processing: its
/// sizes, the order of every validator's lifecycle, the order of the checkpoints, no
/// checkpoint lying after the state's own epoch, and the pending attestations being such
/// as blocks leave them.
pub open spec fn wf_core(s: BeaconStateView, config: Config) -> bool {
    &&& sizes_ok(s, config)
    &&& registry_ordered(s.validators)
    &&& checkpoints_ordered(s)
    &&& s.current_justified_checkpoint.epoch <= spec_epoch_at(s.slot, config)
    &&& inclusions_ok(s.previous_epoch_attestations, s.validators.len())
    &&& inclusions_ok(s.current_epoch_attestations, s.validators.len())
}

/// What the steps of a block after its header leave as they are: the slot, the latest
/// header, the recent roots, the fork, the checkpoints and bits of finality; and they
/// take no validator out of the registry.
pub open spec fn block_frame(s: BeaconStateView, after: BeaconStateView) -> bool {
    &&& after.slot == s.slot
    &&& after.latest_block_header == s.latest_block_header
    &&& after.genesis_time == s.genesis_time
    &&& after.genesis_validators_root == s.genesis_validators_root
    &&& after.fork == s.fork
    &&& after.block_roots == s.block_roots
    &&& after.state_roots == s.state_roots
    &&& after.historical_roots == s.historical_roots
    &&& after.justification_bits == s.justification_bits
    &&& after.previous_justified_checkpoint == s.previous_justified_checkpoint
    &&& after.current_justified_checkpoint == s.current_justified_checkpoint
    &&& after.finalized_checkpoint == s.finalized_checkpoint
    &&& after.validators.len() >= s.validators.len()
}

/// What holds of every state between two slots: besides the above, the newest justified
/// checkpoint is of an epoch before the state's own, or of the first epoch.
pub open spec fn wf(s: BeaconStateView, config: Config) -> bool {
    &&& wf_core(s, config)
    &&& s.current_justified_checkpoint.epoch + 1 <= spec_epoch_at(s.slot, config)
        || s.current_justified_checkpoint.epoch == 0
}

/// The root of a state, as a function of its value.
pub open spec fn state_root(s: BeaconStateView, config: Config) -> Seq<u8> {
    container_root(
        Seq::<u8>::empty() + u64_chunk(s.genesis_time) + s.genesis_validators_root@ + u64_chunk(
            s.slot,
        ) + s.fork.tree_root(config) + s.latest_block_header.tree_root(config) + container_root(
            roots_concat(s.block_roots, config),
        ) + container_root(roots_concat(s.state_roots, config)) + list_root(
            roots_concat(s.historical_roots, config),
            config.historical_roots_limit,
            s.historical_roots.len(),
        ) + s.eth1_data.tree_root(config) + list_root(
            roots_concat(s.eth1_data_votes, config),
            config.slots_per_eth1_voting_period,
            s.eth1_data_votes.len(),
        ) + u64_chunk(s.eth1_deposit_index) + list_root(
            roots_concat(s.validators, config),
            config.validator_registry_limit,
            s.validators.len(),
        ) + list_root(
            pack_u64s(s.balances),
            spec_u64_chunks(config.validator_registry_limit),
            s.balances.len(),
        ) + container_root(roots_concat(s.randao_mixes, config)) + container_root(
            pack_u64s(s.slashings),
        ) + list_root(
            pending_roots(s.previous_epoch_attestations, config),
            config.spec_max_attestations_per_epoch(),
            s.previous_epoch_attestations.len(),
        ) + list_root(
            pending_roots(s.current_epoch_attestations, config),
            config.spec_max_attestations_per_epoch(),
            s.current_epoch_attestations.len(),
        ) + justification_chunk(s.justification_bits)
            + s.previous_justified_checkpoint.tree_root(config)
            + s.current_justified_checkpoint.tree_root(config) + s.finalized_checkpoint.tree_root(
            config,
        ) + list_root(
            roots_concat(s.shard_states, config),
            config.max_shards,
            s.shard_states.len(),
        ) + list_root(
            s.online_countdown,
            spec_byte_chunks(config.validator_registry_limit),
            s.online_countdown.len(),
        ) + compact_root(s.current_light_committee, config) + compact_root(
            s.next_light_committee,
            config,
        ) + container_root(secrets_roots(s.exposed_derived_secrets, config)),
    )
}

fn hash_pending_list(items: &Vec<PendingAttestation>, config: &Config) -> (root: H256)
    requires
        config.wf(),
        items@.len() <= config.spec_max_attestations_per_epoch(),
        forall|i: int| 0 <= i < items@.len() ==> (#[trigger] items@[i]).hashable(*config),
    ensures
        root@ == list_root(
            pending_roots(pending_views(items@), *config),
            config.spec_max_attestations_per_epoch(),
            items@.len(),
        ),
{
    let limit = config.max_attestations_per_epoch();
    let ghost views = pending_views(items@);
    let mut buf: Vec<u8> = Vec::new();
    let mut i: usize = 0;
    while i < items.len()
        invariant
            i <= items@.len(),
            config.wf(),
            views == pending_views(items@),
            forall|i: int| 0 <= i < items@.len() ==> (#[trigger] items@[i]).hashable(*config),
            buf@ == pending_roots(views.take(i as int), *config),
            buf@.len() == 32 * i,
        decreases items@.len() - i,
    {
        let r = items[i].tree_hash_root(config);
        put_root(&mut buf, &r);
        proof {
            let next = views.take(i as int + 1);
            assert(next.drop_last() =~= views.take(i as int));
            assert(next.last() == items@[i as int].deep_view());
        }
        i += 1;
    }
    assert(views.take(items@.len() as int) =~= views);
    finish_list(&buf, limit, items.len())
}

fn hash_secrets(items: &Vec<Vec<ValidatorIndex>>, config: &Config) -> (root: H256)
    requires
        config.wf(),
        items@.len() <= 0x10_0000,
        forall|i: int| 0 <= i < items@.len() ==> (
            #[trigger] items@[i]
        )@.len() <= config.slots_per_epoch,
    ensures
        root@ == container_root(secrets_roots(nested_views(items@), *config)),
{
    let ghost views = nested_views(items@);
    let mut buf: Vec<u8> = Vec::new();
    let mut i: usize = 0;
    while i < items.len()
        invariant
            i <= items@.len(),
            config.wf(),
            views == nested_views(items@),
            forall|i: int| 0 <= i < items@.len() ==> (
                #[trigger] items@[i]
            )@.len() <= config.slots_per_epoch,
            buf@ == secrets_roots(views.take(i as int), *config),
            buf@.len() == 32 * i,
        decreases items@.len() - i,
    {
        let r = hash_u64_list(&items[i], config.slots_per_epoch);
        put_root(&mut buf, &r);
        proof {
            let next = views.take(i as int + 1);
            assert(next.drop_last() =~= views.take(i as int));
            assert(next.last() == items@[i as int]@);
        }
        i += 1;
    }
    assert(views.take(items@.len() as int) =~= views);
    merkle_root(buf.as_slice(), 0)
}

impl TreeHash for BeaconState {
    /// The lengths of the state's lists and vectors are what the profile asks for.
    open spec fn hashable(&self, config: Config) -> bool {
        sizes_ok(self@, config)
    }

    open spec fn tree_root(&self, config: Config) -> Seq<u8> {
        state_root(self@, config)
    }

    fn tree_hash_root(&self, config: &Config) -> (root: H256) {
        let mut buf: Vec<u8> = Vec::new();
        put_u64(&mut buf, self.genesis_time);
        put_root(&mut buf, &self.genesis_validators_root);
        put_u64(&mut buf, self.slot);
        let r = self.fork.tree_hash_root(config);
        put_root(&mut buf, &r);
        let r = self.latest_block_header.tree_hash_root(config);
        put_root(&mut buf, &r);
        let r = hash_vector(&self.block_roots, config);
        put_root(&mut buf, &r);
        let r = hash_vector(&self.state_roots, config);
        put_root(&mut buf, &r);
        let r = hash_list(&self.historical_roots, config.historical_roots_limit, config);
        put_root(&mut buf, &r);
        let r = self.eth1_data.tree_hash_root(config);
        put_root(&mut buf, &r);
        let r = hash_list(&self.eth1_data_votes, config.slots_per_eth1_voting_period, config);
        put_root(&mut buf, &r);
        put_u64(&mut buf, self.eth1_deposit_index);
        let r = hash_list(&self.validators, config.validator_registry_limit, config);
        put_root(&mut buf, &r);
        let r = hash_u64_list(&self.balances, config.validator_registry_limit);
        put_root(&mut buf, &r);
        let r = hash_vector(&self.randao_mixes, config);
        put_root(&mut buf, &r);
        let r = hash_u64_vector(&self.slashings);
        put_root(&mut buf, &r);
        proof {
            assert forall|i: int| 0 <= i < self.previous_epoch_attestations@.len() implies (
            #[trigger] self.previous_epoch_attestations@[i]).hashable(*config) by {
                assert(self@.previous_epoch_attestations[i].aggregation_bits.len()
                    <= config.max_validators_per_committee);
            }
            assert forall|i: int| 0 <= i < self.current_epoch_attestations@.len() implies (
            #[trigger] self.current_epoch_attestations@[i]).hashable(*config) by {
                assert(self@.current_epoch_attestations[i].aggregation_bits.len()
                    <= config.max_validators_per_committee);
            }
            assert forall|i: int| 0 <= i < self.exposed_derived_secrets@.len() implies (
            #[trigger] self.exposed_derived_secrets@[i])@.len() <= config.slots_per_epoch by {
                assert(self@.exposed_derived_secrets[i].len() <= config.slots_per_epoch);
            }
        }
        let r = hash_pending_list(&self.previous_epoch_attestations, config);
        put_root(&mut buf, &r);
        let r = hash_pending_list(&self.current_epoch_attestations, config);
        put_root(&mut buf, &r);
        put_justification(&mut buf, &self.justification_bits);
        let r = self.previous_justified_checkpoint.tree_hash_root(config);
        put_root(&mut buf, &r);
        let r = self.current_justified_checkpoint.tree_hash_root(config);
        put_root(&mut buf, &r);
        let r = self.finalized_checkpoint.tree_hash_root(config);
        put_root(&mut buf, &r);
        let r = hash_list(&self.shard_states, config.max_shards, config);
        put_root(&mut buf, &r);
        let r = hash_byte_list(&self.online_countdown, config.validator_registry_limit);
        put_root(&mut buf, &r);
        let r = self.current_light_committee.tree_hash_root(config);
        put_root(&mut buf, &r);
        let r = self.next_light_committee.tree_hash_root(config);
        put_root(&mut buf, &r);
        let r = hash_secrets(&self.exposed_derived_secrets, config);
        put_root(&mut buf, &r);
        finish(&buf)
    }
}

/// The state that every field's default makes: the vectors have the lengths that the
/// profile asks for and hold zeros, the lists are empty, and all else is zero.
pub open spec fn spec_default_state(config: Config) -> BeaconStateView {
    let zero = Checkpoint { epoch: 0, root: H256::spec_zero() };
    BeaconStateView {
        genesis_time: 0,
        genesis_validators_root: H256::spec_zero(),
        slot: 0,
        fork: Fork {
            previous_version: [0u8, 0u8, 0u8, 0u8],
            current_version: [0u8, 0u8, 0u8, 0u8],
            epoch: 0,
        },
        latest_block_header: BeaconBlockHeader {
            slot: 0,
            proposer_index: 0,
            parent_root: H256::spec_zero(),
            state_root: H256::spec_zero(),
            body_root: H256::spec_zero(),
        },
        block_roots: Seq::new(config.slots_per_historical_root as nat, |i: int| H256::spec_zero()),
        state_roots: Seq::new(config.slots_per_historical_root as nat, |i: int| H256::spec_zero()),
        historical_roots: Seq::empty(),
        eth1_data: Eth1Data {
            deposit_root: H256::spec_zero(),
            deposit_count: 0,
            block_hash: H256::spec_zero(),
        },
        eth1_data_votes: Seq::empty(),
        eth1_deposit_index: 0,
        validators: Seq::empty(),
        balances: Seq::empty(),
        randao_mixes: Seq::new(
            config.epochs_per_historical_vector as nat,
            |i: int| H256::spec_zero(),
        ),
        slashings: Seq::new(config.epochs_per_slashings_vector as nat, |i: int| 0u64),
        previous_epoch_attestations: Seq::empty(),
        current_epoch_attestations: Seq::empty(),
        justification_bits: Seq::new(4, |i: int| false),
        previous_justified_checkpoint: zero,
        current_justified_checkpoint: zero,
        finalized_checkpoint: zero,
        shard_states: Seq::empty(),
        online_countdown: Seq::empty(),
        current_light_committee: CompactCommitteeView {
            pubkeys: Seq::empty(),
            compact_validators: Seq::empty(),
        },
        next_light_committee: CompactCommitteeView {
            pubkeys: Seq::empty(),
            compact_validators: Seq::empty(),
        },
        exposed_derived_secrets: Seq::new(
            config.early_derived_secret_penalty_max_future_epochs as nat,
            |i: int| Seq::empty(),
        ),
    }
}

impl BeaconState {
    /// The state that every field's default makes under a profile.
    pub fn default(config: &Config) -> (state: BeaconState)
        requires
            config.wf(),
        ensures
            state@ == spec_default_state(*config),
            wf(state@, *config),
    {
        let zero = H256::zero();
        let mut secrets: Vec<Vec<ValidatorIndex>> = Vec::new();
        let mut i: u64 = 0;
        while i < config.early_derived_secret_penalty_max_future_epochs
            invariant
                i <= config.early_derived_secret_penalty_max_future_epochs,
                secrets@.len() == i,
                forall|k: int| 0 <= k < i ==> (#[trigger] secrets@[k])@ == Seq::<u64>::empty(),
            decreases config.early_derived_secret_penalty_max_future_epochs - i,
        {
            secrets.push(Vec::new());
            i += 1;
        }
        let state = BeaconState {
            genesis_time: 0,
            genesis_validators_root: zero,
            slot: 0,
            fork: Fork {
                previous_version: [0u8, 0u8, 0u8, 0u8],
                current_version: [0u8, 0u8, 0u8, 0u8],
                epoch: 0,
            },
            latest_block_header: BeaconBlockHeader {
                slot: 0,
                proposer_index: 0,
                parent_root: zero,
                state_root: zero,
                body_root: zero,
            },
            block_roots: crate::math::filled(config.slots_per_historical_root as usize, zero),
            state_roots: crate::math::filled(config.slots_per_historical_root as usize, zero),
            historical_roots: Vec::new(),
            eth1_data: Eth1Data { deposit_root: zero, deposit_count: 0, block_hash: zero },
            eth1_data_votes: Vec::new(),
            eth1_deposit_index: 0,
            validators: Vec::new(),
            balances: Vec::new(),
            randao_mixes: crate::math::filled(config.epochs_per_historical_vector as usize, zero),
            slashings: crate::math::filled(config.epochs_per_slashings_vector as usize, 0u64),
            previous_epoch_attestations: Vec::new(),
            current_epoch_attestations: Vec::new(),
            justification_bits: [false; 4],
            previous_justified_checkpoint: Checkpoint { epoch: 0, root: zero },
            current_justified_checkpoint: Checkpoint { epoch: 0, root: zero },
            finalized_checkpoint: Checkpoint { epoch: 0, root: zero },
            shard_states: Vec::new(),
            online_countdown: Vec::new(),
            current_light_committee: CompactCommittee {
                pubkeys: Vec::new(),
                compact_validators: Vec::new(),
            },
            next_light_committee: CompactCommittee {
                pubkeys: Vec::new(),
                compact_validators: Vec::new(),
            },
            exposed_derived_secrets: secrets,
        };
        proof {
            let want = spec_default_state(*config);
            assert(state@.block_roots =~= want.block_roots);
            assert(state@.state_roots =~= want.state_roots);
            assert(state@.randao_mixes =~= want.randao_mixes);
            assert(state@.slashings =~= want.slashings);
            assert(state@.justification_bits =~= want.justification_bits);
            assert(state@.previous_epoch_attestations =~= want.previous_epoch_attestations);
            assert(state@.current_epoch_attestations =~= want.current_epoch_attestations);
            assert(state@.exposed_derived_secrets =~= want.exposed_derived_secrets);
            assert(state@.fork.previous_version =~= want.fork.previous_version);
            assert(state@.fork.current_version =~= want.fork.current_version);
        }
        state
    }
}

} // verus!
