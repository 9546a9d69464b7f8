//! The containers of the protocol.

use vstd::prelude::*;
use crate::primitives::{
    zeros, CommitteeIndex, Epoch, Gwei, H256, PublicKeyBytes, SignatureBytes, Slot, ValidatorIndex,
    Version,
};

verus! {

/// The fork that a state is on, and the one before it.
#[derive(Clone, Copy, Debug)]
pub struct Fork {
    pub previous_version: Version,
    pub current_version: Version,
    pub epoch: Epoch,
}

impl Default for Fork {
    fn default() -> (r: Fork)
        ensures
            r.previous_version@ == zeros(4),
            r.current_version@ == zeros(4),
            r.epoch == 0,
    {
        let r = Fork { previous_version: [0u8; 4], current_version: [0u8; 4], epoch: 0 };
        assert(r.previous_version@ =~= zeros(4));
        assert(r.current_version@ =~= zeros(4));
        r
    }
}

/// What is signed in place of a version alone: the version and the chain it belongs to.
#[derive(Clone, Copy, Debug)]
pub struct ForkData {
    pub current_version: Version,
    pub genesis_validators_root: H256,
}

/// What is signed in place of an object: its root and the domain of the signature.
#[derive(Clone, Copy, Debug)]
pub struct SigningData {
    pub object_root: H256,
    pub domain: H256,
}

/// An epoch and the root of the block at its start.
#[derive(Clone, Copy, Debug)]
pub struct Checkpoint {
    pub epoch: Epoch,
    pub root: H256,
}

impl PartialEq for Checkpoint {
    fn eq(&self, other: &Checkpoint) -> (r: bool) {
        self.epoch == other.epoch && self.root == other.root
    }
}

impl Eq for Checkpoint {}

impl vstd::std_specs::cmp::PartialEqSpecImpl for Checkpoint {
    open spec fn obeys_eq_spec() -> bool {
        true
    }

    open spec fn eq_spec(&self, other: &Checkpoint) -> bool {
        *self == *other
    }
}

impl Default for Checkpoint {
    fn default() -> (r: Checkpoint)
        ensures
            r == (Checkpoint { epoch: 0, root: H256::spec_zero() }),
    {
        Checkpoint { epoch: 0, root: H256::zero() }
    }
}

/// One registered staker.
#[derive(Clone, Copy, Debug)]
pub struct Validator {
    pub pubkey: PublicKeyBytes,
    pub withdrawal_credentials: H256,
    pub effective_balance: Gwei,
    pub slashed: bool,
    pub activation_eligibility_epoch: Epoch,
    pub activation_epoch: Epoch,
    pub exit_epoch: Epoch,
    pub withdrawable_epoch: Epoch,
}

impl Validator {
    /// The four epochs of a validator's life follow one another. The sentinel for "not
    /// scheduled" is the largest epoch, so that it counts as later than every other.
    pub open spec fn lifecycle_ordered(&self) -> bool {
        &&& self.activation_eligibility_epoch <= self.activation_epoch
        &&& self.activation_epoch <= self.exit_epoch
        &&& self.exit_epoch <= self.withdrawable_epoch
    }
}

impl Default for Validator {
    fn default() -> (r: Validator)
        ensures
            r.pubkey@ == zeros(48),
            r.withdrawal_credentials == H256::spec_zero(),
            r.effective_balance == 0,
            !r.slashed,
            r.activation_eligibility_epoch == 0,
            r.activation_epoch == 0,
            r.exit_epoch == 0,
            r.withdrawable_epoch == 0,
    {
        Validator {
            pubkey: PublicKeyBytes::default(),
            withdrawal_credentials: H256::zero(),
            effective_balance: 0,
            slashed: false,
            activation_eligibility_epoch: 0,
            activation_epoch: 0,
            exit_epoch: 0,
            withdrawable_epoch: 0,
        }
    }
}

/// What an attestation votes for.
#[derive(Clone, Copy, Debug)]
pub struct AttestationData {
    pub slot: Slot,
    pub index: CommitteeIndex,
    pub beacon_block_root: H256,
    pub source: Checkpoint,
    pub target: Checkpoint,
}

impl PartialEq for AttestationData {
    fn eq(&self, other: &AttestationData) -> (r: bool) {
        self.slot == other.slot && self.index == other.index && self.beacon_block_root
            == other.beacon_block_root && self.source == other.source && self.target
            == other.target
    }
}

impl Eq for AttestationData {}

impl vstd::std_specs::cmp::PartialEqSpecImpl for AttestationData {
    open spec fn obeys_eq_spec() -> bool {
        true
    }

    open spec fn eq_spec(&self, other: &AttestationData) -> bool {
        *self == *other
    }
}

impl Default for AttestationData {
    fn default() -> (r: AttestationData)
        ensures
            r == (AttestationData {
                slot: 0,
                index: 0,
                beacon_block_root: H256::spec_zero(),
                source: Checkpoint { epoch: 0, root: H256::spec_zero() },
                target: Checkpoint { epoch: 0, root: H256::spec_zero() },
            }),
    {
        AttestationData {
            slot: 0,
            index: 0,
            beacon_block_root: H256::zero(),
            source: Checkpoint::default(),
            target: Checkpoint::default(),
        }
    }
}

/// An attestation with its attesters listed by index, in two lists: one for each value of
/// the custody bit.
#[derive(Clone, Debug)]
pub struct IndexedAttestation {
    pub custody_bit_0_indices: Vec<ValidatorIndex>,
    pub custody_bit_1_indices: Vec<ValidatorIndex>,
    pub data: AttestationData,
    pub signature: SignatureBytes,
}

impl Default for IndexedAttestation {
    fn default() -> (r: IndexedAttestation)
        ensures
            r.custody_bit_0_indices@ == Seq::<u64>::empty(),
            r.custody_bit_1_indices@ == Seq::<u64>::empty(),
            r.data == (AttestationData {
                slot: 0,
                index: 0,
                beacon_block_root: H256::spec_zero(),
                source: Checkpoint { epoch: 0, root: H256::spec_zero() },
                target: Checkpoint { epoch: 0, root: H256::spec_zero() },
            }),
            r.signature@ == zeros(96),
    {
        IndexedAttestation {
            custody_bit_0_indices: Vec::new(),
            custody_bit_1_indices: Vec::new(),
            data: AttestationData::default(),
            signature: SignatureBytes::default(),
        }
    }
}

/// An attestation as a block carries it: the committee's votes as bits.
#[derive(Clone, Debug)]
pub struct Attestation {
    pub aggregation_bits: Vec<bool>,
    pub data: AttestationData,
    pub signature: SignatureBytes,
}

/// An attestation as the state keeps it until the epoch is processed.
#[derive(Clone, Debug)]
pub struct PendingAttestation {
    pub aggregation_bits: Vec<bool>,
    pub data: AttestationData,
    pub inclusion_delay: Slot,
    pub proposer_index: ValidatorIndex,
}

/// The mathematical value of a pending attestation.
pub struct PendingAttestationView {
    pub aggregation_bits: Seq<bool>,
    pub data: AttestationData,
    pub inclusion_delay: Slot,
    pub proposer_index: ValidatorIndex,
}

impl DeepView for PendingAttestation {
    type V = PendingAttestationView;

    open spec fn deep_view(&self) -> PendingAttestationView {
        PendingAttestationView {
            aggregation_bits: self.aggregation_bits@,
            data: self.data,
            inclusion_delay: self.inclusion_delay,
            proposer_index: self.proposer_index,
        }
    }
}

/// What the deposit contract knows, as a block proposer saw it.
#[derive(Clone, Copy, Debug)]
pub struct Eth1Data {
    pub deposit_root: H256,
    pub deposit_count: u64,
    pub block_hash: H256,
}

impl PartialEq for Eth1Data {
    fn eq(&self, other: &Eth1Data) -> (r: bool) {
        self.deposit_root == other.deposit_root && self.deposit_count == other.deposit_count
            && self.block_hash == other.block_hash
    }
}

impl Eq for Eth1Data {}

impl vstd::std_specs::cmp::PartialEqSpecImpl for Eth1Data {
    open spec fn obeys_eq_spec() -> bool {
        true
    }

    open spec fn eq_spec(&self, other: &Eth1Data) -> bool {
        *self == *other
    }
}

impl Default for Eth1Data {
    fn default() -> (r: Eth1Data)
        ensures
            r == (Eth1Data {
                deposit_root: H256::spec_zero(),
                deposit_count: 0,
                block_hash: H256::spec_zero(),
            }),
    {
        Eth1Data { deposit_root: H256::zero(), deposit_count: 0, block_hash: H256::zero() }
    }
}

/// A block without its body.
#[derive(Clone, Copy, Debug)]
pub struct BeaconBlockHeader {
    pub slot: Slot,
    pub proposer_index: ValidatorIndex,
    pub parent_root: H256,
    pub state_root: H256,
    pub body_root: H256,
}

impl PartialEq for BeaconBlockHeader {
    fn eq(&self, other: &BeaconBlockHeader) -> (r: bool) {
        self.slot == other.slot && self.proposer_index == other.proposer_index
            && self.parent_root == other.parent_root && self.state_root == other.state_root
            && self.body_root == other.body_root
    }
}

impl Eq for BeaconBlockHeader {}

impl vstd::std_specs::cmp::PartialEqSpecImpl for BeaconBlockHeader {
    open spec fn obeys_eq_spec() -> bool {
        true
    }

    open spec fn eq_spec(&self, other: &BeaconBlockHeader) -> bool {
        *self == *other
    }
}

impl Default for BeaconBlockHeader {
    fn default() -> (r: BeaconBlockHeader)
        ensures
            r == (BeaconBlockHeader {
                slot: 0,
                proposer_index: 0,
                parent_root: H256::spec_zero(),
                state_root: H256::spec_zero(),
                body_root: H256::spec_zero(),
            }),
    {
        BeaconBlockHeader {
            slot: 0,
            proposer_index: 0,
            parent_root: H256::zero(),
            state_root: H256::zero(),
            body_root: H256::zero(),
        }
    }
}

/// A block header and its proposer's signature.
#[derive(Clone, Copy, Debug)]
pub struct SignedBeaconBlockHeader {
    pub message: BeaconBlockHeader,
    pub signature: SignatureBytes,
}

/// Two headers that one proposer signed for one slot.
#[derive(Clone, Copy, Debug)]
pub struct ProposerSlashing {
    pub signed_header_1: SignedBeaconBlockHeader,
    pub signed_header_2: SignedBeaconBlockHeader,
}

/// Two attestations of which one contradicts the other.
#[derive(Clone, Debug)]
pub struct AttesterSlashing {
    pub attestation_1: IndexedAttestation,
    pub attestation_2: IndexedAttestation,
}

/// What a depositor signed.
#[derive(Clone, Copy, Debug)]
pub struct DepositData {
    pub pubkey: PublicKeyBytes,
    pub withdrawal_credentials: H256,
    pub amount: Gwei,
    pub signature: SignatureBytes,
}

/// What a depositor's signature covers.
#[derive(Clone, Copy, Debug)]
pub struct DepositMessage {
    pub pubkey: PublicKeyBytes,
    pub withdrawal_credentials: H256,
    pub amount: Gwei,
}

/// A deposit with the branch that proves it against the deposit root.
#[derive(Clone, Debug)]
pub struct Deposit {
    pub proof: Vec<H256>,
    pub data: DepositData,
}

/// A validator's wish to leave.
#[derive(Clone, Copy, Debug)]
pub struct VoluntaryExit {
    pub epoch: Epoch,
    pub validator_index: ValidatorIndex,
}

/// A wish to leave and the validator's signature.
#[derive(Clone, Copy, Debug)]
pub struct SignedVoluntaryExit {
    pub message: VoluntaryExit,
    pub signature: SignatureBytes,
}

/// What a block carries besides its header.
#[derive(Clone, Debug)]
pub struct BeaconBlockBody {
    pub randao_reveal: SignatureBytes,
    pub eth1_data: Eth1Data,
    pub graffiti: H256,
    pub proposer_slashings: Vec<ProposerSlashing>,
    pub attester_slashings: Vec<AttesterSlashing>,
    pub attestations: Vec<Attestation>,
    pub deposits: Vec<Deposit>,
    pub voluntary_exits: Vec<SignedVoluntaryExit>,
}

/// A block.
#[derive(Clone, Debug)]
pub struct BeaconBlock {
    pub slot: Slot,
    pub proposer_index: ValidatorIndex,
    pub parent_root: H256,
    pub state_root: H256,
    pub body: BeaconBlockBody,
}

/// A block and its proposer's signature.
#[derive(Clone, Debug)]
pub struct SignedBeaconBlock {
    pub message: BeaconBlock,
    pub signature: SignatureBytes,
}

/// The state of one shard, carried by the beacon state and not read by its transition.
#[derive(Clone, Copy, Debug)]
pub struct ShardState {
    pub slot: Slot,
    pub gasprice: Gwei,
    pub data: H256,
    pub latest_block_root: H256,
}

/// A committee in compact form, carried by the beacon state and not read by its transition.
#[derive(Clone, Debug)]
pub struct CompactCommittee {
    pub pubkeys: Vec<PublicKeyBytes>,
    pub compact_validators: Vec<u64>,
}

/// The mathematical value of a compact committee.
pub struct CompactCommitteeView {
    pub pubkeys: Seq<PublicKeyBytes>,
    pub compact_validators: Seq<u64>,
}

impl DeepView for CompactCommittee {
    type V = CompactCommitteeView;

    open spec fn deep_view(&self) -> CompactCommitteeView {
        CompactCommitteeView {
            pubkeys: self.pubkeys@,
            compact_validators: self.compact_validators@,
        }
    }
}

impl Default for CompactCommittee {
    fn default() -> (r: CompactCommittee)
        ensures
            r.pubkeys@ == Seq::<PublicKeyBytes>::empty(),
            r.compact_validators@ == Seq::<u64>::empty(),
    {
        CompactCommittee { pubkeys: Vec::new(), compact_validators: Vec::new() }
    }
}

} // verus!
