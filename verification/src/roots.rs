//! The roots of the containers of the protocol.

use vstd::prelude::*;
use crate::config::Config;
use crate::merkle::{
    bits_bytes, bool_chunk, bytes4_chunk, container_root, finish, hash_bit_list, hash_list,
    hash_u64_list, hash_vector, list_root, pack_u64s, put_bool, put_bytes4, put_root, put_u64,
    roots_concat, spec_bit_chunks, spec_u64_chunks, u64_chunk, TreeHash,
};
use crate::primitives::H256;
use crate::types::{
    Attestation, AttestationData, AttesterSlashing, BeaconBlock, BeaconBlockBody, BeaconBlockHeader,
    Checkpoint, Deposit, DepositData, DepositMessage, Eth1Data, Fork, ForkData, IndexedAttestation,
    ProposerSlashing, ShardState, SignedBeaconBlockHeader, SignedVoluntaryExit, SigningData,
    Validator, VoluntaryExit,
};

verus! {

impl TreeHash for Fork {
    open spec fn hashable(&self, config: Config) -> bool {
        true
    }

    open spec fn tree_root(&self, config: Config) -> Seq<u8> {
        container_root(
            Seq::<u8>::empty()
                + bytes4_chunk(self.previous_version@)
                + bytes4_chunk(self.current_version@)
                + u64_chunk(self.epoch),
        )
    }

    fn tree_hash_root(&self, config: &Config) -> (root: H256) {
        let mut buf: Vec<u8> = Vec::new();
        put_bytes4(&mut buf, &self.previous_version);
        put_bytes4(&mut buf, &self.current_version);
        put_u64(&mut buf, self.epoch);
        finish(&buf)
    }
}

impl TreeHash for ForkData {
    open spec fn hashable(&self, config: Config) -> bool {
        true
    }

    open spec fn tree_root(&self, config: Config) -> Seq<u8> {
        container_root(
            Seq::<u8>::empty()
                + bytes4_chunk(self.current_version@)
                + self.genesis_validators_root@,
        )
    }

    fn tree_hash_root(&self, config: &Config) -> (root: H256) {
        let mut buf: Vec<u8> = Vec::new();
        put_bytes4(&mut buf, &self.current_version);
        put_root(&mut buf, &self.genesis_validators_root);
        finish(&buf)
    }
}

impl TreeHash for SigningData {
    open spec fn hashable(&self, config: Config) -> bool {
        true
    }

    open spec fn tree_root(&self, config: Config) -> Seq<u8> {
        container_root(
            Seq::<u8>::empty()
                + self.object_root@
                + self.domain@,
        )
    }

    fn tree_hash_root(&self, config: &Config) -> (root: H256) {
        let mut buf: Vec<u8> = Vec::new();
        put_root(&mut buf, &self.object_root);
        put_root(&mut buf, &self.domain);
        finish(&buf)
    }
}

impl TreeHash for Checkpoint {
    open spec fn hashable(&self, config: Config) -> bool {
        true
    }

    open spec fn tree_root(&self, config: Config) -> Seq<u8> {
        container_root(
            Seq::<u8>::empty()
                + u64_chunk(self.epoch)
                + self.root@,
        )
    }

    fn tree_hash_root(&self, config: &Config) -> (root: H256) {
        let mut buf: Vec<u8> = Vec::new();
        put_u64(&mut buf, self.epoch);
        put_root(&mut buf, &self.root);
        finish(&buf)
    }
}

impl TreeHash for Validator {
    open spec fn hashable(&self, config: Config) -> bool {
        true
    }

    open spec fn tree_root(&self, config: Config) -> Seq<u8> {
        container_root(
            Seq::<u8>::empty()
                + self.pubkey.tree_root(config)
                + self.withdrawal_credentials@
                + u64_chunk(self.effective_balance)
                + bool_chunk(self.slashed)
                + u64_chunk(self.activation_eligibility_epoch)
                + u64_chunk(self.activation_epoch)
                + u64_chunk(self.exit_epoch)
                + u64_chunk(self.withdrawable_epoch),
        )
    }

    fn tree_hash_root(&self, config: &Config) -> (root: H256) {
        let mut buf: Vec<u8> = Vec::new();
        let r = self.pubkey.tree_hash_root(config);
        put_root(&mut buf, &r);
        put_root(&mut buf, &self.withdrawal_credentials);
        put_u64(&mut buf, self.effective_balance);
        put_bool(&mut buf, self.slashed);
        put_u64(&mut buf, self.activation_eligibility_epoch);
        put_u64(&mut buf, self.activation_epoch);
        put_u64(&mut buf, self.exit_epoch);
        put_u64(&mut buf, self.withdrawable_epoch);
        finish(&buf)
    }
}

impl TreeHash for AttestationData {
    open spec fn hashable(&self, config: Config) -> bool {
        true
    }

    open spec fn tree_root(&self, config: Config) -> Seq<u8> {
        container_root(
            Seq::<u8>::empty()
                + u64_chunk(self.slot)
                + u64_chunk(self.index)
                + self.beacon_block_root@
                + self.source.tree_root(config)
                + self.target.tree_root(config),
        )
    }

    fn tree_hash_root(&self, config: &Config) -> (root: H256) {
        let mut buf: Vec<u8> = Vec::new();
        put_u64(&mut buf, self.slot);
        put_u64(&mut buf, self.index);
        put_root(&mut buf, &self.beacon_block_root);
        let r = self.source.tree_hash_root(config);
        put_root(&mut buf, &r);
        let r = self.target.tree_hash_root(config);
        put_root(&mut buf, &r);
        finish(&buf)
    }
}

impl TreeHash for Eth1Data {
    open spec fn hashable(&self, config: Config) -> bool {
        true
    }

    open spec fn tree_root(&self, config: Config) -> Seq<u8> {
        container_root(
            Seq::<u8>::empty()
                + self.deposit_root@
                + u64_chunk(self.deposit_count)
                + self.block_hash@,
        )
    }

    fn tree_hash_root(&self, config: &Config) -> (root: H256) {
        let mut buf: Vec<u8> = Vec::new();
        put_root(&mut buf, &self.deposit_root);
        put_u64(&mut buf, self.deposit_count);
        put_root(&mut buf, &self.block_hash);
        finish(&buf)
    }
}

impl TreeHash for BeaconBlockHeader {
    open spec fn hashable(&self, config: Config) -> bool {
        true
    }

    open spec fn tree_root(&self, config: Config) -> Seq<u8> {
        container_root(
            Seq::<u8>::empty()
                + u64_chunk(self.slot)
                + u64_chunk(self.proposer_index)
                + self.parent_root@
                + self.state_root@
                + self.body_root@,
        )
    }

    fn tree_hash_root(&self, config: &Config) -> (root: H256) {
        let mut buf: Vec<u8> = Vec::new();
        put_u64(&mut buf, self.slot);
        put_u64(&mut buf, self.proposer_index);
        put_root(&mut buf, &self.parent_root);
        put_root(&mut buf, &self.state_root);
        put_root(&mut buf, &self.body_root);
        finish(&buf)
    }
}

impl TreeHash for SignedBeaconBlockHeader {
    open spec fn hashable(&self, config: Config) -> bool {
        true
    }

    open spec fn tree_root(&self, config: Config) -> Seq<u8> {
        container_root(
            Seq::<u8>::empty()
                + self.message.tree_root(config)
                + self.signature.tree_root(config),
        )
    }

    fn tree_hash_root(&self, config: &Config) -> (root: H256) {
        let mut buf: Vec<u8> = Vec::new();
        let r = self.message.tree_hash_root(config);
        put_root(&mut buf, &r);
        let r = self.signature.tree_hash_root(config);
        put_root(&mut buf, &r);
        finish(&buf)
    }
}

impl TreeHash for ProposerSlashing {
    open spec fn hashable(&self, config: Config) -> bool {
        true
    }

    open spec fn tree_root(&self, config: Config) -> Seq<u8> {
        container_root(
            Seq::<u8>::empty()
                + self.signed_header_1.tree_root(config)
                + self.signed_header_2.tree_root(config),
        )
    }

    fn tree_hash_root(&self, config: &Config) -> (root: H256) {
        let mut buf: Vec<u8> = Vec::new();
        let r = self.signed_header_1.tree_hash_root(config);
        put_root(&mut buf, &r);
        let r = self.signed_header_2.tree_hash_root(config);
        put_root(&mut buf, &r);
        finish(&buf)
    }
}

impl TreeHash for DepositData {
    open spec fn hashable(&self, config: Config) -> bool {
        true
    }

    open spec fn tree_root(&self, config: Config) -> Seq<u8> {
        container_root(
            Seq::<u8>::empty()
                + self.pubkey.tree_root(config)
                + self.withdrawal_credentials@
                + u64_chunk(self.amount)
                + self.signature.tree_root(config),
        )
    }

    fn tree_hash_root(&self, config: &Config) -> (root: H256) {
        let mut buf: Vec<u8> = Vec::new();
        let r = self.pubkey.tree_hash_root(config);
        put_root(&mut buf, &r);
        put_root(&mut buf, &self.withdrawal_credentials);
        put_u64(&mut buf, self.amount);
        let r = self.signature.tree_hash_root(config);
        put_root(&mut buf, &r);
        finish(&buf)
    }
}

impl TreeHash for DepositMessage {
    open spec fn hashable(&self, config: Config) -> bool {
        true
    }

    open spec fn tree_root(&self, config: Config) -> Seq<u8> {
        container_root(
            Seq::<u8>::empty()
                + self.pubkey.tree_root(config)
                + self.withdrawal_credentials@
                + u64_chunk(self.amount),
        )
    }

    fn tree_hash_root(&self, config: &Config) -> (root: H256) {
        let mut buf: Vec<u8> = Vec::new();
        let r = self.pubkey.tree_hash_root(config);
        put_root(&mut buf, &r);
        put_root(&mut buf, &self.withdrawal_credentials);
        put_u64(&mut buf, self.amount);
        finish(&buf)
    }
}

impl TreeHash for VoluntaryExit {
    open spec fn hashable(&self, config: Config) -> bool {
        true
    }

    open spec fn tree_root(&self, config: Config) -> Seq<u8> {
        container_root(
            Seq::<u8>::empty()
                + u64_chunk(self.epoch)
                + u64_chunk(self.validator_index),
        )
    }

    fn tree_hash_root(&self, config: &Config) -> (root: H256) {
        let mut buf: Vec<u8> = Vec::new();
        put_u64(&mut buf, self.epoch);
        put_u64(&mut buf, self.validator_index);
        finish(&buf)
    }
}

impl TreeHash for SignedVoluntaryExit {
    open spec fn hashable(&self, config: Config) -> bool {
        true
    }

    open spec fn tree_root(&self, config: Config) -> Seq<u8> {
        container_root(
            Seq::<u8>::empty()
                + self.message.tree_root(config)
                + self.signature.tree_root(config),
        )
    }

    fn tree_hash_root(&self, config: &Config) -> (root: H256) {
        let mut buf: Vec<u8> = Vec::new();
        let r = self.message.tree_hash_root(config);
        put_root(&mut buf, &r);
        let r = self.signature.tree_hash_root(config);
        put_root(&mut buf, &r);
        finish(&buf)
    }
}

impl TreeHash for ShardState {
    open spec fn hashable(&self, config: Config) -> bool {
        true
    }

    open spec fn tree_root(&self, config: Config) -> Seq<u8> {
        container_root(
            Seq::<u8>::empty()
                + u64_chunk(self.slot)
                + u64_chunk(self.gasprice)
                + self.data@
                + self.latest_block_root@,
        )
    }

    fn tree_hash_root(&self, config: &Config) -> (root: H256) {
        let mut buf: Vec<u8> = Vec::new();
        put_u64(&mut buf, self.slot);
        put_u64(&mut buf, self.gasprice);
        put_root(&mut buf, &self.data);
        put_root(&mut buf, &self.latest_block_root);
        finish(&buf)
    }
}

impl TreeHash for IndexedAttestation {
    /// Both index lists are within the committee limit.
    open spec fn hashable(&self, config: Config) -> bool {
        &&& self.custody_bit_0_indices@.len() <= config.max_validators_per_committee
        &&& self.custody_bit_1_indices@.len() <= config.max_validators_per_committee
    }

    open spec fn tree_root(&self, config: Config) -> Seq<u8> {
        container_root(
            Seq::<u8>::empty()
                + list_root(
                    pack_u64s(self.custody_bit_0_indices@),
                    spec_u64_chunks(config.max_validators_per_committee),
                    self.custody_bit_0_indices@.len(),
                )
                + list_root(
                    pack_u64s(self.custody_bit_1_indices@),
                    spec_u64_chunks(config.max_validators_per_committee),
                    self.custody_bit_1_indices@.len(),
                )
                + self.data.tree_root(config)
                + self.signature.tree_root(config),
        )
    }

    fn tree_hash_root(&self, config: &Config) -> (root: H256) {
        let mut buf: Vec<u8> = Vec::new();
        let r = hash_u64_list(&self.custody_bit_0_indices, config.max_validators_per_committee);
        put_root(&mut buf, &r);
        let r = hash_u64_list(&self.custody_bit_1_indices, config.max_validators_per_committee);
        put_root(&mut buf, &r);
        let r = self.data.tree_hash_root(config);
        put_root(&mut buf, &r);
        let r = self.signature.tree_hash_root(config);
        put_root(&mut buf, &r);
        finish(&buf)
    }
}

impl TreeHash for Attestation {
    /// The bit list is within the committee limit.
    open spec fn hashable(&self, config: Config) -> bool {
        &&& self.aggregation_bits@.len() <= config.max_validators_per_committee
    }

    open spec fn tree_root(&self, config: Config) -> Seq<u8> {
        container_root(
            Seq::<u8>::empty()
                + list_root(
                    bits_bytes(self.aggregation_bits@),
                    spec_bit_chunks(config.max_validators_per_committee),
                    self.aggregation_bits@.len(),
                )
                + self.data.tree_root(config)
                + self.signature.tree_root(config),
        )
    }

    fn tree_hash_root(&self, config: &Config) -> (root: H256) {
        let mut buf: Vec<u8> = Vec::new();
        let r = hash_bit_list(&self.aggregation_bits, config.max_validators_per_committee);
        put_root(&mut buf, &r);
        let r = self.data.tree_hash_root(config);
        put_root(&mut buf, &r);
        let r = self.signature.tree_hash_root(config);
        put_root(&mut buf, &r);
        finish(&buf)
    }
}

impl TreeHash for AttesterSlashing {
    /// Both attestations can be hashed.
    open spec fn hashable(&self, config: Config) -> bool {
        &&& self.attestation_1.hashable(config)
        &&& self.attestation_2.hashable(config)
    }

    open spec fn tree_root(&self, config: Config) -> Seq<u8> {
        container_root(
            Seq::<u8>::empty()
                + self.attestation_1.tree_root(config)
                + self.attestation_2.tree_root(config),
        )
    }

    fn tree_hash_root(&self, config: &Config) -> (root: H256) {
        let mut buf: Vec<u8> = Vec::new();
        let r = self.attestation_1.tree_hash_root(config);
        put_root(&mut buf, &r);
        let r = self.attestation_2.tree_hash_root(config);
        put_root(&mut buf, &r);
        finish(&buf)
    }
}

impl TreeHash for Deposit {
    /// The branch has one root for each level of the deposit tree and one for its length.
    open spec fn hashable(&self, config: Config) -> bool {
        &&& self.proof@.len() == 33
    }

    open spec fn tree_root(&self, config: Config) -> Seq<u8> {
        container_root(
            Seq::<u8>::empty()
                + container_root(roots_concat(self.proof@, config))
                + self.data.tree_root(config),
        )
    }

    fn tree_hash_root(&self, config: &Config) -> (root: H256) {
        let mut buf: Vec<u8> = Vec::new();
        let r = hash_vector(&self.proof, config);
        put_root(&mut buf, &r);
        let r = self.data.tree_hash_root(config);
        put_root(&mut buf, &r);
        finish(&buf)
    }
}

impl TreeHash for BeaconBlockBody {
    /// Every list is within its limit and every item can be hashed.
    open spec fn hashable(&self, config: Config) -> bool {
        &&& self.proposer_slashings@.len() <= config.max_proposer_slashings
        &&& forall|i: int| 0 <= i < self.proposer_slashings@.len() ==> (
            #[trigger] self.proposer_slashings@[i]
        ).hashable(config)
        &&& self.attester_slashings@.len() <= config.max_attester_slashings
        &&& forall|i: int| 0 <= i < self.attester_slashings@.len() ==> (
            #[trigger] self.attester_slashings@[i]
        ).hashable(config)
        &&& self.attestations@.len() <= config.max_attestations
        &&& forall|i: int| 0 <= i < self.attestations@.len() ==> (
            #[trigger] self.attestations@[i]
        ).hashable(config)
        &&& self.deposits@.len() <= config.max_deposits
        &&& forall|i: int| 0 <= i < self.deposits@.len() ==> (
            #[trigger] self.deposits@[i]
        ).hashable(config)
        &&& self.voluntary_exits@.len() <= config.max_voluntary_exits
        &&& forall|i: int| 0 <= i < self.voluntary_exits@.len() ==> (
            #[trigger] self.voluntary_exits@[i]
        ).hashable(config)
    }

    open spec fn tree_root(&self, config: Config) -> Seq<u8> {
        container_root(
            Seq::<u8>::empty()
                + self.randao_reveal.tree_root(config)
                + self.eth1_data.tree_root(config)
                + self.graffiti@
                + list_root(
                    roots_concat(self.proposer_slashings@, config),
                    config.max_proposer_slashings,
                    self.proposer_slashings@.len(),
                )
                + list_root(
                    roots_concat(self.attester_slashings@, config),
                    config.max_attester_slashings,
                    self.attester_slashings@.len(),
                )
                + list_root(
                    roots_concat(self.attestations@, config),
                    config.max_attestations,
                    self.attestations@.len(),
                )
                + list_root(
                    roots_concat(self.deposits@, config),
                    config.max_deposits,
                    self.deposits@.len(),
                )
                + list_root(
                    roots_concat(self.voluntary_exits@, config),
                    config.max_voluntary_exits,
                    self.voluntary_exits@.len(),
                ),
        )
    }

    fn tree_hash_root(&self, config: &Config) -> (root: H256) {
        let mut buf: Vec<u8> = Vec::new();
        let r = self.randao_reveal.tree_hash_root(config);
        put_root(&mut buf, &r);
        let r = self.eth1_data.tree_hash_root(config);
        put_root(&mut buf, &r);
        put_root(&mut buf, &self.graffiti);
        let r = hash_list(&self.proposer_slashings, config.max_proposer_slashings, config);
        put_root(&mut buf, &r);
        let r = hash_list(&self.attester_slashings, config.max_attester_slashings, config);
        put_root(&mut buf, &r);
        let r = hash_list(&self.attestations, config.max_attestations, config);
        put_root(&mut buf, &r);
        let r = hash_list(&self.deposits, config.max_deposits, config);
        put_root(&mut buf, &r);
        let r = hash_list(&self.voluntary_exits, config.max_voluntary_exits, config);
        put_root(&mut buf, &r);
        finish(&buf)
    }
}

impl TreeHash for BeaconBlock {
    /// The body can be hashed.
    open spec fn hashable(&self, config: Config) -> bool {
        &&& self.body.hashable(config)
    }

    open spec fn tree_root(&self, config: Config) -> Seq<u8> {
        container_root(
            Seq::<u8>::empty()
                + u64_chunk(self.slot)
                + u64_chunk(self.proposer_index)
                + self.parent_root@
                + self.state_root@
                + self.body.tree_root(config),
        )
    }

    fn tree_hash_root(&self, config: &Config) -> (root: H256) {
        let mut buf: Vec<u8> = Vec::new();
        put_u64(&mut buf, self.slot);
        put_u64(&mut buf, self.proposer_index);
        put_root(&mut buf, &self.parent_root);
        put_root(&mut buf, &self.state_root);
        let r = self.body.tree_hash_root(config);
        put_root(&mut buf, &r);
        finish(&buf)
    }
}

} // verus!
