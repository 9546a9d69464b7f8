//! The encodings of the containers of fixed length.

use vstd::prelude::*;
use vstd::slice::slice_subrange;
use crate::codec::{FixedSsz, Ssz};
use crate::config::Config;
use crate::primitives::{H256, PublicKeyBytes, SignatureBytes, Version};
use crate::types::{
    AttestationData, BeaconBlockHeader, Checkpoint, DepositData, DepositMessage, Eth1Data, Fork,
    ForkData, ProposerSlashing, ShardState, SignedBeaconBlockHeader, SignedVoluntaryExit,
    SigningData, Validator, VoluntaryExit,
};

verus! {

impl Ssz for Fork {
    type Value = Fork;

    open spec fn value(&self) -> Fork {
        *self
    }

    open spec fn fits(v: Fork, config: Config) -> bool {
        true
    }

    open spec fn spec_encode(v: Fork) -> Seq<u8> {
        Seq::<u8>::empty()
            + <Version as Ssz>::spec_encode(v.previous_version)
            + <Version as Ssz>::spec_encode(v.current_version)
            + <u64 as Ssz>::spec_encode(v.epoch)
    }

    open spec fn spec_decode(bytes: Seq<u8>, config: Config) -> Option<Fork> {
        if bytes.len() != 16 {
            None
        } else {
            let previous_version = <Version as Ssz>::spec_decode(bytes.subrange(0, 4), config);
            let current_version = <Version as Ssz>::spec_decode(bytes.subrange(4, 8), config);
            let epoch = <u64 as Ssz>::spec_decode(bytes.subrange(8, 16), config);
            if previous_version is Some && current_version is Some && epoch is Some {
                Some(
                    Fork {
                        previous_version: previous_version->Some_0,
                        current_version: current_version->Some_0,
                        epoch: epoch->Some_0,
                    }
                )
            } else {
                None
            }
        }
    }

    proof fn lemma_round_trip(v: Fork, config: Config) {
        let bytes = Self::spec_encode(v);
        <Version as FixedSsz>::lemma_size(v.previous_version, Seq::empty(), config);
        <Version as FixedSsz>::lemma_size(v.current_version, Seq::empty(), config);
        <u64 as FixedSsz>::lemma_size(v.epoch, Seq::empty(), config);
        assert(bytes.subrange(0, 4) =~= <Version as Ssz>::spec_encode(v.previous_version));
        assert(bytes.subrange(4, 8) =~= <Version as Ssz>::spec_encode(v.current_version));
        assert(bytes.subrange(8, 16) =~= <u64 as Ssz>::spec_encode(v.epoch));
        <Version as Ssz>::lemma_round_trip(v.previous_version, config);
        <Version as Ssz>::lemma_round_trip(v.current_version, config);
        <u64 as Ssz>::lemma_round_trip(v.epoch, config);
    }

    fn ssz_append(&self, buf: &mut Vec<u8>) {
        self.previous_version.ssz_append(buf);
        self.current_version.ssz_append(buf);
        self.epoch.ssz_append(buf);
        assert(buf@ =~= old(buf)@ + Self::spec_encode(*self));
    }

    fn ssz_decode(bytes: &[u8], config: &Config) -> (r: Option<Fork>) {
        if bytes.len() != 16 {
            return None;
        }
        let previous_version = match <Version as Ssz>::ssz_decode(
            slice_subrange(bytes, 0, 4),
            config,
        ) {
            Some(x) => x,
            None => {
                return None;
            },
        };
        let current_version = match <Version as Ssz>::ssz_decode(
            slice_subrange(bytes, 4, 8),
            config,
        ) {
            Some(x) => x,
            None => {
                return None;
            },
        };
        let epoch = match <u64 as Ssz>::ssz_decode(slice_subrange(bytes, 8, 16), config) {
            Some(x) => x,
            None => {
                return None;
            },
        };
        Some(Fork { previous_version, current_version, epoch })
    }
}

impl FixedSsz for Fork {
    open spec fn spec_size() -> nat {
        16
    }

    proof fn lemma_size(v: Fork, bytes: Seq<u8>, config: Config) {
        <Version as FixedSsz>::lemma_size(v.previous_version, Seq::empty(), config);
        <Version as FixedSsz>::lemma_size(v.current_version, Seq::empty(), config);
        <u64 as FixedSsz>::lemma_size(v.epoch, Seq::empty(), config);
    }

    fn size() -> (n: usize) {
        16
    }
}

impl Ssz for ForkData {
    type Value = ForkData;

    open spec fn value(&self) -> ForkData {
        *self
    }

    open spec fn fits(v: ForkData, config: Config) -> bool {
        true
    }

    open spec fn spec_encode(v: ForkData) -> Seq<u8> {
        Seq::<u8>::empty()
            + <Version as Ssz>::spec_encode(v.current_version)
            + <H256 as Ssz>::spec_encode(v.genesis_validators_root)
    }

    open spec fn spec_decode(bytes: Seq<u8>, config: Config) -> Option<ForkData> {
        if bytes.len() != 36 {
            None
        } else {
            let current_version = <Version as Ssz>::spec_decode(bytes.subrange(0, 4), config);
            let genesis_validators_root = <H256 as Ssz>::spec_decode(bytes.subrange(4, 36), config);
            if current_version is Some && genesis_validators_root is Some {
                Some(
                    ForkData {
                        current_version: current_version->Some_0,
                        genesis_validators_root: genesis_validators_root->Some_0,
                    }
                )
            } else {
                None
            }
        }
    }

    proof fn lemma_round_trip(v: ForkData, config: Config) {
        let bytes = Self::spec_encode(v);
        <Version as FixedSsz>::lemma_size(v.current_version, Seq::empty(), config);
        <H256 as FixedSsz>::lemma_size(v.genesis_validators_root, Seq::empty(), config);
        assert(bytes.subrange(0, 4) =~= <Version as Ssz>::spec_encode(v.current_version));
        assert(bytes.subrange(4, 36) =~= <H256 as Ssz>::spec_encode(v.genesis_validators_root));
        <Version as Ssz>::lemma_round_trip(v.current_version, config);
        <H256 as Ssz>::lemma_round_trip(v.genesis_validators_root, config);
    }

    fn ssz_append(&self, buf: &mut Vec<u8>) {
        self.current_version.ssz_append(buf);
        self.genesis_validators_root.ssz_append(buf);
        assert(buf@ =~= old(buf)@ + Self::spec_encode(*self));
    }

    fn ssz_decode(bytes: &[u8], config: &Config) -> (r: Option<ForkData>) {
        if bytes.len() != 36 {
            return None;
        }
        let current_version = match <Version as Ssz>::ssz_decode(
            slice_subrange(bytes, 0, 4),
            config,
        ) {
            Some(x) => x,
            None => {
                return None;
            },
        };
        let genesis_validators_root = match <H256 as Ssz>::ssz_decode(
            slice_subrange(bytes, 4, 36),
            config,
        ) {
            Some(x) => x,
            None => {
                return None;
            },
        };
        Some(ForkData { current_version, genesis_validators_root })
    }
}

impl FixedSsz for ForkData {
    open spec fn spec_size() -> nat {
        36
    }

    proof fn lemma_size(v: ForkData, bytes: Seq<u8>, config: Config) {
        <Version as FixedSsz>::lemma_size(v.current_version, Seq::empty(), config);
        <H256 as FixedSsz>::lemma_size(v.genesis_validators_root, Seq::empty(), config);
    }

    fn size() -> (n: usize) {
        36
    }
}

impl Ssz for SigningData {
    type Value = SigningData;

    open spec fn value(&self) -> SigningData {
        *self
    }

    open spec fn fits(v: SigningData, config: Config) -> bool {
        true
    }

    open spec fn spec_encode(v: SigningData) -> Seq<u8> {
        Seq::<u8>::empty()
            + <H256 as Ssz>::spec_encode(v.object_root)
            + <H256 as Ssz>::spec_encode(v.domain)
    }

    open spec fn spec_decode(bytes: Seq<u8>, config: Config) -> Option<SigningData> {
        if bytes.len() != 64 {
            None
        } else {
            let object_root = <H256 as Ssz>::spec_decode(bytes.subrange(0, 32), config);
            let domain = <H256 as Ssz>::spec_decode(bytes.subrange(32, 64), config);
            if object_root is Some && domain is Some {
                Some(SigningData { object_root: object_root->Some_0, domain: domain->Some_0 })
            } else {
                None
            }
        }
    }

    proof fn lemma_round_trip(v: SigningData, config: Config) {
        let bytes = Self::spec_encode(v);
        <H256 as FixedSsz>::lemma_size(v.object_root, Seq::empty(), config);
        <H256 as FixedSsz>::lemma_size(v.domain, Seq::empty(), config);
        assert(bytes.subrange(0, 32) =~= <H256 as Ssz>::spec_encode(v.object_root));
        assert(bytes.subrange(32, 64) =~= <H256 as Ssz>::spec_encode(v.domain));
        <H256 as Ssz>::lemma_round_trip(v.object_root, config);
        <H256 as Ssz>::lemma_round_trip(v.domain, config);
    }

    fn ssz_append(&self, buf: &mut Vec<u8>) {
        self.object_root.ssz_append(buf);
        self.domain.ssz_append(buf);
        assert(buf@ =~= old(buf)@ + Self::spec_encode(*self));
    }

    fn ssz_decode(bytes: &[u8], config: &Config) -> (r: Option<SigningData>) {
        if bytes.len() != 64 {
            return None;
        }
        let object_root = match <H256 as Ssz>::ssz_decode(slice_subrange(bytes, 0, 32), config) {
            Some(x) => x,
            None => {
                return None;
            },
        };
        let domain = match <H256 as Ssz>::ssz_decode(slice_subrange(bytes, 32, 64), config) {
            Some(x) => x,
            None => {
                return None;
            },
        };
        Some(SigningData { object_root, domain })
    }
}

impl FixedSsz for SigningData {
    open spec fn spec_size() -> nat {
        64
    }

    proof fn lemma_size(v: SigningData, bytes: Seq<u8>, config: Config) {
        <H256 as FixedSsz>::lemma_size(v.object_root, Seq::empty(), config);
        <H256 as FixedSsz>::lemma_size(v.domain, Seq::empty(), config);
    }

    fn size() -> (n: usize) {
        64
    }
}

impl Ssz for Checkpoint {
    type Value = Checkpoint;

    open spec fn value(&self) -> Checkpoint {
        *self
    }

    open spec fn fits(v: Checkpoint, config: Config) -> bool {
        true
    }

    open spec fn spec_encode(v: Checkpoint) -> Seq<u8> {
        Seq::<u8>::empty()
            + <u64 as Ssz>::spec_encode(v.epoch)
            + <H256 as Ssz>::spec_encode(v.root)
    }

    open spec fn spec_decode(bytes: Seq<u8>, config: Config) -> Option<Checkpoint> {
        if bytes.len() != 40 {
            None
        } else {
            let epoch = <u64 as Ssz>::spec_decode(bytes.subrange(0, 8), config);
            let root = <H256 as Ssz>::spec_decode(bytes.subrange(8, 40), config);
            if epoch is Some && root is Some {
                Some(Checkpoint { epoch: epoch->Some_0, root: root->Some_0 })
            } else {
                None
            }
        }
    }

    proof fn lemma_round_trip(v: Checkpoint, config: Config) {
        let bytes = Self::spec_encode(v);
        <u64 as FixedSsz>::lemma_size(v.epoch, Seq::empty(), config);
        <H256 as FixedSsz>::lemma_size(v.root, Seq::empty(), config);
        assert(bytes.subrange(0, 8) =~= <u64 as Ssz>::spec_encode(v.epoch));
        assert(bytes.subrange(8, 40) =~= <H256 as Ssz>::spec_encode(v.root));
        <u64 as Ssz>::lemma_round_trip(v.epoch, config);
        <H256 as Ssz>::lemma_round_trip(v.root, config);
    }

    fn ssz_append(&self, buf: &mut Vec<u8>) {
        self.epoch.ssz_append(buf);
        self.root.ssz_append(buf);
        assert(buf@ =~= old(buf)@ + Self::spec_encode(*self));
    }

    fn ssz_decode(bytes: &[u8], config: &Config) -> (r: Option<Checkpoint>) {
        if bytes.len() != 40 {
            return None;
        }
        let epoch = match <u64 as Ssz>::ssz_decode(slice_subrange(bytes, 0, 8), config) {
            Some(x) => x,
            None => {
                return None;
            },
        };
        let root = match <H256 as Ssz>::ssz_decode(slice_subrange(bytes, 8, 40), config) {
            Some(x) => x,
            None => {
                return None;
            },
        };
        Some(Checkpoint { epoch, root })
    }
}

impl FixedSsz for Checkpoint {
    open spec fn spec_size() -> nat {
        40
    }

    proof fn lemma_size(v: Checkpoint, bytes: Seq<u8>, config: Config) {
        <u64 as FixedSsz>::lemma_size(v.epoch, Seq::empty(), config);
        <H256 as FixedSsz>::lemma_size(v.root, Seq::empty(), config);
    }

    fn size() -> (n: usize) {
        40
    }
}

impl Ssz for Validator {
    type Value = Validator;

    open spec fn value(&self) -> Validator {
        *self
    }

    open spec fn fits(v: Validator, config: Config) -> bool {
        true
    }

    open spec fn spec_encode(v: Validator) -> Seq<u8> {
        Seq::<u8>::empty()
            + <PublicKeyBytes as Ssz>::spec_encode(v.pubkey)
            + <H256 as Ssz>::spec_encode(v.withdrawal_credentials)
            + <u64 as Ssz>::spec_encode(v.effective_balance)
            + <bool as Ssz>::spec_encode(v.slashed)
            + <u64 as Ssz>::spec_encode(v.activation_eligibility_epoch)
            + <u64 as Ssz>::spec_encode(v.activation_epoch)
            + <u64 as Ssz>::spec_encode(v.exit_epoch)
            + <u64 as Ssz>::spec_encode(v.withdrawable_epoch)
    }

    open spec fn spec_decode(bytes: Seq<u8>, config: Config) -> Option<Validator> {
        if bytes.len() != 121 {
            None
        } else {
            let pubkey = <PublicKeyBytes as Ssz>::spec_decode(bytes.subrange(0, 48), config);
            let withdrawal_credentials = <H256 as Ssz>::spec_decode(bytes.subrange(48, 80), config);
            let effective_balance = <u64 as Ssz>::spec_decode(bytes.subrange(80, 88), config);
            let slashed = <bool as Ssz>::spec_decode(bytes.subrange(88, 89), config);
            let activation_eligibility_epoch = <u64 as Ssz>::spec_decode(
                bytes.subrange(89, 97),
                config,
            );
            let activation_epoch = <u64 as Ssz>::spec_decode(bytes.subrange(97, 105), config);
            let exit_epoch = <u64 as Ssz>::spec_decode(bytes.subrange(105, 113), config);
            let withdrawable_epoch = <u64 as Ssz>::spec_decode(bytes.subrange(113, 121), config);
            if pubkey is Some
                && withdrawal_credentials is Some
                && effective_balance is Some
                && slashed is Some
                && activation_eligibility_epoch is Some
                && activation_epoch is Some
                && exit_epoch is Some
                && withdrawable_epoch is Some {
                Some(
                    Validator {
                        pubkey: pubkey->Some_0,
                        withdrawal_credentials: withdrawal_credentials->Some_0,
                        effective_balance: effective_balance->Some_0,
                        slashed: slashed->Some_0,
                        activation_eligibility_epoch: activation_eligibility_epoch->Some_0,
                        activation_epoch: activation_epoch->Some_0,
                        exit_epoch: exit_epoch->Some_0,
                        withdrawable_epoch: withdrawable_epoch->Some_0,
                    }
                )
            } else {
                None
            }
        }
    }

    proof fn lemma_round_trip(v: Validator, config: Config) {
        let bytes = Self::spec_encode(v);
        <PublicKeyBytes as FixedSsz>::lemma_size(v.pubkey, Seq::empty(), config);
        <H256 as FixedSsz>::lemma_size(v.withdrawal_credentials, Seq::empty(), config);
        <u64 as FixedSsz>::lemma_size(v.effective_balance, Seq::empty(), config);
        <bool as FixedSsz>::lemma_size(v.slashed, Seq::empty(), config);
        <u64 as FixedSsz>::lemma_size(v.activation_eligibility_epoch, Seq::empty(), config);
        <u64 as FixedSsz>::lemma_size(v.activation_epoch, Seq::empty(), config);
        <u64 as FixedSsz>::lemma_size(v.exit_epoch, Seq::empty(), config);
        <u64 as FixedSsz>::lemma_size(v.withdrawable_epoch, Seq::empty(), config);
        assert(bytes.subrange(0, 48) =~= <PublicKeyBytes as Ssz>::spec_encode(v.pubkey));
        assert(bytes.subrange(48, 80) =~= <H256 as Ssz>::spec_encode(v.withdrawal_credentials));
        assert(bytes.subrange(80, 88) =~= <u64 as Ssz>::spec_encode(v.effective_balance));
        assert(bytes.subrange(88, 89) =~= <bool as Ssz>::spec_encode(v.slashed));
        assert(
            bytes.subrange(89, 97) =~= <u64 as Ssz>::spec_encode(v.activation_eligibility_epoch)
        );
        assert(bytes.subrange(97, 105) =~= <u64 as Ssz>::spec_encode(v.activation_epoch));
        assert(bytes.subrange(105, 113) =~= <u64 as Ssz>::spec_encode(v.exit_epoch));
        assert(bytes.subrange(113, 121) =~= <u64 as Ssz>::spec_encode(v.withdrawable_epoch));
        <PublicKeyBytes as Ssz>::lemma_round_trip(v.pubkey, config);
        <H256 as Ssz>::lemma_round_trip(v.withdrawal_credentials, config);
        <u64 as Ssz>::lemma_round_trip(v.effective_balance, config);
        <bool as Ssz>::lemma_round_trip(v.slashed, config);
        <u64 as Ssz>::lemma_round_trip(v.activation_eligibility_epoch, config);
        <u64 as Ssz>::lemma_round_trip(v.activation_epoch, config);
        <u64 as Ssz>::lemma_round_trip(v.exit_epoch, config);
        <u64 as Ssz>::lemma_round_trip(v.withdrawable_epoch, config);
    }

    fn ssz_append(&self, buf: &mut Vec<u8>) {
        self.pubkey.ssz_append(buf);
        self.withdrawal_credentials.ssz_append(buf);
        self.effective_balance.ssz_append(buf);
        self.slashed.ssz_append(buf);
        self.activation_eligibility_epoch.ssz_append(buf);
        self.activation_epoch.ssz_append(buf);
        self.exit_epoch.ssz_append(buf);
        self.withdrawable_epoch.ssz_append(buf);
        assert(buf@ =~= old(buf)@ + Self::spec_encode(*self));
    }

    fn ssz_decode(bytes: &[u8], config: &Config) -> (r: Option<Validator>) {
        if bytes.len() != 121 {
            return None;
        }
        let pubkey = match <PublicKeyBytes as Ssz>::ssz_decode(
            slice_subrange(bytes, 0, 48),
            config,
        ) {
            Some(x) => x,
            None => {
                return None;
            },
        };
        let withdrawal_credentials = match <H256 as Ssz>::ssz_decode(
            slice_subrange(bytes, 48, 80),
            config,
        ) {
            Some(x) => x,
            None => {
                return None;
            },
        };
        let effective_balance = match <u64 as Ssz>::ssz_decode(
            slice_subrange(bytes, 80, 88),
            config,
        ) {
            Some(x) => x,
            None => {
                return None;
            },
        };
        let slashed = match <bool as Ssz>::ssz_decode(slice_subrange(bytes, 88, 89), config) {
            Some(x) => x,
            None => {
                return None;
            },
        };
        let activation_eligibility_epoch = match <u64 as Ssz>::ssz_decode(
            slice_subrange(bytes, 89, 97),
            config,
        ) {
            Some(x) => x,
            None => {
                return None;
            },
        };
        let activation_epoch = match <u64 as Ssz>::ssz_decode(
            slice_subrange(bytes, 97, 105),
            config,
        ) {
            Some(x) => x,
            None => {
                return None;
            },
        };
        let exit_epoch = match <u64 as Ssz>::ssz_decode(slice_subrange(bytes, 105, 113), config) {
            Some(x) => x,
            None => {
                return None;
            },
        };
        let withdrawable_epoch = match <u64 as Ssz>::ssz_decode(
            slice_subrange(bytes, 113, 121),
            config,
        ) {
            Some(x) => x,
            None => {
                return None;
            },
        };
        Some(
            Validator {
                pubkey,
                withdrawal_credentials,
                effective_balance,
                slashed,
                activation_eligibility_epoch,
                activation_epoch,
                exit_epoch,
                withdrawable_epoch,
            }
        )
    }
}

impl FixedSsz for Validator {
    open spec fn spec_size() -> nat {
        121
    }

    proof fn lemma_size(v: Validator, bytes: Seq<u8>, config: Config) {
        <PublicKeyBytes as FixedSsz>::lemma_size(v.pubkey, Seq::empty(), config);
        <H256 as FixedSsz>::lemma_size(v.withdrawal_credentials, Seq::empty(), config);
        <u64 as FixedSsz>::lemma_size(v.effective_balance, Seq::empty(), config);
        <bool as FixedSsz>::lemma_size(v.slashed, Seq::empty(), config);
        <u64 as FixedSsz>::lemma_size(v.activation_eligibility_epoch, Seq::empty(), config);
        <u64 as FixedSsz>::lemma_size(v.activation_epoch, Seq::empty(), config);
        <u64 as FixedSsz>::lemma_size(v.exit_epoch, Seq::empty(), config);
        <u64 as FixedSsz>::lemma_size(v.withdrawable_epoch, Seq::empty(), config);
    }

    fn size() -> (n: usize) {
        121
    }
}

impl Ssz for AttestationData {
    type Value = AttestationData;

    open spec fn value(&self) -> AttestationData {
        *self
    }

    open spec fn fits(v: AttestationData, config: Config) -> bool {
        true
    }

    open spec fn spec_encode(v: AttestationData) -> Seq<u8> {
        Seq::<u8>::empty()
            + <u64 as Ssz>::spec_encode(v.slot)
            + <u64 as Ssz>::spec_encode(v.index)
            + <H256 as Ssz>::spec_encode(v.beacon_block_root)
            + <Checkpoint as Ssz>::spec_encode(v.source)
            + <Checkpoint as Ssz>::spec_encode(v.target)
    }

    open spec fn spec_decode(bytes: Seq<u8>, config: Config) -> Option<AttestationData> {
        if bytes.len() != 128 {
            None
        } else {
            let slot = <u64 as Ssz>::spec_decode(bytes.subrange(0, 8), config);
            let index = <u64 as Ssz>::spec_decode(bytes.subrange(8, 16), config);
            let beacon_block_root = <H256 as Ssz>::spec_decode(bytes.subrange(16, 48), config);
            let source = <Checkpoint as Ssz>::spec_decode(bytes.subrange(48, 88), config);
            let target = <Checkpoint as Ssz>::spec_decode(bytes.subrange(88, 128), config);
            if slot is Some
                && index is Some
                && beacon_block_root is Some
                && source is Some
                && target is Some {
                Some(
                    AttestationData {
                        slot: slot->Some_0,
                        index: index->Some_0,
                        beacon_block_root: beacon_block_root->Some_0,
                        source: source->Some_0,
                        target: target->Some_0,
                    }
                )
            } else {
                None
            }
        }
    }

    proof fn lemma_round_trip(v: AttestationData, config: Config) {
        let bytes = Self::spec_encode(v);
        <u64 as FixedSsz>::lemma_size(v.slot, Seq::empty(), config);
        <u64 as FixedSsz>::lemma_size(v.index, Seq::empty(), config);
        <H256 as FixedSsz>::lemma_size(v.beacon_block_root, Seq::empty(), config);
        <Checkpoint as FixedSsz>::lemma_size(v.source, Seq::empty(), config);
        <Checkpoint as FixedSsz>::lemma_size(v.target, Seq::empty(), config);
        assert(bytes.subrange(0, 8) =~= <u64 as Ssz>::spec_encode(v.slot));
        assert(bytes.subrange(8, 16) =~= <u64 as Ssz>::spec_encode(v.index));
        assert(bytes.subrange(16, 48) =~= <H256 as Ssz>::spec_encode(v.beacon_block_root));
        assert(bytes.subrange(48, 88) =~= <Checkpoint as Ssz>::spec_encode(v.source));
        assert(bytes.subrange(88, 128) =~= <Checkpoint as Ssz>::spec_encode(v.target));
        <u64 as Ssz>::lemma_round_trip(v.slot, config);
        <u64 as Ssz>::lemma_round_trip(v.index, config);
        <H256 as Ssz>::lemma_round_trip(v.beacon_block_root, config);
        <Checkpoint as Ssz>::lemma_round_trip(v.source, config);
        <Checkpoint as Ssz>::lemma_round_trip(v.target, config);
    }

    fn ssz_append(&self, buf: &mut Vec<u8>) {
        self.slot.ssz_append(buf);
        self.index.ssz_append(buf);
        self.beacon_block_root.ssz_append(buf);
        self.source.ssz_append(buf);
        self.target.ssz_append(buf);
        assert(buf@ =~= old(buf)@ + Self::spec_encode(*self));
    }

    fn ssz_decode(bytes: &[u8], config: &Config) -> (r: Option<AttestationData>) {
        if bytes.len() != 128 {
            return None;
        }
        let slot = match <u64 as Ssz>::ssz_decode(slice_subrange(bytes, 0, 8), config) {
            Some(x) => x,
            None => {
                return None;
            },
        };
        let index = match <u64 as Ssz>::ssz_decode(slice_subrange(bytes, 8, 16), config) {
            Some(x) => x,
            None => {
                return None;
            },
        };
        let beacon_block_root = match <H256 as Ssz>::ssz_decode(
            slice_subrange(bytes, 16, 48),
            config,
        ) {
            Some(x) => x,
            None => {
                return None;
            },
        };
        let source = match <Checkpoint as Ssz>::ssz_decode(slice_subrange(bytes, 48, 88), config) {
            Some(x) => x,
            None => {
                return None;
            },
        };
        let target = match <Checkpoint as Ssz>::ssz_decode(slice_subrange(bytes, 88, 128), config) {
            Some(x) => x,
            None => {
                return None;
            },
        };
        Some(AttestationData { slot, index, beacon_block_root, source, target })
    }
}

impl FixedSsz for AttestationData {
    open spec fn spec_size() -> nat {
        128
    }

    proof fn lemma_size(v: AttestationData, bytes: Seq<u8>, config: Config) {
        <u64 as FixedSsz>::lemma_size(v.slot, Seq::empty(), config);
        <u64 as FixedSsz>::lemma_size(v.index, Seq::empty(), config);
        <H256 as FixedSsz>::lemma_size(v.beacon_block_root, Seq::empty(), config);
        <Checkpoint as FixedSsz>::lemma_size(v.source, Seq::empty(), config);
        <Checkpoint as FixedSsz>::lemma_size(v.target, Seq::empty(), config);
    }

    fn size() -> (n: usize) {
        128
    }
}

impl Ssz for Eth1Data {
    type Value = Eth1Data;

    open spec fn value(&self) -> Eth1Data {
        *self
    }

    open spec fn fits(v: Eth1Data, config: Config) -> bool {
        true
    }

    open spec fn spec_encode(v: Eth1Data) -> Seq<u8> {
        Seq::<u8>::empty()
            + <H256 as Ssz>::spec_encode(v.deposit_root)
            + <u64 as Ssz>::spec_encode(v.deposit_count)
            + <H256 as Ssz>::spec_encode(v.block_hash)
    }

    open spec fn spec_decode(bytes: Seq<u8>, config: Config) -> Option<Eth1Data> {
        if bytes.len() != 72 {
            None
        } else {
            let deposit_root = <H256 as Ssz>::spec_decode(bytes.subrange(0, 32), config);
            let deposit_count = <u64 as Ssz>::spec_decode(bytes.subrange(32, 40), config);
            let block_hash = <H256 as Ssz>::spec_decode(bytes.subrange(40, 72), config);
            if deposit_root is Some && deposit_count is Some && block_hash is Some {
                Some(
                    Eth1Data {
                        deposit_root: deposit_root->Some_0,
                        deposit_count: deposit_count->Some_0,
                        block_hash: block_hash->Some_0,
                    }
                )
            } else {
                None
            }
        }
    }

    proof fn lemma_round_trip(v: Eth1Data, config: Config) {
        let bytes = Self::spec_encode(v);
        <H256 as FixedSsz>::lemma_size(v.deposit_root, Seq::empty(), config);
        <u64 as FixedSsz>::lemma_size(v.deposit_count, Seq::empty(), config);
        <H256 as FixedSsz>::lemma_size(v.block_hash, Seq::empty(), config);
        assert(bytes.subrange(0, 32) =~= <H256 as Ssz>::spec_encode(v.deposit_root));
        assert(bytes.subrange(32, 40) =~= <u64 as Ssz>::spec_encode(v.deposit_count));
        assert(bytes.subrange(40, 72) =~= <H256 as Ssz>::spec_encode(v.block_hash));
        <H256 as Ssz>::lemma_round_trip(v.deposit_root, config);
        <u64 as Ssz>::lemma_round_trip(v.deposit_count, config);
        <H256 as Ssz>::lemma_round_trip(v.block_hash, config);
    }

    fn ssz_append(&self, buf: &mut Vec<u8>) {
        self.deposit_root.ssz_append(buf);
        self.deposit_count.ssz_append(buf);
        self.block_hash.ssz_append(buf);
        assert(buf@ =~= old(buf)@ + Self::spec_encode(*self));
    }

    fn ssz_decode(bytes: &[u8], config: &Config) -> (r: Option<Eth1Data>) {
        if bytes.len() != 72 {
            return None;
        }
        let deposit_root = match <H256 as Ssz>::ssz_decode(slice_subrange(bytes, 0, 32), config) {
            Some(x) => x,
            None => {
                return None;
            },
        };
        let deposit_count = match <u64 as Ssz>::ssz_decode(slice_subrange(bytes, 32, 40), config) {
            Some(x) => x,
            None => {
                return None;
            },
        };
        let block_hash = match <H256 as Ssz>::ssz_decode(slice_subrange(bytes, 40, 72), config) {
            Some(x) => x,
            None => {
                return None;
            },
        };
        Some(Eth1Data { deposit_root, deposit_count, block_hash })
    }
}

impl FixedSsz for Eth1Data {
    open spec fn spec_size() -> nat {
        72
    }

    proof fn lemma_size(v: Eth1Data, bytes: Seq<u8>, config: Config) {
        <H256 as FixedSsz>::lemma_size(v.deposit_root, Seq::empty(), config);
        <u64 as FixedSsz>::lemma_size(v.deposit_count, Seq::empty(), config);
        <H256 as FixedSsz>::lemma_size(v.block_hash, Seq::empty(), config);
    }

    fn size() -> (n: usize) {
        72
    }
}

impl Ssz for BeaconBlockHeader {
    type Value = BeaconBlockHeader;

    open spec fn value(&self) -> BeaconBlockHeader {
        *self
    }

    open spec fn fits(v: BeaconBlockHeader, config: Config) -> bool {
        true
    }

    open spec fn spec_encode(v: BeaconBlockHeader) -> Seq<u8> {
        Seq::<u8>::empty()
            + <u64 as Ssz>::spec_encode(v.slot)
            + <u64 as Ssz>::spec_encode(v.proposer_index)
            + <H256 as Ssz>::spec_encode(v.parent_root)
            + <H256 as Ssz>::spec_encode(v.state_root)
            + <H256 as Ssz>::spec_encode(v.body_root)
    }

    open spec fn spec_decode(bytes: Seq<u8>, config: Config) -> Option<BeaconBlockHeader> {
        if bytes.len() != 112 {
            None
        } else {
            let slot = <u64 as Ssz>::spec_decode(bytes.subrange(0, 8), config);
            let proposer_index = <u64 as Ssz>::spec_decode(bytes.subrange(8, 16), config);
            let parent_root = <H256 as Ssz>::spec_decode(bytes.subrange(16, 48), config);
            let state_root = <H256 as Ssz>::spec_decode(bytes.subrange(48, 80), config);
            let body_root = <H256 as Ssz>::spec_decode(bytes.subrange(80, 112), config);
            if slot is Some
                && proposer_index is Some
                && parent_root is Some
                && state_root is Some
                && body_root is Some {
                Some(
                    BeaconBlockHeader {
                        slot: slot->Some_0,
                        proposer_index: proposer_index->Some_0,
                        parent_root: parent_root->Some_0,
                        state_root: state_root->Some_0,
                        body_root: body_root->Some_0,
                    }
                )
            } else {
                None
            }
        }
    }

    proof fn lemma_round_trip(v: BeaconBlockHeader, config: Config) {
        let bytes = Self::spec_encode(v);
        <u64 as FixedSsz>::lemma_size(v.slot, Seq::empty(), config);
        <u64 as FixedSsz>::lemma_size(v.proposer_index, Seq::empty(), config);
        <H256 as FixedSsz>::lemma_size(v.parent_root, Seq::empty(), config);
        <H256 as FixedSsz>::lemma_size(v.state_root, Seq::empty(), config);
        <H256 as FixedSsz>::lemma_size(v.body_root, Seq::empty(), config);
        assert(bytes.subrange(0, 8) =~= <u64 as Ssz>::spec_encode(v.slot));
        assert(bytes.subrange(8, 16) =~= <u64 as Ssz>::spec_encode(v.proposer_index));
        assert(bytes.subrange(16, 48) =~= <H256 as Ssz>::spec_encode(v.parent_root));
        assert(bytes.subrange(48, 80) =~= <H256 as Ssz>::spec_encode(v.state_root));
        assert(bytes.subrange(80, 112) =~= <H256 as Ssz>::spec_encode(v.body_root));
        <u64 as Ssz>::lemma_round_trip(v.slot, config);
        <u64 as Ssz>::lemma_round_trip(v.proposer_index, config);
        <H256 as Ssz>::lemma_round_trip(v.parent_root, config);
        <H256 as Ssz>::lemma_round_trip(v.state_root, config);
        <H256 as Ssz>::lemma_round_trip(v.body_root, config);
    }

    fn ssz_append(&self, buf: &mut Vec<u8>) {
        self.slot.ssz_append(buf);
        self.proposer_index.ssz_append(buf);
        self.parent_root.ssz_append(buf);
        self.state_root.ssz_append(buf);
        self.body_root.ssz_append(buf);
        assert(buf@ =~= old(buf)@ + Self::spec_encode(*self));
    }

    fn ssz_decode(bytes: &[u8], config: &Config) -> (r: Option<BeaconBlockHeader>) {
        if bytes.len() != 112 {
            return None;
        }
        let slot = match <u64 as Ssz>::ssz_decode(slice_subrange(bytes, 0, 8), config) {
            Some(x) => x,
            None => {
                return None;
            },
        };
        let proposer_index = match <u64 as Ssz>::ssz_decode(slice_subrange(bytes, 8, 16), config) {
            Some(x) => x,
            None => {
                return None;
            },
        };
        let parent_root = match <H256 as Ssz>::ssz_decode(slice_subrange(bytes, 16, 48), config) {
            Some(x) => x,
            None => {
                return None;
            },
        };
        let state_root = match <H256 as Ssz>::ssz_decode(slice_subrange(bytes, 48, 80), config) {
            Some(x) => x,
            None => {
                return None;
            },
        };
        let body_root = match <H256 as Ssz>::ssz_decode(slice_subrange(bytes, 80, 112), config) {
            Some(x) => x,
            None => {
                return None;
            },
        };
        Some(BeaconBlockHeader { slot, proposer_index, parent_root, state_root, body_root })
    }
}

impl FixedSsz for BeaconBlockHeader {
    open spec fn spec_size() -> nat {
        112
    }

    proof fn lemma_size(v: BeaconBlockHeader, bytes: Seq<u8>, config: Config) {
        <u64 as FixedSsz>::lemma_size(v.slot, Seq::empty(), config);
        <u64 as FixedSsz>::lemma_size(v.proposer_index, Seq::empty(), config);
        <H256 as FixedSsz>::lemma_size(v.parent_root, Seq::empty(), config);
        <H256 as FixedSsz>::lemma_size(v.state_root, Seq::empty(), config);
        <H256 as FixedSsz>::lemma_size(v.body_root, Seq::empty(), config);
    }

    fn size() -> (n: usize) {
        112
    }
}

impl Ssz for SignedBeaconBlockHeader {
    type Value = SignedBeaconBlockHeader;

    open spec fn value(&self) -> SignedBeaconBlockHeader {
        *self
    }

    open spec fn fits(v: SignedBeaconBlockHeader, config: Config) -> bool {
        true
    }

    open spec fn spec_encode(v: SignedBeaconBlockHeader) -> Seq<u8> {
        Seq::<u8>::empty()
            + <BeaconBlockHeader as Ssz>::spec_encode(v.message)
            + <SignatureBytes as Ssz>::spec_encode(v.signature)
    }

    open spec fn spec_decode(bytes: Seq<u8>, config: Config) -> Option<SignedBeaconBlockHeader> {
        if bytes.len() != 208 {
            None
        } else {
            let message = <BeaconBlockHeader as Ssz>::spec_decode(bytes.subrange(0, 112), config);
            let signature = <SignatureBytes as Ssz>::spec_decode(bytes.subrange(112, 208), config);
            if message is Some && signature is Some {
                Some(
                    SignedBeaconBlockHeader {
                        message: message->Some_0,
                        signature: signature->Some_0,
                    }
                )
            } else {
                None
            }
        }
    }

    proof fn lemma_round_trip(v: SignedBeaconBlockHeader, config: Config) {
        let bytes = Self::spec_encode(v);
        <BeaconBlockHeader as FixedSsz>::lemma_size(v.message, Seq::empty(), config);
        <SignatureBytes as FixedSsz>::lemma_size(v.signature, Seq::empty(), config);
        assert(bytes.subrange(0, 112) =~= <BeaconBlockHeader as Ssz>::spec_encode(v.message));
        assert(bytes.subrange(112, 208) =~= <SignatureBytes as Ssz>::spec_encode(v.signature));
        <BeaconBlockHeader as Ssz>::lemma_round_trip(v.message, config);
        <SignatureBytes as Ssz>::lemma_round_trip(v.signature, config);
    }

    fn ssz_append(&self, buf: &mut Vec<u8>) {
        self.message.ssz_append(buf);
        self.signature.ssz_append(buf);
        assert(buf@ =~= old(buf)@ + Self::spec_encode(*self));
    }

    fn ssz_decode(bytes: &[u8], config: &Config) -> (r: Option<SignedBeaconBlockHeader>) {
        if bytes.len() != 208 {
            return None;
        }
        let message = match <BeaconBlockHeader as Ssz>::ssz_decode(
            slice_subrange(bytes, 0, 112),
            config,
        ) {
            Some(x) => x,
            None => {
                return None;
            },
        };
        let signature = match <SignatureBytes as Ssz>::ssz_decode(
            slice_subrange(bytes, 112, 208),
            config,
        ) {
            Some(x) => x,
            None => {
                return None;
            },
        };
        Some(SignedBeaconBlockHeader { message, signature })
    }
}

impl FixedSsz for SignedBeaconBlockHeader {
    open spec fn spec_size() -> nat {
        208
    }

    proof fn lemma_size(v: SignedBeaconBlockHeader, bytes: Seq<u8>, config: Config) {
        <BeaconBlockHeader as FixedSsz>::lemma_size(v.message, Seq::empty(), config);
        <SignatureBytes as FixedSsz>::lemma_size(v.signature, Seq::empty(), config);
    }

    fn size() -> (n: usize) {
        208
    }
}

impl Ssz for ProposerSlashing {
    type Value = ProposerSlashing;

    open spec fn value(&self) -> ProposerSlashing {
        *self
    }

    open spec fn fits(v: ProposerSlashing, config: Config) -> bool {
        true
    }

    open spec fn spec_encode(v: ProposerSlashing) -> Seq<u8> {
        Seq::<u8>::empty()
            + <SignedBeaconBlockHeader as Ssz>::spec_encode(v.signed_header_1)
            + <SignedBeaconBlockHeader as Ssz>::spec_encode(v.signed_header_2)
    }

    open spec fn spec_decode(bytes: Seq<u8>, config: Config) -> Option<ProposerSlashing> {
        if bytes.len() != 416 {
            None
        } else {
            let signed_header_1 = <SignedBeaconBlockHeader as Ssz>::spec_decode(
                bytes.subrange(0, 208),
                config,
            );
            let signed_header_2 = <SignedBeaconBlockHeader as Ssz>::spec_decode(
                bytes.subrange(208, 416),
                config,
            );
            if signed_header_1 is Some && signed_header_2 is Some {
                Some(
                    ProposerSlashing {
                        signed_header_1: signed_header_1->Some_0,
                        signed_header_2: signed_header_2->Some_0,
                    }
                )
            } else {
                None
            }
        }
    }

    proof fn lemma_round_trip(v: ProposerSlashing, config: Config) {
        let bytes = Self::spec_encode(v);
        <SignedBeaconBlockHeader as FixedSsz>::lemma_size(v.signed_header_1, Seq::empty(), config);
        <SignedBeaconBlockHeader as FixedSsz>::lemma_size(v.signed_header_2, Seq::empty(), config);
        assert(
            bytes.subrange(0, 208) =~= <SignedBeaconBlockHeader as Ssz>::spec_encode(
                v.signed_header_1
            )
        );
        assert(
            bytes.subrange(208, 416) =~= <SignedBeaconBlockHeader as Ssz>::spec_encode(
                v.signed_header_2
            )
        );
        <SignedBeaconBlockHeader as Ssz>::lemma_round_trip(v.signed_header_1, config);
        <SignedBeaconBlockHeader as Ssz>::lemma_round_trip(v.signed_header_2, config);
    }

    fn ssz_append(&self, buf: &mut Vec<u8>) {
        self.signed_header_1.ssz_append(buf);
        self.signed_header_2.ssz_append(buf);
        assert(buf@ =~= old(buf)@ + Self::spec_encode(*self));
    }

    fn ssz_decode(bytes: &[u8], config: &Config) -> (r: Option<ProposerSlashing>) {
        if bytes.len() != 416 {
            return None;
        }
        let signed_header_1 = match <SignedBeaconBlockHeader as Ssz>::ssz_decode(
            slice_subrange(bytes, 0, 208),
            config,
        ) {
            Some(x) => x,
            None => {
                return None;
            },
        };
        let signed_header_2 = match <SignedBeaconBlockHeader as Ssz>::ssz_decode(
            slice_subrange(bytes, 208, 416),
            config,
        ) {
            Some(x) => x,
            None => {
                return None;
            },
        };
        Some(ProposerSlashing { signed_header_1, signed_header_2 })
    }
}

impl FixedSsz for ProposerSlashing {
    open spec fn spec_size() -> nat {
        416
    }

    proof fn lemma_size(v: ProposerSlashing, bytes: Seq<u8>, config: Config) {
        <SignedBeaconBlockHeader as FixedSsz>::lemma_size(v.signed_header_1, Seq::empty(), config);
        <SignedBeaconBlockHeader as FixedSsz>::lemma_size(v.signed_header_2, Seq::empty(), config);
    }

    fn size() -> (n: usize) {
        416
    }
}

impl Ssz for DepositData {
    type Value = DepositData;

    open spec fn value(&self) -> DepositData {
        *self
    }

    open spec fn fits(v: DepositData, config: Config) -> bool {
        true
    }

    open spec fn spec_encode(v: DepositData) -> Seq<u8> {
        Seq::<u8>::empty()
            + <PublicKeyBytes as Ssz>::spec_encode(v.pubkey)
            + <H256 as Ssz>::spec_encode(v.withdrawal_credentials)
            + <u64 as Ssz>::spec_encode(v.amount)
            + <SignatureBytes as Ssz>::spec_encode(v.signature)
    }

    open spec fn spec_decode(bytes: Seq<u8>, config: Config) -> Option<DepositData> {
        if bytes.len() != 184 {
            None
        } else {
            let pubkey = <PublicKeyBytes as Ssz>::spec_decode(bytes.subrange(0, 48), config);
            let withdrawal_credentials = <H256 as Ssz>::spec_decode(bytes.subrange(48, 80), config);
            let amount = <u64 as Ssz>::spec_decode(bytes.subrange(80, 88), config);
            let signature = <SignatureBytes as Ssz>::spec_decode(bytes.subrange(88, 184), config);
            if pubkey is Some
                && withdrawal_credentials is Some
                && amount is Some
                && signature is Some {
                Some(
                    DepositData {
                        pubkey: pubkey->Some_0,
                        withdrawal_credentials: withdrawal_credentials->Some_0,
                        amount: amount->Some_0,
                        signature: signature->Some_0,
                    }
                )
            } else {
                None
            }
        }
    }

    proof fn lemma_round_trip(v: DepositData, config: Config) {
        let bytes = Self::spec_encode(v);
        <PublicKeyBytes as FixedSsz>::lemma_size(v.pubkey, Seq::empty(), config);
        <H256 as FixedSsz>::lemma_size(v.withdrawal_credentials, Seq::empty(), config);
        <u64 as FixedSsz>::lemma_size(v.amount, Seq::empty(), config);
        <SignatureBytes as FixedSsz>::lemma_size(v.signature, Seq::empty(), config);
        assert(bytes.subrange(0, 48) =~= <PublicKeyBytes as Ssz>::spec_encode(v.pubkey));
        assert(bytes.subrange(48, 80) =~= <H256 as Ssz>::spec_encode(v.withdrawal_credentials));
        assert(bytes.subrange(80, 88) =~= <u64 as Ssz>::spec_encode(v.amount));
        assert(bytes.subrange(88, 184) =~= <SignatureBytes as Ssz>::spec_encode(v.signature));
        <PublicKeyBytes as Ssz>::lemma_round_trip(v.pubkey, config);
        <H256 as Ssz>::lemma_round_trip(v.withdrawal_credentials, config);
        <u64 as Ssz>::lemma_round_trip(v.amount, config);
        <SignatureBytes as Ssz>::lemma_round_trip(v.signature, config);
    }

    fn ssz_append(&self, buf: &mut Vec<u8>) {
        self.pubkey.ssz_append(buf);
        self.withdrawal_credentials.ssz_append(buf);
        self.amount.ssz_append(buf);
        self.signature.ssz_append(buf);
        assert(buf@ =~= old(buf)@ + Self::spec_encode(*self));
    }

    fn ssz_decode(bytes: &[u8], config: &Config) -> (r: Option<DepositData>) {
        if bytes.len() != 184 {
            return None;
        }
        let pubkey = match <PublicKeyBytes as Ssz>::ssz_decode(
            slice_subrange(bytes, 0, 48),
            config,
        ) {
            Some(x) => x,
            None => {
                return None;
            },
        };
        let withdrawal_credentials = match <H256 as Ssz>::ssz_decode(
            slice_subrange(bytes, 48, 80),
            config,
        ) {
            Some(x) => x,
            None => {
                return None;
            },
        };
        let amount = match <u64 as Ssz>::ssz_decode(slice_subrange(bytes, 80, 88), config) {
            Some(x) => x,
            None => {
                return None;
            },
        };
        let signature = match <SignatureBytes as Ssz>::ssz_decode(
            slice_subrange(bytes, 88, 184),
            config,
        ) {
            Some(x) => x,
            None => {
                return None;
            },
        };
        Some(DepositData { pubkey, withdrawal_credentials, amount, signature })
    }
}

impl FixedSsz for DepositData {
    open spec fn spec_size() -> nat {
        184
    }

    proof fn lemma_size(v: DepositData, bytes: Seq<u8>, config: Config) {
        <PublicKeyBytes as FixedSsz>::lemma_size(v.pubkey, Seq::empty(), config);
        <H256 as FixedSsz>::lemma_size(v.withdrawal_credentials, Seq::empty(), config);
        <u64 as FixedSsz>::lemma_size(v.amount, Seq::empty(), config);
        <SignatureBytes as FixedSsz>::lemma_size(v.signature, Seq::empty(), config);
    }

    fn size() -> (n: usize) {
        184
    }
}

impl Ssz for DepositMessage {
    type Value = DepositMessage;

    open spec fn value(&self) -> DepositMessage {
        *self
    }

    open spec fn fits(v: DepositMessage, config: Config) -> bool {
        true
    }

    open spec fn spec_encode(v: DepositMessage) -> Seq<u8> {
        Seq::<u8>::empty()
            + <PublicKeyBytes as Ssz>::spec_encode(v.pubkey)
            + <H256 as Ssz>::spec_encode(v.withdrawal_credentials)
            + <u64 as Ssz>::spec_encode(v.amount)
    }

    open spec fn spec_decode(bytes: Seq<u8>, config: Config) -> Option<DepositMessage> {
        if bytes.len() != 88 {
            None
        } else {
            let pubkey = <PublicKeyBytes as Ssz>::spec_decode(bytes.subrange(0, 48), config);
            let withdrawal_credentials = <H256 as Ssz>::spec_decode(bytes.subrange(48, 80), config);
            let amount = <u64 as Ssz>::spec_decode(bytes.subrange(80, 88), config);
            if pubkey is Some && withdrawal_credentials is Some && amount is Some {
                Some(
                    DepositMessage {
                        pubkey: pubkey->Some_0,
                        withdrawal_credentials: withdrawal_credentials->Some_0,
                        amount: amount->Some_0,
                    }
                )
            } else {
                None
            }
        }
    }

    proof fn lemma_round_trip(v: DepositMessage, config: Config) {
        let bytes = Self::spec_encode(v);
        <PublicKeyBytes as FixedSsz>::lemma_size(v.pubkey, Seq::empty(), config);
        <H256 as FixedSsz>::lemma_size(v.withdrawal_credentials, Seq::empty(), config);
        <u64 as FixedSsz>::lemma_size(v.amount, Seq::empty(), config);
        assert(bytes.subrange(0, 48) =~= <PublicKeyBytes as Ssz>::spec_encode(v.pubkey));
        assert(bytes.subrange(48, 80) =~= <H256 as Ssz>::spec_encode(v.withdrawal_credentials));
        assert(bytes.subrange(80, 88) =~= <u64 as Ssz>::spec_encode(v.amount));
        <PublicKeyBytes as Ssz>::lemma_round_trip(v.pubkey, config);
        <H256 as Ssz>::lemma_round_trip(v.withdrawal_credentials, config);
        <u64 as Ssz>::lemma_round_trip(v.amount, config);
    }

    fn ssz_append(&self, buf: &mut Vec<u8>) {
        self.pubkey.ssz_append(buf);
        self.withdrawal_credentials.ssz_append(buf);
        self.amount.ssz_append(buf);
        assert(buf@ =~= old(buf)@ + Self::spec_encode(*self));
    }

    fn ssz_decode(bytes: &[u8], config: &Config) -> (r: Option<DepositMessage>) {
        if bytes.len() != 88 {
            return None;
        }
        let pubkey = match <PublicKeyBytes as Ssz>::ssz_decode(
            slice_subrange(bytes, 0, 48),
            config,
        ) {
            Some(x) => x,
            None => {
                return None;
            },
        };
        let withdrawal_credentials = match <H256 as Ssz>::ssz_decode(
            slice_subrange(bytes, 48, 80),
            config,
        ) {
            Some(x) => x,
            None => {
                return None;
            },
        };
        let amount = match <u64 as Ssz>::ssz_decode(slice_subrange(bytes, 80, 88), config) {
            Some(x) => x,
            None => {
                return None;
            },
        };
        Some(DepositMessage { pubkey, withdrawal_credentials, amount })
    }
}

impl FixedSsz for DepositMessage {
    open spec fn spec_size() -> nat {
        88
    }

    proof fn lemma_size(v: DepositMessage, bytes: Seq<u8>, config: Config) {
        <PublicKeyBytes as FixedSsz>::lemma_size(v.pubkey, Seq::empty(), config);
        <H256 as FixedSsz>::lemma_size(v.withdrawal_credentials, Seq::empty(), config);
        <u64 as FixedSsz>::lemma_size(v.amount, Seq::empty(), config);
    }

    fn size() -> (n: usize) {
        88
    }
}

impl Ssz for VoluntaryExit {
    type Value = VoluntaryExit;

    open spec fn value(&self) -> VoluntaryExit {
        *self
    }

    open spec fn fits(v: VoluntaryExit, config: Config) -> bool {
        true
    }

    open spec fn spec_encode(v: VoluntaryExit) -> Seq<u8> {
        Seq::<u8>::empty()
            + <u64 as Ssz>::spec_encode(v.epoch)
            + <u64 as Ssz>::spec_encode(v.validator_index)
    }

    open spec fn spec_decode(bytes: Seq<u8>, config: Config) -> Option<VoluntaryExit> {
        if bytes.len() != 16 {
            None
        } else {
            let epoch = <u64 as Ssz>::spec_decode(bytes.subrange(0, 8), config);
            let validator_index = <u64 as Ssz>::spec_decode(bytes.subrange(8, 16), config);
            if epoch is Some && validator_index is Some {
                Some(
                    VoluntaryExit { epoch: epoch->Some_0, validator_index: validator_index->Some_0 }
                )
            } else {
                None
            }
        }
    }

    proof fn lemma_round_trip(v: VoluntaryExit, config: Config) {
        let bytes = Self::spec_encode(v);
        <u64 as FixedSsz>::lemma_size(v.epoch, Seq::empty(), config);
        <u64 as FixedSsz>::lemma_size(v.validator_index, Seq::empty(), config);
        assert(bytes.subrange(0, 8) =~= <u64 as Ssz>::spec_encode(v.epoch));
        assert(bytes.subrange(8, 16) =~= <u64 as Ssz>::spec_encode(v.validator_index));
        <u64 as Ssz>::lemma_round_trip(v.epoch, config);
        <u64 as Ssz>::lemma_round_trip(v.validator_index, config);
    }

    fn ssz_append(&self, buf: &mut Vec<u8>) {
        self.epoch.ssz_append(buf);
        self.validator_index.ssz_append(buf);
        assert(buf@ =~= old(buf)@ + Self::spec_encode(*self));
    }

    fn ssz_decode(bytes: &[u8], config: &Config) -> (r: Option<VoluntaryExit>) {
        if bytes.len() != 16 {
            return None;
        }
        let epoch = match <u64 as Ssz>::ssz_decode(slice_subrange(bytes, 0, 8), config) {
            Some(x) => x,
            None => {
                return None;
            },
        };
        let validator_index = match <u64 as Ssz>::ssz_decode(slice_subrange(bytes, 8, 16), config) {
            Some(x) => x,
            None => {
                return None;
            },
        };
        Some(VoluntaryExit { epoch, validator_index })
    }
}

impl FixedSsz for VoluntaryExit {
    open spec fn spec_size() -> nat {
        16
    }

    proof fn lemma_size(v: VoluntaryExit, bytes: Seq<u8>, config: Config) {
        <u64 as FixedSsz>::lemma_size(v.epoch, Seq::empty(), config);
        <u64 as FixedSsz>::lemma_size(v.validator_index, Seq::empty(), config);
    }

    fn size() -> (n: usize) {
        16
    }
}

impl Ssz for SignedVoluntaryExit {
    type Value = SignedVoluntaryExit;

    open spec fn value(&self) -> SignedVoluntaryExit {
        *self
    }

    open spec fn fits(v: SignedVoluntaryExit, config: Config) -> bool {
        true
    }

    open spec fn spec_encode(v: SignedVoluntaryExit) -> Seq<u8> {
        Seq::<u8>::empty()
            + <VoluntaryExit as Ssz>::spec_encode(v.message)
            + <SignatureBytes as Ssz>::spec_encode(v.signature)
    }

    open spec fn spec_decode(bytes: Seq<u8>, config: Config) -> Option<SignedVoluntaryExit> {
        if bytes.len() != 112 {
            None
        } else {
            let message = <VoluntaryExit as Ssz>::spec_decode(bytes.subrange(0, 16), config);
            let signature = <SignatureBytes as Ssz>::spec_decode(bytes.subrange(16, 112), config);
            if message is Some && signature is Some {
                Some(SignedVoluntaryExit { message: message->Some_0, signature: signature->Some_0 })
            } else {
                None
            }
        }
    }

    proof fn lemma_round_trip(v: SignedVoluntaryExit, config: Config) {
        let bytes = Self::spec_encode(v);
        <VoluntaryExit as FixedSsz>::lemma_size(v.message, Seq::empty(), config);
        <SignatureBytes as FixedSsz>::lemma_size(v.signature, Seq::empty(), config);
        assert(bytes.subrange(0, 16) =~= <VoluntaryExit as Ssz>::spec_encode(v.message));
        assert(bytes.subrange(16, 112) =~= <SignatureBytes as Ssz>::spec_encode(v.signature));
        <VoluntaryExit as Ssz>::lemma_round_trip(v.message, config);
        <SignatureBytes as Ssz>::lemma_round_trip(v.signature, config);
    }

    fn ssz_append(&self, buf: &mut Vec<u8>) {
        self.message.ssz_append(buf);
        self.signature.ssz_append(buf);
        assert(buf@ =~= old(buf)@ + Self::spec_encode(*self));
    }

    fn ssz_decode(bytes: &[u8], config: &Config) -> (r: Option<SignedVoluntaryExit>) {
        if bytes.len() != 112 {
            return None;
        }
        let message = match <VoluntaryExit as Ssz>::ssz_decode(
            slice_subrange(bytes, 0, 16),
            config,
        ) {
            Some(x) => x,
            None => {
                return None;
            },
        };
        let signature = match <SignatureBytes as Ssz>::ssz_decode(
            slice_subrange(bytes, 16, 112),
            config,
        ) {
            Some(x) => x,
            None => {
                return None;
            },
        };
        Some(SignedVoluntaryExit { message, signature })
    }
}

impl FixedSsz for SignedVoluntaryExit {
    open spec fn spec_size() -> nat {
        112
    }

    proof fn lemma_size(v: SignedVoluntaryExit, bytes: Seq<u8>, config: Config) {
        <VoluntaryExit as FixedSsz>::lemma_size(v.message, Seq::empty(), config);
        <SignatureBytes as FixedSsz>::lemma_size(v.signature, Seq::empty(), config);
    }

    fn size() -> (n: usize) {
        112
    }
}

impl Ssz for ShardState {
    type Value = ShardState;

    open spec fn value(&self) -> ShardState {
        *self
    }

    open spec fn fits(v: ShardState, config: Config) -> bool {
        true
    }

    open spec fn spec_encode(v: ShardState) -> Seq<u8> {
        Seq::<u8>::empty()
            + <u64 as Ssz>::spec_encode(v.slot)
            + <u64 as Ssz>::spec_encode(v.gasprice)
            + <H256 as Ssz>::spec_encode(v.data)
            + <H256 as Ssz>::spec_encode(v.latest_block_root)
    }

    open spec fn spec_decode(bytes: Seq<u8>, config: Config) -> Option<ShardState> {
        if bytes.len() != 80 {
            None
        } else {
            let slot = <u64 as Ssz>::spec_decode(bytes.subrange(0, 8), config);
            let gasprice = <u64 as Ssz>::spec_decode(bytes.subrange(8, 16), config);
            let data = <H256 as Ssz>::spec_decode(bytes.subrange(16, 48), config);
            let latest_block_root = <H256 as Ssz>::spec_decode(bytes.subrange(48, 80), config);
            if slot is Some && gasprice is Some && data is Some && latest_block_root is Some {
                Some(
                    ShardState {
                        slot: slot->Some_0,
                        gasprice: gasprice->Some_0,
                        data: data->Some_0,
                        latest_block_root: latest_block_root->Some_0,
                    }
                )
            } else {
                None
            }
        }
    }

    proof fn lemma_round_trip(v: ShardState, config: Config) {
        let bytes = Self::spec_encode(v);
        <u64 as FixedSsz>::lemma_size(v.slot, Seq::empty(), config);
        <u64 as FixedSsz>::lemma_size(v.gasprice, Seq::empty(), config);
        <H256 as FixedSsz>::lemma_size(v.data, Seq::empty(), config);
        <H256 as FixedSsz>::lemma_size(v.latest_block_root, Seq::empty(), config);
        assert(bytes.subrange(0, 8) =~= <u64 as Ssz>::spec_encode(v.slot));
        assert(bytes.subrange(8, 16) =~= <u64 as Ssz>::spec_encode(v.gasprice));
        assert(bytes.subrange(16, 48) =~= <H256 as Ssz>::spec_encode(v.data));
        assert(bytes.subrange(48, 80) =~= <H256 as Ssz>::spec_encode(v.latest_block_root));
        <u64 as Ssz>::lemma_round_trip(v.slot, config);
        <u64 as Ssz>::lemma_round_trip(v.gasprice, config);
        <H256 as Ssz>::lemma_round_trip(v.data, config);
        <H256 as Ssz>::lemma_round_trip(v.latest_block_root, config);
    }

    fn ssz_append(&self, buf: &mut Vec<u8>) {
        self.slot.ssz_append(buf);
        self.gasprice.ssz_append(buf);
        self.data.ssz_append(buf);
        self.latest_block_root.ssz_append(buf);
        assert(buf@ =~= old(buf)@ + Self::spec_encode(*self));
    }

    fn ssz_decode(bytes: &[u8], config: &Config) -> (r: Option<ShardState>) {
        if bytes.len() != 80 {
            return None;
        }
        let slot = match <u64 as Ssz>::ssz_decode(slice_subrange(bytes, 0, 8), config) {
            Some(x) => x,
            None => {
                return None;
            },
        };
        let gasprice = match <u64 as Ssz>::ssz_decode(slice_subrange(bytes, 8, 16), config) {
            Some(x) => x,
            None => {
                return None;
            },
        };
        let data = match <H256 as Ssz>::ssz_decode(slice_subrange(bytes, 16, 48), config) {
            Some(x) => x,
            None => {
                return None;
            },
        };
        let latest_block_root = match <H256 as Ssz>::ssz_decode(
            slice_subrange(bytes, 48, 80),
            config,
        ) {
            Some(x) => x,
            None => {
                return None;
            },
        };
        Some(ShardState { slot, gasprice, data, latest_block_root })
    }
}

impl FixedSsz for ShardState {
    open spec fn spec_size() -> nat {
        80
    }

    proof fn lemma_size(v: ShardState, bytes: Seq<u8>, config: Config) {
        <u64 as FixedSsz>::lemma_size(v.slot, Seq::empty(), config);
        <u64 as FixedSsz>::lemma_size(v.gasprice, Seq::empty(), config);
        <H256 as FixedSsz>::lemma_size(v.data, Seq::empty(), config);
        <H256 as FixedSsz>::lemma_size(v.latest_block_root, Seq::empty(), config);
    }

    fn size() -> (n: usize) {
        80
    }
}

} // verus!
