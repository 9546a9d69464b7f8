//! The constants of the protocol, one value for each profile.

use vstd::prelude::*;

verus! {

/// The epoch that stands for "not scheduled".
pub const FAR_FUTURE_EPOCH: u64 = 0xffff_ffff_ffff_ffff;

/// Depth of the deposit contract's Merkle tree.
pub const DEPOSIT_CONTRACT_TREE_DEPTH: u64 = 32;

/// Length of the justification bit vector.
pub const JUSTIFICATION_BITS_LENGTH: usize = 4;

/// The protocol constants of one profile. Every rule of the state transition reads its
/// constants from a value of this type, so that one library serves all profiles.
#[derive(Clone, Copy, Debug)]
pub struct Config {
    pub max_committees_per_slot: u64,
    pub target_committee_size: u64,
    pub max_validators_per_committee: u64,
    pub min_per_epoch_churn_limit: u64,
    pub churn_limit_quotient: u64,
    pub shuffle_round_count: u64,
    pub min_deposit_amount: u64,
    pub max_effective_balance: u64,
    pub ejection_balance: u64,
    pub effective_balance_increment: u64,
    pub genesis_slot: u64,
    pub genesis_epoch: u64,
    pub genesis_fork_version: [u8; 4],
    pub min_attestation_inclusion_delay: u64,
    pub slots_per_epoch: u64,
    pub min_seed_lookahead: u64,
    pub max_seed_lookahead: u64,
    pub slots_per_eth1_voting_period: u64,
    pub slots_per_historical_root: u64,
    pub min_validator_withdrawability_delay: u64,
    pub persistent_committee_period: u64,
    pub min_epochs_to_inactivity_penalty: u64,
    pub epochs_per_historical_vector: u64,
    pub epochs_per_slashings_vector: u64,
    pub historical_roots_limit: u64,
    pub validator_registry_limit: u64,
    pub base_reward_factor: u64,
    pub whistleblower_reward_quotient: u64,
    pub proposer_reward_quotient: u64,
    pub inactivity_penalty_quotient: u64,
    pub min_slashing_penalty_quotient: u64,
    pub base_rewards_per_epoch: u64,
    pub hysteresis_quotient: u64,
    pub hysteresis_downward_multiplier: u64,
    pub hysteresis_upward_multiplier: u64,
    pub max_proposer_slashings: u64,
    pub max_attester_slashings: u64,
    pub max_attestations: u64,
    pub max_deposits: u64,
    pub max_voluntary_exits: u64,
    pub domain_beacon_proposer: u32,
    pub domain_beacon_attester: u32,
    pub domain_randao: u32,
    pub domain_deposit: u32,
    pub domain_voluntary_exit: u32,
    pub domain_selection_proof: u32,
    pub domain_aggregate_and_proof: u32,
    pub max_shards: u64,
    pub early_derived_secret_penalty_max_future_epochs: u64,
}

impl Config {
    /// The largest value that a length, a limit or a divisor of a profile may have.
    pub open spec fn spec_max_size() -> u64 {
        0x100_0000_0000
    }

    /// The largest value that a small count of a profile may have.
    pub open spec fn spec_max_count() -> u64 {
        0x10_0000
    }

    /// A profile is usable on a machine when its rules are sound and its limits are numbers
    /// that the machine can count to.
    pub open spec fn wf(&self) -> bool {
        &&& self.rules_ok()
        &&& self.historical_roots_limit <= usize::MAX
        &&& self.validator_registry_limit <= usize::MAX
        &&& self.max_attestations * self.slots_per_epoch <= usize::MAX
    }

    /// The rules of a profile are sound when its divisors are positive and its sizes are
    /// within the limits that the arithmetic of the transition can carry.
    pub open spec fn rules_ok(&self) -> bool {
        &&& 0 < self.slots_per_epoch <= Self::spec_max_count()
        &&& 0 < self.slots_per_historical_root <= Self::spec_max_count()
        &&& 0 < self.epochs_per_historical_vector <= Self::spec_max_count()
        &&& 0 < self.epochs_per_slashings_vector <= Self::spec_max_count()
        &&& 0 < self.slots_per_eth1_voting_period <= Self::spec_max_count()
        &&& self.slots_per_historical_root % self.slots_per_epoch == 0
        &&& self.slots_per_eth1_voting_period % self.slots_per_epoch == 0
        &&& self.historical_roots_limit <= Self::spec_max_size()
        &&& self.validator_registry_limit <= Self::spec_max_size()
        &&& 0 < self.max_validators_per_committee <= Self::spec_max_count()
        &&& 0 < self.max_committees_per_slot <= Self::spec_max_count()
        &&& 0 < self.target_committee_size <= Self::spec_max_count()
        &&& self.shuffle_round_count <= 255
        &&& 0 < self.churn_limit_quotient
        &&& 0 < self.min_per_epoch_churn_limit <= Self::spec_max_count()
        &&& 0 < self.effective_balance_increment <= self.max_effective_balance
        &&& self.max_effective_balance <= 0x1_0000_0000_0000
        &&& self.ejection_balance <= self.max_effective_balance
        &&& self.genesis_epoch == 0
        &&& self.genesis_slot == 0
        &&& 0 < self.min_attestation_inclusion_delay <= self.slots_per_epoch
        &&& 0 < self.hysteresis_quotient
        &&& self.hysteresis_downward_multiplier <= Self::spec_max_count()
        &&& self.hysteresis_upward_multiplier <= Self::spec_max_count()
        &&& self.min_seed_lookahead <= Self::spec_max_count()
        &&& self.max_seed_lookahead <= Self::spec_max_count()
        &&& self.min_validator_withdrawability_delay <= Self::spec_max_count()
        &&& self.persistent_committee_period <= Self::spec_max_count()
        &&& self.min_epochs_to_inactivity_penalty <= Self::spec_max_count()
        &&& self.min_seed_lookahead < self.epochs_per_historical_vector
        &&& 0 < self.base_reward_factor <= Self::spec_max_count()
        &&& 0 < self.base_rewards_per_epoch <= Self::spec_max_count()
        &&& 0 < self.whistleblower_reward_quotient
        &&& 0 < self.proposer_reward_quotient
        &&& 0 < self.inactivity_penalty_quotient
        &&& 0 < self.min_slashing_penalty_quotient
        &&& self.max_proposer_slashings <= Self::spec_max_count()
        &&& self.max_attester_slashings <= Self::spec_max_count()
        &&& self.max_attestations <= Self::spec_max_count()
        &&& self.max_deposits <= Self::spec_max_count()
        &&& self.max_voluntary_exits <= Self::spec_max_count()
        &&& self.max_shards <= Self::spec_max_count()
        &&& 0 < self.early_derived_secret_penalty_max_future_epochs <= Self::spec_max_count()
    }

    /// Whether the profile is usable on this machine.
    pub fn is_valid(&self) -> (r: bool)
        ensures
            r == self.wf(),
    {
        let count: u64 = 0x10_0000;
        let size: u64 = 0x100_0000_0000;
        let word = usize::MAX as u64;
        if !(self.historical_roots_limit <= word && self.validator_registry_limit <= word
            && self.max_attestations <= count && self.slots_per_epoch <= count) {
            return false;
        }
        assert(self.max_attestations * self.slots_per_epoch <= 0x10_0000 * 0x10_0000)
            by (nonlinear_arith)
            requires
                self.max_attestations <= 0x10_0000,
                self.slots_per_epoch <= 0x10_0000,
        ;
        if self.max_attestations * self.slots_per_epoch > word {
            return false;
        }
        0 < self.slots_per_epoch && self.slots_per_epoch <= count
            && 0 < self.slots_per_historical_root && self.slots_per_historical_root <= count
            && 0 < self.epochs_per_historical_vector && self.epochs_per_historical_vector <= count
            && 0 < self.epochs_per_slashings_vector && self.epochs_per_slashings_vector <= count
            && 0 < self.slots_per_eth1_voting_period && self.slots_per_eth1_voting_period <= count
            && self.slots_per_historical_root % self.slots_per_epoch == 0
            && self.slots_per_eth1_voting_period % self.slots_per_epoch == 0
            && self.historical_roots_limit <= size && self.validator_registry_limit <= size
            && 0 < self.max_validators_per_committee && self.max_validators_per_committee <= count
            && 0 < self.max_committees_per_slot && self.max_committees_per_slot <= count
            && 0 < self.target_committee_size && self.target_committee_size <= count
            && self.shuffle_round_count <= 255 && 0 < self.churn_limit_quotient
            && 0 < self.min_per_epoch_churn_limit && self.min_per_epoch_churn_limit <= count
            && 0 < self.effective_balance_increment && self.effective_balance_increment
            <= self.max_effective_balance && self.max_effective_balance <= 0x1_0000_0000_0000
            && self.ejection_balance <= self.max_effective_balance && self.genesis_epoch == 0
            && self.genesis_slot == 0 && 0 < self.min_attestation_inclusion_delay
            && self.min_attestation_inclusion_delay <= self.slots_per_epoch
            && 0 < self.hysteresis_quotient && self.hysteresis_downward_multiplier <= count
            && self.hysteresis_upward_multiplier <= count && self.min_seed_lookahead <= count
            && self.max_seed_lookahead <= count && self.min_validator_withdrawability_delay
            <= count && self.persistent_committee_period <= count
            && self.min_epochs_to_inactivity_penalty <= count && self.min_seed_lookahead
            < self.epochs_per_historical_vector && 0 < self.base_reward_factor
            && self.base_reward_factor <= count && 0 < self.base_rewards_per_epoch
            && self.base_rewards_per_epoch <= count && 0 < self.whistleblower_reward_quotient
            && 0 < self.proposer_reward_quotient && 0 < self.inactivity_penalty_quotient
            && 0 < self.min_slashing_penalty_quotient && self.max_proposer_slashings <= count
            && self.max_attester_slashings <= count && self.max_attestations <= count
            && self.max_deposits <= count && self.max_voluntary_exits <= count && self.max_shards
            <= count && 0 < self.early_derived_secret_penalty_max_future_epochs
            && self.early_derived_secret_penalty_max_future_epochs <= count
    }

    /// Most pending attestations that one epoch can gather.
    pub open spec fn spec_max_attestations_per_epoch(&self) -> u64
        recommends
            self.wf(),
    {
        (self.max_attestations * self.slots_per_epoch) as u64
    }

    /// Most pending attestations that one epoch can gather.
    pub fn max_attestations_per_epoch(&self) -> (r: u64)
        requires
            self.wf(),
        ensures
            r == self.spec_max_attestations_per_epoch(),
            r == self.max_attestations * self.slots_per_epoch,
            r <= 0x100_0000_0000,
    {
        assert(self.max_attestations * self.slots_per_epoch <= 0x10_0000 * 0x10_0000)
            by (nonlinear_arith)
            requires
                self.max_attestations <= 0x10_0000,
                self.slots_per_epoch <= 0x10_0000,
        ;
        self.max_attestations * self.slots_per_epoch
    }

    /// The profile of the main network.
    pub fn mainnet() -> (c: Config)
        ensures
            c.rules_ok(),
            c.slots_per_epoch == 32,
            c.slots_per_historical_root == 8192,
            c.max_validators_per_committee == 4096,
            c.epochs_per_historical_vector == 65536,
            c.epochs_per_slashings_vector == 8192,
    {
        Config {
            max_committees_per_slot: 64,
            target_committee_size: 128,
            max_validators_per_committee: 4096,
            min_per_epoch_churn_limit: 4,
            churn_limit_quotient: 65536,
            shuffle_round_count: 90,
            min_deposit_amount: 1_000_000_000,
            max_effective_balance: 32_000_000_000,
            ejection_balance: 16_000_000_000,
            effective_balance_increment: 1_000_000_000,
            genesis_slot: 0,
            genesis_epoch: 0,
            genesis_fork_version: [0u8, 0u8, 0u8, 0u8],
            min_attestation_inclusion_delay: 1,
            slots_per_epoch: 32,
            min_seed_lookahead: 1,
            max_seed_lookahead: 4,
            slots_per_eth1_voting_period: 1024,
            slots_per_historical_root: 8192,
            min_validator_withdrawability_delay: 256,
            persistent_committee_period: 2048,
            min_epochs_to_inactivity_penalty: 4,
            epochs_per_historical_vector: 65536,
            epochs_per_slashings_vector: 8192,
            historical_roots_limit: 16_777_216,
            validator_registry_limit: 1_099_511_627_776,
            base_reward_factor: 64,
            whistleblower_reward_quotient: 512,
            proposer_reward_quotient: 8,
            inactivity_penalty_quotient: 33_554_432,
            min_slashing_penalty_quotient: 32,
            base_rewards_per_epoch: 4,
            hysteresis_quotient: 4,
            hysteresis_downward_multiplier: 1,
            hysteresis_upward_multiplier: 5,
            max_proposer_slashings: 16,
            max_attester_slashings: 1,
            max_attestations: 128,
            max_deposits: 16,
            max_voluntary_exits: 16,
            domain_beacon_proposer: 0,
            domain_beacon_attester: 1,
            domain_randao: 2,
            domain_deposit: 3,
            domain_voluntary_exit: 4,
            domain_selection_proof: 5,
            domain_aggregate_and_proof: 6,
            max_shards: 1024,
            early_derived_secret_penalty_max_future_epochs: 16384,
        }
    }

    /// The small profile used for testing: it differs from the main one in its constants only.
    pub fn minimal() -> (c: Config)
        ensures
            c.rules_ok(),
            c.slots_per_epoch == 8,
            c.slots_per_historical_root == 64,
            c.max_validators_per_committee == 4096,
            c.epochs_per_historical_vector == 64,
            c.epochs_per_slashings_vector == 64,
    {
        Config {
            max_committees_per_slot: 4,
            target_committee_size: 4,
            max_validators_per_committee: 4096,
            min_per_epoch_churn_limit: 4,
            churn_limit_quotient: 65536,
            shuffle_round_count: 10,
            min_deposit_amount: 1_000_000_000,
            max_effective_balance: 32_000_000_000,
            ejection_balance: 16_000_000_000,
            effective_balance_increment: 1_000_000_000,
            genesis_slot: 0,
            genesis_epoch: 0,
            genesis_fork_version: [0u8, 0u8, 0u8, 1u8],
            min_attestation_inclusion_delay: 1,
            slots_per_epoch: 8,
            min_seed_lookahead: 1,
            max_seed_lookahead: 4,
            slots_per_eth1_voting_period: 16,
            slots_per_historical_root: 64,
            min_validator_withdrawability_delay: 256,
            persistent_committee_period: 128,
            min_epochs_to_inactivity_penalty: 4,
            epochs_per_historical_vector: 64,
            epochs_per_slashings_vector: 64,
            historical_roots_limit: 16_777_216,
            validator_registry_limit: 1_099_511_627_776,
            base_reward_factor: 64,
            whistleblower_reward_quotient: 512,
            proposer_reward_quotient: 8,
            inactivity_penalty_quotient: 33_554_432,
            min_slashing_penalty_quotient: 32,
            base_rewards_per_epoch: 4,
            hysteresis_quotient: 4,
            hysteresis_downward_multiplier: 1,
            hysteresis_upward_multiplier: 5,
            max_proposer_slashings: 16,
            max_attester_slashings: 1,
            max_attestations: 128,
            max_deposits: 16,
            max_voluntary_exits: 16,
            domain_beacon_proposer: 0,
            domain_beacon_attester: 1,
            domain_randao: 2,
            domain_deposit: 3,
            domain_voluntary_exit: 4,
            domain_selection_proof: 5,
            domain_aggregate_and_proof: 6,
            max_shards: 8,
            early_derived_secret_penalty_max_future_epochs: 4096,
        }
    }
}

} // verus!
