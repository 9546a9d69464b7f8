//! The proposer of a slot.

use vstd::bytes::{spec_u64_to_le_bytes, u64_to_le_bytes};
use vstd::prelude::*;
use crate::accessors::{
    get_active_validator_indices, get_current_epoch, get_seed, spec_active_indices,
    spec_current_epoch, spec_seed,
};
use crate::beacon_state::{sizes_ok, BeaconState, BeaconStateView, Error};
use crate::config::Config;
use crate::crypto::{hash, sha256};
use crate::merkle::append;
use crate::primitives::ValidatorIndex;
use crate::shuffling::{compute_shuffled_index, lemma_shuffle_is_bijection, spec_shuffled_index};
use crate::types::Validator;

verus! {

/// The validator that the `i`-th draw looks at: the one that the shuffle puts at the
/// position `i`, counted round the list.
pub open spec fn proposer_candidate(
    indices: Seq<ValidatorIndex>,
    seed: Seq<u8>,
    i: u64,
    config: Config,
) -> ValidatorIndex {
    indices[spec_shuffled_index(
        (i % (indices.len() as u64)) as u64,
        indices.len() as u64,
        seed,
        config.shuffle_round_count as nat,
    ) as int]
}

/// The random byte of the `i`-th draw.
pub open spec fn proposer_random_byte(seed: Seq<u8>, i: u64) -> u8 {
    sha256(Seq::<u8>::empty() + seed + spec_u64_to_le_bytes(i / 32))[(i % 32) as int]
}

/// The `i`-th draw takes its candidate where the candidate's effective balance, as a share of
/// the largest one, is at least the random byte as a share of 255.
pub open spec fn proposer_accepts(
    validators: Seq<Validator>,
    indices: Seq<ValidatorIndex>,
    seed: Seq<u8>,
    i: u64,
    config: Config,
) -> bool {
    validators[proposer_candidate(indices, seed, i, config) as int].effective_balance * 255
        >= config.max_effective_balance * proposer_random_byte(seed, i)
}

/// The `i`-th draw is the first that takes its candidate.
pub open spec fn first_accepted(
    validators: Seq<Validator>,
    indices: Seq<ValidatorIndex>,
    seed: Seq<u8>,
    i: u64,
    config: Config,
) -> bool {
    &&& i < u64::MAX
    &&& proposer_accepts(validators, indices, seed, i, config)
    &&& forall|j: u64| j < i ==> !proposer_accepts(validators, indices, seed, j, config)
}

/// The candidate of the first draw that takes one, if there is a candidate at all and a
/// draw that takes its one.
pub open spec fn spec_compute_proposer_index(
    validators: Seq<Validator>,
    indices: Seq<ValidatorIndex>,
    seed: Seq<u8>,
    config: Config,
) -> Option<ValidatorIndex> {
    if indices.len() > 0 && exists|i: u64| first_accepted(validators, indices, seed, i, config) {
        Some(
            proposer_candidate(
                indices,
                seed,
                choose|i: u64| first_accepted(validators, indices, seed, i, config),
                config,
            ),
        )
    } else {
        None
    }
}

/// The proposer among `indices` under `seed`, by hash-weighted sampling on effective
/// balances.
pub fn compute_proposer_index(
    state: &BeaconState,
    indices: &Vec<ValidatorIndex>,
    seed: &[u8],
    config: &Config,
) -> (r: Result<ValidatorIndex, Error>)
    requires
        config.wf(),
        seed@.len() == 32,
        indices@.len() <= 0x100_0000_0000,
        forall|k: int| 0 <= k < indices@.len() ==> (
            #[trigger] indices@[k]
        ) < state@.validators.len(),
    ensures
        match spec_compute_proposer_index(state@.validators, indices@, seed@, *config) {
            Some(index) => r == Ok::<ValidatorIndex, Error>(index) && index
                < state@.validators.len(),
            None => r == Err::<ValidatorIndex, Error>(Error::UnableToDetermineProducer),
        },
{
    let total = indices.len() as u64;
    if total == 0 {
        return Err(Error::UnableToDetermineProducer);
    }
    let registry_len = state.validators.len();
    let mut i: u64 = 0;
    while i < u64::MAX
        invariant
            config.wf(),
            indices@.len() <= usize::MAX,
            registry_len == state@.validators.len(),
            seed@.len() == 32,
            total == indices@.len(),
            0 < total <= 0x100_0000_0000,
            forall|k: int|
                0 <= k < indices@.len() ==> (#[trigger] indices@[k]) < state@.validators.len(),
            forall|j: u64|
                j < i ==> !proposer_accepts(state@.validators, indices@, seed@, j, *config),
        decreases u64::MAX - i,
    {
        let at = compute_shuffled_index(i % total, total, seed, config);
        let candidate = indices[at as usize];
        let mut input: Vec<u8> = Vec::new();
        append(&mut input, seed);
        let b = u64_to_le_bytes(i / 32);
        append(&mut input, b.as_slice());
        let digest = hash(input.as_slice());
        let random_byte = digest[(i % 32) as usize];
        let effective_balance = state.validators[candidate as usize].effective_balance;
        assert(indices@.len() as u64 == total);
        assert((i % (indices@.len() as u64)) as u64 == i % total);
        assert(candidate == proposer_candidate(indices@, seed@, i, *config));
        assert(input@ =~= Seq::<u8>::empty() + seed@ + spec_u64_to_le_bytes(i / 32));
        assert(random_byte == proposer_random_byte(seed@, i));
        let limit = config.max_effective_balance as u128;
        let byte = random_byte as u128;
        assert(limit * byte <= 0xffff_ffff_ffff_ffff * 255) by (nonlinear_arith)
            requires
                0 <= limit <= 0xffff_ffff_ffff_ffff,
                0 <= byte <= 255,
        ;
        if (effective_balance as u128) * 255 >= limit * byte {
            proof {
                assert(first_accepted(state@.validators, indices@, seed@, i, *config));
                let chosen = choose|k: u64|
                    first_accepted(state@.validators, indices@, seed@, k, *config);
                assert(chosen == i);
            }
            return Ok(candidate);
        }
        i += 1;
    }
    Err(Error::UnableToDetermineProducer)
}

/// The seed of the proposer's draw in the state's slot.
pub open spec fn spec_proposer_seed(s: BeaconStateView, config: Config) -> Seq<u8> {
    sha256(
        Seq::<u8>::empty() + spec_seed(
            s,
            spec_current_epoch(s, config),
            config.domain_beacon_proposer,
            config,
        ) + spec_u64_to_le_bytes(s.slot),
    )
}

/// The proposer of the state's slot, if one can be determined.
pub open spec fn spec_beacon_proposer_index(s: BeaconStateView, config: Config) -> Option<
    ValidatorIndex,
> {
    spec_compute_proposer_index(
        s.validators,
        spec_active_indices(s.validators, spec_current_epoch(s, config)),
        spec_proposer_seed(s, config),
        config,
    )
}

/// The proposer, where there is one, is a validator of the registry.
pub proof fn lemma_proposer_known(s: BeaconStateView, config: Config)
    requires
        config.wf(),
        s.validators.len() <= u64::MAX,
    ensures
        spec_beacon_proposer_index(s, config) matches Some(index) ==> index < s.validators.len(),
{
    let epoch = spec_current_epoch(s, config);
    let indices = spec_active_indices(s.validators, epoch);
    let seed = spec_proposer_seed(s, config);
    if spec_beacon_proposer_index(s, config) is Some {
        let i = choose|i: u64| first_accepted(s.validators, indices, seed, i, config);
        crate::accessors::lemma_active_prefix(s.validators, epoch, s.validators.len());
        let n = indices.len() as u64;
        let at = (i % n) as u64;
        assert(at < n) by (nonlinear_arith)
            requires
                at == i % n,
                n > 0,
        ;
        lemma_shuffle_is_bijection(at, n, seed, config.shuffle_round_count as nat);
    }
}

/// The proposer of the state's slot; a failure where nobody can be determined.
pub fn get_beacon_proposer_index(state: &BeaconState, config: &Config) -> (r: Result<
    ValidatorIndex,
    Error,
>)
    requires
        config.wf(),
        sizes_ok(state@, *config),
    ensures
        match spec_beacon_proposer_index(state@, *config) {
            Some(index) => r == Ok::<ValidatorIndex, Error>(index) && index
                < state@.validators.len(),
            None => r == Err::<ValidatorIndex, Error>(Error::UnableToDetermineProducer),
        },
{
    let epoch = get_current_epoch(state, config);
    let mut input = get_seed(state, epoch, config.domain_beacon_proposer, config);
    let ghost head = input@;
    let b = u64_to_le_bytes(state.slot);
    append(&mut input, b.as_slice());
    assert(input@ =~= Seq::<u8>::empty() + head + spec_u64_to_le_bytes(state.slot));
    let seed = hash(input.as_slice());
    let indices = get_active_validator_indices(state, epoch);
    compute_proposer_index(state, &indices, seed.as_slice(), config)
}

} // verus!
