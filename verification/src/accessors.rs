//! What a transition reads off a state: epochs, active validators, seeds, domains and
//! signing roots.

use vstd::bytes::{spec_u32_to_le_bytes, spec_u64_to_le_bytes, u32_to_le_bytes, u64_to_le_bytes};
use vstd::prelude::*;
use vstd::slice::slice_subrange;
use crate::beacon_state::{sizes_ok, spec_epoch_at, BeaconState, BeaconStateView};
use crate::config::Config;
use crate::crypto::{hash, sha256};
use crate::merkle::{append, TreeHash};
use crate::primitives::{
    h256_from, lemma_h256_from, Domain, DomainType, Epoch, H256, Slot, ValidatorIndex, Version,
};
use crate::types::{ForkData, SigningData, Validator};

verus! {

/// A validator is active in an epoch from its activation up to its exit.
pub open spec fn spec_is_active_validator(validator: Validator, epoch: Epoch) -> bool {
    validator.activation_epoch <= epoch && epoch < validator.exit_epoch
}

/// The epoch that a slot lies in.
pub fn compute_epoch_at_slot(slot: Slot, config: &Config) -> (epoch: Epoch)
    requires
        config.wf(),
    ensures
        epoch == spec_epoch_at(slot, *config),
{
    slot / config.slots_per_epoch
}

/// The first slot of an epoch, held at the largest slot where the product does not fit.
pub open spec fn spec_start_slot(epoch: Epoch, config: Config) -> Slot {
    if epoch * config.slots_per_epoch > u64::MAX {
        u64::MAX
    } else {
        (epoch * config.slots_per_epoch) as u64
    }
}

/// The first slot of an epoch.
pub fn compute_start_slot_at_epoch(epoch: Epoch, config: &Config) -> (slot: Slot)
    requires
        config.wf(),
    ensures
        slot == spec_start_slot(epoch, *config),
{
    match epoch.checked_mul(config.slots_per_epoch) {
        Some(slot) => slot,
        None => u64::MAX,
    }
}

/// The epoch that the state is in.
pub open spec fn spec_current_epoch(s: BeaconStateView, config: Config) -> Epoch {
    spec_epoch_at(s.slot, config)
}

/// The epoch that the state is in.
pub fn get_current_epoch(state: &BeaconState, config: &Config) -> (epoch: Epoch)
    requires
        config.wf(),
    ensures
        epoch == spec_current_epoch(state@, *config),
{
    state.slot / config.slots_per_epoch
}

/// The epoch before the state's own, or the first epoch where there is none before it.
pub open spec fn spec_previous_epoch(s: BeaconStateView, config: Config) -> Epoch {
    let current = spec_current_epoch(s, config);
    if current > config.genesis_epoch {
        (current - 1) as u64
    } else {
        config.genesis_epoch
    }
}

/// The epoch before the state's own, or the first epoch where there is none before it.
pub fn get_previous_epoch(state: &BeaconState, config: &Config) -> (epoch: Epoch)
    requires
        config.wf(),
    ensures
        epoch == spec_previous_epoch(state@, *config),
{
    let current = get_current_epoch(state, config);
    if current > config.genesis_epoch {
        current - 1
    } else {
        config.genesis_epoch
    }
}

/// The indices below `n` of the validators that are active in `epoch`, in ascending order.
pub open spec fn active_prefix(validators: Seq<Validator>, epoch: Epoch, n: nat) -> Seq<
    ValidatorIndex,
>
    decreases n,
{
    if n == 0 {
        Seq::empty()
    } else {
        let before = active_prefix(validators, epoch, (n - 1) as nat);
        if n <= validators.len() && spec_is_active_validator(validators[n - 1], epoch) {
            before.push((n - 1) as u64)
        } else {
            before
        }
    }
}

/// The indices of the validators that are active in `epoch`, in ascending order.
pub open spec fn spec_active_indices(validators: Seq<Validator>, epoch: Epoch) -> Seq<
    ValidatorIndex,
> {
    active_prefix(validators, epoch, validators.len())
}

/// The active indices are exactly the indices of the active validators, each once and in
/// strictly ascending order.
pub proof fn lemma_active_prefix(validators: Seq<Validator>, epoch: Epoch, n: nat)
    requires
        n <= validators.len(),
        validators.len() <= u64::MAX,
    ensures
        active_prefix(validators, epoch, n).len() <= n,
        forall|k: int|
            0 <= k < active_prefix(validators, epoch, n).len() ==> {
                &&& (#[trigger] active_prefix(validators, epoch, n)[k]) < n
                &&& spec_is_active_validator(
                    validators[active_prefix(validators, epoch, n)[k] as int],
                    epoch,
                )
            },
        forall|j: int, k: int|
            0 <= j < k < active_prefix(validators, epoch, n).len() ==> active_prefix(
                validators,
                epoch,
                n,
            )[j] < active_prefix(validators, epoch, n)[k],
        forall|i: int|
            0 <= i < n && spec_is_active_validator(#[trigger] validators[i], epoch)
                ==> active_prefix(validators, epoch, n).contains(i as u64),
    decreases n,
{
    if n > 0 {
        lemma_active_prefix(validators, epoch, (n - 1) as nat);
        let before = active_prefix(validators, epoch, (n - 1) as nat);
        let now = active_prefix(validators, epoch, n);
        assert forall|i: int|
            0 <= i < n && spec_is_active_validator(
                #[trigger] validators[i],
                epoch,
            ) implies now.contains(
            i as u64,
        ) by {
            if i < n - 1 {
                assert(before.contains(i as u64));
                let k = choose|k: int| 0 <= k < before.len() && before[k] == i as u64;
                assert(now[k] == i as u64);
            } else {
                assert(now[now.len() - 1] == i as u64);
            }
        }
    }
}

/// The indices of the validators that are active in `epoch`, in ascending order.
pub fn get_active_validator_indices(state: &BeaconState, epoch: Epoch) -> (indices: Vec<
    ValidatorIndex,
>)
    ensures
        indices@ == spec_active_indices(state@.validators, epoch),
        indices@.len() <= state@.validators.len(),
        forall|k: int|
            0 <= k < indices@.len() ==> (#[trigger] indices@[k]) < state@.validators.len(),
{
    let mut indices: Vec<ValidatorIndex> = Vec::new();
    let mut i: usize = 0;
    while i < state.validators.len()
        invariant
            i <= state.validators@.len(),
            indices@ == active_prefix(state@.validators, epoch, i as nat),
        decreases state.validators@.len() - i,
    {
        if crate::predicates::is_active_validator(&state.validators[i], epoch) {
            indices.push(i as u64);
        }
        i += 1;
    }
    proof {
        lemma_active_prefix(state@.validators, epoch, state@.validators.len());
    }
    indices
}

/// The randomness that the state holds for an epoch.
pub open spec fn spec_randao_mix(s: BeaconStateView, epoch: Epoch, config: Config) -> H256 {
    s.randao_mixes[(epoch % config.epochs_per_historical_vector) as int]
}

/// The randomness that the state holds for an epoch.
pub fn get_randao_mix(state: &BeaconState, epoch: Epoch, config: &Config) -> (mix: H256)
    requires
        config.wf(),
        sizes_ok(state@, *config),
    ensures
        mix == spec_randao_mix(state@, epoch, *config),
{
    state.randao_mixes[(epoch % config.epochs_per_historical_vector) as usize]
}

/// The epoch whose randomness seeds `epoch`: the one that lies the least lookahead and
/// one more before it, counted round the vector of mixes.
pub open spec fn spec_seed_epoch(epoch: Epoch, config: Config) -> int {
    (epoch % config.epochs_per_historical_vector + config.epochs_per_historical_vector
        - config.min_seed_lookahead - 1) % (config.epochs_per_historical_vector as int)
}

/// The seed of an epoch for one purpose: the digest of the purpose, the epoch and the mix.
pub open spec fn spec_seed(
    s: BeaconStateView,
    epoch: Epoch,
    domain_type: DomainType,
    config: Config,
) -> Seq<u8> {
    sha256(
        Seq::<u8>::empty() + spec_u32_to_le_bytes(domain_type) + spec_u64_to_le_bytes(epoch)
            + s.randao_mixes[spec_seed_epoch(epoch, config)]@,
    )
}

/// The seed of an epoch for one purpose.
pub fn get_seed(
    state: &BeaconState,
    epoch: Epoch,
    domain_type: DomainType,
    config: &Config,
) -> (seed:
    Vec<u8>)
    requires
        config.wf(),
        sizes_ok(state@, *config),
    ensures
        seed@ == spec_seed(state@, epoch, domain_type, *config),
        seed@.len() == 32,
{
    let n = config.epochs_per_historical_vector;
    let at = (epoch % n + n - config.min_seed_lookahead - 1) % n;
    let mix = &state.randao_mixes[at as usize];
    let mut input: Vec<u8> = Vec::new();
    let d = u32_to_le_bytes(domain_type);
    append(&mut input, d.as_slice());
    let e = u64_to_le_bytes(epoch);
    append(&mut input, e.as_slice());
    append(&mut input, mix.0.as_slice());
    hash(input.as_slice())
}

/// The domain of a purpose under a fork version and a chain: the purpose's four bytes,
/// then the first 28 bytes of the root of the version and the chain.
pub open spec fn spec_compute_domain(
    domain_type: DomainType,
    fork_version: Version,
    genesis_validators_root: H256,
    config: Config,
) -> Domain {
    h256_from(
        spec_u32_to_le_bytes(domain_type) + (ForkData {
            current_version: fork_version,
            genesis_validators_root,
        }).tree_root(config).take(28),
    )
}

/// The domain of a purpose under a fork version and a chain.
pub fn compute_domain(
    domain_type: DomainType,
    fork_version: Version,
    genesis_validators_root: H256,
    config: &Config,
) -> (domain: Domain)
    requires
        config.wf(),
    ensures
        domain == spec_compute_domain(
            domain_type,
            fork_version,
            genesis_validators_root,
            *config,
        ),
{
    let data = ForkData { current_version: fork_version, genesis_validators_root };
    let root = data.tree_hash_root(config);
    let mut bytes = u32_to_le_bytes(domain_type);
    let ghost head = bytes@;
    append(&mut bytes, slice_subrange(root.0.as_slice(), 0, 28));
    let domain = H256::from_slice(bytes.as_slice());
    proof {
        vstd::bytes::lemma_auto_spec_u32_to_from_le_bytes();
        assert(bytes@.take(32) =~= bytes@);
        assert(root@.subrange(0, 28) =~= root@.take(28));
        lemma_h256_from(domain);
    }
    domain
}

/// The fork version that is in force in an epoch.
pub open spec fn spec_fork_version(s: BeaconStateView, epoch: Epoch) -> Version {
    if epoch < s.fork.epoch {
        s.fork.previous_version
    } else {
        s.fork.current_version
    }
}

/// The domain of a purpose in an epoch of this state's chain; in the state's own epoch
/// where none is given.
pub open spec fn spec_get_domain(
    s: BeaconStateView,
    domain_type: DomainType,
    epoch: Option<Epoch>,
    config: Config,
) -> Domain {
    let at = match epoch {
        Some(e) => e,
        None => spec_current_epoch(s, config),
    };
    spec_compute_domain(domain_type, spec_fork_version(s, at), s.genesis_validators_root, config)
}

/// The domain of a purpose in an epoch of this state's chain; in the state's own epoch
/// where none is given.
pub fn get_domain(
    state: &BeaconState,
    domain_type: DomainType,
    epoch: Option<Epoch>,
    config: &Config,
) -> (domain: Domain)
    requires
        config.wf(),
    ensures
        domain == spec_get_domain(state@, domain_type, epoch, *config),
{
    let at = match epoch {
        Some(e) => e,
        None => get_current_epoch(state, config),
    };
    let version = if at < state.fork.epoch {
        state.fork.previous_version
    } else {
        state.fork.current_version
    };
    compute_domain(domain_type, version, state.genesis_validators_root, config)
}

/// What is signed for an object under a domain: the root of the pair of the object's root
/// and the domain.
pub open spec fn spec_signing_root(object_root: Seq<u8>, domain: Domain, config: Config) -> Seq<
    u8,
> {
    (SigningData { object_root: h256_from(object_root), domain }).tree_root(config)
}

/// What is signed for an object under a domain.
pub fn compute_signing_root<T: TreeHash>(object: &T, domain: Domain, config: &Config) -> (root:
    H256)
    requires
        config.wf(),
        object.hashable(*config),
    ensures
        root@ == spec_signing_root(object.tree_root(*config), domain, *config),
{
    let object_root = object.tree_hash_root(config);
    proof {
        lemma_h256_from(object_root);
    }
    let data = SigningData { object_root, domain };
    data.tree_hash_root(config)
}

} // verus!
