//! Who voted in an epoch, and with how much stake.

use vstd::prelude::*;
use crate::accessors::{compute_start_slot_at_epoch, spec_is_active_validator, spec_start_slot};
use crate::beacon_state::{pending_views, sizes_ok, BeaconState, BeaconStateView, Error};
use crate::committee::{get_beacon_committee, spec_beacon_committee, spec_committee_count_at_slot};
use crate::config::Config;
use crate::math::{clamp_u64, filled};
use crate::primitives::{Epoch, H256, Slot, ValidatorIndex};
use crate::types::{PendingAttestation, PendingAttestationView, Validator};

verus! {

/// Which attestations of an epoch count for a question.
#[derive(Clone, Copy, Debug, PartialEq, Eq, Structural)]
pub enum Matching {
    /// All of them: each has the right source, or it would not have been included.
    Source,
    /// Those that vote for the block at the start of the epoch.
    Target,
    /// Those that vote for the block of their own slot.
    Head,
}

/// The block root that the state keeps for a slot.
pub open spec fn spec_block_root_at_slot(s: BeaconStateView, slot: Slot, config: Config) -> H256 {
    s.block_roots[(slot % config.slots_per_historical_root) as int]
}

/// The block root that the state keeps for the start of an epoch.
pub open spec fn spec_block_root(s: BeaconStateView, epoch: Epoch, config: Config) -> H256 {
    spec_block_root_at_slot(s, spec_start_slot(epoch, config), config)
}

/// The block root that stands at the place of a slot in the vector of block roots.
pub fn block_root_at_slot(state: &BeaconState, slot: Slot, config: &Config) -> (root: H256)
    requires
        config.wf(),
        sizes_ok(state@, *config),
    ensures
        root == spec_block_root_at_slot(state@, slot, *config),
{
    state.block_roots[(slot % config.slots_per_historical_root) as usize]
}

/// The block root that stands at the place of the first slot of an epoch.
pub fn block_root_of_epoch(state: &BeaconState, epoch: Epoch, config: &Config) -> (root: H256)
    requires
        config.wf(),
        sizes_ok(state@, *config),
    ensures
        root == spec_block_root(state@, epoch, *config),
{
    block_root_at_slot(state, compute_start_slot_at_epoch(epoch, config), config)
}

/// The state still keeps the block root of a slot: the slot has passed, by no more slots
/// than the vector of block roots has places.
pub open spec fn spec_keeps_block_root(s: BeaconStateView, slot: Slot, config: Config) -> bool {
    slot < s.slot && s.slot <= slot + config.slots_per_historical_root
}

/// The block root of a passed slot; a failure where the state does not keep it any more,
/// or not yet.
pub fn get_block_root_at_slot(state: &BeaconState, slot: Slot, config: &Config) -> (r: Result<
    H256,
    Error,
>)
    requires
        config.wf(),
        sizes_ok(state@, *config),
    ensures
        r == (if spec_keeps_block_root(state@, slot, *config) {
            Ok::<H256, Error>(spec_block_root_at_slot(state@, slot, *config))
        } else {
            Err::<H256, Error>(Error::SlotOutOfBounds)
        }),
{
    if slot < state.slot && state.slot as u128 <= slot as u128
        + config.slots_per_historical_root as u128 {
        Ok(block_root_at_slot(state, slot, config))
    } else {
        Err(Error::SlotOutOfBounds)
    }
}

/// The block root of the first slot of a passed epoch; a failure where the state does not
/// keep it any more, or not yet.
pub fn get_block_root(state: &BeaconState, epoch: Epoch, config: &Config) -> (r: Result<
    H256,
    Error,
>)
    requires
        config.wf(),
        sizes_ok(state@, *config),
    ensures
        r == (if spec_keeps_block_root(state@, spec_start_slot(epoch, *config), *config) {
            Ok::<H256, Error>(spec_block_root(state@, epoch, *config))
        } else {
            Err::<H256, Error>(Error::SlotOutOfBounds)
        }),
{
    get_block_root_at_slot(state, compute_start_slot_at_epoch(epoch, config), config)
}

/// Whether an attestation of `epoch` counts for the question `kind`.
pub open spec fn attestation_matches(
    s: BeaconStateView,
    a: PendingAttestationView,
    epoch: Epoch,
    kind: Matching,
    config: Config,
) -> bool {
    match kind {
        Matching::Source => true,
        Matching::Target => a.data.target.root == spec_block_root(s, epoch, config),
        Matching::Head => a.data.beacon_block_root == spec_block_root_at_slot(
            s,
            a.data.slot,
            config,
        ),
    }
}

/// The committee that an attestation speaks for; nobody where its slot has no committee of
/// its index.
pub open spec fn attesting_committee(
    s: BeaconStateView,
    a: PendingAttestationView,
    config: Config,
) -> Seq<
    ValidatorIndex,
> {
    if a.data.index < spec_committee_count_at_slot(s, a.data.slot, config) {
        spec_beacon_committee(s, a.data.slot, a.data.index, config)
    } else {
        Seq::empty()
    }
}

/// Validator `i` stands at place `p` of the committee and the bit of that place is set.
pub open spec fn member_at(
    committee: Seq<ValidatorIndex>,
    bits: Seq<bool>,
    i: ValidatorIndex,
    p: int,
) -> bool {
    0 <= p < committee.len() && p < bits.len() && bits[p] && committee[p] == i
}

/// Validator `i` is among the first `p` places of the committee with its bit set.
pub open spec fn member_upto(
    committee: Seq<ValidatorIndex>,
    bits: Seq<bool>,
    i: ValidatorIndex,
    p: int,
) -> bool {
    exists|q: int| 0 <= q < p && #[trigger] member_at(committee, bits, i, q)
}

/// Validator `i` is in the committee with its bit set.
pub open spec fn is_member(
    committee: Seq<ValidatorIndex>,
    bits: Seq<bool>,
    i: ValidatorIndex,
) -> bool {
    exists|q: int| #[trigger] member_at(committee, bits, i, q)
}

/// Validator `i` took part in the attestation.
pub open spec fn attests(
    s: BeaconStateView,
    a: PendingAttestationView,
    i: ValidatorIndex,
    config: Config,
) -> bool {
    is_member(attesting_committee(s, a, config), a.aggregation_bits, i)
}

/// The `t`-th attestation counts and validator `i` took part in it.
pub open spec fn attester_at(
    s: BeaconStateView,
    atts: Seq<PendingAttestationView>,
    epoch: Epoch,
    kind: Matching,
    i: ValidatorIndex,
    t: int,
    config: Config,
) -> bool {
    0 <= t < atts.len() && attestation_matches(s, atts[t], epoch, kind, config) && attests(
        s,
        atts[t],
        i,
        config,
    )
}

/// Validator `i` took part in one of the first `k` attestations that count.
pub open spec fn is_attester_upto(
    s: BeaconStateView,
    atts: Seq<PendingAttestationView>,
    epoch: Epoch,
    kind: Matching,
    i: ValidatorIndex,
    k: int,
    config: Config,
) -> bool {
    exists|t: int| 0 <= t < k && #[trigger] attester_at(s, atts, epoch, kind, i, t, config)
}

/// Validator `i` took part in an attestation that counts.
pub open spec fn is_attester(
    s: BeaconStateView,
    atts: Seq<PendingAttestationView>,
    epoch: Epoch,
    kind: Matching,
    i: ValidatorIndex,
    config: Config,
) -> bool {
    is_attester_upto(s, atts, epoch, kind, i, atts.len() as int, config)
}

/// For each validator, whether it is unslashed and took part in an attestation that counts.
pub open spec fn unslashed_attester_flags(
    s: BeaconStateView,
    atts: Seq<PendingAttestationView>,
    epoch: Epoch,
    kind: Matching,
    config: Config,
) -> Seq<bool> {
    Seq::new(
        s.validators.len(),
        |i: int| !s.validators[i].slashed && is_attester(s, atts, epoch, kind, i as u64, config),
    )
}

/// The committees of a list of attestations hold only validators of the registry.
pub open spec fn committees_known(committees: Seq<Vec<ValidatorIndex>>, n: nat) -> bool {
    forall|k: int, p: int|
        0 <= k < committees.len() && 0 <= p < committees[k]@.len() ==> (
        #[trigger] committees[k]@[p]) < n
}

/// The committees are those that the attestations speak for.
pub open spec fn committees_of(
    s: BeaconStateView,
    atts: Seq<PendingAttestation>,
    committees: Seq<Vec<ValidatorIndex>>,
    config: Config,
) -> bool {
    &&& committees.len() == atts.len()
    &&& forall|k: int|
        0 <= k < atts.len() ==> (#[trigger] committees[k])@ == attesting_committee(
            s,
            atts[k].deep_view(),
            config,
        )
    &&& committees_known(committees, s.validators.len())
}

/// The committee of each attestation of a list.
pub fn attestation_committees(
    state: &BeaconState,
    atts: &Vec<PendingAttestation>,
    config: &Config,
) -> (committees: Vec<Vec<ValidatorIndex>>)
    requires
        config.wf(),
        sizes_ok(state@, *config),
    ensures
        committees_of(state@, atts@, committees@, *config),
{
    let mut committees: Vec<Vec<ValidatorIndex>> = Vec::new();
    let mut k: usize = 0;
    while k < atts.len()
        invariant
            config.wf(),
            sizes_ok(state@, *config),
            k <= atts@.len(),
            committees@.len() == k,
            forall|t: int|
                0 <= t < k ==> (#[trigger] committees@[t])@ == attesting_committee(
                    state@,
                    atts@[t].deep_view(),
                    *config,
                ),
            committees_known(committees@, state@.validators.len()),
        decreases atts@.len() - k,
    {
        let a = &atts[k];
        let members = match get_beacon_committee(state, a.data.slot, a.data.index, config) {
            Ok(members) => members,
            Err(_) => Vec::new(),
        };
        let ghost before = committees@;
        committees.push(members);
        assert forall|t: int, p: int|
            0 <= t < committees@.len() && 0 <= p < committees@[t]@.len() implies (
        #[trigger] committees@[t]@[p]) < state@.validators.len() by {
            if t < k {
                assert(committees@[t] == before[t]);
            }
        }
        k += 1;
    }
    committees
}

fn matches(
    state: &BeaconState,
    a: &PendingAttestation,
    epoch: Epoch,
    kind: Matching,
    config: &Config,
) -> (r: bool)
    requires
        config.wf(),
        sizes_ok(state@, *config),
    ensures
        r == attestation_matches(state@, a.deep_view(), epoch, kind, *config),
{
    match kind {
        Matching::Source => true,
        Matching::Target => a.data.target.root == block_root_of_epoch(state, epoch, config),
        Matching::Head => a.data.beacon_block_root == block_root_at_slot(
            state,
            a.data.slot,
            config,
        ),
    }
}

/// For each validator, whether it is unslashed and took part in an attestation of the list
/// that counts for `kind`.
pub fn attester_flags(
    state: &BeaconState,
    atts: &Vec<PendingAttestation>,
    committees: &Vec<Vec<ValidatorIndex>>,
    epoch: Epoch,
    kind: Matching,
    config: &Config,
) -> (flags: Vec<bool>)
    requires
        config.wf(),
        sizes_ok(state@, *config),
        committees_of(state@, atts@, committees@, *config),
    ensures
        flags@ == unslashed_attester_flags(state@, pending_views(atts@), epoch, kind, *config),
{
    let n = state.validators.len();
    let ghost views = pending_views(atts@);
    let ghost s = state@;
    let mut flags = filled(n, false);
    let mut k: usize = 0;
    while k < atts.len()
        invariant
            config.wf(),
            sizes_ok(state@, *config),
            committees_of(state@, atts@, committees@, *config),
            s == state@,
            views == pending_views(atts@),
            n == state@.validators.len(),
            k <= atts@.len(),
            flags@.len() == n,
            forall|i: int|
                0 <= i < n ==> flags@[i] == is_attester_upto(
                    s,
                    views,
                    epoch,
                    kind,
                    i as u64,
                    k as int,
                    *config,
                ),
        decreases atts@.len() - k,
    {
        let a = &atts[k];
        let ghost committee = attesting_committee(s, views[k as int], *config);
        let ghost bits = a.aggregation_bits@;
        assert(views[k as int] == a.deep_view());
        if matches(state, a, epoch, kind, config) {
            let members = &committees[k];
            assert(members@ == committee);
            let limit = if members.len() < a.aggregation_bits.len() {
                members.len()
            } else {
                a.aggregation_bits.len()
            };
            let mut p: usize = 0;
            while p < limit
                invariant
                    committees_of(state@, atts@, committees@, *config),
                    k < atts@.len(),
                    members@ == committee,
                    members@ == committees@[k as int]@,
                    bits == a.aggregation_bits@,
                    n == state@.validators.len(),
                    limit <= members@.len(),
                    limit <= bits.len(),
                    p <= limit,
                    flags@.len() == n,
                    forall|i: int|
                        0 <= i < n ==> flags@[i] == (is_attester_upto(
                            s,
                            views,
                            epoch,
                            kind,
                            i as u64,
                            k as int,
                            *config,
                        ) || member_upto(committee, bits, i as u64, p as int)),
                decreases limit - p,
            {
                let ghost old_flags = flags@;
                if a.aggregation_bits[p] {
                    let j = members[p];
                    assert(committees@[k as int]@[p as int] < n);
                    flags.set(j as usize, true);
                    assert(member_at(committee, bits, j, p as int));
                }
                assert forall|i: int| 0 <= i < n implies flags@[i] == (is_attester_upto(
                    s,
                    views,
                    epoch,
                    kind,
                    i as u64,
                    k as int,
                    *config,
                ) || member_upto(committee, bits, i as u64, p as int + 1)) by {
                    if member_upto(committee, bits, i as u64, p as int + 1) {
                        let q = choose|q: int|
                            0 <= q < p + 1 && #[trigger] member_at(committee, bits, i as u64, q);
                        if q < p {
                            assert(member_upto(committee, bits, i as u64, p as int));
                        }
                    }
                    if member_upto(committee, bits, i as u64, p as int) {
                        let q = choose|q: int|
                            0 <= q < p && #[trigger] member_at(committee, bits, i as u64, q);
                        assert(member_at(committee, bits, i as u64, q));
                    }
                }
                p += 1;
            }
            assert forall|i: int| 0 <= i < n implies flags@[i] == is_attester_upto(
                s,
                views,
                epoch,
                kind,
                i as u64,
                k as int + 1,
                *config,
            ) by {
                lemma_attester_step(s, views, epoch, kind, i as u64, k as int, *config);
                if member_upto(committee, bits, i as u64, limit as int) {
                    let q = choose|q: int|
                        0 <= q < limit && #[trigger] member_at(committee, bits, i as u64, q);
                    assert(member_at(committee, bits, i as u64, q));
                }
                if is_member(committee, bits, i as u64) {
                    let q = choose|q: int| #[trigger] member_at(committee, bits, i as u64, q);
                    assert(0 <= q < limit);
                }
            }
        } else {
            assert forall|i: int| 0 <= i < n implies flags@[i] == is_attester_upto(
                s,
                views,
                epoch,
                kind,
                i as u64,
                k as int + 1,
                *config,
            ) by {
                lemma_attester_step(s, views, epoch, kind, i as u64, k as int, *config);
            }
        }
        k += 1;
    }
    let mut i: usize = 0;
    while i < n
        invariant
            n == state@.validators.len(),
            s == state@,
            i <= n,
            flags@.len() == n,
            forall|j: int|
                0 <= j < i ==> flags@[j] == (!s.validators[j].slashed && is_attester(
                    s,
                    views,
                    epoch,
                    kind,
                    j as u64,
                    *config,
                )),
            forall|j: int|
                i <= j < n ==> flags@[j] == is_attester(s, views, epoch, kind, j as u64, *config),
        decreases n - i,
    {
        if state.validators[i].slashed {
            flags.set(i, false);
        }
        i += 1;
    }
    assert(flags@ =~= unslashed_attester_flags(s, views, epoch, kind, *config));
    flags
}

/// Taking part in one of the first `k + 1` attestations is taking part in one of the first
/// `k` or in the one after them.
pub proof fn lemma_attester_step(
    s: BeaconStateView,
    atts: Seq<PendingAttestationView>,
    epoch: Epoch,
    kind: Matching,
    i: ValidatorIndex,
    k: int,
    config: Config,
)
    requires
        0 <= k < atts.len(),
    ensures
        is_attester_upto(s, atts, epoch, kind, i, k + 1, config) == (is_attester_upto(
            s,
            atts,
            epoch,
            kind,
            i,
            k,
            config,
        ) || attester_at(s, atts, epoch, kind, i, k, config)),
{
    if is_attester_upto(s, atts, epoch, kind, i, k + 1, config) {
        let t = choose|t: int|
            0 <= t < k + 1 && #[trigger] attester_at(s, atts, epoch, kind, i, t, config);
        if t < k {
            assert(is_attester_upto(s, atts, epoch, kind, i, k, config));
        }
    }
    if is_attester_upto(s, atts, epoch, kind, i, k, config) {
        let t = choose|t: int|
            0 <= t < k && #[trigger] attester_at(s, atts, epoch, kind, i, t, config);
        assert(attester_at(s, atts, epoch, kind, i, t, config));
    }
}

/// The sum of the effective balances of the first `n` validators whose flag is set.
pub open spec fn flagged_balance(validators: Seq<Validator>, flags: Seq<bool>, n: nat) -> nat
    decreases n,
{
    if n == 0 {
        0
    } else {
        flagged_balance(validators, flags, (n - 1) as nat) + if n <= validators.len() && n
            <= flags.len() && flags[n - 1] {
            validators[n - 1].effective_balance as nat
        } else {
            0
        }
    }
}

/// The combined effective balance of the flagged validators, and at least one increment:
/// what a share of the stake is measured in.
pub open spec fn spec_total_balance(
    validators: Seq<Validator>,
    flags: Seq<bool>,
    config: Config,
) -> u64 {
    let sum = flagged_balance(validators, flags, validators.len());
    if sum < config.effective_balance_increment {
        config.effective_balance_increment
    } else {
        clamp_u64(sum as int)
    }
}

/// For each validator, whether it is active in `epoch`.
pub open spec fn active_flags(validators: Seq<Validator>, epoch: Epoch) -> Seq<bool> {
    Seq::new(validators.len(), |i: int| spec_is_active_validator(validators[i], epoch))
}

/// The combined effective balance of the validators that are active in the state's epoch.
pub open spec fn spec_total_active_balance(s: BeaconStateView, config: Config) -> u64 {
    spec_total_balance(
        s.validators,
        active_flags(s.validators, crate::accessors::spec_current_epoch(s, config)),
        config,
    )
}

/// The combined effective balance of the flagged validators, and at least one increment.
pub fn get_total_balance(state: &BeaconState, flags: &Vec<bool>, config: &Config) -> (total: u64)
    requires
        config.wf(),
        sizes_ok(state@, *config),
        flags@.len() == state@.validators.len(),
    ensures
        total == spec_total_balance(state@.validators, flags@, *config),
        total >= config.effective_balance_increment,
{
    let n = state.validators.len();
    let mut sum: u128 = 0;
    let mut i: usize = 0;
    while i < n
        invariant
            n == state@.validators.len(),
            n <= 0x100_0000_0000,
            flags@.len() == n,
            i <= n,
            sum == flagged_balance(state@.validators, flags@, i as nat),
            sum <= i * 0xffff_ffff_ffff_ffff,
        decreases n - i,
    {
        if flags[i] {
            sum = sum + state.validators[i].effective_balance as u128;
        }
        i += 1;
    }
    if sum < config.effective_balance_increment as u128 {
        config.effective_balance_increment
    } else if sum > u64::MAX as u128 {
        u64::MAX
    } else {
        sum as u64
    }
}

/// The combined effective balance of the validators that are active in the state's epoch.
pub fn get_total_active_balance(state: &BeaconState, config: &Config) -> (total: u64)
    requires
        config.wf(),
        sizes_ok(state@, *config),
    ensures
        total == spec_total_active_balance(state@, *config),
        total >= config.effective_balance_increment,
{
    let epoch = crate::accessors::get_current_epoch(state, config);
    let n = state.validators.len();
    let mut flags: Vec<bool> = Vec::new();
    let mut i: usize = 0;
    while i < n
        invariant
            n == state@.validators.len(),
            i <= n,
            flags@.len() == i,
            forall|j: int|
                0 <= j < i ==> flags@[j] == spec_is_active_validator(state@.validators[j], epoch),
        decreases n - i,
    {
        flags.push(crate::predicates::is_active_validator(&state.validators[i], epoch));
        i += 1;
    }
    assert(flags@ =~= active_flags(state@.validators, epoch));
    get_total_balance(state, &flags, config)
}

} // verus!
