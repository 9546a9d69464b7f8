//! The rewards and penalties of an epoch.

use vstd::prelude::*;
use crate::accessors::{
    get_current_epoch, get_previous_epoch, spec_current_epoch, spec_is_active_validator,
    spec_previous_epoch,
};
use crate::attesters::{
    attestation_committees, attester_flags, attesting_committee, attests, committees_of,
    get_total_active_balance, get_total_balance, is_member, member_at, member_upto,
    spec_total_active_balance, spec_total_balance, unslashed_attester_flags, Matching,
};
use crate::beacon_state::{
    inclusions_ok, pending_views, sizes_ok, wf_core, BeaconState, BeaconStateView,
};
use crate::config::Config;
use crate::math::{
    clamp_u64, filled, integer_squareroot, is_sqrt, sat_add, sat_sub, spec_integer_squareroot,
};
use crate::primitives::{Epoch, ValidatorIndex};
use crate::types::{PendingAttestation, PendingAttestationView, Validator};

verus! {

/// A validator's rewards and penalties are reckoned where it was active in the previous
/// epoch, or is slashed and cannot withdraw yet.
pub open spec fn spec_eligible(v: Validator, previous_epoch: Epoch) -> bool {
    spec_is_active_validator(v, previous_epoch) || (v.slashed && previous_epoch + 1
        < v.withdrawable_epoch)
}

/// The base reward of an effective balance where the active stake is `total`.
pub open spec fn spec_base_reward_of(effective_balance: u64, total: u64, config: Config) -> u64 {
    clamp_u64(
        effective_balance * config.base_reward_factor / (spec_integer_squareroot(total) as int)
            / (config.base_rewards_per_epoch as int),
    )
}

/// The base reward of a validator.
pub open spec fn spec_base_reward(s: BeaconStateView, i: int, config: Config) -> u64 {
    spec_base_reward_of(
        s.validators[i].effective_balance,
        spec_total_active_balance(s, config),
        config,
    )
}

/// What a validator earns for a vote that counts: its base reward, scaled by the share of
/// the stake that voted alike.
pub open spec fn spec_share_reward(base: u64, attesting: u64, total: u64, config: Config) -> u64 {
    clamp_u64(
        base * (attesting / config.effective_balance_increment) / ((total
            / config.effective_balance_increment) as int),
    )
}

/// The earlier of an inclusion and the one known so far, as delay and proposer.
pub open spec fn inclusion_step(before: Option<(u64, u64)>, a: PendingAttestationView) -> Option<
    (u64, u64),
> {
    if before is None || a.inclusion_delay < before->Some_0.0 {
        Some((a.inclusion_delay, a.proposer_index))
    } else {
        before
    }
}

/// The earliest inclusion of validator `i` among the first `k` attestations: the delay and
/// the proposer of the first attestation with the least delay that `i` took part in.
pub open spec fn earliest_inclusion(
    s: BeaconStateView,
    atts: Seq<PendingAttestationView>,
    i: ValidatorIndex,
    k: nat,
    config: Config,
) -> Option<(u64, u64)>
    decreases k,
{
    if k == 0 {
        None
    } else {
        let before = earliest_inclusion(s, atts, i, (k - 1) as nat, config);
        if k <= atts.len() && attests(s, atts[k - 1], i, config) {
            inclusion_step(before, atts[k - 1])
        } else {
            before
        }
    }
}

/// The earliest inclusion of a validator is one of the attestations': its delay is
/// positive and its proposer is in the registry.
pub proof fn lemma_earliest_inclusion_ok(
    s: BeaconStateView,
    atts: Seq<PendingAttestationView>,
    i: ValidatorIndex,
    k: nat,
    config: Config,
)
    requires
        inclusions_ok(atts, s.validators.len()),
    ensures
        earliest_inclusion(s, atts, i, k, config) matches Some(found) ==> found.0 > 0 && found.1
            < s.validators.len(),
    decreases k,
{
    if k > 0 {
        lemma_earliest_inclusion_ok(s, atts, i, (k - 1) as nat, config);
    }
}

/// The proposer of an inclusion, where there is one, is in a registry of `n`.
pub open spec fn proposer_known(found: Option<(u64, u64)>, n: nat) -> bool {
    found matches Some(f) ==> f.1 < n
}

/// The part of a validator's base reward that goes to the proposer who included its vote.
pub open spec fn spec_proposer_reward(base: u64, config: Config) -> u64 {
    base / config.proposer_reward_quotient
}

/// What a validator earns for the speed of its inclusion.
pub open spec fn spec_inclusion_reward(
    base: u64,
    found: Option<(u64, u64)>,
    attested: bool,
    config: Config,
) -> u64 {
    match found {
        Some((delay, _)) => if attested && delay > 0 {
            ((base - spec_proposer_reward(base, config)) / (delay as int)) as u64
        } else {
            0
        },
        None => 0,
    }
}

/// What attester `j` earns proposer `i`.
pub open spec fn spec_proposer_share(
    s: BeaconStateView,
    source_flags: Seq<bool>,
    i: int,
    j: int,
    config: Config,
) -> nat {
    match earliest_inclusion(
        s,
        s.previous_epoch_attestations,
        j as u64,
        s.previous_epoch_attestations.len(),
        config,
    ) {
        Some((_, proposer)) => if source_flags[j] && proposer == i {
            spec_proposer_reward(spec_base_reward(s, j, config), config) as nat
        } else {
            0
        },
        None => 0,
    }
}

/// What the first `n` validators earn proposer `i`.
pub open spec fn spec_proposer_sum(
    s: BeaconStateView,
    source_flags: Seq<bool>,
    i: int,
    n: nat,
    config: Config,
) -> nat
    decreases n,
{
    if n == 0 {
        0
    } else {
        spec_proposer_sum(s, source_flags, i, (n - 1) as nat, config) + spec_proposer_share(
            s,
            source_flags,
            i,
            n - 1,
            config,
        )
    }
}

/// The number of epochs that finality lags behind the previous epoch.
pub open spec fn spec_finality_delay(s: BeaconStateView, config: Config) -> u64 {
    let previous = spec_previous_epoch(s, config);
    if previous >= s.finalized_checkpoint.epoch {
        (previous - s.finalized_checkpoint.epoch) as u64
    } else {
        0
    }
}

/// The votes of the previous epoch, as the rewards look at them: who voted at all, who for
/// the right target, who for the right head, and how much stake each group has.
pub struct Votes {
    pub source: Seq<bool>,
    pub target: Seq<bool>,
    pub head: Seq<bool>,
    pub source_balance: u64,
    pub target_balance: u64,
    pub head_balance: u64,
    pub total: u64,
}

/// The votes of the previous epoch in a state.
pub open spec fn spec_votes(s: BeaconStateView, config: Config) -> Votes {
    let previous = spec_previous_epoch(s, config);
    let atts = s.previous_epoch_attestations;
    let source = unslashed_attester_flags(s, atts, previous, Matching::Source, config);
    let target = unslashed_attester_flags(s, atts, previous, Matching::Target, config);
    let head = unslashed_attester_flags(s, atts, previous, Matching::Head, config);
    Votes {
        source,
        target,
        head,
        source_balance: spec_total_balance(s.validators, source, config),
        target_balance: spec_total_balance(s.validators, target, config),
        head_balance: spec_total_balance(s.validators, head, config),
        total: spec_total_active_balance(s, config),
    }
}

/// What a validator earns by its own votes: for each of the three questions its share
/// where it voted right, and the reward for the speed of its inclusion.
pub open spec fn spec_own_reward(s: BeaconStateView, votes: Votes, i: int, config: Config) -> nat {
    let base = spec_base_reward(s, i, config);
    let eligible = spec_eligible(s.validators[i], spec_previous_epoch(s, config));
    let found = earliest_inclusion(
        s,
        s.previous_epoch_attestations,
        i as u64,
        s.previous_epoch_attestations.len(),
        config,
    );
    (if eligible && votes.source[i] {
        spec_share_reward(base, votes.source_balance, votes.total, config) as nat
    } else {
        0
    }) + (if eligible && votes.target[i] {
        spec_share_reward(base, votes.target_balance, votes.total, config) as nat
    } else {
        0
    }) + (if eligible && votes.head[i] {
        spec_share_reward(base, votes.head_balance, votes.total, config) as nat
    } else {
        0
    }) + spec_inclusion_reward(base, found, votes.source[i], config) as nat
}

/// What a validator loses: its base reward for each question on which it did not vote
/// right, and, while finality lags, the whole of its base rewards and, where it did not
/// vote for the right target, a part of its balance that grows with the lag.
pub open spec fn spec_penalty(s: BeaconStateView, votes: Votes, i: int, config: Config) -> nat {
    let base = spec_base_reward(s, i, config);
    let eligible = spec_eligible(s.validators[i], spec_previous_epoch(s, config));
    let delay = spec_finality_delay(s, config);
    if !eligible {
        0
    } else {
        (if votes.source[i] {
            0nat
        } else {
            base as nat
        }) + (if votes.target[i] {
            0nat
        } else {
            base as nat
        }) + (if votes.head[i] {
            0nat
        } else {
            base as nat
        }) + (if delay > config.min_epochs_to_inactivity_penalty {
            clamp_u64(config.base_rewards_per_epoch * base) as nat + (if votes.target[i] {
                0nat
            } else {
                clamp_u64(
                    s.validators[i].effective_balance * delay / (
                    config.inactivity_penalty_quotient as int),
                ) as nat
            })
        } else {
            0nat
        })
    }
}

/// The balance of a validator after the rewards and penalties of an epoch: what it earned
/// is added and what it lost is taken off, never below zero nor past what 64 bits hold.
pub open spec fn spec_rewarded_balance(
    s: BeaconStateView,
    votes: Votes,
    i: int,
    config: Config,
) -> u64 {
    let reward = spec_own_reward(s, votes, i, config) + spec_proposer_sum(
        s,
        votes.source,
        i,
        s.validators.len(),
        config,
    );
    sat_sub(
        sat_add(s.balances[i], clamp_u64(reward as int)),
        clamp_u64(spec_penalty(s, votes, i, config) as int),
    )
}

/// The rewards and penalties of an epoch: nothing in the first epoch, and after it every
/// balance moves by what its validator earned and lost.
pub open spec fn spec_rewards(s: BeaconStateView, config: Config) -> BeaconStateView {
    if spec_current_epoch(s, config) == config.genesis_epoch {
        s
    } else {
        BeaconStateView {
            balances: Seq::new(
                s.validators.len(),
                |i: int| spec_rewarded_balance(s, spec_votes(s, config), i, config),
            ),
            ..s
        }
    }
}

fn base_reward_of(effective_balance: u64, total: u64, root: u64, config: &Config) -> (base: u64)
    requires
        config.wf(),
        total >= 1,
        is_sqrt(total, root),
        root == spec_integer_squareroot(total),
    ensures
        base == spec_base_reward_of(effective_balance, total, *config),
{
    assert(root >= 1) by {
        if root == 0 {
            assert((root + 1) * (root + 1) == 1) by (nonlinear_arith)
                requires
                    root == 0,
            ;
        }
    }
    let factor = config.base_reward_factor as u128;
    let wide = effective_balance as u128;
    assert(wide * factor <= 0xffff_ffff_ffff_ffff * 0x10_0000) by (nonlinear_arith)
        requires
            0 <= wide <= 0xffff_ffff_ffff_ffff,
            0 <= factor <= 0x10_0000,
    ;
    let raw = wide * factor / (root as u128) / (config.base_rewards_per_epoch as u128);
    if raw > u64::MAX as u128 {
        u64::MAX
    } else {
        raw as u64
    }
}

fn share_reward(base: u64, attesting: u64, total: u64, config: &Config) -> (share: u64)
    requires
        config.wf(),
        total >= config.effective_balance_increment,
    ensures
        share == spec_share_reward(base, attesting, total, *config),
{
    let increment = config.effective_balance_increment;
    let units = (attesting / increment) as u128;
    let whole = (total / increment) as u128;
    assert(whole >= 1) by (nonlinear_arith)
        requires
            whole == total / increment,
            total >= increment,
            increment > 0,
    ;
    let wide = base as u128;
    assert(wide * units <= 0xffff_ffff_ffff_ffff * 0xffff_ffff_ffff_ffff) by (nonlinear_arith)
        requires
            0 <= wide <= 0xffff_ffff_ffff_ffff,
            0 <= units <= 0xffff_ffff_ffff_ffff,
    ;
    let raw = wide * units / whole;
    if raw > u64::MAX as u128 {
        u64::MAX
    } else {
        raw as u64
    }
}

/// For each validator, the earliest inclusion of a vote of its among the attestations.
fn earliest_inclusions(
    state: &BeaconState,
    atts: &Vec<PendingAttestation>,
    committees: &Vec<Vec<ValidatorIndex>>,
    config: &Config,
) -> (best: Vec<Option<(u64, u64)>>)
    requires
        config.wf(),
        sizes_ok(state@, *config),
        committees_of(state@, atts@, committees@, *config),
    ensures
        best@.len() == state@.validators.len(),
        forall|i: int|
            0 <= i < best@.len() ==> best@[i] == earliest_inclusion(
                state@,
                pending_views(atts@),
                i as u64,
                atts@.len(),
                *config,
            ),
{
    let n = state.validators.len();
    let ghost views = pending_views(atts@);
    let ghost s = state@;
    let mut best: Vec<Option<(u64, u64)>> = filled(n, None);
    let mut k: usize = 0;
    while k < atts.len()
        invariant
            config.wf(),
            committees_of(state@, atts@, committees@, *config),
            s == state@,
            views == pending_views(atts@),
            n == state@.validators.len(),
            k <= atts@.len(),
            best@.len() == n,
            forall|i: int|
                0 <= i < n ==> best@[i] == earliest_inclusion(
                    s,
                    views,
                    i as u64,
                    k as nat,
                    *config,
                ),
        decreases atts@.len() - k,
    {
        let a = &atts[k];
        let ghost committee = attesting_committee(s, views[k as int], *config);
        let ghost bits = a.aggregation_bits@;
        let ghost av = views[k as int];
        assert(av == a.deep_view());
        let members = &committees[k];
        assert(members@ == committee);
        let limit = if members.len() < a.aggregation_bits.len() {
            members.len()
        } else {
            a.aggregation_bits.len()
        };
        let mut p: usize = 0;
        while p < limit
            invariant
                committees_of(state@, atts@, committees@, *config),
                k < atts@.len(),
                members@ == committee,
                members@ == committees@[k as int]@,
                bits == a.aggregation_bits@,
                av == a.deep_view(),
                n == state@.validators.len(),
                limit <= members@.len(),
                limit <= bits.len(),
                p <= limit,
                best@.len() == n,
                forall|i: int|
                    0 <= i < n ==> best@[i] == (if member_upto(
                        committee,
                        bits,
                        i as u64,
                        p as int,
                    ) {
                        inclusion_step(
                            earliest_inclusion(s, views, i as u64, k as nat, *config),
                            av,
                        )
                    } else {
                        earliest_inclusion(s, views, i as u64, k as nat, *config)
                    }),
            decreases limit - p,
        {
            if a.aggregation_bits[p] {
                let j = members[p];
                assert(committees@[k as int]@[p as int] < n);
                let better = match best[j as usize] {
                    None => true,
                    Some(found) => a.inclusion_delay < found.0,
                };
                if better {
                    best.set(j as usize, Some((a.inclusion_delay, a.proposer_index)));
                }
                assert(member_at(committee, bits, j, p as int));
            }
            assert forall|i: int| 0 <= i < n implies best@[i] == (if member_upto(
                committee,
                bits,
                i as u64,
                p as int + 1,
            ) {
                inclusion_step(earliest_inclusion(s, views, i as u64, k as nat, *config), av)
            } else {
                earliest_inclusion(s, views, i as u64, k as nat, *config)
            }) by {
                if member_upto(committee, bits, i as u64, p as int + 1) {
                    let q = choose|q: int|
                        0 <= q < p + 1 && #[trigger] member_at(committee, bits, i as u64, q);
                    if q < p {
                        assert(member_upto(committee, bits, i as u64, p as int));
                    }
                }
                if member_upto(committee, bits, i as u64, p as int) {
                    let q = choose|q: int|
                        0 <= q < p && #[trigger] member_at(committee, bits, i as u64, q);
                    assert(member_at(committee, bits, i as u64, q));
                }
            }
            p += 1;
        }
        assert forall|i: int| 0 <= i < n implies best@[i] == earliest_inclusion(
            s,
            views,
            i as u64,
            (k + 1) as nat,
            *config,
        ) by {
            if member_upto(committee, bits, i as u64, limit as int) {
                let q = choose|q: int|
                    0 <= q < limit && #[trigger] member_at(committee, bits, i as u64, q);
                assert(member_at(committee, bits, i as u64, q));
            }
            if is_member(committee, bits, i as u64) {
                let q = choose|q: int| #[trigger] member_at(committee, bits, i as u64, q);
                assert(0 <= q < limit);
            }
        }
        k += 1;
    }
    best
}

/// The balances after the rewards and penalties of the epoch.
fn rewarded_balances(state: &BeaconState, config: &Config) -> (out: Vec<u64>)
    requires
        config.wf(),
        wf_core(state@, *config),
    ensures
        out@ == Seq::new(
            state@.validators.len(),
            |i: int| spec_rewarded_balance(state@, spec_votes(state@, *config), i, *config),
        ),
{
    let ghost s = state@;
    let ghost votes = spec_votes(s, *config);
    let n = state.validators.len();
    let previous = get_previous_epoch(state, config);
    let total = get_total_active_balance(state, config);
    let atts = &state.previous_epoch_attestations;
    let committees = attestation_committees(state, atts, config);
    let source = attester_flags(state, atts, &committees, previous, Matching::Source, config);
    let target = attester_flags(state, atts, &committees, previous, Matching::Target, config);
    let head = attester_flags(state, atts, &committees, previous, Matching::Head, config);
    let source_balance = get_total_balance(state, &source, config);
    let target_balance = get_total_balance(state, &target, config);
    let head_balance = get_total_balance(state, &head, config);
    let best = earliest_inclusions(state, atts, &committees, config);
    let root = integer_squareroot(total);
    let finalized = state.finalized_checkpoint.epoch;
    let delay = if previous >= finalized {
        previous - finalized
    } else {
        0
    };
    assert(votes.source == source@);
    assert(votes.target == target@);
    assert(votes.head == head@);
    let mut rewards: Vec<u128> = Vec::new();
    let mut penalties: Vec<u128> = Vec::new();
    let mut bases: Vec<u64> = Vec::new();
    let mut i: usize = 0;
    while i < n
        invariant
            config.wf(),
            s == state@,
            votes == spec_votes(s, *config),
            votes.source == source@,
            votes.target == target@,
            votes.head == head@,
            n == s.validators.len(),
            n <= 0x100_0000_0000,
            source@.len() == n,
            target@.len() == n,
            head@.len() == n,
            best@.len() == n,
            forall|t: int|
                0 <= t < n ==> best@[t] == earliest_inclusion(
                    s,
                    s.previous_epoch_attestations,
                    t as u64,
                    s.previous_epoch_attestations.len(),
                    *config,
                ),
            total == spec_total_active_balance(s, *config),
            total >= config.effective_balance_increment,
            is_sqrt(total, root),
            root == spec_integer_squareroot(total),
            source_balance == votes.source_balance,
            target_balance == votes.target_balance,
            head_balance == votes.head_balance,
            previous == spec_previous_epoch(s, *config),
            delay == spec_finality_delay(s, *config),
            i <= n,
            rewards@.len() == i,
            penalties@.len() == i,
            bases@.len() == i,
            forall|t: int| 0 <= t < i ==> bases@[t] == spec_base_reward(s, t, *config),
            forall|t: int| 0 <= t < i ==> rewards@[t] == spec_own_reward(s, votes, t, *config),
            forall|t: int| 0 <= t < i ==> rewards@[t] <= 4 * 0xffff_ffff_ffff_ffff,
            forall|t: int| 0 <= t < i ==> penalties@[t] == spec_penalty(s, votes, t, *config),
        decreases n - i,
    {
        let v = &state.validators[i];
        let base = base_reward_of(v.effective_balance, total, root, config);
        let eligible = (v.activation_epoch <= previous && previous < v.exit_epoch) || (v.slashed
            && (previous as u128) + 1 < v.withdrawable_epoch as u128);
        let mut reward: u128 = 0;
        let mut penalty: u128 = 0;
        if eligible {
            if source[i] {
                reward = reward + share_reward(base, source_balance, total, config) as u128;
            } else {
                penalty = penalty + base as u128;
            }
            if target[i] {
                reward = reward + share_reward(base, target_balance, total, config) as u128;
            } else {
                penalty = penalty + base as u128;
            }
            if head[i] {
                reward = reward + share_reward(base, head_balance, total, config) as u128;
            } else {
                penalty = penalty + base as u128;
            }
            if delay > config.min_epochs_to_inactivity_penalty {
                let per_epoch = config.base_rewards_per_epoch as u128;
                let wide = base as u128;
                assert(per_epoch * wide <= 0x10_0000 * 0xffff_ffff_ffff_ffff) by (nonlinear_arith)
                    requires
                        0 <= per_epoch <= 0x10_0000,
                        0 <= wide <= 0xffff_ffff_ffff_ffff,
                ;
                let all = per_epoch * wide;
                penalty = penalty + if all > u64::MAX as u128 {
                    u64::MAX as u128
                } else {
                    all
                };
                if !target[i] {
                    let balance = v.effective_balance as u128;
                    let lag = delay as u128;
                    assert(balance * lag <= 0xffff_ffff_ffff_ffff * 0xffff_ffff_ffff_ffff)
                        by (nonlinear_arith)
                        requires
                            0 <= balance <= 0xffff_ffff_ffff_ffff,
                            0 <= lag <= 0xffff_ffff_ffff_ffff,
                    ;
                    let leak = balance * lag / (config.inactivity_penalty_quotient as u128);
                    penalty = penalty + if leak > u64::MAX as u128 {
                        u64::MAX as u128
                    } else {
                        leak
                    };
                }
            }
        }
        match best[i] {
            Some(found) => {
                if source[i] && found.0 > 0 {
                    let speed = (base - base / config.proposer_reward_quotient) / found.0;
                    reward = reward + speed as u128;
                }
            },
            None => {},
        }
        rewards.push(reward);
        penalties.push(penalty);
        bases.push(base);
        i += 1;
    }
    proof {
        assert forall|t: int| 0 <= t < n implies proposer_known(#[trigger] best@[t], n as nat) by {
            lemma_earliest_inclusion_ok(
                s,
                s.previous_epoch_attestations,
                t as u64,
                s.previous_epoch_attestations.len(),
                *config,
            );
        }
    }
    let mut j: usize = 0;
    while j < n
        invariant
            config.wf(),
            n == s.validators.len(),
            n <= 0x100_0000_0000,
            votes.source == source@,
            source@.len() == n,
            best@.len() == n,
            bases@.len() == n,
            rewards@.len() == n,
            j <= n,
            forall|t: int|
                0 <= t < n ==> best@[t] == earliest_inclusion(
                    s,
                    s.previous_epoch_attestations,
                    t as u64,
                    s.previous_epoch_attestations.len(),
                    *config,
                ),
            forall|t: int| 0 <= t < n ==> proposer_known(#[trigger] best@[t], n as nat),
            forall|t: int| 0 <= t < n ==> bases@[t] == spec_base_reward(s, t, *config),
            forall|t: int|
                0 <= t < n ==> rewards@[t] == spec_own_reward(s, votes, t, *config)
                    + spec_proposer_sum(s, votes.source, t, j as nat, *config),
            forall|t: int|
                0 <= t < n ==> rewards@[t] <= 4 * 0xffff_ffff_ffff_ffff + j
                    * 0xffff_ffff_ffff_ffff,
        decreases n - j,
    {
        let ghost before = rewards@;
        if source[j] {
            match best[j] {
                Some(found) => {
                    let to = found.1 as usize;
                    let share = bases[j] / config.proposer_reward_quotient;
                    let sum = rewards[to] + share as u128;
                    rewards.set(to, sum);
                },
                None => {},
            }
        }
        j += 1;
    }
    let mut out: Vec<u64> = Vec::new();
    let mut i: usize = 0;
    while i < n
        invariant
            n == s.validators.len(),
            s == state@,
            s.balances.len() == n,
            rewards@.len() == n,
            penalties@.len() == n,
            i <= n,
            out@.len() == i,
            forall|t: int|
                0 <= t < n ==> rewards@[t] == spec_own_reward(s, votes, t, *config)
                    + spec_proposer_sum(s, votes.source, t, n as nat, *config),
            forall|t: int| 0 <= t < n ==> penalties@[t] == spec_penalty(s, votes, t, *config),
            forall|t: int| 0 <= t < i ==> out@[t] == spec_rewarded_balance(s, votes, t, *config),
        decreases n - i,
    {
        let reward = if rewards[i] > u64::MAX as u128 {
            u64::MAX
        } else {
            rewards[i] as u64
        };
        let penalty = if penalties[i] > u64::MAX as u128 {
            u64::MAX
        } else {
            penalties[i] as u64
        };
        out.push(state.balances[i].saturating_add(reward).saturating_sub(penalty));
        i += 1;
    }
    assert(out@ =~= Seq::new(
        s.validators.len(),
        |i: int| spec_rewarded_balance(s, votes, i, *config),
    ));
    out
}

/// Moves every balance by what its validator earned and lost in the previous epoch.
pub fn process_rewards_and_penalties(state: &mut BeaconState, config: &Config)
    requires
        config.wf(),
        wf_core(old(state)@, *config),
    ensures
        final(state)@ == spec_rewards(old(state)@, *config),
{
    if get_current_epoch(state, config) == config.genesis_epoch {
        return ;
    }
    let balances = rewarded_balances(state, config);
    state.balances = balances;
}

} // verus!
