//! The registry of validators at the end of an epoch: queue, ejections, activations,
//! exits.

use vstd::prelude::*;
use crate::accessors::{
    get_active_validator_indices, get_current_epoch, spec_active_indices, spec_current_epoch,
    spec_is_active_validator,
};
use crate::beacon_state::{registry_ordered, sizes_ok, wf_core, BeaconState, BeaconStateView};
use crate::config::{Config, FAR_FUTURE_EPOCH};
use crate::math::{filled, sat_add};
use crate::primitives::Epoch;
use crate::types::Validator;

verus! {

/// The number of validators that may enter or leave in one epoch.
pub open spec fn spec_churn_limit(s: BeaconStateView, config: Config) -> u64 {
    let active = spec_active_indices(s.validators, spec_current_epoch(s, config)).len();
    let share = active / (config.churn_limit_quotient as nat);
    if share < config.min_per_epoch_churn_limit {
        config.min_per_epoch_churn_limit
    } else {
        share as u64
    }
}

/// The number of validators that may enter or leave in one epoch.
pub fn get_validator_churn_limit(state: &BeaconState, config: &Config) -> (limit: u64)
    requires
        config.wf(),
    ensures
        limit == spec_churn_limit(state@, *config),
{
    let current = get_current_epoch(state, config);
    let active = get_active_validator_indices(state, current);
    let share = active.len() as u64 / config.churn_limit_quotient;
    if share < config.min_per_epoch_churn_limit {
        config.min_per_epoch_churn_limit
    } else {
        share
    }
}

/// The first epoch in which a change that is decided in `epoch` can take effect.
pub open spec fn spec_activation_exit_epoch(epoch: Epoch, config: Config) -> Epoch {
    sat_add(sat_add(epoch, 1), config.max_seed_lookahead)
}

/// The first epoch in which a change that is decided in `epoch` can take effect.
pub fn compute_activation_exit_epoch(epoch: Epoch, config: &Config) -> (r: Epoch)
    ensures
        r == spec_activation_exit_epoch(epoch, *config),
        r >= epoch,
{
    epoch.saturating_add(1).saturating_add(config.max_seed_lookahead)
}

/// The latest exit epoch that is scheduled among the first `n` validators, and at least
/// `floor`.
pub open spec fn exit_queue_epoch(validators: Seq<Validator>, n: nat, floor: Epoch) -> Epoch
    decreases n,
{
    if n == 0 {
        floor
    } else {
        let before = exit_queue_epoch(validators, (n - 1) as nat, floor);
        let e = validators[n - 1].exit_epoch;
        if e != FAR_FUTURE_EPOCH && e > before {
            e
        } else {
            before
        }
    }
}

/// The number of the first `n` validators that leave in `epoch`.
pub open spec fn exit_churn(validators: Seq<Validator>, epoch: Epoch, n: nat) -> nat
    decreases n,
{
    if n == 0 {
        0
    } else {
        exit_churn(validators, epoch, (n - 1) as nat) + if validators[n - 1].exit_epoch == epoch {
            1nat
        } else {
            0nat
        }
    }
}

/// The epoch in which the next validator to leave does so: the last one of the queue, or
/// the one after it where the queue's last epoch is full.
pub open spec fn spec_exit_epoch(s: BeaconStateView, config: Config) -> Epoch {
    let floor = spec_activation_exit_epoch(spec_current_epoch(s, config), config);
    let queue = exit_queue_epoch(s.validators, s.validators.len(), floor);
    if exit_churn(s.validators, queue, s.validators.len()) >= spec_churn_limit(s, config) {
        sat_add(queue, 1)
    } else {
        queue
    }
}

/// A validator begins to leave: it gets the next exit epoch of the queue and can withdraw
/// the least delay after it. One that is leaving already is left as it is.
pub open spec fn spec_initiate_validator_exit(
    s: BeaconStateView,
    index: int,
    config: Config,
) -> BeaconStateView {
    let v = s.validators[index];
    if v.exit_epoch != FAR_FUTURE_EPOCH {
        s
    } else {
        let exit_epoch = spec_exit_epoch(s, config);
        BeaconStateView {
            validators: s.validators.update(
                index,
                Validator {
                    exit_epoch,
                    withdrawable_epoch: sat_add(
                        exit_epoch,
                        config.min_validator_withdrawability_delay,
                    ),
                    ..v
                },
            ),
            ..s
        }
    }
}

proof fn lemma_exit_queue_floor(validators: Seq<Validator>, n: nat, floor: Epoch)
    ensures
        exit_queue_epoch(validators, n, floor) >= floor,
    decreases n,
{
    if n > 0 {
        lemma_exit_queue_floor(validators, (n - 1) as nat, floor);
    }
}

proof fn lemma_exit_churn_bound(validators: Seq<Validator>, epoch: Epoch, n: nat)
    ensures
        exit_churn(validators, epoch, n) <= n,
    decreases n,
{
    if n > 0 {
        lemma_exit_churn_bound(validators, epoch, (n - 1) as nat);
    }
}

/// The exit epoch of the queue lies after the state's own epoch.
pub proof fn lemma_exit_epoch_later(s: BeaconStateView, config: Config)
    ensures
        spec_exit_epoch(s, config) >= spec_current_epoch(s, config),
{
    let floor = spec_activation_exit_epoch(spec_current_epoch(s, config), config);
    lemma_exit_queue_floor(s.validators, s.validators.len(), floor);
}

/// Lets a validator begin to leave; one that is leaving already is left as it is.
pub fn initiate_validator_exit(state: &mut BeaconState, index: usize, config: &Config)
    requires
        config.wf(),
        sizes_ok(old(state)@, *config),
        index < old(state)@.validators.len(),
    ensures
        final(state)@ == spec_initiate_validator_exit(old(state)@, index as int, *config),
{
    if state.validators[index].exit_epoch != FAR_FUTURE_EPOCH {
        return ;
    }
    let current = get_current_epoch(state, config);
    let floor = compute_activation_exit_epoch(current, config);
    let n = state.validators.len();
    let mut queue = floor;
    let mut i: usize = 0;
    while i < n
        invariant
            n == state@.validators.len(),
            i <= n,
            queue == exit_queue_epoch(state@.validators, i as nat, floor),
        decreases n - i,
    {
        let e = state.validators[i].exit_epoch;
        if e != FAR_FUTURE_EPOCH && e > queue {
            queue = e;
        }
        i += 1;
    }
    let mut churn: u64 = 0;
    let mut i: usize = 0;
    while i < n
        invariant
            n == state@.validators.len(),
            n <= 0x100_0000_0000,
            i <= n,
            churn == exit_churn(state@.validators, queue, i as nat),
            churn <= i,
        decreases n - i,
    {
        if state.validators[i].exit_epoch == queue {
            churn = churn + 1;
        }
        i += 1;
    }
    let limit = get_validator_churn_limit(state, config);
    if churn >= limit {
        queue = queue.saturating_add(1);
    }
    let mut v = state.validators[index];
    v.exit_epoch = queue;
    v.withdrawable_epoch = queue.saturating_add(config.min_validator_withdrawability_delay);
    state.validators.set(index, v);
}

/// A validator that has its full stake and has not been in the queue yet.
pub open spec fn spec_eligible_for_queue(v: Validator, config: Config) -> bool {
    v.activation_eligibility_epoch == FAR_FUTURE_EPOCH && v.effective_balance
        == config.max_effective_balance
}

/// What the end of an epoch does to one validator before activations: one that has its
/// full stake enters the queue for activation, and an active one whose effective balance
/// has sunk to the ejection balance begins to leave.
pub open spec fn spec_sweep_one(s: BeaconStateView, i: int, config: Config) -> BeaconStateView {
    let v = s.validators[i];
    let current = spec_current_epoch(s, config);
    let queued = if spec_eligible_for_queue(v, config) {
        BeaconStateView {
            validators: s.validators.update(
                i,
                Validator { activation_eligibility_epoch: sat_add(current, 1), ..v },
            ),
            ..s
        }
    } else {
        s
    };
    let w = queued.validators[i];
    if spec_is_active_validator(w, current) && w.effective_balance <= config.ejection_balance {
        spec_initiate_validator_exit(queued, i, config)
    } else {
        queued
    }
}

/// What the end of an epoch does to the first `n` validators before activations, one
/// validator after the other.
pub open spec fn spec_registry_sweep(s: BeaconStateView, config: Config, n: nat) -> BeaconStateView
    decreases n,
{
    if n == 0 {
        s
    } else {
        spec_sweep_one(spec_registry_sweep(s, config, (n - 1) as nat), n - 1, config)
    }
}

/// A validator that waits for activation and whose entry into the queue is finalized.
pub open spec fn spec_eligible_for_activation(s: BeaconStateView, v: Validator) -> bool {
    v.activation_eligibility_epoch <= s.finalized_checkpoint.epoch && v.activation_epoch
        == FAR_FUTURE_EPOCH
}

/// Validator `a` at `ai` stands before `b` at `bi` in the queue: it entered earlier, or in
/// the same epoch with the smaller index.
pub open spec fn queued_before(a: Validator, ai: int, b: Validator, bi: int) -> bool {
    a.activation_eligibility_epoch < b.activation_eligibility_epoch || (
    a.activation_eligibility_epoch == b.activation_eligibility_epoch && ai < bi)
}

/// The number of the first `n` validators that wait for activation and stand before
/// validator `i` in the queue.
pub open spec fn activation_rank(s: BeaconStateView, i: int, n: nat) -> nat
    decreases n,
{
    if n == 0 {
        0
    } else {
        activation_rank(s, i, (n - 1) as nat) + if spec_eligible_for_activation(
            s,
            s.validators[n - 1],
        ) && queued_before(s.validators[n - 1], n - 1, s.validators[i], i) {
            1nat
        } else {
            0nat
        }
    }
}

/// Whether validator `i` is activated at the end of this epoch: it waits for activation
/// and fewer validators than the churn limit stand before it in the queue.
pub open spec fn spec_is_activated(s: BeaconStateView, i: int, config: Config) -> bool {
    spec_eligible_for_activation(s, s.validators[i]) && activation_rank(
        s,
        i,
        s.validators.len(),
    ) < spec_churn_limit(s, config)
}

/// A validator after the activations of this epoch.
pub open spec fn spec_activated(s: BeaconStateView, i: int, config: Config) -> Validator {
    let v = s.validators[i];
    if spec_is_activated(s, i, config) {
        Validator {
            activation_epoch: spec_activation_exit_epoch(spec_current_epoch(s, config), config),
            ..v
        }
    } else {
        v
    }
}

/// The activations of an epoch: the first validators of the queue, as many as the churn
/// limit allows.
pub open spec fn spec_activations(s: BeaconStateView, config: Config) -> BeaconStateView {
    BeaconStateView {
        validators: Seq::new(s.validators.len(), |i: int| spec_activated(s, i, config)),
        ..s
    }
}

/// The registry updates of an epoch: entries into the queue and ejections first, then
/// activations.
pub open spec fn spec_registry_updates(s: BeaconStateView, config: Config) -> BeaconStateView {
    spec_activations(spec_registry_sweep(s, config, s.validators.len()), config)
}

/// The sweep changes validators only, and leaves the state valid.
pub proof fn lemma_sweep_keeps_wf(s: BeaconStateView, config: Config, n: nat)
    requires
        config.wf(),
        wf_core(s, config),
        n <= s.validators.len(),
    ensures
        wf_core(spec_registry_sweep(s, config, n), config),
        spec_registry_sweep(s, config, n) == (BeaconStateView {
            validators: spec_registry_sweep(s, config, n).validators,
            ..s
        }),
        spec_registry_sweep(s, config, n).validators.len() == s.validators.len(),
    decreases n,
{
    if n > 0 {
        let before = spec_registry_sweep(s, config, (n - 1) as nat);
        lemma_sweep_keeps_wf(s, config, (n - 1) as nat);
        lemma_sweep_one_keeps_wf(before, n - 1, config);
    }
}

/// One step of the sweep changes validators only, and leaves the state valid.
pub proof fn lemma_sweep_one_keeps_wf(s: BeaconStateView, i: int, config: Config)
    requires
        config.wf(),
        wf_core(s, config),
        0 <= i < s.validators.len(),
    ensures
        wf_core(spec_sweep_one(s, i, config), config),
        spec_sweep_one(s, i, config) == (BeaconStateView {
            validators: spec_sweep_one(s, i, config).validators,
            ..s
        }),
        spec_sweep_one(s, i, config).validators.len() == s.validators.len(),
{
    let v = s.validators[i];
    let current = spec_current_epoch(s, config);
    assert(v.lifecycle_ordered());
    let queued = if spec_eligible_for_queue(v, config) {
        BeaconStateView {
            validators: s.validators.update(
                i,
                Validator { activation_eligibility_epoch: sat_add(current, 1), ..v },
            ),
            ..s
        }
    } else {
        s
    };
    assert(registry_ordered(queued.validators)) by {
        assert forall|k: int| 0 <= k < queued.validators.len() implies (
        #[trigger] queued.validators[k]).lifecycle_ordered() by {
            assert(s.validators[k].lifecycle_ordered());
        }
    }
    lemma_exit_epoch_later(queued, config);
    let after = spec_sweep_one(s, i, config);
    assert(registry_ordered(after.validators)) by {
        assert forall|k: int| 0 <= k < after.validators.len() implies (
        #[trigger] after.validators[k]).lifecycle_ordered() by {
            assert(queued.validators[k].lifecycle_ordered());
        }
    }
}

/// Activations change validators only, and leave the state valid.
pub proof fn lemma_activations_keep_wf(s: BeaconStateView, config: Config)
    requires
        config.wf(),
        wf_core(s, config),
    ensures
        wf_core(spec_activations(s, config), config),
        spec_activations(s, config).validators.len() == s.validators.len(),
{
    let after = spec_activations(s, config);
    assert forall|k: int| 0 <= k < after.validators.len() implies (
    #[trigger] after.validators[k]).lifecycle_ordered() by {
        assert(s.validators[k].lifecycle_ordered());
    }
}

/// The registry updates leave a valid state valid.
pub proof fn lemma_registry_keeps_wf(s: BeaconStateView, config: Config)
    requires
        config.wf(),
        wf_core(s, config),
    ensures
        wf_core(spec_registry_updates(s, config), config),
        spec_registry_updates(s, config).validators.len() == s.validators.len(),
        spec_registry_updates(s, config).slot == s.slot,
{
    lemma_sweep_keeps_wf(s, config, s.validators.len());
    lemma_activations_keep_wf(spec_registry_sweep(s, config, s.validators.len()), config);
}

/// The registry updates of an epoch: entries into the queue, ejections, activations.
pub fn process_registry_updates(state: &mut BeaconState, config: &Config)
    requires
        config.wf(),
        wf_core(old(state)@, *config),
    ensures
        final(state)@ == spec_registry_updates(old(state)@, *config),
{
    let n = state.validators.len();
    let current = get_current_epoch(state, config);
    let mut i: usize = 0;
    while i < n
        invariant
            config.wf(),
            wf_core(old(state)@, *config),
            n == old(state)@.validators.len(),
            i <= n,
            current == spec_current_epoch(old(state)@, *config),
            state@ == spec_registry_sweep(old(state)@, *config, i as nat),
        decreases n - i,
    {
        proof {
            lemma_sweep_keeps_wf(old(state)@, *config, i as nat);
        }
        let mut v = state.validators[i];
        if v.activation_eligibility_epoch == FAR_FUTURE_EPOCH && v.effective_balance
            == config.max_effective_balance {
            v.activation_eligibility_epoch = current.saturating_add(1);
            state.validators.set(i, v);
        }
        if v.activation_epoch <= current && current < v.exit_epoch && v.effective_balance
            <= config.ejection_balance {
            initiate_validator_exit(state, i, config);
        }
        i += 1;
    }
    proof {
        lemma_sweep_keeps_wf(old(state)@, *config, n as nat);
    }
    let ghost swept = state@;
    let limit = get_validator_churn_limit(state, config);
    let finalized = state.finalized_checkpoint.epoch;
    let mut chosen: Vec<bool> = filled(n, false);
    let mut i: usize = 0;
    while i < n
        invariant
            state@ == swept,
            n == swept.validators.len(),
            n <= 0x100_0000_0000,
            limit == spec_churn_limit(swept, *config),
            finalized == swept.finalized_checkpoint.epoch,
            i <= n,
            chosen@.len() == n,
            forall|k: int| 0 <= k < i ==> chosen@[k] == spec_is_activated(swept, k, *config),
            forall|k: int| i <= k < n ==> !chosen@[k],
        decreases n - i,
    {
        let v = state.validators[i];
        if v.activation_eligibility_epoch <= finalized && v.activation_epoch == FAR_FUTURE_EPOCH {
            let mut rank: u64 = 0;
            let mut j: usize = 0;
            while j < n
                invariant
                    state@ == swept,
                    n == swept.validators.len(),
                    n <= 0x100_0000_0000,
                    finalized == swept.finalized_checkpoint.epoch,
                    i < n,
                    j <= n,
                    v == swept.validators[i as int],
                    rank == activation_rank(swept, i as int, j as nat),
                    rank <= j,
                decreases n - j,
            {
                let w = state.validators[j];
                if w.activation_eligibility_epoch <= finalized && w.activation_epoch
                    == FAR_FUTURE_EPOCH && (w.activation_eligibility_epoch
                    < v.activation_eligibility_epoch || (w.activation_eligibility_epoch
                    == v.activation_eligibility_epoch && j < i)) {
                    rank = rank + 1;
                }
                j += 1;
            }
            chosen.set(i, rank < limit);
        }
        i += 1;
    }
    let epoch = compute_activation_exit_epoch(current, config);
    let mut i: usize = 0;
    while i < n
        invariant
            n == swept.validators.len(),
            chosen@.len() == n,
            i <= n,
            epoch == spec_activation_exit_epoch(spec_current_epoch(swept, *config), *config),
            forall|k: int| 0 <= k < n ==> chosen@[k] == spec_is_activated(swept, k, *config),
            state@ == (BeaconStateView { validators: state@.validators, ..swept }),
            state@.validators.len() == n,
            forall|k: int| 0 <= k < i ==> state@.validators[k] == spec_activated(swept, k, *config),
            forall|k: int| i <= k < n ==> state@.validators[k] == swept.validators[k],
        decreases n - i,
    {
        if chosen[i] {
            let mut v = state.validators[i];
            v.activation_epoch = epoch;
            state.validators.set(i, v);
        }
        i += 1;
    }
    assert(state@.validators =~= spec_activations(swept, *config).validators);
}

} // verus!
