//! The penalties of slashed validators at the end of an epoch.

use vstd::prelude::*;
use crate::accessors::{get_current_epoch, spec_current_epoch};
use crate::attesters::{get_total_active_balance, spec_total_active_balance};
use crate::beacon_state::{sizes_ok, wf_core, BeaconState, BeaconStateView};
use crate::config::Config;
use crate::math::{clamp_u64, sat_sub};
use crate::primitives::Epoch;
use crate::types::Validator;

verus! {

/// The sum of the first `n` entries of the record of slashed stake.
pub open spec fn slashings_sum(slashings: Seq<u64>, n: nat) -> nat
    decreases n,
{
    if n == 0 {
        0
    } else {
        slashings_sum(slashings, (n - 1) as nat) + slashings[n - 1] as nat
    }
}

/// The stake that counts as slashed of late: three times the recorded sum, and at most the
/// whole active stake.
pub open spec fn spec_adjusted_slashings(s: BeaconStateView, config: Config) -> u64 {
    let total = spec_total_active_balance(s, config);
    let sum = slashings_sum(s.slashings, s.slashings.len());
    if sum * 3 < total {
        (sum * 3) as u64
    } else {
        total
    }
}

/// The penalty of a slashed validator: its effective balance, in increments, times the
/// share of the active stake that was slashed of late.
pub open spec fn spec_slashing_penalty(s: BeaconStateView, i: int, config: Config) -> u64 {
    let total = spec_total_active_balance(s, config);
    let increment = config.effective_balance_increment;
    clamp_u64(
        (s.validators[i].effective_balance / increment) * spec_adjusted_slashings(s, config)
            / (total as int) * increment,
    )
}

/// A slashed validator pays its penalty halfway between its slashing and the epoch in
/// which it can withdraw.
pub open spec fn spec_slashing_due(v: Validator, current: Epoch, config: Config) -> bool {
    v.slashed && current + config.epochs_per_slashings_vector / 2 == v.withdrawable_epoch
}

/// The balance of a validator after the slashings of an epoch.
pub open spec fn spec_slashed_balance(s: BeaconStateView, i: int, config: Config) -> u64 {
    if spec_slashing_due(s.validators[i], spec_current_epoch(s, config), config) {
        sat_sub(s.balances[i], spec_slashing_penalty(s, i, config))
    } else {
        s.balances[i]
    }
}

/// The slashings of an epoch: every validator whose penalty is due pays it.
pub open spec fn spec_slashings(s: BeaconStateView, config: Config) -> BeaconStateView {
    BeaconStateView {
        balances: Seq::new(s.validators.len(), |i: int| spec_slashed_balance(s, i, config)),
        ..s
    }
}

/// Lets every slashed validator whose penalty is due pay it.
pub fn process_slashings(state: &mut BeaconState, config: &Config)
    requires
        config.wf(),
        sizes_ok(old(state)@, *config),
    ensures
        final(state)@ == spec_slashings(old(state)@, *config),
{
    let ghost s = state@;
    let current = get_current_epoch(state, config);
    let total = get_total_active_balance(state, config);
    let mut sum: u128 = 0;
    let mut k: usize = 0;
    while k < state.slashings.len()
        invariant
            state@ == s,
            s.slashings.len() <= 0x10_0000,
            k <= s.slashings.len(),
            sum == slashings_sum(s.slashings, k as nat),
            sum <= k * 0xffff_ffff_ffff_ffff,
        decreases s.slashings.len() - k,
    {
        sum = sum + state.slashings[k] as u128;
        k += 1;
    }
    let adjusted: u64 = if sum * 3 < total as u128 {
        (sum * 3) as u64
    } else {
        total
    };
    let increment = config.effective_balance_increment;
    let half = config.epochs_per_slashings_vector / 2;
    let n = state.validators.len();
    let mut out: Vec<u64> = Vec::new();
    let mut i: usize = 0;
    while i < n
        invariant
            config.wf(),
            state@ == s,
            n == s.validators.len(),
            s.balances.len() == n,
            current == spec_current_epoch(s, *config),
            total == spec_total_active_balance(s, *config),
            total >= 1,
            adjusted == spec_adjusted_slashings(s, *config),
            adjusted <= total,
            increment == config.effective_balance_increment,
            half == config.epochs_per_slashings_vector / 2,
            i <= n,
            out@.len() == i,
            forall|t: int| 0 <= t < i ==> out@[t] == spec_slashed_balance(s, t, *config),
        decreases n - i,
    {
        let v = &state.validators[i];
        let balance = state.balances[i];
        if v.slashed && current as u128 + half as u128 == v.withdrawable_epoch as u128 {
            let units = (v.effective_balance / increment) as u128;
            let wide = adjusted as u128;
            let whole = total as u128;
            assert(units * wide <= 0xffff_ffff_ffff_ffff * 0xffff_ffff_ffff_ffff)
                by (nonlinear_arith)
                requires
                    0 <= units <= 0xffff_ffff_ffff_ffff,
                    0 <= wide <= 0xffff_ffff_ffff_ffff,
            ;
            assert(units * wide / (whole as int) <= units) by (nonlinear_arith)
                requires
                    0 <= units,
                    0 <= wide <= whole,
                    whole >= 1,
            ;
            let share = units * wide / whole;
            let step = increment as u128;
            assert(share * step <= 0xffff_ffff_ffff_ffff * 0x1_0000_0000_0000) by (nonlinear_arith)
                requires
                    0 <= share <= 0xffff_ffff_ffff_ffff,
                    0 <= step <= 0x1_0000_0000_0000,
            ;
            let raw = share * step;
            let penalty = if raw > u64::MAX as u128 {
                u64::MAX
            } else {
                raw as u64
            };
            out.push(balance.saturating_sub(penalty));
        } else {
            out.push(balance);
        }
        i += 1;
    }
    assert(out@ =~= spec_slashings(s, *config).balances);
    state.balances = out;
}

/// Slashings change balances only, and leave the state valid.
pub proof fn lemma_slashings_keep_wf(s: BeaconStateView, config: Config)
    requires
        config.wf(),
        wf_core(s, config),
    ensures
        wf_core(spec_slashings(s, config), config),
        spec_slashings(s, config).slot == s.slot,
{
}

} // verus!
