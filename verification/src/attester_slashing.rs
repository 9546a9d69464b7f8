//! The attester slashings of a block.

use vstd::prelude::*;
use crate::accessors::{get_current_epoch, spec_current_epoch};
use crate::beacon_state::{block_frame, wf_core, BeaconState, BeaconStateView};
use crate::block_processing::{outcome_is, Error};
use crate::config::Config;
use crate::math::filled;
use crate::penalties::{lemma_slash_keeps_wf, slash_validator, spec_slash_validator};
use crate::predicates::{
    is_slashable_attestation_data, is_slashable_validator, is_valid_indexed_attestation,
    spec_indexed_attestation_outcome, spec_is_slashable_attestation_data,
    spec_is_slashable_validator,
};
use crate::primitives::ValidatorIndex;
use crate::types::{AttesterSlashing, IndexedAttestation};

verus! {

/// The validator stands at place `q` of the list.
pub open spec fn listed_at(list: Seq<ValidatorIndex>, i: ValidatorIndex, q: int) -> bool {
    0 <= q < list.len() && list[q] == i
}

/// The validator is among the first `n` of the list.
pub open spec fn listed_upto(list: Seq<ValidatorIndex>, i: ValidatorIndex, n: int) -> bool {
    exists|q: int| 0 <= q < n && #[trigger] listed_at(list, i, q)
}

/// The validator is in the list.
pub open spec fn listed(list: Seq<ValidatorIndex>, i: ValidatorIndex) -> bool {
    listed_upto(list, i, list.len() as int)
}

/// The validator took part in the attestation, under either custody bit.
pub open spec fn attested(a: IndexedAttestation, i: ValidatorIndex) -> bool {
    listed(a.custody_bit_0_indices@, i) || listed(a.custody_bit_1_indices@, i)
}

/// For each validator of a registry of `n`, whether it is in the list.
fn membership(list: &Vec<ValidatorIndex>, n: usize) -> (flags: Vec<bool>)
    ensures
        flags@.len() == n,
        forall|i: int| 0 <= i < n ==> flags@[i] == listed(list@, i as u64),
{
    let mut flags = filled(n, false);
    let mut q: usize = 0;
    while q < list.len()
        invariant
            q <= list@.len(),
            flags@.len() == n,
            forall|i: int| 0 <= i < n ==> flags@[i] == listed_upto(list@, i as u64, q as int),
        decreases list@.len() - q,
    {
        let x = list[q];
        if x < n as u64 {
            flags.set(x as usize, true);
        }
        assert(listed_at(list@, x, q as int));
        assert forall|i: int| 0 <= i < n implies flags@[i] == listed_upto(
            list@,
            i as u64,
            q as int + 1,
        ) by {
            if listed_upto(list@, i as u64, q as int + 1) {
                let w = choose|w: int| 0 <= w < q + 1 && #[trigger] listed_at(list@, i as u64, w);
                if w < q {
                    assert(listed_upto(list@, i as u64, q as int));
                }
            }
            if listed_upto(list@, i as u64, q as int) {
                let w = choose|w: int| 0 <= w < q && #[trigger] listed_at(list@, i as u64, w);
                assert(listed_at(list@, i as u64, w));
            }
        }
        q += 1;
    }
    flags
}

/// What an attester slashing does to the first `n` validators, in the order of their
/// indices: each that took part in both attestations and can be slashed is slashed. The
/// truth value tells whether anybody was.
pub open spec fn spec_slash_common(
    s: BeaconStateView,
    first: IndexedAttestation,
    second: IndexedAttestation,
    n: nat,
    config: Config,
) -> Result<(BeaconStateView, bool), Error>
    decreases n,
{
    if n == 0 {
        Ok((s, false))
    } else {
        match spec_slash_common(s, first, second, (n - 1) as nat, config) {
            Err(e) => Err(e),
            Ok((before, any)) => {
                let i = n - 1;
                if attested(first, i as u64) && attested(second, i as u64) && i
                    < before.validators.len() && spec_is_slashable_validator(
                    before.validators[i],
                    spec_current_epoch(before, config),
                ) {
                    match spec_slash_validator(before, i, config) {
                        Ok(after) => Ok((after, true)),
                        Err(e) => Err(e),
                    }
                } else {
                    Ok((before, any))
                }
            },
        }
    }
}

/// An attester slashing is accepted where its two attestations contradict each other, both
/// are valid, and somebody who took part in both can be slashed. Everybody who took part
/// in both and can be slashed is then slashed.
pub open spec fn spec_process_attester_slashing(
    s: BeaconStateView,
    slashing: AttesterSlashing,
    config: Config,
) -> Result<BeaconStateView, Error> {
    let first = slashing.attestation_1;
    let second = slashing.attestation_2;
    if !spec_is_slashable_attestation_data(first.data, second.data) {
        Err(Error::AttestationsNotSlashable)
    } else {
        match spec_indexed_attestation_outcome(s, first, config) {
            Err(e) => Err(Error::InvalidIndexedAttestation(e)),
            Ok(_) => match spec_indexed_attestation_outcome(s, second, config) {
                Err(e) => Err(Error::InvalidIndexedAttestation(e)),
                Ok(_) => match spec_slash_common(s, first, second, s.validators.len(), config) {
                    Err(e) => Err(e),
                    Ok((after, any)) => if any {
                        Ok(after)
                    } else {
                        Err(Error::NobodySlashed)
                    },
                },
            },
        }
    }
}

/// The slashing of the common attesters leaves a valid state valid.
pub proof fn lemma_slash_common_keeps_wf(
    s: BeaconStateView,
    first: IndexedAttestation,
    second: IndexedAttestation,
    n: nat,
    config: Config,
)
    requires
        config.wf(),
        wf_core(s, config),
    ensures
        spec_slash_common(s, first, second, n, config) matches Ok(found) ==> wf_core(
            found.0,
            config,
        ) && block_frame(s, found.0) && found.0.validators.len() == s.validators.len(),
    decreases n,
{
    if n > 0 {
        lemma_slash_common_keeps_wf(s, first, second, (n - 1) as nat, config);
        match spec_slash_common(s, first, second, (n - 1) as nat, config) {
            Err(e) => {},
            Ok((before, any)) => {
                let i = n - 1;
                if attested(first, i as u64) && attested(second, i as u64) && i
                    < before.validators.len() && spec_is_slashable_validator(
                    before.validators[i],
                    spec_current_epoch(before, config),
                ) {
                    lemma_slash_keeps_wf(before, i, config);
                }
            },
        }
    }
}

/// An attester slashing leaves a valid state valid.
pub proof fn lemma_attester_slashing_keeps_wf(
    s: BeaconStateView,
    slashing: AttesterSlashing,
    config: Config,
)
    requires
        config.wf(),
        wf_core(s, config),
    ensures
        spec_process_attester_slashing(s, slashing, config) matches Ok(after) ==> wf_core(
            after,
            config,
        ) && block_frame(s, after) && after.validators.len() == s.validators.len(),
{
    lemma_slash_common_keeps_wf(
        s,
        slashing.attestation_1,
        slashing.attestation_2,
        s.validators.len(),
        config,
    );
}

/// Checks an attester slashing and slashes everybody who took part in both of its
/// attestations and can be slashed.
pub fn process_attester_slashing(
    state: &mut BeaconState,
    slashing: &AttesterSlashing,
    config: &Config,
) -> (r: Result<(), Error>)
    requires
        config.wf(),
        wf_core(old(state)@, *config),
    ensures
        outcome_is(
            r,
            final(state)@,
            spec_process_attester_slashing(old(state)@, *slashing, *config),
        ),
{
    let first = &slashing.attestation_1;
    let second = &slashing.attestation_2;
    if !is_slashable_attestation_data(&first.data, &second.data) {
        return Err(Error::AttestationsNotSlashable);
    }
    match is_valid_indexed_attestation(state, first, config) {
        Err(e) => {
            return Err(Error::InvalidIndexedAttestation(e));
        },
        Ok(_) => {},
    }
    match is_valid_indexed_attestation(state, second, config) {
        Err(e) => {
            return Err(Error::InvalidIndexedAttestation(e));
        },
        Ok(_) => {},
    }
    let n = state.validators.len();
    let first_0 = membership(&first.custody_bit_0_indices, n);
    let first_1 = membership(&first.custody_bit_1_indices, n);
    let second_0 = membership(&second.custody_bit_0_indices, n);
    let second_1 = membership(&second.custody_bit_1_indices, n);
    let mut any = false;
    let mut i: usize = 0;
    while i < n
        invariant
            config.wf(),
            wf_core(old(state)@, *config),
            n == old(state)@.validators.len(),
            i <= n,
            *first == slashing.attestation_1,
            *second == slashing.attestation_2,
            spec_is_slashable_attestation_data(first.data, second.data),
            spec_indexed_attestation_outcome(old(state)@, *first, *config) is Ok,
            spec_indexed_attestation_outcome(old(state)@, *second, *config) is Ok,
            first_0@.len() == n,
            first_1@.len() == n,
            second_0@.len() == n,
            second_1@.len() == n,
            forall|k: int|
                0 <= k < n ==> first_0@[k] == listed(first.custody_bit_0_indices@, k as u64),
            forall|k: int|
                0 <= k < n ==> first_1@[k] == listed(first.custody_bit_1_indices@, k as u64),
            forall|k: int|
                0 <= k < n ==> second_0@[k] == listed(second.custody_bit_0_indices@, k as u64),
            forall|k: int|
                0 <= k < n ==> second_1@[k] == listed(second.custody_bit_1_indices@, k as u64),
            spec_slash_common(old(state)@, *first, *second, i as nat, *config) == Ok::<
                (BeaconStateView, bool),
                Error,
            >((state@, any)),
        decreases n - i,
    {
        proof {
            lemma_slash_common_keeps_wf(old(state)@, *first, *second, i as nat, *config);
        }
        let ghost before = state@;
        let ghost any_before = any;
        if (first_0[i] || first_1[i]) && (second_0[i] || second_1[i]) {
            let v = state.validators[i];
            if is_slashable_validator(&v, get_current_epoch(state, config)) {
                match slash_validator(state, i, config) {
                    Err(e) => {
                        proof {
                            assert(spec_slash_common(
                                old(state)@,
                                *first,
                                *second,
                                i as nat,
                                *config,
                            ) == Ok::<(BeaconStateView, bool), Error>((before, any_before)));
                            assert(spec_slash_validator(before, i as int, *config) == Err::<
                                BeaconStateView,
                                Error,
                            >(e));
                            assert(spec_slash_common(
                                old(state)@,
                                *first,
                                *second,
                                (i + 1) as nat,
                                *config,
                            ) == Err::<(BeaconStateView, bool), Error>(e));
                            lemma_slash_common_fails(
                                old(state)@,
                                *first,
                                *second,
                                (i + 1) as nat,
                                n as nat,
                                *config,
                            );
                        }
                        return Err(e);
                    },
                    Ok(_) => {
                        any = true;
                    },
                }
            }
        }
        i += 1;
    }
    if any {
        Ok(())
    } else {
        Err(Error::NobodySlashed)
    }
}

/// Once the slashing of the common attesters has failed, it stays failed.
proof fn lemma_slash_common_fails(
    s: BeaconStateView,
    first: IndexedAttestation,
    second: IndexedAttestation,
    k: nat,
    n: nat,
    config: Config,
)
    requires
        k <= n,
        spec_slash_common(s, first, second, k, config) is Err,
    ensures
        spec_slash_common(s, first, second, n, config) == spec_slash_common(
            s,
            first,
            second,
            k,
            config,
        ),
    decreases n - k,
{
    if k < n {
        lemma_slash_common_fails(s, first, second, k, (n - 1) as nat, config);
    }
}

} // verus!
