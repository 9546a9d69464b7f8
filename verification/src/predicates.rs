//! Checks on validators and attestations.

use vstd::prelude::*;
use crate::accessors::{get_domain, spec_get_domain, spec_is_active_validator};
use crate::beacon_state::{BeaconState, BeaconStateView};
use crate::config::Config;
use crate::crypto::{
    bls_aggregate_pubkeys, bls_pubkey_decodes, bls_signature_decodes, bls_verifies, bls_verify,
    spec_aggregate_pubkeys,
};
use crate::error::Error;
use crate::merkle::TreeHash;
use crate::primitives::{Epoch, PublicKeyBytes, SignatureBytes, ValidatorIndex};
use crate::types::{AttestationData, IndexedAttestation, Validator};

verus! {

/// A validator can be slashed in an epoch if it has not been slashed yet, has been
/// activated, and cannot withdraw yet.
pub open spec fn spec_is_slashable_validator(validator: Validator, epoch: Epoch) -> bool {
    !validator.slashed && validator.activation_epoch <= epoch && epoch
        < validator.withdrawable_epoch
}

/// Whether a validator can be slashed in an epoch.
pub fn is_slashable_validator(validator: &Validator, epoch: Epoch) -> (r: bool)
    ensures
        r == spec_is_slashable_validator(*validator, epoch),
{
    !validator.slashed && validator.activation_epoch <= epoch && epoch
        < validator.withdrawable_epoch
}

/// Whether a validator is active in an epoch.
pub fn is_active_validator(validator: &Validator, epoch: Epoch) -> (r: bool)
    ensures
        r == spec_is_active_validator(*validator, epoch),
{
    validator.activation_epoch <= epoch && epoch < validator.exit_epoch
}

/// Two votes for different data with one target epoch.
pub open spec fn spec_is_double_vote(data_1: AttestationData, data_2: AttestationData) -> bool {
    data_1 != data_2 && data_1.target.epoch == data_2.target.epoch
}

/// The first vote's span from source to target lies strictly round the second's.
pub open spec fn spec_is_surround_vote(data_1: AttestationData, data_2: AttestationData) -> bool {
    data_1.source.epoch < data_2.source.epoch && data_2.target.epoch < data_1.target.epoch
}

/// Two attestations contradict each other: a double vote or a surround vote.
pub open spec fn spec_is_slashable_attestation_data(
    data_1: AttestationData,
    data_2: AttestationData,
) -> bool {
    spec_is_double_vote(data_1, data_2) || spec_is_surround_vote(data_1, data_2)
}

/// Whether two attestations contradict each other: a double vote or a surround vote.
pub fn is_slashable_attestation_data(data_1: &AttestationData, data_2: &AttestationData) -> (r:
    bool)
    ensures
        r == spec_is_slashable_attestation_data(*data_1, *data_2),
{
    (data_1 != data_2 && data_1.target.epoch == data_2.target.epoch) || (data_1.source.epoch
        < data_2.source.epoch && data_2.target.epoch < data_1.target.epoch)
}

/// The offence that two attestations are: a double vote, or a surround vote where they are
/// no double vote; nothing where they do not contradict each other.
pub open spec fn spec_slashing_offence(data_1: AttestationData, data_2: AttestationData) -> Option<
    Error,
> {
    if spec_is_double_vote(data_1, data_2) {
        Some(Error::DoubleVote)
    } else if spec_is_surround_vote(data_1, data_2) {
        Some(Error::SurroundVote)
    } else {
        None
    }
}

/// Names the offence that two attestations are, if they are one.
pub fn slashing_offence(data_1: &AttestationData, data_2: &AttestationData) -> (r: Option<Error>)
    ensures
        r == spec_slashing_offence(*data_1, *data_2),
        r is Some == spec_is_slashable_attestation_data(*data_1, *data_2),
{
    if data_1 != data_2 && data_1.target.epoch == data_2.target.epoch {
        Some(Error::DoubleVote)
    } else if data_1.source.epoch < data_2.source.epoch && data_2.target.epoch
        < data_1.target.epoch {
        Some(Error::SurroundVote)
    } else {
        None
    }
}

/// Some validator is in both lists.
pub open spec fn lists_intersect(a: Seq<ValidatorIndex>, b: Seq<ValidatorIndex>) -> bool {
    exists|i: int, j: int| 0 <= i < a.len() && 0 <= j < b.len() && a[i] == b[j]
}

/// Each index is larger than all before it: the list is sorted and names nobody twice.
pub open spec fn strictly_ascending(a: Seq<ValidatorIndex>) -> bool {
    forall|i: int, j: int| 0 <= i < j < a.len() ==> a[i] < a[j]
}

/// Every index names a validator of a registry of `n`.
pub open spec fn all_known(a: Seq<ValidatorIndex>, n: nat) -> bool {
    forall|i: int| 0 <= i < a.len() ==> a[i] < n
}

/// The public keys of the listed validators, in the order of the list.
pub open spec fn pubkeys_of(validators: Seq<Validator>, indices: Seq<ValidatorIndex>) -> Seq<
    PublicKeyBytes,
> {
    Seq::new(indices.len(), |i: int| validators[indices[i] as int].pubkey)
}

/// What a check of a signature comes to: the signature verifies, or it does not, or a key
/// or the signature could not be decoded.
pub open spec fn spec_signature_outcome(checked: Result<bool, blst::BLST_ERROR>) -> Result<
    (),
    Error,
> {
    match checked {
        Ok(true) => Ok(()),
        Ok(false) => Err(Error::InvalidAttestationSignature),
        Err(_) => Err(Error::InvalidSignatureEncoding),
    }
}

/// What the check of an attestation's signature comes to.
pub fn signature_outcome(checked: &Result<bool, blst::BLST_ERROR>) -> (r: Result<(), Error>)
    ensures
        r == spec_signature_outcome(*checked),
{
    match checked {
        Ok(true) => Ok(()),
        Ok(false) => Err(Error::InvalidAttestationSignature),
        Err(_) => Err(Error::InvalidSignatureEncoding),
    }
}

/// Whether the aggregate signature of an indexed attestation holds: against the sum of the
/// listed validators' keys, the root of the attestation's data as the message, and the
/// attester domain of the target epoch.
pub open spec fn spec_attestation_signature(
    s: BeaconStateView,
    indices: Seq<ValidatorIndex>,
    data: AttestationData,
    signature: SignatureBytes,
    config: Config,
) -> Result<(), Error> {
    match spec_aggregate_pubkeys(pubkeys_of(s.validators, indices)) {
        None => Err(Error::InvalidSignatureEncoding),
        Some(key) => {
            let domain = spec_get_domain(
                s,
                config.domain_beacon_attester,
                Some(data.target.epoch),
                config,
            );
            if !(bls_pubkey_decodes(key) && bls_signature_decodes(signature@)) {
                Err(Error::InvalidSignatureEncoding)
            } else if bls_verifies(key, data.tree_root(config), signature@, domain@) {
                Ok(())
            } else {
                Err(Error::InvalidAttestationSignature)
            }
        },
    }
}

/// The rules of an indexed attestation, in the order in which they are checked; the first
/// that is broken names the failure.
pub open spec fn spec_indexed_outcome(
    s: BeaconStateView,
    bit_0: Seq<ValidatorIndex>,
    bit_1: Seq<ValidatorIndex>,
    data: AttestationData,
    signature: SignatureBytes,
    config: Config,
) -> Result<(), Error> {
    if bit_0.len() + bit_1.len() == 0 {
        Err(Error::EmptyIndices)
    } else if bit_0.len() + bit_1.len() > config.max_validators_per_committee {
        Err(Error::MaxIndicesExceeded)
    } else if lists_intersect(bit_0, bit_1) {
        Err(Error::CustodyBitValidatorsIntersect)
    } else if !(strictly_ascending(bit_0) && strictly_ascending(bit_1)) {
        Err(Error::BadValidatorIndicesOrdering)
    } else if !all_known(bit_0 + bit_1, s.validators.len()) {
        Err(Error::UnknownValidator)
    } else {
        spec_attestation_signature(s, bit_0 + bit_1, data, signature, config)
    }
}

/// What the check of an indexed attestation comes to.
pub open spec fn spec_indexed_attestation_outcome(
    s: BeaconStateView,
    attestation: IndexedAttestation,
    config: Config,
) -> Result<(), Error> {
    spec_indexed_outcome(
        s,
        attestation.custody_bit_0_indices@,
        attestation.custody_bit_1_indices@,
        attestation.data,
        attestation.signature,
        config,
    )
}

fn intersects(a: &Vec<ValidatorIndex>, b: &Vec<ValidatorIndex>) -> (r: bool)
    ensures
        r == lists_intersect(a@, b@),
{
    let mut i: usize = 0;
    while i < a.len()
        invariant
            i <= a@.len(),
            forall|p: int, q: int| 0 <= p < i && 0 <= q < b@.len() ==> a@[p] != b@[q],
        decreases a@.len() - i,
    {
        let mut j: usize = 0;
        while j < b.len()
            invariant
                i < a@.len(),
                j <= b@.len(),
                forall|q: int| 0 <= q < j ==> a@[i as int] != b@[q],
            decreases b@.len() - j,
        {
            if a[i] == b[j] {
                return true;
            }
            j += 1;
        }
        i += 1;
    }
    false
}

fn is_strictly_ascending(a: &Vec<ValidatorIndex>) -> (r: bool)
    ensures
        r == strictly_ascending(a@),
{
    if a.len() < 2 {
        return true;
    }
    let mut i: usize = 1;
    while i < a.len()
        invariant
            1 <= i <= a@.len(),
            forall|p: int, q: int| 0 <= p < q < i ==> a@[p] < a@[q],
        decreases a@.len() - i,
    {
        if a[i - 1] >= a[i] {
            return false;
        }
        assert forall|p: int, q: int| 0 <= p < q < i + 1 implies a@[p] < a@[q] by {
            if q == i && p < i - 1 {
                assert(a@[p] < a@[i - 1]);
            }
        }
        i += 1;
    }
    true
}

/// The public keys of the validators listed in `first` and then in `second`, or nothing
/// where one of them is not in the registry.
fn collect_pubkeys(
    state: &BeaconState,
    first: &Vec<ValidatorIndex>,
    second: &Vec<ValidatorIndex>,
) -> (r: Option<Vec<PublicKeyBytes>>)
    ensures
        match r {
            Some(keys) => all_known(first@ + second@, state@.validators.len()) && keys@
                == pubkeys_of(state@.validators, first@ + second@),
            None => !all_known(first@ + second@, state@.validators.len()),
        },
{
    let ghost all = first@ + second@;
    let mut keys: Vec<PublicKeyBytes> = Vec::new();
    let mut i: usize = 0;
    while i < first.len()
        invariant
            i <= first@.len(),
            all == first@ + second@,
            keys@.len() == i,
            forall|k: int| 0 <= k < i ==> all[k] < state@.validators.len(),
            forall|k: int| 0 <= k < i ==> keys@[k] == state@.validators[all[k] as int].pubkey,
        decreases first@.len() - i,
    {
        let index = first[i];
        if index >= state.validators.len() as u64 {
            assert(all[i as int] == index);
            return None;
        }
        keys.push(state.validators[index as usize].pubkey);
        i += 1;
    }
    let mut j: usize = 0;
    while j < second.len()
        invariant
            j <= second@.len(),
            all == first@ + second@,
            keys@.len() == first@.len() + j,
            forall|k: int| 0 <= k < first@.len() + j ==> all[k] < state@.validators.len(),
            forall|k: int|
                0 <= k < first@.len() + j ==> keys@[k] == state@.validators[all[k] as int].pubkey,
        decreases second@.len() - j,
    {
        let index = second[j];
        if index >= state.validators.len() as u64 {
            assert(all[first@.len() + j] == index);
            return None;
        }
        keys.push(state.validators[index as usize].pubkey);
        j += 1;
    }
    assert(keys@ =~= pubkeys_of(state@.validators, all));
    Some(keys)
}

/// Checks an indexed attestation against the state: that it lists somebody, no more than
/// a committee can hold, nobody under both custody bits, everybody in strictly ascending
/// order and from the registry, and that its aggregate signature verifies.
pub fn is_valid_indexed_attestation(
    state: &BeaconState,
    indexed_attestation: &IndexedAttestation,
    config: &Config,
) -> (r: Result<(), Error>)
    requires
        config.wf(),
    ensures
        r == spec_indexed_attestation_outcome(state@, *indexed_attestation, *config),
{
    let bit_0_indices = &indexed_attestation.custody_bit_0_indices;
    let bit_1_indices = &indexed_attestation.custody_bit_1_indices;
    let total = bit_0_indices.len() as u128 + bit_1_indices.len() as u128;
    if total == 0 {
        return Err(Error::EmptyIndices);
    }
    if total > config.max_validators_per_committee as u128 {
        return Err(Error::MaxIndicesExceeded);
    }
    if intersects(bit_0_indices, bit_1_indices) {
        return Err(Error::CustodyBitValidatorsIntersect);
    }
    if !(is_strictly_ascending(bit_0_indices) && is_strictly_ascending(bit_1_indices)) {
        return Err(Error::BadValidatorIndicesOrdering);
    }
    let keys = match collect_pubkeys(state, bit_0_indices, bit_1_indices) {
        Some(keys) => keys,
        None => {
            return Err(Error::UnknownValidator);
        },
    };
    let key = match bls_aggregate_pubkeys(&keys) {
        Ok(key) => key,
        Err(e) => {
            return Err(e);
        },
    };
    let domain = get_domain(
        state,
        config.domain_beacon_attester,
        Some(indexed_attestation.data.target.epoch),
        config,
    );
    let message = indexed_attestation.data.tree_hash_root(config);
    let checked = bls_verify(&key, message.0.as_slice(), &indexed_attestation.signature, domain);
    signature_outcome(&checked)
}

} // verus!
