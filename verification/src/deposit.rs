//! The deposits of a block.

use vstd::prelude::*;
use crate::accessors::{
    compute_domain, compute_signing_root, spec_compute_domain, spec_signing_root,
};
use crate::beacon_state::{block_frame, sizes_ok, wf_core, BeaconState, BeaconStateView};
use crate::block_processing::{is_signed, outcome_is, spec_signed, Error};
use crate::config::{Config, FAR_FUTURE_EPOCH};
use crate::crypto::{hash, sha256};
use crate::merkle::{append, TreeHash};
use crate::penalties::{increase_balance, spec_increase_balance};
use crate::primitives::{lemma_h256_ext, Domain, H256, PublicKeyBytes};
use crate::types::{Deposit, DepositData, DepositMessage, Validator};

verus! {

/// The number of roots in the branch of a deposit: one for each level of the deposit
/// tree, and one for the count of deposits.
pub open spec fn spec_branch_length() -> nat {
    33
}

/// The place of the ancestor of the leaf at `index`, `level` levels above it.
pub open spec fn spec_ancestor_index(index: u64, level: nat) -> u64
    decreases level,
{
    if level == 0 {
        index
    } else {
        spec_ancestor_index(index, (level - 1) as nat) / 2
    }
}

/// The root that a leaf and the first `depth` roots of a branch lead to, the leaf being
/// at place `index` of its level: at each level the node is hashed with the branch's root
/// of that level, which stands to its left where the node's place is odd.
pub open spec fn spec_branch_root(leaf: Seq<u8>, branch: Seq<H256>, index: u64, depth: nat) -> Seq<
    u8,
>
    decreases depth,
{
    if depth == 0 {
        leaf
    } else {
        let level = (depth - 1) as nat;
        let below = spec_branch_root(leaf, branch, index, level);
        if spec_ancestor_index(index, level) % 2 == 1 {
            sha256(Seq::<u8>::empty() + branch[level as int]@ + below)
        } else {
            sha256(Seq::<u8>::empty() + below + branch[level as int]@)
        }
    }
}

/// Whether a branch of 33 roots leads from the leaf at place `index` to `root`.
pub fn is_valid_merkle_branch(leaf: &H256, branch: &Vec<H256>, index: u64, root: &H256) -> (r:
    bool)
    ensures
        r == (branch@.len() == spec_branch_length() && spec_branch_root(
            leaf@,
            branch@,
            index,
            spec_branch_length(),
        ) == root@),
{
    if branch.len() != 33 {
        return false;
    }
    let mut value = leaf.to_vec();
    let mut shifted = index;
    let mut level: usize = 0;
    while level < 33
        invariant
            branch@.len() == 33,
            level <= 33,
            value@ == spec_branch_root(leaf@, branch@, index, level as nat),
            value@.len() == 32,
            shifted == spec_ancestor_index(index, level as nat),
        decreases 33 - level,
    {
        let mut input: Vec<u8> = Vec::new();
        if shifted % 2 == 1 {
            append(&mut input, branch[level].0.as_slice());
            append(&mut input, value.as_slice());
        } else {
            append(&mut input, value.as_slice());
            append(&mut input, branch[level].0.as_slice());
        }
        value = hash(input.as_slice());
        shifted = shifted / 2;
        level += 1;
    }
    let found = H256::from_slice(value.as_slice());
    assert(value@.take(32) =~= value@);
    proof {
        if found@ == root@ {
            lemma_h256_ext(found, *root);
        }
    }
    found == *root
}

/// The domain of deposits: it belongs to no fork and to no chain.
pub open spec fn spec_deposit_domain(config: Config) -> Domain {
    spec_compute_domain(
        config.domain_deposit,
        config.genesis_fork_version,
        H256::spec_zero(),
        config,
    )
}

/// Whether a deposit bears the signature of its own key.
pub open spec fn spec_deposit_signed(data: DepositData, config: Config) -> bool {
    let domain = spec_deposit_domain(config);
    spec_signed(
        data.pubkey,
        spec_signing_root(
            (DepositMessage {
                pubkey: data.pubkey,
                withdrawal_credentials: data.withdrawal_credentials,
                amount: data.amount,
            }).tree_root(config),
            domain,
            config,
        ),
        data.signature,
        domain,
    )
}

/// The first of the first `n` validators that has the key, if one has.
pub open spec fn find_pubkey(validators: Seq<Validator>, pubkey: PublicKeyBytes, n: nat) -> Option<
    int,
>
    decreases n,
{
    if n == 0 {
        None
    } else {
        match find_pubkey(validators, pubkey, (n - 1) as nat) {
            Some(i) => Some(i),
            None => if validators[n - 1].pubkey == pubkey {
                Some(n - 1)
            } else {
                None
            },
        }
    }
}

/// The validator that a deposit of a new key makes: its effective balance is the amount in
/// whole increments, at most the largest one, and nothing of its life is scheduled yet.
pub open spec fn spec_new_validator(data: DepositData, config: Config) -> Validator {
    let rounded = data.amount - data.amount % config.effective_balance_increment;
    Validator {
        pubkey: data.pubkey,
        withdrawal_credentials: data.withdrawal_credentials,
        effective_balance: if rounded < config.max_effective_balance {
            rounded as u64
        } else {
            config.max_effective_balance
        },
        slashed: false,
        activation_eligibility_epoch: FAR_FUTURE_EPOCH,
        activation_epoch: FAR_FUTURE_EPOCH,
        exit_epoch: FAR_FUTURE_EPOCH,
        withdrawable_epoch: FAR_FUTURE_EPOCH,
    }
}

/// A deposit is accepted where its branch leads from its data to the state's deposit root
/// at the place of the next deposit, and the count of deposits and the registry have room.
/// The count then moves on. The amount goes to the validator that has the deposit's key;
/// where none has it and the deposit bears the signature of its key, a new validator
/// enters the registry; where it does not, nothing more happens.
pub open spec fn spec_process_deposit(
    s: BeaconStateView,
    deposit: Deposit,
    config: Config,
) -> Result<
    BeaconStateView,
    Error,
> {
    let data = deposit.data;
    if !(deposit.proof@.len() == spec_branch_length() && spec_branch_root(
        data.tree_root(config),
        deposit.proof@,
        s.eth1_deposit_index,
        spec_branch_length(),
    ) == s.eth1_data.deposit_root@) {
        Err(Error::InvalidDepositProof)
    } else if s.eth1_deposit_index == u64::MAX {
        Err(Error::DepositIndexOverflow)
    } else {
        let counted = BeaconStateView {
            eth1_deposit_index: (s.eth1_deposit_index + 1) as u64,
            ..s
        };
        match find_pubkey(s.validators, data.pubkey, s.validators.len()) {
            Some(i) => Ok(spec_increase_balance(counted, i, data.amount)),
            None => if !spec_deposit_signed(data, config) {
                Ok(counted)
            } else if s.validators.len() >= config.validator_registry_limit {
                Err(Error::TooManyValidators)
            } else {
                Ok(
                    BeaconStateView {
                        validators: s.validators.push(spec_new_validator(data, config)),
                        balances: s.balances.push(data.amount),
                        ..counted
                    },
                )
            },
        }
    }
}

proof fn lemma_find_pubkey(validators: Seq<Validator>, pubkey: PublicKeyBytes, n: nat)
    requires
        n <= validators.len(),
    ensures
        find_pubkey(validators, pubkey, n) matches Some(i) ==> 0 <= i < n,
    decreases n,
{
    if n > 0 {
        lemma_find_pubkey(validators, pubkey, (n - 1) as nat);
    }
}

/// A deposit leaves a valid state valid.
pub proof fn lemma_deposit_keeps_wf(s: BeaconStateView, deposit: Deposit, config: Config)
    requires
        config.wf(),
        wf_core(s, config),
    ensures
        spec_process_deposit(s, deposit, config) matches Ok(after) ==> wf_core(after, config)
            && block_frame(s, after),
{
    lemma_find_pubkey(s.validators, deposit.data.pubkey, s.validators.len());
    match spec_process_deposit(s, deposit, config) {
        Ok(after) => {
            assert forall|k: int| 0 <= k < after.validators.len() implies (
            #[trigger] after.validators[k]).lifecycle_ordered() by {
                if k < s.validators.len() {
                    assert(s.validators[k].lifecycle_ordered());
                }
            }
        },
        Err(_) => {},
    }
}

/// Checks a deposit and credits it: to the validator that has its key, or to a new one.
pub fn process_deposit(state: &mut BeaconState, deposit: &Deposit, config: &Config) -> (r: Result<
    (),
    Error,
>)
    requires
        config.wf(),
        sizes_ok(old(state)@, *config),
    ensures
        outcome_is(r, final(state)@, spec_process_deposit(old(state)@, *deposit, *config)),
{
    let data = &deposit.data;
    let leaf = data.tree_hash_root(config);
    if !is_valid_merkle_branch(
        &leaf,
        &deposit.proof,
        state.eth1_deposit_index,
        &state.eth1_data.deposit_root,
    ) {
        return Err(Error::InvalidDepositProof);
    }
    if state.eth1_deposit_index == u64::MAX {
        return Err(Error::DepositIndexOverflow);
    }
    let n = state.validators.len();
    let mut found: Option<usize> = None;
    let mut i: usize = 0;
    while i < n
        invariant
            n == state@.validators.len(),
            i <= n,
            state@ == old(state)@,
            match find_pubkey(state@.validators, data.pubkey, i as nat) {
                Some(at) => found == Some(at as usize) && 0 <= at < i,
                None => found is None,
            },
        decreases n - i,
    {
        if found.is_none() && state.validators[i].pubkey == data.pubkey {
            found = Some(i);
        }
        i += 1;
    }
    state.eth1_deposit_index = state.eth1_deposit_index + 1;
    match found {
        Some(at) => {
            increase_balance(state, at, data.amount);
            Ok(())
        },
        None => {
            let message = DepositMessage {
                pubkey: data.pubkey,
                withdrawal_credentials: data.withdrawal_credentials,
                amount: data.amount,
            };
            let domain = compute_domain(
                config.domain_deposit,
                config.genesis_fork_version,
                H256::zero(),
                config,
            );
            let root = compute_signing_root(&message, domain, config);
            if !is_signed(&data.pubkey, &root, &data.signature, domain) {
                return Ok(());
            }
            if n as u64 >= config.validator_registry_limit {
                return Err(Error::TooManyValidators);
            }
            let increment = config.effective_balance_increment;
            assert(data.amount % increment <= data.amount) by (nonlinear_arith)
                requires
                    increment > 0,
                    data.amount >= 0,
            ;
            let rounded = data.amount - data.amount % increment;
            state.validators.push(
                Validator {
                    pubkey: data.pubkey,
                    withdrawal_credentials: data.withdrawal_credentials,
                    effective_balance: if rounded < config.max_effective_balance {
                        rounded
                    } else {
                        config.max_effective_balance
                    },
                    slashed: false,
                    activation_eligibility_epoch: FAR_FUTURE_EPOCH,
                    activation_epoch: FAR_FUTURE_EPOCH,
                    exit_epoch: FAR_FUTURE_EPOCH,
                    withdrawable_epoch: FAR_FUTURE_EPOCH,
                },
            );
            state.balances.push(data.amount);
            Ok(())
        },
    }
}

} // verus!
