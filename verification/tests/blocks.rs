use beacon_transition::accessors::{
    compute_domain, compute_signing_root, get_current_epoch, get_domain,
};
use beacon_transition::attestation::{get_attesting_indices, process_attestation};
use beacon_transition::attester_slashing::process_attester_slashing;
use beacon_transition::beacon_state::BeaconState;
use beacon_transition::block_processing::{
    is_signed, process_block, process_block_header, process_eth1_data, process_randao,
    signature_holds, Error,
};
use beacon_transition::committee::get_beacon_committee;
use beacon_transition::config::{Config, FAR_FUTURE_EPOCH};
use beacon_transition::crypto::hash;
use beacon_transition::deposit::{is_valid_merkle_branch, process_deposit};
use beacon_transition::error::Error as Rule;
use beacon_transition::limits::block_within_limits;
use beacon_transition::merkle::hash_tree_root;
use beacon_transition::penalties::{decrease_balance, increase_balance, slash_validator};
use beacon_transition::predicates::{is_valid_indexed_attestation, signature_outcome};
use beacon_transition::primitives::{xor, PublicKeyBytes, SignatureBytes, H256};
use beacon_transition::process_slot::{
    process_slots, state_transition, verify_block_signature, Error as TransitionError,
};
use beacon_transition::proposer::get_beacon_proposer_index;
use beacon_transition::proposer_slashing::process_proposer_slashing;
use beacon_transition::types::{
    Attestation, AttestationData, AttesterSlashing, BeaconBlock, BeaconBlockBody,
    BeaconBlockHeader, Checkpoint, Deposit, DepositData, DepositMessage, Eth1Data,
    IndexedAttestation, ProposerSlashing, SignedBeaconBlock, SignedBeaconBlockHeader,
    SignedVoluntaryExit, Validator, VoluntaryExit,
};
use beacon_transition::voluntary_exit::process_voluntary_exit;

const DST: &[u8] = b"BLS_SIG_BLS12381G2_XMD:SHA-256_SSWU_RO_POP_";

fn secret(i: u64) -> blst::min_pk::SecretKey {
    blst::min_pk::SecretKey::key_gen(&[(i + 1) as u8; 32], &[]).unwrap()
}

fn public(i: u64) -> PublicKeyBytes {
    PublicKeyBytes(secret(i).sk_to_pk().to_bytes())
}

fn sign(i: u64, message: &H256, domain: H256) -> SignatureBytes {
    SignatureBytes(secret(i).sign(&message.0, DST, &domain.0).to_bytes())
}

fn sign_all(signers: &[u64], message: &H256, domain: H256) -> SignatureBytes {
    let signatures: Vec<blst::min_pk::Signature> =
        signers.iter().map(|i| secret(*i).sign(&message.0, DST, &domain.0)).collect();
    let refs: Vec<&blst::min_pk::Signature> = signatures.iter().collect();
    let sum = blst::min_pk::AggregateSignature::aggregate(&refs, true).unwrap();
    SignatureBytes(sum.to_signature().to_bytes())
}

fn genesis(config: &Config, n: u64) -> BeaconState {
    let mut state = BeaconState::default(config);
    for i in 0..n {
        state.validators.push(Validator {
            pubkey: public(i),
            effective_balance: config.max_effective_balance,
            activation_eligibility_epoch: 0,
            activation_epoch: 0,
            exit_epoch: FAR_FUTURE_EPOCH,
            withdrawable_epoch: FAR_FUTURE_EPOCH,
            ..Validator::default()
        });
        state.balances.push(config.max_effective_balance);
    }
    state
}

fn empty_body(reveal: SignatureBytes) -> BeaconBlockBody {
    BeaconBlockBody {
        randao_reveal: reveal,
        eth1_data: Eth1Data::default(),
        graffiti: H256([0u8; 32]),
        proposer_slashings: vec![],
        attester_slashings: vec![],
        attestations: vec![],
        deposits: vec![],
        voluntary_exits: vec![],
    }
}

fn reveal_for(state: &BeaconState, config: &Config) -> SignatureBytes {
    let proposer = get_beacon_proposer_index(state, config).unwrap();
    let epoch = get_current_epoch(state, config);
    let domain = get_domain(state, config.domain_randao, None, config);
    sign(proposer, &hash_tree_root(&epoch, config), domain)
}

fn block_at(pre: &BeaconState, slot: u64, config: &Config) -> BeaconBlock {
    let mut advanced = pre.clone();
    process_slots(&mut advanced, slot, config);
    BeaconBlock {
        slot,
        proposer_index: get_beacon_proposer_index(&advanced, config).unwrap(),
        parent_root: hash_tree_root(&advanced.latest_block_header, config),
        state_root: H256([0u8; 32]),
        body: empty_body(reveal_for(&advanced, config)),
    }
}

fn seal(pre: &BeaconState, mut block: BeaconBlock, config: &Config) -> SignedBeaconBlock {
    let mut trial = pre.clone();
    let unsigned =
        SignedBeaconBlock { message: block.clone(), signature: SignatureBytes([0u8; 96]) };
    assert_eq!(state_transition(&mut trial, &unsigned, false, config), Ok(()));
    block.state_root = hash_tree_root(&trial, config);
    let mut advanced = pre.clone();
    process_slots(&mut advanced, block.slot, config);
    let domain = get_domain(&advanced, config.domain_beacon_proposer, None, config);
    let root = compute_signing_root(&block, domain, config);
    let signature = sign(block.proposer_index, &root, domain);
    SignedBeaconBlock { message: block, signature }
}

fn vote(state: &BeaconState, slot: u64, index: u64, config: &Config) -> Attestation {
    let committee = get_beacon_committee(state, slot, index, config).unwrap();
    let data = AttestationData {
        slot,
        index,
        beacon_block_root: H256([0u8; 32]),
        source: state.current_justified_checkpoint,
        target: Checkpoint { epoch: slot / config.slots_per_epoch, root: H256([0u8; 32]) },
    };
    let domain = get_domain(state, config.domain_beacon_attester, Some(data.target.epoch), config);
    let signature = sign_all(&committee, &hash_tree_root(&data, config), domain);
    Attestation { aggregation_bits: vec![true; committee.len()], data, signature }
}

fn indexed(state: &BeaconState, indices: Vec<u64>, data: AttestationData, config: &Config) -> IndexedAttestation {
    let domain = get_domain(state, config.domain_beacon_attester, Some(data.target.epoch), config);
    let signature = sign_all(&indices, &hash_tree_root(&data, config), domain);
    IndexedAttestation {
        custody_bit_0_indices: indices,
        custody_bit_1_indices: vec![],
        data,
        signature,
    }
}

fn deposit_tree(leaf: &H256, count: u64) -> (Vec<H256>, H256) {
    let mut zero = vec![0u8; 32];
    let mut node = leaf.0.to_vec();
    let mut branch = Vec::new();
    for _ in 0..32 {
        branch.push(H256::from_slice(&zero));
        node = hash(&[&node[..], &zero[..]].concat());
        zero = hash(&[&zero[..], &zero[..]].concat());
    }
    let mut length = [0u8; 32];
    length[0..8].copy_from_slice(&count.to_le_bytes());
    branch.push(H256(length));
    let root = hash(&[&node[..], &length[..]].concat());
    (branch, H256::from_slice(&root))
}

fn deposit_of(key: u64, signer: u64, amount: u64, config: &Config) -> Deposit {
    let message = DepositMessage {
        pubkey: public(key),
        withdrawal_credentials: H256([5u8; 32]),
        amount,
    };
    let domain =
        compute_domain(config.domain_deposit, config.genesis_fork_version, H256([0u8; 32]), config);
    let signature = sign(signer, &compute_signing_root(&message, domain, config), domain);
    let data = DepositData {
        pubkey: message.pubkey,
        withdrawal_credentials: message.withdrawal_credentials,
        amount,
        signature,
    };
    let (proof, _) = deposit_tree(&hash_tree_root(&data, config), 1);
    Deposit { proof, data }
}

fn expect_deposit(state: &mut BeaconState, deposit: &Deposit, config: &Config) {
    let (_, root) = deposit_tree(&hash_tree_root(&deposit.data, config), 1);
    state.eth1_data.deposit_root = root;
    state.eth1_data.deposit_count = 1;
    state.eth1_deposit_index = 0;
}

#[test]
fn block_is_applied_with_validation() {
    let config = Config::minimal();
    let pre = genesis(&config, 8);
    assert!(pre.is_valid(&config));
    let signed = seal(&pre, block_at(&pre, 1, &config), &config);
    let mut state = pre.clone();
    assert_eq!(state_transition(&mut state, &signed, true, &config), Ok(()));
    assert_eq!(state.slot, 1);
    assert_eq!(hash_tree_root(&state, &config), signed.message.state_root);
    assert_eq!(state.latest_block_header.slot, 1);
    assert_eq!(state.latest_block_header.proposer_index, signed.message.proposer_index);
    assert_eq!(state.latest_block_header.parent_root, signed.message.parent_root);
    assert_eq!(state.latest_block_header.state_root, H256([0u8; 32]));
    assert_eq!(
        state.latest_block_header.body_root,
        hash_tree_root(&signed.message.body, &config)
    );
    assert_eq!(state.eth1_data_votes.len(), 1);
    assert_ne!(state.randao_mixes[0], H256([0u8; 32]));
    assert_eq!(state.state_roots[0], hash_tree_root(&pre, &config));
    assert!(state.is_valid(&config));
}

#[test]
fn blocks_follow_one_another() {
    let config = Config::minimal();
    let mut state = genesis(&config, 8);
    let first = seal(&state, block_at(&state, 1, &config), &config);
    assert_eq!(state_transition(&mut state, &first, true, &config), Ok(()));
    let second = seal(&state, block_at(&state, 3, &config), &config);
    assert_eq!(state_transition(&mut state, &second, true, &config), Ok(()));
    assert_eq!(state.slot, 3);
    assert_eq!(state.latest_block_header.slot, 3);
    let closed = BeaconBlockHeader {
        slot: 1,
        proposer_index: first.message.proposer_index,
        parent_root: first.message.parent_root,
        state_root: first.message.state_root,
        body_root: hash_tree_root(&first.message.body, &config),
    };
    assert_eq!(state.block_roots[1], hash_tree_root(&closed, &config));
    assert_eq!(state.block_roots[2], hash_tree_root(&closed, &config));
    assert_eq!(second.message.parent_root, hash_tree_root(&closed, &config));
    assert_eq!(state.state_roots[1], first.message.state_root);
}

#[test]
fn transition_is_deterministic() {
    let config = Config::minimal();
    let pre = genesis(&config, 8);
    let signed = seal(&pre, block_at(&pre, 2, &config), &config);
    let mut first = pre.clone();
    let mut second = pre.clone();
    assert_eq!(state_transition(&mut first, &signed, true, &config), Ok(()));
    assert_eq!(state_transition(&mut second, &signed, true, &config), Ok(()));
    assert_eq!(hash_tree_root(&first, &config), hash_tree_root(&second, &config));
}

#[test]
fn block_with_wrong_signature_is_rejected() {
    let config = Config::minimal();
    let pre = genesis(&config, 8);
    let mut signed = seal(&pre, block_at(&pre, 1, &config), &config);
    let other = (signed.message.proposer_index + 1) % 8;
    signed.signature = sign(other, &H256([1u8; 32]), H256([2u8; 32]));
    let mut state = pre.clone();
    assert_eq!(
        state_transition(&mut state, &signed, true, &config),
        Err(TransitionError::InvalidBlockSignature)
    );
    let mut unchecked = pre.clone();
    assert_eq!(state_transition(&mut unchecked, &signed, false, &config), Ok(()));
    signed.signature = SignatureBytes([1u8; 96]);
    let mut garbled = pre.clone();
    assert_eq!(
        state_transition(&mut garbled, &signed, true, &config),
        Err(TransitionError::InvalidBlockSignature)
    );
}

#[test]
fn block_with_wrong_state_root_is_rejected() {
    let config = Config::minimal();
    let pre = genesis(&config, 8);
    let mut block = block_at(&pre, 1, &config);
    block.state_root = H256([9u8; 32]);
    let mut advanced = pre.clone();
    process_slots(&mut advanced, 1, &config);
    let domain = get_domain(&advanced, config.domain_beacon_proposer, None, &config);
    let signature =
        sign(block.proposer_index, &compute_signing_root(&block, domain, &config), domain);
    let signed = SignedBeaconBlock { message: block, signature };
    let mut state = pre.clone();
    assert_eq!(
        state_transition(&mut state, &signed, true, &config),
        Err(TransitionError::BadStateRoot)
    );
}

#[test]
fn block_of_a_passed_slot_is_rejected() {
    let config = Config::minimal();
    let mut state = genesis(&config, 8);
    let signed = seal(&state, block_at(&state, 1, &config), &config);
    state.slot = 2;
    assert_eq!(
        state_transition(&mut state, &signed, true, &config),
        Err(TransitionError::SlotOutOfBounds)
    );
}

#[test]
fn oversized_block_is_rejected() {
    let config = Config::minimal();
    let pre = genesis(&config, 8);
    let mut block = block_at(&pre, 1, &config);
    for _ in 0..17 {
        block.body.voluntary_exits.push(SignedVoluntaryExit {
            message: VoluntaryExit { epoch: 0, validator_index: 0 },
            signature: SignatureBytes([0u8; 96]),
        });
    }
    assert!(!block_within_limits(&block, &config));
    let signed = SignedBeaconBlock { message: block, signature: SignatureBytes([0u8; 96]) };
    let mut state = pre.clone();
    assert_eq!(
        state_transition(&mut state, &signed, false, &config),
        Err(TransitionError::OversizedBlock)
    );
}

#[test]
fn second_block_of_a_slot_is_rejected() {
    let config = Config::minimal();
    let mut state = genesis(&config, 8);
    let signed = seal(&state, block_at(&state, 1, &config), &config);
    assert_eq!(state_transition(&mut state, &signed, true, &config), Ok(()));
    assert_eq!(
        state_transition(&mut state, &signed, false, &config),
        Err(TransitionError::InvalidBlock(Error::BlockNotLater))
    );
}

#[test]
fn header_is_checked_rule_by_rule() {
    let config = Config::minimal();
    let mut state = genesis(&config, 8);
    process_slots(&mut state, 1, &config);
    let good = block_at(&genesis(&config, 8), 1, &config);
    let mut late = good.clone();
    late.slot = 2;
    assert_eq!(
        process_block_header(&mut state.clone(), &late, &config),
        Err(Error::SlotMismatch)
    );
    let mut other = good.clone();
    other.proposer_index = (good.proposer_index + 1) % 8;
    assert_eq!(
        process_block_header(&mut state.clone(), &other, &config),
        Err(Error::WrongProposer)
    );
    let mut orphan = good.clone();
    orphan.parent_root = H256([1u8; 32]);
    assert_eq!(
        process_block_header(&mut state.clone(), &orphan, &config),
        Err(Error::WrongParentRoot)
    );
    let mut slashed = state.clone();
    slashed.validators[good.proposer_index as usize].slashed = true;
    assert_eq!(process_block_header(&mut slashed, &good, &config), Err(Error::ProposerSlashed));
    let mut empty = BeaconState::default(&config);
    empty.slot = 1;
    assert_eq!(
        process_block_header(&mut empty, &good, &config),
        Err(Error::UnableToDetermineProducer)
    );
    assert_eq!(process_block_header(&mut state, &good, &config), Ok(()));
}

#[test]
fn reveal_is_mixed_into_the_randomness() {
    let config = Config::minimal();
    let mut state = genesis(&config, 8);
    state.slot = 9;
    state.randao_mixes[1] = H256([6u8; 32]);
    let reveal = reveal_for(&state, &config);
    let body = empty_body(reveal);
    assert_eq!(process_randao(&mut state, &body, &config), Ok(()));
    let digest = H256::from_slice(&hash(&reveal.0));
    assert_eq!(state.randao_mixes[1], xor(&H256([6u8; 32]), &digest));
    let bad = empty_body(sign(0, &H256([1u8; 32]), H256([1u8; 32])));
    assert_eq!(process_randao(&mut state, &bad, &config), Err(Error::InvalidRandaoReveal));
    let garbled = empty_body(SignatureBytes([3u8; 96]));
    assert_eq!(process_randao(&mut state, &garbled, &config), Err(Error::InvalidRandaoReveal));
}

#[test]
fn majority_vote_becomes_the_eth1_data() {
    let config = Config::minimal();
    let mut state = genesis(&config, 8);
    let vote = Eth1Data {
        deposit_root: H256([1u8; 32]),
        deposit_count: 0,
        block_hash: H256([2u8; 32]),
    };
    let mut body = empty_body(SignatureBytes([0u8; 96]));
    body.eth1_data = vote;
    for _ in 0..8 {
        assert_eq!(process_eth1_data(&mut state, &body, &config), Ok(()));
        assert_eq!(state.eth1_data, Eth1Data::default());
    }
    assert_eq!(process_eth1_data(&mut state, &body, &config), Ok(()));
    assert_eq!(state.eth1_data, vote);
    for _ in 0..7 {
        assert_eq!(process_eth1_data(&mut state, &body, &config), Ok(()));
    }
    assert_eq!(state.eth1_data_votes.len(), 16);
    assert_eq!(process_eth1_data(&mut state, &body, &config), Err(Error::TooManyEth1Votes));
}

#[test]
fn signature_checks_come_to_a_verdict() {
    assert!(signature_holds(&Ok(true)));
    assert!(!signature_holds(&Ok(false)));
    assert!(!signature_holds(&Err(blst::BLST_ERROR::BLST_BAD_ENCODING)));
    assert_eq!(signature_outcome(&Ok(true)), Ok(()));
    assert_eq!(
        signature_outcome(&Ok(false)),
        Err(Rule::InvalidAttestationSignature)
    );
    assert_eq!(
        signature_outcome(&Err(blst::BLST_ERROR::BLST_BAD_ENCODING)),
        Err(Rule::InvalidSignatureEncoding)
    );
    let domain = H256([3u8; 32]);
    let message = H256([4u8; 32]);
    assert!(is_signed(&public(0), &message, &sign(0, &message, domain), domain));
    assert!(!is_signed(&public(1), &message, &sign(0, &message, domain), domain));
}

#[test]
fn balances_saturate() {
    let config = Config::minimal();
    let mut state = genesis(&config, 2);
    increase_balance(&mut state, 0, 5);
    assert_eq!(state.balances[0], 32_000_000_005);
    increase_balance(&mut state, 0, u64::MAX);
    assert_eq!(state.balances[0], u64::MAX);
    decrease_balance(&mut state, 1, 7);
    assert_eq!(state.balances[1], 31_999_999_993);
    decrease_balance(&mut state, 1, u64::MAX);
    assert_eq!(state.balances[1], 0);
}

#[test]
fn slashing_marks_penalizes_and_rewards() {
    let config = Config::minimal();
    let mut state = genesis(&config, 8);
    let proposer = get_beacon_proposer_index(&state, &config).unwrap() as usize;
    let slashed = (proposer + 1) % 8;
    assert_eq!(slash_validator(&mut state, slashed, &config), Ok(()));
    let v = state.validators[slashed];
    assert!(v.slashed);
    assert_eq!(v.exit_epoch, 5);
    assert_eq!(v.withdrawable_epoch, 5 + 256);
    assert_eq!(state.slashings[0], 32_000_000_000);
    assert_eq!(state.balances[slashed], 32_000_000_000 - 1_000_000_000);
    assert_eq!(state.balances[proposer], 32_000_000_000 + 62_500_000);
    assert!(state.is_valid(&config));
}

#[test]
fn proposer_slashing_slashes_the_proposer() {
    let config = Config::minimal();
    let mut state = genesis(&config, 8);
    let domain = get_domain(&state, config.domain_beacon_proposer, Some(0), &config);
    let header = |body: u8| BeaconBlockHeader {
        slot: 0,
        proposer_index: 3,
        parent_root: H256([0u8; 32]),
        state_root: H256([0u8; 32]),
        body_root: H256([body; 32]),
    };
    let signed = |body: u8, signer: u64| SignedBeaconBlockHeader {
        message: header(body),
        signature: sign(signer, &compute_signing_root(&header(body), domain, &config), domain),
    };
    let same = ProposerSlashing { signed_header_1: signed(1, 3), signed_header_2: signed(1, 3) };
    assert_eq!(process_proposer_slashing(&mut state, &same, &config), Err(Error::HeadersEqual));
    let forged =
        ProposerSlashing { signed_header_1: signed(1, 3), signed_header_2: signed(2, 4) };
    assert_eq!(
        process_proposer_slashing(&mut state, &forged, &config),
        Err(Error::InvalidHeaderSignature)
    );
    let mut slots = ProposerSlashing { signed_header_1: signed(1, 3), signed_header_2: signed(2, 3) };
    slots.signed_header_2.message.slot = 1;
    assert_eq!(process_proposer_slashing(&mut state, &slots, &config), Err(Error::HeaderSlotsDiffer));
    let mut others =
        ProposerSlashing { signed_header_1: signed(1, 3), signed_header_2: signed(2, 3) };
    others.signed_header_2.message.proposer_index = 4;
    assert_eq!(
        process_proposer_slashing(&mut state, &others, &config),
        Err(Error::HeaderProposersDiffer)
    );
    let mut unknown =
        ProposerSlashing { signed_header_1: signed(1, 3), signed_header_2: signed(2, 3) };
    unknown.signed_header_1.message.proposer_index = 8;
    unknown.signed_header_2.message.proposer_index = 8;
    assert_eq!(process_proposer_slashing(&mut state, &unknown, &config), Err(Error::UnknownValidator));
    let good = ProposerSlashing { signed_header_1: signed(1, 3), signed_header_2: signed(2, 3) };
    assert_eq!(process_proposer_slashing(&mut state, &good, &config), Ok(()));
    assert!(state.validators[3].slashed);
    assert_eq!(
        process_proposer_slashing(&mut state, &good, &config),
        Err(Error::ValidatorNotSlashable)
    );
}

#[test]
fn indexed_attestation_is_checked_rule_by_rule() {
    let config = Config::minimal();
    let state = genesis(&config, 8);
    let data = AttestationData::default();
    let empty = IndexedAttestation::default();
    assert_eq!(is_valid_indexed_attestation(&state, &empty, &config), Err(Rule::EmptyIndices));
    let mut twice = indexed(&state, vec![1, 2], data, &config);
    twice.custody_bit_0_indices = vec![1, 1];
    assert_eq!(
        is_valid_indexed_attestation(&state, &twice, &config),
        Err(Rule::BadValidatorIndicesOrdering)
    );
    let mut unknown = indexed(&state, vec![1, 2], data, &config);
    unknown.custody_bit_0_indices = vec![1, 8];
    assert_eq!(is_valid_indexed_attestation(&state, &unknown, &config), Err(Rule::UnknownValidator));
    let mut forged = indexed(&state, vec![1, 2], data, &config);
    forged.custody_bit_0_indices = vec![1, 3];
    assert_eq!(
        is_valid_indexed_attestation(&state, &forged, &config),
        Err(Rule::InvalidAttestationSignature)
    );
    let mut garbled = indexed(&state, vec![1, 2], data, &config);
    garbled.signature = SignatureBytes([1u8; 96]);
    assert_eq!(
        is_valid_indexed_attestation(&state, &garbled, &config),
        Err(Rule::InvalidSignatureEncoding)
    );
    let mut broken = state.clone();
    broken.validators[2].pubkey = PublicKeyBytes([1u8; 48]);
    let good = indexed(&state, vec![1, 2], data, &config);
    assert_eq!(
        is_valid_indexed_attestation(&broken, &good, &config),
        Err(Rule::InvalidSignatureEncoding)
    );
    assert_eq!(is_valid_indexed_attestation(&state, &good, &config), Ok(()));
    let mut split = indexed(&state, vec![2, 5, 1], data, &config);
    split.custody_bit_0_indices = vec![2, 5];
    split.custody_bit_1_indices = vec![1];
    assert_eq!(is_valid_indexed_attestation(&state, &split, &config), Ok(()));
    let mut other_data = good.clone();
    other_data.data.slot = 1;
    assert_eq!(
        is_valid_indexed_attestation(&state, &other_data, &config),
        Err(Rule::InvalidAttestationSignature)
    );
}

#[test]
fn attester_slashing_slashes_the_common_attesters() {
    let config = Config::minimal();
    let mut state = genesis(&config, 8);
    let first_data = AttestationData {
        target: Checkpoint { epoch: 0, root: H256([1u8; 32]) },
        ..AttestationData::default()
    };
    let second_data = AttestationData {
        target: Checkpoint { epoch: 0, root: H256([2u8; 32]) },
        ..AttestationData::default()
    };
    let first = indexed(&state, vec![1, 2, 5], first_data, &config);
    let second = indexed(&state, vec![2, 3, 5], second_data, &config);
    let agreeing = AttesterSlashing { attestation_1: first.clone(), attestation_2: first.clone() };
    assert_eq!(
        process_attester_slashing(&mut state, &agreeing, &config),
        Err(Error::AttestationsNotSlashable)
    );
    let mut forged = second.clone();
    forged.custody_bit_0_indices = vec![2, 3, 6];
    let invalid = AttesterSlashing { attestation_1: first.clone(), attestation_2: forged };
    assert_eq!(
        process_attester_slashing(&mut state, &invalid, &config),
        Err(Error::InvalidIndexedAttestation(
            Rule::InvalidAttestationSignature
        ))
    );
    let disjoint = AttesterSlashing {
        attestation_1: indexed(&state, vec![1], first_data, &config),
        attestation_2: indexed(&state, vec![3], second_data, &config),
    };
    assert_eq!(process_attester_slashing(&mut state, &disjoint, &config), Err(Error::NobodySlashed));
    let slashing = AttesterSlashing { attestation_1: first, attestation_2: second };
    assert_eq!(process_attester_slashing(&mut state, &slashing, &config), Ok(()));
    assert!(state.validators[2].slashed);
    assert!(state.validators[5].slashed);
    assert!(!state.validators[1].slashed);
    assert!(!state.validators[3].slashed);
    assert_eq!(state.slashings[0], 64_000_000_000);
    assert_eq!(process_attester_slashing(&mut state, &slashing, &config), Err(Error::NobodySlashed));
    assert!(state.is_valid(&config));
}

#[test]
fn attesting_indices_are_ascending() {
    let committee = vec![5, 2, 7, 0];
    assert_eq!(get_attesting_indices(&committee, &vec![true, true, false, true], 8), vec![0, 2, 5]);
    assert_eq!(
        get_attesting_indices(&committee, &vec![false, false, false, false], 8),
        Vec::<u64>::new()
    );
    assert_eq!(get_attesting_indices(&committee, &vec![true, true], 8), vec![2, 5]);
}

#[test]
fn attestation_is_kept_until_the_epoch_ends() {
    let config = Config::minimal();
    let mut state = genesis(&config, 64);
    state.slot = 1;
    let attestation = vote(&state, 0, 1, &config);
    assert_eq!(process_attestation(&mut state, &attestation, &config), Ok(()));
    assert_eq!(state.current_epoch_attestations.len(), 1);
    assert_eq!(state.previous_epoch_attestations.len(), 0);
    let kept = &state.current_epoch_attestations[0];
    assert_eq!(kept.aggregation_bits, attestation.aggregation_bits);
    assert_eq!(kept.data, attestation.data);
    assert_eq!(kept.inclusion_delay, 1);
    assert_eq!(kept.proposer_index, get_beacon_proposer_index(&state, &config).unwrap());
    assert!(state.is_valid(&config));
}

#[test]
fn attestation_of_the_previous_epoch_is_kept_with_it() {
    let config = Config::minimal();
    let mut state = genesis(&config, 64);
    state.slot = 9;
    let attestation = vote(&state, 7, 0, &config);
    assert_eq!(process_attestation(&mut state, &attestation, &config), Ok(()));
    assert_eq!(state.previous_epoch_attestations.len(), 1);
    assert_eq!(state.previous_epoch_attestations[0].inclusion_delay, 2);
    assert_eq!(state.current_epoch_attestations.len(), 0);
}

#[test]
fn attestation_is_checked_rule_by_rule() {
    let config = Config::minimal();
    let mut state = genesis(&config, 64);
    state.slot = 9;
    let good = vote(&state, 8, 0, &config);
    let mut no_committee = good.clone();
    no_committee.data.index = 2;
    assert_eq!(
        process_attestation(&mut state, &no_committee, &config),
        Err(Error::NoCommitteeForSlot)
    );
    let mut far = good.clone();
    far.data.target.epoch = 2;
    assert_eq!(process_attestation(&mut state, &far, &config), Err(Error::TargetEpochOutOfBounds));
    let mut mismatch = good.clone();
    mismatch.data.target.epoch = 0;
    assert_eq!(process_attestation(&mut state, &mismatch, &config), Err(Error::TargetSlotMismatch));
    let early = vote(&state, 9, 0, &config);
    assert_eq!(process_attestation(&mut state, &early, &config), Err(Error::SlotOutOfBounds));
    let mut late_state = state.clone();
    late_state.slot = 15;
    let late = vote(&late_state, 6, 0, &config);
    assert_eq!(process_attestation(&mut late_state, &late, &config), Err(Error::SlotOutOfBounds));
    let mut bits = good.clone();
    bits.aggregation_bits.push(true);
    assert_eq!(process_attestation(&mut state, &bits, &config), Err(Error::AttestationBitsInvalid));
    let mut source = good.clone();
    source.data.source.root = H256([1u8; 32]);
    assert_eq!(process_attestation(&mut state, &source, &config), Err(Error::WrongSource));
    let mut unsigned = good.clone();
    unsigned.aggregation_bits[0] = false;
    assert_eq!(
        process_attestation(&mut state, &unsigned, &config),
        Err(Error::InvalidIndexedAttestation(
            Rule::InvalidAttestationSignature
        ))
    );
    let mut nobody = good.clone();
    nobody.aggregation_bits = vec![false; 4];
    assert_eq!(
        process_attestation(&mut state, &nobody, &config),
        Err(Error::InvalidIndexedAttestation(Rule::EmptyIndices))
    );
    assert_eq!(process_attestation(&mut state, &good, &config), Ok(()));
}

#[test]
fn merkle_branch_leads_to_the_root() {
    let leaf = H256([7u8; 32]);
    let (branch, root) = deposit_tree(&leaf, 1);
    assert!(is_valid_merkle_branch(&leaf, &branch, 0, &root));
    assert!(!is_valid_merkle_branch(&leaf, &branch, 1, &root));
    assert!(!is_valid_merkle_branch(&H256([8u8; 32]), &branch, 0, &root));
    assert!(!is_valid_merkle_branch(&leaf, &branch[0..32].to_vec(), 0, &root));
    let right = H256([9u8; 32]);
    let mut node = hash(&[&leaf.0[..], &right.0[..]].concat());
    let mut zero = hash(&[0u8; 64]);
    let mut second = vec![leaf];
    for _ in 1..32 {
        second.push(H256::from_slice(&zero));
        node = hash(&[&node[..], &zero[..]].concat());
        zero = hash(&[&zero[..], &zero[..]].concat());
    }
    let mut length = [0u8; 32];
    length[0] = 2;
    second.push(H256(length));
    let root = H256::from_slice(&hash(&[&node[..], &length[..]].concat()));
    assert!(is_valid_merkle_branch(&right, &second, 1, &root));
    assert!(!is_valid_merkle_branch(&right, &second, 0, &root));
}

#[test]
fn deposit_of_a_new_key_makes_a_validator() {
    let config = Config::minimal();
    let mut state = genesis(&config, 8);
    let deposit = deposit_of(20, 20, 17_500_000_000, &config);
    expect_deposit(&mut state, &deposit, &config);
    assert_eq!(process_deposit(&mut state, &deposit, &config), Ok(()));
    assert_eq!(state.eth1_deposit_index, 1);
    assert_eq!(state.validators.len(), 9);
    assert_eq!(state.balances.len(), 9);
    assert_eq!(state.balances[8], 17_500_000_000);
    let v = state.validators[8];
    assert_eq!(v.pubkey, public(20));
    assert_eq!(v.withdrawal_credentials, H256([5u8; 32]));
    assert_eq!(v.effective_balance, 17_000_000_000);
    assert!(!v.slashed);
    assert_eq!(v.activation_eligibility_epoch, FAR_FUTURE_EPOCH);
    assert_eq!(v.activation_epoch, FAR_FUTURE_EPOCH);
    assert_eq!(v.exit_epoch, FAR_FUTURE_EPOCH);
    assert_eq!(v.withdrawable_epoch, FAR_FUTURE_EPOCH);
    assert!(state.is_valid(&config));
}

#[test]
fn deposit_above_the_largest_balance_is_capped() {
    let config = Config::minimal();
    let mut state = genesis(&config, 8);
    let deposit = deposit_of(20, 20, 40_000_000_000, &config);
    expect_deposit(&mut state, &deposit, &config);
    assert_eq!(process_deposit(&mut state, &deposit, &config), Ok(()));
    assert_eq!(state.validators[8].effective_balance, 32_000_000_000);
    assert_eq!(state.balances[8], 40_000_000_000);
}

#[test]
fn deposit_of_a_known_key_tops_up() {
    let config = Config::minimal();
    let mut state = genesis(&config, 8);
    let deposit = deposit_of(3, 0, 1_000_000_000, &config);
    expect_deposit(&mut state, &deposit, &config);
    assert_eq!(process_deposit(&mut state, &deposit, &config), Ok(()));
    assert_eq!(state.validators.len(), 8);
    assert_eq!(state.balances[3], 33_000_000_000);
    assert_eq!(state.eth1_deposit_index, 1);
}

#[test]
fn deposit_with_a_bad_signature_is_counted_only() {
    let config = Config::minimal();
    let mut state = genesis(&config, 8);
    let deposit = deposit_of(20, 21, 32_000_000_000, &config);
    expect_deposit(&mut state, &deposit, &config);
    assert_eq!(process_deposit(&mut state, &deposit, &config), Ok(()));
    assert_eq!(state.validators.len(), 8);
    assert_eq!(state.eth1_deposit_index, 1);
}

#[test]
fn deposit_with_a_bad_proof_is_rejected() {
    let config = Config::minimal();
    let mut state = genesis(&config, 8);
    let deposit = deposit_of(20, 20, 32_000_000_000, &config);
    expect_deposit(&mut state, &deposit, &config);
    state.eth1_deposit_index = 1;
    assert_eq!(process_deposit(&mut state, &deposit, &config), Err(Error::InvalidDepositProof));
    state.eth1_deposit_index = 0;
    state.eth1_data.deposit_root = H256([1u8; 32]);
    assert_eq!(process_deposit(&mut state, &deposit, &config), Err(Error::InvalidDepositProof));
}

#[test]
fn voluntary_exit_begins_the_exit() {
    let config = Config::minimal();
    let mut state = genesis(&config, 8);
    state.slot = 128 * 8;
    let exit = VoluntaryExit { epoch: 100, validator_index: 2 };
    let domain = get_domain(&state, config.domain_voluntary_exit, Some(100), &config);
    let signed = SignedVoluntaryExit {
        message: exit,
        signature: sign(2, &compute_signing_root(&exit, domain, &config), domain),
    };
    let mut young = state.clone();
    young.slot = 127 * 8;
    assert_eq!(process_voluntary_exit(&mut young, &signed, &config), Err(Error::ValidatorTooYoung));
    let mut future = signed;
    future.message.epoch = 129;
    assert_eq!(process_voluntary_exit(&mut state, &future, &config), Err(Error::ExitNotYetValid));
    let mut unknown = signed;
    unknown.message.validator_index = 8;
    assert_eq!(process_voluntary_exit(&mut state, &unknown, &config), Err(Error::UnknownValidator));
    let mut forged = signed;
    forged.signature = sign(3, &compute_signing_root(&exit, domain, &config), domain);
    assert_eq!(
        process_voluntary_exit(&mut state, &forged, &config),
        Err(Error::InvalidExitSignature)
    );
    let mut waiting = state.clone();
    waiting.validators[2].activation_epoch = 200;
    assert_eq!(
        process_voluntary_exit(&mut waiting, &signed, &config),
        Err(Error::ValidatorNotActive)
    );
    assert_eq!(process_voluntary_exit(&mut state, &signed, &config), Ok(()));
    assert_eq!(state.validators[2].exit_epoch, 128 + 1 + 4);
    assert_eq!(state.validators[2].withdrawable_epoch, 128 + 1 + 4 + 256);
    assert_eq!(
        process_voluntary_exit(&mut state, &signed, &config),
        Err(Error::ExitAlreadyInitiated)
    );
    assert!(state.is_valid(&config));
}

#[test]
fn block_with_operations_is_applied() {
    let config = Config::minimal();
    let pre = genesis(&config, 64);
    let mut advanced = pre.clone();
    process_slots(&mut advanced, 1, &config);
    let mut block = block_at(&pre, 1, &config);
    block.body.attestations.push(vote(&advanced, 0, 0, &config));
    block.body.attestations.push(vote(&advanced, 0, 1, &config));
    let signed = seal(&pre, block, &config);
    assert!(verify_block_signature(&advanced, &signed, &config));
    let mut state = pre.clone();
    assert_eq!(state_transition(&mut state, &signed, true, &config), Ok(()));
    assert_eq!(state.current_epoch_attestations.len(), 2);
    assert!(state.is_valid(&config));
    let mut direct = advanced.clone();
    assert_eq!(process_block(&mut direct, &signed.message, &config), Ok(()));
    assert_eq!(hash_tree_root(&direct, &config), hash_tree_root(&state, &config));
}

#[test]
fn block_without_the_due_deposits_is_rejected() {
    let config = Config::minimal();
    let mut pre = genesis(&config, 8);
    pre.eth1_data.deposit_count = 1;
    let mut block = block_at(&pre, 1, &config);
    block.body.eth1_data = pre.eth1_data;
    let signed = SignedBeaconBlock { message: block, signature: SignatureBytes([0u8; 96]) };
    let mut state = pre.clone();
    assert_eq!(
        state_transition(&mut state, &signed, false, &config),
        Err(TransitionError::InvalidBlock(Error::WrongDepositCount))
    );
}

#[test]
fn first_failing_operation_rejects_the_block() {
    let config = Config::minimal();
    let pre = genesis(&config, 8);
    let mut block = block_at(&pre, 1, &config);
    block.body.voluntary_exits.push(SignedVoluntaryExit {
        message: VoluntaryExit { epoch: 0, validator_index: 1 },
        signature: SignatureBytes([0u8; 96]),
    });
    let signed = SignedBeaconBlock { message: block, signature: SignatureBytes([0u8; 96]) };
    let mut state = pre.clone();
    assert_eq!(
        state_transition(&mut state, &signed, false, &config),
        Err(TransitionError::InvalidBlock(Error::ValidatorTooYoung))
    );
}

#[test]
fn attestation_is_rejected_where_there_is_no_room() {
    let config = Config { max_attestations: 0, ..Config::minimal() };
    assert!(config.is_valid());
    let mut state = genesis(&config, 64);
    state.slot = 1;
    let attestation = vote(&state, 0, 1, &config);
    assert_eq!(
        process_attestation(&mut state, &attestation, &config),
        Err(Error::TooManyAttestations)
    );
}

#[test]
fn deposit_is_rejected_where_the_registry_is_full() {
    let config = Config { validator_registry_limit: 8, ..Config::minimal() };
    assert!(config.is_valid());
    let mut state = genesis(&config, 8);
    let deposit = deposit_of(20, 20, 32_000_000_000, &config);
    expect_deposit(&mut state, &deposit, &config);
    assert_eq!(process_deposit(&mut state, &deposit, &config), Err(Error::TooManyValidators));
    let known = deposit_of(3, 3, 1_000_000_000, &config);
    expect_deposit(&mut state, &known, &config);
    assert_eq!(process_deposit(&mut state, &known, &config), Ok(()));
}

#[test]
fn deposit_is_rejected_where_the_count_is_full() {
    let config = Config::minimal();
    let mut state = genesis(&config, 8);
    let deposit = deposit_of(20, 20, 32_000_000_000, &config);
    let mut node = hash_tree_root(&deposit.data, &config).0.to_vec();
    for sibling in deposit.proof.iter() {
        node = hash(&[&sibling.0[..], &node[..]].concat());
    }
    state.eth1_data.deposit_root = H256::from_slice(&node);
    state.eth1_data.deposit_count = u64::MAX;
    state.eth1_deposit_index = u64::MAX;
    assert_eq!(process_deposit(&mut state, &deposit, &config), Err(Error::DepositIndexOverflow));
}

#[test]
fn block_with_every_kind_of_operation_is_applied() {
    let config = Config::minimal();
    let mut pre = genesis(&config, 64);
    pre.slot = 128 * 8;
    let deposit = deposit_of(70, 70, 32_000_000_000, &config);
    expect_deposit(&mut pre, &deposit, &config);
    assert!(pre.is_valid(&config));
    let mut advanced = pre.clone();
    process_slots(&mut advanced, 128 * 8 + 1, &config);
    let proposer = get_beacon_proposer_index(&advanced, &config).unwrap();
    let offender = (proposer + 1) % 64;
    let leaver = (proposer + 2) % 64;
    let double = (proposer + 3) % 64;
    let domain = get_domain(&advanced, config.domain_beacon_proposer, Some(128), &config);
    let header = |body: u8| BeaconBlockHeader {
        slot: 128 * 8,
        proposer_index: offender,
        parent_root: H256([0u8; 32]),
        state_root: H256([0u8; 32]),
        body_root: H256([body; 32]),
    };
    let signed_header = |body: u8| SignedBeaconBlockHeader {
        message: header(body),
        signature: sign(offender, &compute_signing_root(&header(body), domain, &config), domain),
    };
    let exit = VoluntaryExit { epoch: 128, validator_index: leaver };
    let exit_domain = get_domain(&advanced, config.domain_voluntary_exit, Some(128), &config);
    let first_data = AttestationData {
        target: Checkpoint { epoch: 0, root: H256([1u8; 32]) },
        ..AttestationData::default()
    };
    let second_data = AttestationData {
        target: Checkpoint { epoch: 0, root: H256([2u8; 32]) },
        ..AttestationData::default()
    };
    let mut block = block_at(&pre, 128 * 8 + 1, &config);
    block.body.eth1_data = pre.eth1_data;
    block.body.proposer_slashings.push(ProposerSlashing {
        signed_header_1: signed_header(1),
        signed_header_2: signed_header(2),
    });
    block.body.attester_slashings.push(AttesterSlashing {
        attestation_1: indexed(&advanced, vec![double], first_data, &config),
        attestation_2: indexed(&advanced, vec![double], second_data, &config),
    });
    block.body.attestations.push(vote(&advanced, 128 * 8, 0, &config));
    block.body.deposits.push(deposit);
    block.body.voluntary_exits.push(SignedVoluntaryExit {
        message: exit,
        signature: sign(leaver, &compute_signing_root(&exit, exit_domain, &config), exit_domain),
    });
    let signed = seal(&pre, block, &config);
    let mut state = pre.clone();
    assert_eq!(state_transition(&mut state, &signed, true, &config), Ok(()));
    assert!(state.validators[offender as usize].slashed);
    assert!(state.validators[double as usize].slashed);
    assert_eq!(state.validators[leaver as usize].exit_epoch, 128 + 1 + 4);
    assert_eq!(state.validators.len(), 65);
    assert_eq!(state.balances.len(), 65);
    assert_eq!(state.eth1_deposit_index, 1);
    assert_eq!(state.current_epoch_attestations.len(), 1);
    assert_eq!(state.slashings[128 % 64], 64_000_000_000);
    assert!(state.is_valid(&config));
    assert_eq!(hash_tree_root(&state, &config), signed.message.state_root);
    let bytes = beacon_transition::codec::ssz_encode(&signed);
    let decoded: SignedBeaconBlock =
        beacon_transition::codec::ssz_decode(&bytes, &config).unwrap();
    let mut replayed = pre.clone();
    assert_eq!(state_transition(&mut replayed, &decoded, true, &config), Ok(()));
    assert_eq!(hash_tree_root(&replayed, &config), hash_tree_root(&state, &config));
}
