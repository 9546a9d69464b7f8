//! The encodings of the containers that hold parts of varying length.

use vstd::prelude::*;
use vstd::slice::slice_subrange;
use crate::beacon_state::{BeaconState, BeaconStateView};
use crate::bits::{
    bitlist_append, bitlist_decode, bitlist_encode, bitlist_parse, justification_append,
    justification_decode, justification_encode, justification_parse, lemma_bitlist_round_trip,
    lemma_justification_round_trip,
};
use crate::codec::{FixedSsz, Ssz};
use crate::config::Config;
use crate::frame::{
    frame, frame_head, frame_tail, head_len, layout_of, layout_view, lemma_head_step, lemma_lengths,
    lemma_piece_within, lemma_unframe_frame, put_offset, split, unframe, Piece,
};
use crate::merkle::append;
use crate::primitives::{H256, PublicKeyBytes, SignatureBytes, ValidatorIndex};
use crate::sequences::{
    all_fit, bytes_decode, bytes_parse, items_append, items_encode, lemma_items_len,
    lemma_list_round_trip, lemma_var_items_round_trip, lemma_vector_round_trip, list_decode,
    list_parse, values, var_items_append, var_items_encode, var_list_decode, var_list_parse,
    var_vector_decode, var_vector_parse, vector_decode, vector_parse,
};
use crate::types::{
    Attestation, AttestationData, AttesterSlashing, BeaconBlock, BeaconBlockBody, BeaconBlockHeader,
    Checkpoint, CompactCommittee, CompactCommitteeView, Deposit, DepositData, Eth1Data, Fork,
    IndexedAttestation, PendingAttestation, PendingAttestationView, ProposerSlashing, ShardState,
    SignedBeaconBlock, SignedVoluntaryExit, Validator,
};

verus! {

/// A list of validator indices that is an item of a vector: its limit is the number of
/// slots of an epoch.
impl Ssz for Vec<ValidatorIndex> {
    type Value = Seq<ValidatorIndex>;

    open spec fn value(&self) -> Seq<ValidatorIndex> {
        values::<u64>(self@)
    }

    open spec fn fits(v: Seq<ValidatorIndex>, config: Config) -> bool {
        v.len() <= config.slots_per_epoch
    }

    open spec fn spec_encode(v: Seq<ValidatorIndex>) -> Seq<u8> {
        items_encode::<u64>(v)
    }

    open spec fn spec_decode(bytes: Seq<u8>, config: Config) -> Option<Seq<ValidatorIndex>> {
        list_decode::<u64>(bytes, config.slots_per_epoch as nat, config)
    }

    proof fn lemma_round_trip(v: Seq<ValidatorIndex>, config: Config) {
        assert(all_fit::<u64>(v, config));
        lemma_list_round_trip::<u64>(v, config.slots_per_epoch as nat, config);
    }

    fn ssz_append(&self, buf: &mut Vec<u8>) {
        items_append::<u64>(self, buf);
    }

    fn ssz_decode(bytes: &[u8], config: &Config) -> (r: Option<Vec<ValidatorIndex>>) {
        list_parse::<u64>(bytes, config.slots_per_epoch, config)
    }
}

/// The mathematical value of an attestation.
pub struct AttestationValue {
    pub aggregation_bits: Seq<bool>,
    pub data: AttestationData,
    pub signature: SignatureBytes,
}

impl Attestation {
    /// The parts that the value is encoded as.
    pub open spec fn pieces(v: AttestationValue) -> Seq<Piece> {
        seq![
            Piece { var: true, bytes: bitlist_encode(v.aggregation_bits) },
            Piece { var: false, bytes: <AttestationData as Ssz>::spec_encode(v.data) },
            Piece { var: false, bytes: <SignatureBytes as Ssz>::spec_encode(v.signature) },
        ]
    }

    /// The lengths of the parts of fixed length.
    pub open spec fn layout(config: Config) -> Seq<Option<nat>> {
        seq![
            None,
            Some(128nat),
            Some(96nat),
        ]
    }
}

impl Ssz for Attestation {
    type Value = AttestationValue;

    open spec fn value(&self) -> AttestationValue {
        AttestationValue {
            aggregation_bits: self.aggregation_bits@,
            data: self.data,
            signature: self.signature,
        }
    }

    open spec fn fits(v: AttestationValue, config: Config) -> bool {
        &&& v.aggregation_bits.len() <= config.max_validators_per_committee
        &&& frame(Attestation::pieces(v)).len() < 0x1_0000_0000
    }

    open spec fn spec_encode(v: AttestationValue) -> Seq<u8> {
        frame(Attestation::pieces(v))
    }

    open spec fn spec_decode(bytes: Seq<u8>, config: Config) -> Option<AttestationValue> {
        match unframe(bytes, Attestation::layout(config)) {
            None => None,
            Some(blobs) => {
                let aggregation_bits = bitlist_decode(
                    blobs[0],
                    config.max_validators_per_committee as nat,
                );
                let data = <AttestationData as Ssz>::spec_decode(blobs[1], config);
                let signature = <SignatureBytes as Ssz>::spec_decode(blobs[2], config);
                if aggregation_bits is Some && data is Some && signature is Some {
                    Some(
                        AttestationValue {
                            aggregation_bits: aggregation_bits->Some_0,
                            data: data->Some_0,
                            signature: signature->Some_0,
                        }
                    )
                } else {
                    None
                }
            },
        }
    }

    proof fn lemma_round_trip(v: AttestationValue, config: Config) {
        let pieces = Attestation::pieces(v);
        <AttestationData as FixedSsz>::lemma_size(v.data, Seq::empty(), config);
        <SignatureBytes as FixedSsz>::lemma_size(v.signature, Seq::empty(), config);
        lemma_unframe_frame(pieces);
        assert(layout_of(pieces) =~= Attestation::layout(config));
        assert(pieces[0].bytes == bitlist_encode(v.aggregation_bits));
        assert(pieces[1].bytes == <AttestationData as Ssz>::spec_encode(v.data));
        assert(pieces[2].bytes == <SignatureBytes as Ssz>::spec_encode(v.signature));
        lemma_bitlist_round_trip(v.aggregation_bits, config.max_validators_per_committee as nat);
        <AttestationData as Ssz>::lemma_round_trip(v.data, config);
        <SignatureBytes as Ssz>::lemma_round_trip(v.signature, config);
    }

    fn ssz_append(&self, buf: &mut Vec<u8>) {
        let ghost v = self.value();
        let ghost pieces = Attestation::pieces(v);
        let total: u128 = 0
            + 4u128
            + 128u128
            + 96u128;
        proof {
            let config: Config = arbitrary();
            <AttestationData as FixedSsz>::lemma_size(v.data, Seq::empty(), config);
            <SignatureBytes as FixedSsz>::lemma_size(v.signature, Seq::empty(), config);
            lemma_head_total_attestation(v);
        }
        let mut head: Vec<u8> = Vec::new();
        let mut tail: Vec<u8> = Vec::new();
        proof {
            assert(head@ =~= frame_head(pieces, 0));
            assert(tail@ =~= frame_tail(pieces, 0));
        }
        put_offset(&mut head, total + tail.len() as u128);
        bitlist_append(&self.aggregation_bits, &mut tail);
        proof {
            lemma_lengths(pieces, 1);
            assert(head@ =~= frame_head(pieces, 1));
            assert(tail@ =~= frame_tail(pieces, 1));
        }
        self.data.ssz_append(&mut head);
        proof {
            lemma_lengths(pieces, 2);
            assert(head@ =~= frame_head(pieces, 2));
            assert(tail@ =~= frame_tail(pieces, 2));
        }
        self.signature.ssz_append(&mut head);
        proof {
            lemma_lengths(pieces, 3);
            assert(head@ =~= frame_head(pieces, 3));
            assert(tail@ =~= frame_tail(pieces, 3));
        }
        append(buf, head.as_slice());
        append(buf, tail.as_slice());
        assert(buf@ =~= old(buf)@ + frame(pieces));
    }

    fn ssz_decode(bytes: &[u8], config: &Config) -> (r: Option<Attestation>) {
        let mut layout: Vec<Option<usize>> = Vec::new();
        layout.push(None);
        layout.push(Some(128usize));
        layout.push(Some(96usize));
        assert(layout_view(layout@) =~= Attestation::layout(*config));
        let ranges = match split(bytes, &layout) {
            Some(ranges) => ranges,
            None => {
                return None;
            },
        };
        let ghost blobs = unframe(bytes@, Attestation::layout(*config))->Some_0;
        assert(bytes@.subrange(ranges@[0].0 as int, ranges@[0].1 as int) == blobs[0]);
        let aggregation_bits = match bitlist_parse(
            slice_subrange(bytes, ranges[0].0, ranges[0].1),
            config.max_validators_per_committee,
        ) {
            Some(x) => x,
            None => {
                return None;
            },
        };
        assert(bytes@.subrange(ranges@[1].0 as int, ranges@[1].1 as int) == blobs[1]);
        let data = match <AttestationData as Ssz>::ssz_decode(
            slice_subrange(bytes, ranges[1].0, ranges[1].1),
            config,
        ) {
            Some(x) => x,
            None => {
                return None;
            },
        };
        assert(bytes@.subrange(ranges@[2].0 as int, ranges@[2].1 as int) == blobs[2]);
        let signature = match <SignatureBytes as Ssz>::ssz_decode(
            slice_subrange(bytes, ranges[2].0, ranges[2].1),
            config,
        ) {
            Some(x) => x,
            None => {
                return None;
            },
        };
        let r = Attestation { aggregation_bits, data, signature };
        proof {
            let want = Self::spec_decode(bytes@, *config)->Some_0;
            assert(r.value().aggregation_bits =~= want.aggregation_bits);
        }
        Some(r)
    }
}

/// The parts before the parts of varying length take as many bytes as their lengths say.
proof fn lemma_head_total_attestation(v: AttestationValue)
    ensures
        ({
            let p = Attestation::pieces(v);
            head_len(p, 3) == 4 + p[1].bytes.len() + p[2].bytes.len()
        }),
{
    let p = Attestation::pieces(v);
    lemma_head_step(p, 0);
    lemma_head_step(p, 1);
    lemma_head_step(p, 2);
}

/// The mathematical value of an indexed attestation.
pub struct IndexedAttestationValue {
    pub custody_bit_0_indices: Seq<u64>,
    pub custody_bit_1_indices: Seq<u64>,
    pub data: AttestationData,
    pub signature: SignatureBytes,
}

impl IndexedAttestation {
    /// The parts that the value is encoded as.
    pub open spec fn pieces(v: IndexedAttestationValue) -> Seq<Piece> {
        seq![
            Piece { var: true, bytes: items_encode::<u64>(v.custody_bit_0_indices) },
            Piece { var: true, bytes: items_encode::<u64>(v.custody_bit_1_indices) },
            Piece { var: false, bytes: <AttestationData as Ssz>::spec_encode(v.data) },
            Piece { var: false, bytes: <SignatureBytes as Ssz>::spec_encode(v.signature) },
        ]
    }

    /// The lengths of the parts of fixed length.
    pub open spec fn layout(config: Config) -> Seq<Option<nat>> {
        seq![
            None,
            None,
            Some(128nat),
            Some(96nat),
        ]
    }
}

impl Ssz for IndexedAttestation {
    type Value = IndexedAttestationValue;

    open spec fn value(&self) -> IndexedAttestationValue {
        IndexedAttestationValue {
            custody_bit_0_indices: values::<u64>(self.custody_bit_0_indices@),
            custody_bit_1_indices: values::<u64>(self.custody_bit_1_indices@),
            data: self.data,
            signature: self.signature,
        }
    }

    open spec fn fits(v: IndexedAttestationValue, config: Config) -> bool {
        &&& v.custody_bit_0_indices.len() <= config.max_validators_per_committee
        &&& v.custody_bit_1_indices.len() <= config.max_validators_per_committee
        &&& frame(IndexedAttestation::pieces(v)).len() < 0x1_0000_0000
    }

    open spec fn spec_encode(v: IndexedAttestationValue) -> Seq<u8> {
        frame(IndexedAttestation::pieces(v))
    }

    open spec fn spec_decode(bytes: Seq<u8>, config: Config) -> Option<IndexedAttestationValue> {
        match unframe(bytes, IndexedAttestation::layout(config)) {
            None => None,
            Some(blobs) => {
                let custody_bit_0_indices = list_decode::<u64>(
                    blobs[0],
                    config.max_validators_per_committee as nat,
                    config,
                );
                let custody_bit_1_indices = list_decode::<u64>(
                    blobs[1],
                    config.max_validators_per_committee as nat,
                    config,
                );
                let data = <AttestationData as Ssz>::spec_decode(blobs[2], config);
                let signature = <SignatureBytes as Ssz>::spec_decode(blobs[3], config);
                if custody_bit_0_indices is Some
                    && custody_bit_1_indices is Some
                    && data is Some
                    && signature is Some {
                    Some(
                        IndexedAttestationValue {
                            custody_bit_0_indices: custody_bit_0_indices->Some_0,
                            custody_bit_1_indices: custody_bit_1_indices->Some_0,
                            data: data->Some_0,
                            signature: signature->Some_0,
                        }
                    )
                } else {
                    None
                }
            },
        }
    }

    proof fn lemma_round_trip(v: IndexedAttestationValue, config: Config) {
        let pieces = IndexedAttestation::pieces(v);
        <AttestationData as FixedSsz>::lemma_size(v.data, Seq::empty(), config);
        <SignatureBytes as FixedSsz>::lemma_size(v.signature, Seq::empty(), config);
        lemma_unframe_frame(pieces);
        assert(layout_of(pieces) =~= IndexedAttestation::layout(config));
        assert(pieces[0].bytes == items_encode::<u64>(v.custody_bit_0_indices));
        assert(pieces[1].bytes == items_encode::<u64>(v.custody_bit_1_indices));
        assert(pieces[2].bytes == <AttestationData as Ssz>::spec_encode(v.data));
        assert(pieces[3].bytes == <SignatureBytes as Ssz>::spec_encode(v.signature));
        assert(all_fit::<u64>(v.custody_bit_0_indices, config));
        lemma_list_round_trip::<u64>(
            v.custody_bit_0_indices,
            config.max_validators_per_committee as nat,
            config,
        );
        assert(all_fit::<u64>(v.custody_bit_1_indices, config));
        lemma_list_round_trip::<u64>(
            v.custody_bit_1_indices,
            config.max_validators_per_committee as nat,
            config,
        );
        <AttestationData as Ssz>::lemma_round_trip(v.data, config);
        <SignatureBytes as Ssz>::lemma_round_trip(v.signature, config);
    }

    fn ssz_append(&self, buf: &mut Vec<u8>) {
        let ghost v = self.value();
        let ghost pieces = IndexedAttestation::pieces(v);
        let total: u128 = 0
            + 4u128
            + 4u128
            + 128u128
            + 96u128;
        proof {
            let config: Config = arbitrary();
            <AttestationData as FixedSsz>::lemma_size(v.data, Seq::empty(), config);
            <SignatureBytes as FixedSsz>::lemma_size(v.signature, Seq::empty(), config);
            lemma_head_total_indexedattestation(v);
        }
        let mut head: Vec<u8> = Vec::new();
        let mut tail: Vec<u8> = Vec::new();
        proof {
            assert(head@ =~= frame_head(pieces, 0));
            assert(tail@ =~= frame_tail(pieces, 0));
        }
        put_offset(&mut head, total + tail.len() as u128);
        items_append::<u64>(&self.custody_bit_0_indices, &mut tail);
        proof {
            lemma_lengths(pieces, 1);
            assert(head@ =~= frame_head(pieces, 1));
            assert(tail@ =~= frame_tail(pieces, 1));
        }
        put_offset(&mut head, total + tail.len() as u128);
        items_append::<u64>(&self.custody_bit_1_indices, &mut tail);
        proof {
            lemma_lengths(pieces, 2);
            assert(head@ =~= frame_head(pieces, 2));
            assert(tail@ =~= frame_tail(pieces, 2));
        }
        self.data.ssz_append(&mut head);
        proof {
            lemma_lengths(pieces, 3);
            assert(head@ =~= frame_head(pieces, 3));
            assert(tail@ =~= frame_tail(pieces, 3));
        }
        self.signature.ssz_append(&mut head);
        proof {
            lemma_lengths(pieces, 4);
            assert(head@ =~= frame_head(pieces, 4));
            assert(tail@ =~= frame_tail(pieces, 4));
        }
        append(buf, head.as_slice());
        append(buf, tail.as_slice());
        assert(buf@ =~= old(buf)@ + frame(pieces));
    }

    fn ssz_decode(bytes: &[u8], config: &Config) -> (r: Option<IndexedAttestation>) {
        let mut layout: Vec<Option<usize>> = Vec::new();
        layout.push(None);
        layout.push(None);
        layout.push(Some(128usize));
        layout.push(Some(96usize));
        assert(layout_view(layout@) =~= IndexedAttestation::layout(*config));
        let ranges = match split(bytes, &layout) {
            Some(ranges) => ranges,
            None => {
                return None;
            },
        };
        let ghost blobs = unframe(bytes@, IndexedAttestation::layout(*config))->Some_0;
        assert(bytes@.subrange(ranges@[0].0 as int, ranges@[0].1 as int) == blobs[0]);
        let custody_bit_0_indices = match list_parse::<u64>(
            slice_subrange(bytes, ranges[0].0, ranges[0].1),
            config.max_validators_per_committee,
            config,
        ) {
            Some(x) => x,
            None => {
                return None;
            },
        };
        assert(bytes@.subrange(ranges@[1].0 as int, ranges@[1].1 as int) == blobs[1]);
        let custody_bit_1_indices = match list_parse::<u64>(
            slice_subrange(bytes, ranges[1].0, ranges[1].1),
            config.max_validators_per_committee,
            config,
        ) {
            Some(x) => x,
            None => {
                return None;
            },
        };
        assert(bytes@.subrange(ranges@[2].0 as int, ranges@[2].1 as int) == blobs[2]);
        let data = match <AttestationData as Ssz>::ssz_decode(
            slice_subrange(bytes, ranges[2].0, ranges[2].1),
            config,
        ) {
            Some(x) => x,
            None => {
                return None;
            },
        };
        assert(bytes@.subrange(ranges@[3].0 as int, ranges@[3].1 as int) == blobs[3]);
        let signature = match <SignatureBytes as Ssz>::ssz_decode(
            slice_subrange(bytes, ranges[3].0, ranges[3].1),
            config,
        ) {
            Some(x) => x,
            None => {
                return None;
            },
        };
        let r = IndexedAttestation {
            custody_bit_0_indices,
            custody_bit_1_indices,
            data,
            signature,
        };
        proof {
            let want = Self::spec_decode(bytes@, *config)->Some_0;
            assert(r.value().custody_bit_0_indices =~= want.custody_bit_0_indices);
            assert(r.value().custody_bit_1_indices =~= want.custody_bit_1_indices);
        }
        Some(r)
    }
}

/// The parts before the parts of varying length take as many bytes as their lengths say.
proof fn lemma_head_total_indexedattestation(v: IndexedAttestationValue)
    ensures
        ({
            let p = IndexedAttestation::pieces(v);
            head_len(p, 4) == 4 + 4 + p[2].bytes.len() + p[3].bytes.len()
        }),
{
    let p = IndexedAttestation::pieces(v);
    lemma_head_step(p, 0);
    lemma_head_step(p, 1);
    lemma_head_step(p, 2);
    lemma_head_step(p, 3);
}

impl PendingAttestation {
    /// The parts that the value is encoded as.
    pub open spec fn pieces(v: PendingAttestationView) -> Seq<Piece> {
        seq![
            Piece { var: true, bytes: bitlist_encode(v.aggregation_bits) },
            Piece { var: false, bytes: <AttestationData as Ssz>::spec_encode(v.data) },
            Piece { var: false, bytes: <u64 as Ssz>::spec_encode(v.inclusion_delay) },
            Piece { var: false, bytes: <u64 as Ssz>::spec_encode(v.proposer_index) },
        ]
    }

    /// The lengths of the parts of fixed length.
    pub open spec fn layout(config: Config) -> Seq<Option<nat>> {
        seq![
            None,
            Some(128nat),
            Some(8nat),
            Some(8nat),
        ]
    }
}

impl Ssz for PendingAttestation {
    type Value = PendingAttestationView;

    open spec fn value(&self) -> PendingAttestationView {
        PendingAttestationView {
            aggregation_bits: self.aggregation_bits@,
            data: self.data,
            inclusion_delay: self.inclusion_delay,
            proposer_index: self.proposer_index,
        }
    }

    open spec fn fits(v: PendingAttestationView, config: Config) -> bool {
        &&& v.aggregation_bits.len() <= config.max_validators_per_committee
        &&& frame(PendingAttestation::pieces(v)).len() < 0x1_0000_0000
    }

    open spec fn spec_encode(v: PendingAttestationView) -> Seq<u8> {
        frame(PendingAttestation::pieces(v))
    }

    open spec fn spec_decode(bytes: Seq<u8>, config: Config) -> Option<PendingAttestationView> {
        match unframe(bytes, PendingAttestation::layout(config)) {
            None => None,
            Some(blobs) => {
                let aggregation_bits = bitlist_decode(
                    blobs[0],
                    config.max_validators_per_committee as nat,
                );
                let data = <AttestationData as Ssz>::spec_decode(blobs[1], config);
                let inclusion_delay = <u64 as Ssz>::spec_decode(blobs[2], config);
                let proposer_index = <u64 as Ssz>::spec_decode(blobs[3], config);
                if aggregation_bits is Some
                    && data is Some
                    && inclusion_delay is Some
                    && proposer_index is Some {
                    Some(
                        PendingAttestationView {
                            aggregation_bits: aggregation_bits->Some_0,
                            data: data->Some_0,
                            inclusion_delay: inclusion_delay->Some_0,
                            proposer_index: proposer_index->Some_0,
                        }
                    )
                } else {
                    None
                }
            },
        }
    }

    proof fn lemma_round_trip(v: PendingAttestationView, config: Config) {
        let pieces = PendingAttestation::pieces(v);
        <AttestationData as FixedSsz>::lemma_size(v.data, Seq::empty(), config);
        <u64 as FixedSsz>::lemma_size(v.inclusion_delay, Seq::empty(), config);
        <u64 as FixedSsz>::lemma_size(v.proposer_index, Seq::empty(), config);
        lemma_unframe_frame(pieces);
        assert(layout_of(pieces) =~= PendingAttestation::layout(config));
        assert(pieces[0].bytes == bitlist_encode(v.aggregation_bits));
        assert(pieces[1].bytes == <AttestationData as Ssz>::spec_encode(v.data));
        assert(pieces[2].bytes == <u64 as Ssz>::spec_encode(v.inclusion_delay));
        assert(pieces[3].bytes == <u64 as Ssz>::spec_encode(v.proposer_index));
        lemma_bitlist_round_trip(v.aggregation_bits, config.max_validators_per_committee as nat);
        <AttestationData as Ssz>::lemma_round_trip(v.data, config);
        <u64 as Ssz>::lemma_round_trip(v.inclusion_delay, config);
        <u64 as Ssz>::lemma_round_trip(v.proposer_index, config);
    }

    fn ssz_append(&self, buf: &mut Vec<u8>) {
        let ghost v = self.value();
        let ghost pieces = PendingAttestation::pieces(v);
        let total: u128 = 0
            + 4u128
            + 128u128
            + 8u128
            + 8u128;
        proof {
            let config: Config = arbitrary();
            <AttestationData as FixedSsz>::lemma_size(v.data, Seq::empty(), config);
            <u64 as FixedSsz>::lemma_size(v.inclusion_delay, Seq::empty(), config);
            <u64 as FixedSsz>::lemma_size(v.proposer_index, Seq::empty(), config);
            lemma_head_total_pendingattestation(v);
        }
        let mut head: Vec<u8> = Vec::new();
        let mut tail: Vec<u8> = Vec::new();
        proof {
            assert(head@ =~= frame_head(pieces, 0));
            assert(tail@ =~= frame_tail(pieces, 0));
        }
        put_offset(&mut head, total + tail.len() as u128);
        bitlist_append(&self.aggregation_bits, &mut tail);
        proof {
            lemma_lengths(pieces, 1);
            assert(head@ =~= frame_head(pieces, 1));
            assert(tail@ =~= frame_tail(pieces, 1));
        }
        self.data.ssz_append(&mut head);
        proof {
            lemma_lengths(pieces, 2);
            assert(head@ =~= frame_head(pieces, 2));
            assert(tail@ =~= frame_tail(pieces, 2));
        }
        self.inclusion_delay.ssz_append(&mut head);
        proof {
            lemma_lengths(pieces, 3);
            assert(head@ =~= frame_head(pieces, 3));
            assert(tail@ =~= frame_tail(pieces, 3));
        }
        self.proposer_index.ssz_append(&mut head);
        proof {
            lemma_lengths(pieces, 4);
            assert(head@ =~= frame_head(pieces, 4));
            assert(tail@ =~= frame_tail(pieces, 4));
        }
        append(buf, head.as_slice());
        append(buf, tail.as_slice());
        assert(buf@ =~= old(buf)@ + frame(pieces));
    }

    fn ssz_decode(bytes: &[u8], config: &Config) -> (r: Option<PendingAttestation>) {
        let mut layout: Vec<Option<usize>> = Vec::new();
        layout.push(None);
        layout.push(Some(128usize));
        layout.push(Some(8usize));
        layout.push(Some(8usize));
        assert(layout_view(layout@) =~= PendingAttestation::layout(*config));
        let ranges = match split(bytes, &layout) {
            Some(ranges) => ranges,
            None => {
                return None;
            },
        };
        let ghost blobs = unframe(bytes@, PendingAttestation::layout(*config))->Some_0;
        assert(bytes@.subrange(ranges@[0].0 as int, ranges@[0].1 as int) == blobs[0]);
        let aggregation_bits = match bitlist_parse(
            slice_subrange(bytes, ranges[0].0, ranges[0].1),
            config.max_validators_per_committee,
        ) {
            Some(x) => x,
            None => {
                return None;
            },
        };
        assert(bytes@.subrange(ranges@[1].0 as int, ranges@[1].1 as int) == blobs[1]);
        let data = match <AttestationData as Ssz>::ssz_decode(
            slice_subrange(bytes, ranges[1].0, ranges[1].1),
            config,
        ) {
            Some(x) => x,
            None => {
                return None;
            },
        };
        assert(bytes@.subrange(ranges@[2].0 as int, ranges@[2].1 as int) == blobs[2]);
        let inclusion_delay = match <u64 as Ssz>::ssz_decode(
            slice_subrange(bytes, ranges[2].0, ranges[2].1),
            config,
        ) {
            Some(x) => x,
            None => {
                return None;
            },
        };
        assert(bytes@.subrange(ranges@[3].0 as int, ranges@[3].1 as int) == blobs[3]);
        let proposer_index = match <u64 as Ssz>::ssz_decode(
            slice_subrange(bytes, ranges[3].0, ranges[3].1),
            config,
        ) {
            Some(x) => x,
            None => {
                return None;
            },
        };
        let r = PendingAttestation { aggregation_bits, data, inclusion_delay, proposer_index };
        proof {
            let want = Self::spec_decode(bytes@, *config)->Some_0;
            assert(r.value().aggregation_bits =~= want.aggregation_bits);
        }
        Some(r)
    }
}

/// The parts before the parts of varying length take as many bytes as their lengths say.
proof fn lemma_head_total_pendingattestation(v: PendingAttestationView)
    ensures
        ({
            let p = PendingAttestation::pieces(v);
            head_len(p, 4) == 4 + p[1].bytes.len() + p[2].bytes.len() + p[3].bytes.len()
        }),
{
    let p = PendingAttestation::pieces(v);
    lemma_head_step(p, 0);
    lemma_head_step(p, 1);
    lemma_head_step(p, 2);
    lemma_head_step(p, 3);
}

/// The mathematical value of an attester slashing.
pub struct AttesterSlashingValue {
    pub attestation_1: IndexedAttestationValue,
    pub attestation_2: IndexedAttestationValue,
}

impl AttesterSlashing {
    /// The parts that the value is encoded as.
    pub open spec fn pieces(v: AttesterSlashingValue) -> Seq<Piece> {
        seq![
            Piece { var: true, bytes: <IndexedAttestation as Ssz>::spec_encode(v.attestation_1) },
            Piece { var: true, bytes: <IndexedAttestation as Ssz>::spec_encode(v.attestation_2) },
        ]
    }

    /// The lengths of the parts of fixed length.
    pub open spec fn layout(config: Config) -> Seq<Option<nat>> {
        seq![
            None,
            None,
        ]
    }
}

impl Ssz for AttesterSlashing {
    type Value = AttesterSlashingValue;

    open spec fn value(&self) -> AttesterSlashingValue {
        AttesterSlashingValue {
            attestation_1: self.attestation_1.value(),
            attestation_2: self.attestation_2.value(),
        }
    }

    open spec fn fits(v: AttesterSlashingValue, config: Config) -> bool {
        &&& <IndexedAttestation as Ssz>::fits(v.attestation_1, config)
        &&& <IndexedAttestation as Ssz>::fits(v.attestation_2, config)
        &&& frame(AttesterSlashing::pieces(v)).len() < 0x1_0000_0000
    }

    open spec fn spec_encode(v: AttesterSlashingValue) -> Seq<u8> {
        frame(AttesterSlashing::pieces(v))
    }

    open spec fn spec_decode(bytes: Seq<u8>, config: Config) -> Option<AttesterSlashingValue> {
        match unframe(bytes, AttesterSlashing::layout(config)) {
            None => None,
            Some(blobs) => {
                let attestation_1 = <IndexedAttestation as Ssz>::spec_decode(blobs[0], config);
                let attestation_2 = <IndexedAttestation as Ssz>::spec_decode(blobs[1], config);
                if attestation_1 is Some && attestation_2 is Some {
                    Some(
                        AttesterSlashingValue {
                            attestation_1: attestation_1->Some_0,
                            attestation_2: attestation_2->Some_0,
                        }
                    )
                } else {
                    None
                }
            },
        }
    }

    proof fn lemma_round_trip(v: AttesterSlashingValue, config: Config) {
        let pieces = AttesterSlashing::pieces(v);

        lemma_unframe_frame(pieces);
        assert(layout_of(pieces) =~= AttesterSlashing::layout(config));
        lemma_piece_within(pieces, 0);
        lemma_piece_within(pieces, 1);
        assert(pieces[0].bytes == <IndexedAttestation as Ssz>::spec_encode(v.attestation_1));
        assert(pieces[1].bytes == <IndexedAttestation as Ssz>::spec_encode(v.attestation_2));
        <IndexedAttestation as Ssz>::lemma_round_trip(v.attestation_1, config);
        <IndexedAttestation as Ssz>::lemma_round_trip(v.attestation_2, config);
    }

    fn ssz_append(&self, buf: &mut Vec<u8>) {
        let ghost v = self.value();
        let ghost pieces = AttesterSlashing::pieces(v);
        let total: u128 = 0
            + 4u128
            + 4u128;
        proof {
            let config: Config = arbitrary();

            lemma_head_total_attesterslashing(v);
        }
        let mut head: Vec<u8> = Vec::new();
        let mut tail: Vec<u8> = Vec::new();
        proof {
            assert(head@ =~= frame_head(pieces, 0));
            assert(tail@ =~= frame_tail(pieces, 0));
        }
        put_offset(&mut head, total + tail.len() as u128);
        self.attestation_1.ssz_append(&mut tail);
        proof {
            lemma_lengths(pieces, 1);
            assert(head@ =~= frame_head(pieces, 1));
            assert(tail@ =~= frame_tail(pieces, 1));
        }
        put_offset(&mut head, total + tail.len() as u128);
        self.attestation_2.ssz_append(&mut tail);
        proof {
            lemma_lengths(pieces, 2);
            assert(head@ =~= frame_head(pieces, 2));
            assert(tail@ =~= frame_tail(pieces, 2));
        }
        append(buf, head.as_slice());
        append(buf, tail.as_slice());
        assert(buf@ =~= old(buf)@ + frame(pieces));
    }

    fn ssz_decode(bytes: &[u8], config: &Config) -> (r: Option<AttesterSlashing>) {
        let mut layout: Vec<Option<usize>> = Vec::new();
        layout.push(None);
        layout.push(None);
        assert(layout_view(layout@) =~= AttesterSlashing::layout(*config));
        let ranges = match split(bytes, &layout) {
            Some(ranges) => ranges,
            None => {
                return None;
            },
        };
        let ghost blobs = unframe(bytes@, AttesterSlashing::layout(*config))->Some_0;
        assert(bytes@.subrange(ranges@[0].0 as int, ranges@[0].1 as int) == blobs[0]);
        let attestation_1 = match <IndexedAttestation as Ssz>::ssz_decode(
            slice_subrange(bytes, ranges[0].0, ranges[0].1),
            config,
        ) {
            Some(x) => x,
            None => {
                return None;
            },
        };
        assert(bytes@.subrange(ranges@[1].0 as int, ranges@[1].1 as int) == blobs[1]);
        let attestation_2 = match <IndexedAttestation as Ssz>::ssz_decode(
            slice_subrange(bytes, ranges[1].0, ranges[1].1),
            config,
        ) {
            Some(x) => x,
            None => {
                return None;
            },
        };
        let r = AttesterSlashing { attestation_1, attestation_2 };
        proof {
            let want = Self::spec_decode(bytes@, *config)->Some_0;

        }
        Some(r)
    }
}

/// The parts before the parts of varying length take as many bytes as their lengths say.
proof fn lemma_head_total_attesterslashing(v: AttesterSlashingValue)
    ensures
        ({
            let p = AttesterSlashing::pieces(v);
            head_len(p, 2) == 4 + 4
        }),
{
    let p = AttesterSlashing::pieces(v);
    lemma_head_step(p, 0);
    lemma_head_step(p, 1);
}

/// The mathematical value of a deposit.
pub struct DepositValue {
    pub proof: Seq<H256>,
    pub data: DepositData,
}

impl Deposit {
    /// The parts that the value is encoded as.
    pub open spec fn pieces(v: DepositValue) -> Seq<Piece> {
        seq![
            Piece { var: false, bytes: items_encode::<H256>(v.proof) },
            Piece { var: false, bytes: <DepositData as Ssz>::spec_encode(v.data) },
        ]
    }

    /// The lengths of the parts of fixed length.
    pub open spec fn layout(config: Config) -> Seq<Option<nat>> {
        seq![
            Some((33 * 32) as nat),
            Some(184nat),
        ]
    }
}

impl Ssz for Deposit {
    type Value = DepositValue;

    open spec fn value(&self) -> DepositValue {
        DepositValue {
            proof: values::<H256>(self.proof@),
            data: self.data,
        }
    }

    open spec fn fits(v: DepositValue, config: Config) -> bool {
        &&& v.proof.len() == 33
        &&& frame(Deposit::pieces(v)).len() < 0x1_0000_0000
    }

    open spec fn spec_encode(v: DepositValue) -> Seq<u8> {
        frame(Deposit::pieces(v))
    }

    open spec fn spec_decode(bytes: Seq<u8>, config: Config) -> Option<DepositValue> {
        match unframe(bytes, Deposit::layout(config)) {
            None => None,
            Some(blobs) => {
                let proof = vector_decode::<H256>(blobs[0], 33nat, config);
                let data = <DepositData as Ssz>::spec_decode(blobs[1], config);
                if proof is Some && data is Some {
                    Some(DepositValue { proof: proof->Some_0, data: data->Some_0 })
                } else {
                    None
                }
            },
        }
    }

    proof fn lemma_round_trip(v: DepositValue, config: Config) {
        let pieces = Deposit::pieces(v);
        lemma_items_len::<H256>(v.proof, config);
        <DepositData as FixedSsz>::lemma_size(v.data, Seq::empty(), config);
        lemma_unframe_frame(pieces);
        assert(layout_of(pieces) =~= Deposit::layout(config));
        assert(pieces[0].bytes == items_encode::<H256>(v.proof));
        assert(pieces[1].bytes == <DepositData as Ssz>::spec_encode(v.data));
        assert(all_fit::<H256>(v.proof, config));
        lemma_vector_round_trip::<H256>(v.proof, config);
        <DepositData as Ssz>::lemma_round_trip(v.data, config);
    }

    fn ssz_append(&self, buf: &mut Vec<u8>) {
        let ghost v = self.value();
        let ghost pieces = Deposit::pieces(v);
        let total: u128 = 0
            + (self.proof.len() as u128) * 32
            + 184u128;
        proof {
            let config: Config = arbitrary();
            lemma_items_len::<H256>(v.proof, config);
            <DepositData as FixedSsz>::lemma_size(v.data, Seq::empty(), config);
            lemma_head_total_deposit(v);
        }
        let mut head: Vec<u8> = Vec::new();
        let mut tail: Vec<u8> = Vec::new();
        proof {
            assert(head@ =~= frame_head(pieces, 0));
            assert(tail@ =~= frame_tail(pieces, 0));
        }
        items_append::<H256>(&self.proof, &mut head);
        proof {
            lemma_lengths(pieces, 1);
            assert(head@ =~= frame_head(pieces, 1));
            assert(tail@ =~= frame_tail(pieces, 1));
        }
        self.data.ssz_append(&mut head);
        proof {
            lemma_lengths(pieces, 2);
            assert(head@ =~= frame_head(pieces, 2));
            assert(tail@ =~= frame_tail(pieces, 2));
        }
        append(buf, head.as_slice());
        append(buf, tail.as_slice());
        assert(buf@ =~= old(buf)@ + frame(pieces));
    }

    fn ssz_decode(bytes: &[u8], config: &Config) -> (r: Option<Deposit>) {
        let mut layout: Vec<Option<usize>> = Vec::new();
        layout.push(Some((33 as usize) * 32));
        layout.push(Some(184usize));
        assert(layout_view(layout@) =~= Deposit::layout(*config));
        let ranges = match split(bytes, &layout) {
            Some(ranges) => ranges,
            None => {
                return None;
            },
        };
        let ghost blobs = unframe(bytes@, Deposit::layout(*config))->Some_0;
        assert(bytes@.subrange(ranges@[0].0 as int, ranges@[0].1 as int) == blobs[0]);
        let proof = match vector_parse::<H256>(
            slice_subrange(bytes, ranges[0].0, ranges[0].1),
            33,
            config,
        ) {
            Some(x) => x,
            None => {
                return None;
            },
        };
        assert(bytes@.subrange(ranges@[1].0 as int, ranges@[1].1 as int) == blobs[1]);
        let data = match <DepositData as Ssz>::ssz_decode(
            slice_subrange(bytes, ranges[1].0, ranges[1].1),
            config,
        ) {
            Some(x) => x,
            None => {
                return None;
            },
        };
        let r = Deposit { proof, data };
        proof {
            let want = Self::spec_decode(bytes@, *config)->Some_0;
            assert(r.value().proof =~= want.proof);
        }
        Some(r)
    }
}

/// The parts before the parts of varying length take as many bytes as their lengths say.
proof fn lemma_head_total_deposit(v: DepositValue)
    ensures
        ({
            let p = Deposit::pieces(v);
            head_len(p, 2) == p[0].bytes.len() + p[1].bytes.len()
        }),
{
    let p = Deposit::pieces(v);
    lemma_head_step(p, 0);
    lemma_head_step(p, 1);
}

/// The mathematical value of the body of a block.
pub struct BeaconBlockBodyValue {
    pub randao_reveal: SignatureBytes,
    pub eth1_data: Eth1Data,
    pub graffiti: H256,
    pub proposer_slashings: Seq<ProposerSlashing>,
    pub attester_slashings: Seq<AttesterSlashingValue>,
    pub attestations: Seq<AttestationValue>,
    pub deposits: Seq<DepositValue>,
    pub voluntary_exits: Seq<SignedVoluntaryExit>,
}

impl BeaconBlockBody {
    /// The parts that the value is encoded as.
    pub open spec fn pieces(v: BeaconBlockBodyValue) -> Seq<Piece> {
        seq![
            Piece { var: false, bytes: <SignatureBytes as Ssz>::spec_encode(v.randao_reveal) },
            Piece { var: false, bytes: <Eth1Data as Ssz>::spec_encode(v.eth1_data) },
            Piece { var: false, bytes: <H256 as Ssz>::spec_encode(v.graffiti) },
            Piece { var: true, bytes: items_encode::<ProposerSlashing>(v.proposer_slashings) },
            Piece { var: true, bytes: var_items_encode::<AttesterSlashing>(v.attester_slashings) },
            Piece { var: true, bytes: var_items_encode::<Attestation>(v.attestations) },
            Piece { var: true, bytes: var_items_encode::<Deposit>(v.deposits) },
            Piece { var: true, bytes: items_encode::<SignedVoluntaryExit>(v.voluntary_exits) },
        ]
    }

    /// The lengths of the parts of fixed length.
    pub open spec fn layout(config: Config) -> Seq<Option<nat>> {
        seq![
            Some(96nat),
            Some(72nat),
            Some(32nat),
            None,
            None,
            None,
            None,
            None,
        ]
    }
}

impl Ssz for BeaconBlockBody {
    type Value = BeaconBlockBodyValue;

    open spec fn value(&self) -> BeaconBlockBodyValue {
        BeaconBlockBodyValue {
            randao_reveal: self.randao_reveal,
            eth1_data: self.eth1_data,
            graffiti: self.graffiti,
            proposer_slashings: values::<ProposerSlashing>(self.proposer_slashings@),
            attester_slashings: values::<AttesterSlashing>(self.attester_slashings@),
            attestations: values::<Attestation>(self.attestations@),
            deposits: values::<Deposit>(self.deposits@),
            voluntary_exits: values::<SignedVoluntaryExit>(self.voluntary_exits@),
        }
    }

    open spec fn fits(v: BeaconBlockBodyValue, config: Config) -> bool {
        &&& v.proposer_slashings.len() <= config.max_proposer_slashings
        &&& v.attester_slashings.len() <= config.max_attester_slashings
        &&& all_fit::<AttesterSlashing>(v.attester_slashings, config)
        &&& v.attestations.len() <= config.max_attestations
        &&& all_fit::<Attestation>(v.attestations, config)
        &&& v.deposits.len() <= config.max_deposits
        &&& all_fit::<Deposit>(v.deposits, config)
        &&& v.voluntary_exits.len() <= config.max_voluntary_exits
        &&& frame(BeaconBlockBody::pieces(v)).len() < 0x1_0000_0000
    }

    open spec fn spec_encode(v: BeaconBlockBodyValue) -> Seq<u8> {
        frame(BeaconBlockBody::pieces(v))
    }

    open spec fn spec_decode(bytes: Seq<u8>, config: Config) -> Option<BeaconBlockBodyValue> {
        match unframe(bytes, BeaconBlockBody::layout(config)) {
            None => None,
            Some(blobs) => {
                let randao_reveal = <SignatureBytes as Ssz>::spec_decode(blobs[0], config);
                let eth1_data = <Eth1Data as Ssz>::spec_decode(blobs[1], config);
                let graffiti = <H256 as Ssz>::spec_decode(blobs[2], config);
                let proposer_slashings = list_decode::<ProposerSlashing>(
                    blobs[3],
                    config.max_proposer_slashings as nat,
                    config,
                );
                let attester_slashings = var_list_decode::<AttesterSlashing>(
                    blobs[4],
                    config.max_attester_slashings as nat,
                    config,
                );
                let attestations = var_list_decode::<Attestation>(
                    blobs[5],
                    config.max_attestations as nat,
                    config,
                );
                let deposits = var_list_decode::<Deposit>(
                    blobs[6],
                    config.max_deposits as nat,
                    config,
                );
                let voluntary_exits = list_decode::<SignedVoluntaryExit>(
                    blobs[7],
                    config.max_voluntary_exits as nat,
                    config,
                );
                if randao_reveal is Some
                    && eth1_data is Some
                    && graffiti is Some
                    && proposer_slashings is Some
                    && attester_slashings is Some
                    && attestations is Some
                    && deposits is Some
                    && voluntary_exits is Some {
                    Some(
                        BeaconBlockBodyValue {
                            randao_reveal: randao_reveal->Some_0,
                            eth1_data: eth1_data->Some_0,
                            graffiti: graffiti->Some_0,
                            proposer_slashings: proposer_slashings->Some_0,
                            attester_slashings: attester_slashings->Some_0,
                            attestations: attestations->Some_0,
                            deposits: deposits->Some_0,
                            voluntary_exits: voluntary_exits->Some_0,
                        }
                    )
                } else {
                    None
                }
            },
        }
    }

    proof fn lemma_round_trip(v: BeaconBlockBodyValue, config: Config) {
        let pieces = BeaconBlockBody::pieces(v);
        <SignatureBytes as FixedSsz>::lemma_size(v.randao_reveal, Seq::empty(), config);
        <Eth1Data as FixedSsz>::lemma_size(v.eth1_data, Seq::empty(), config);
        <H256 as FixedSsz>::lemma_size(v.graffiti, Seq::empty(), config);
        lemma_unframe_frame(pieces);
        assert(layout_of(pieces) =~= BeaconBlockBody::layout(config));
        lemma_piece_within(pieces, 4);
        lemma_piece_within(pieces, 5);
        lemma_piece_within(pieces, 6);
        assert(pieces[0].bytes == <SignatureBytes as Ssz>::spec_encode(v.randao_reveal));
        assert(pieces[1].bytes == <Eth1Data as Ssz>::spec_encode(v.eth1_data));
        assert(pieces[2].bytes == <H256 as Ssz>::spec_encode(v.graffiti));
        assert(pieces[3].bytes == items_encode::<ProposerSlashing>(v.proposer_slashings));
        assert(pieces[4].bytes == var_items_encode::<AttesterSlashing>(v.attester_slashings));
        assert(pieces[5].bytes == var_items_encode::<Attestation>(v.attestations));
        assert(pieces[6].bytes == var_items_encode::<Deposit>(v.deposits));
        assert(pieces[7].bytes == items_encode::<SignedVoluntaryExit>(v.voluntary_exits));
        <SignatureBytes as Ssz>::lemma_round_trip(v.randao_reveal, config);
        <Eth1Data as Ssz>::lemma_round_trip(v.eth1_data, config);
        <H256 as Ssz>::lemma_round_trip(v.graffiti, config);
        assert(all_fit::<ProposerSlashing>(v.proposer_slashings, config));
        lemma_list_round_trip::<ProposerSlashing>(
            v.proposer_slashings,
            config.max_proposer_slashings as nat,
            config,
        );
        lemma_var_items_round_trip::<AttesterSlashing>(v.attester_slashings, config);
        lemma_var_items_round_trip::<Attestation>(v.attestations, config);
        lemma_var_items_round_trip::<Deposit>(v.deposits, config);
        assert(all_fit::<SignedVoluntaryExit>(v.voluntary_exits, config));
        lemma_list_round_trip::<SignedVoluntaryExit>(
            v.voluntary_exits,
            config.max_voluntary_exits as nat,
            config,
        );
    }

    fn ssz_append(&self, buf: &mut Vec<u8>) {
        let ghost v = self.value();
        let ghost pieces = BeaconBlockBody::pieces(v);
        let total: u128 = 0
            + 96u128
            + 72u128
            + 32u128
            + 4u128
            + 4u128
            + 4u128
            + 4u128
            + 4u128;
        proof {
            let config: Config = arbitrary();
            <SignatureBytes as FixedSsz>::lemma_size(v.randao_reveal, Seq::empty(), config);
            <Eth1Data as FixedSsz>::lemma_size(v.eth1_data, Seq::empty(), config);
            <H256 as FixedSsz>::lemma_size(v.graffiti, Seq::empty(), config);
            lemma_head_total_beaconblockbody(v);
        }
        let mut head: Vec<u8> = Vec::new();
        let mut tail: Vec<u8> = Vec::new();
        proof {
            assert(head@ =~= frame_head(pieces, 0));
            assert(tail@ =~= frame_tail(pieces, 0));
        }
        self.randao_reveal.ssz_append(&mut head);
        proof {
            lemma_lengths(pieces, 1);
            assert(head@ =~= frame_head(pieces, 1));
            assert(tail@ =~= frame_tail(pieces, 1));
        }
        self.eth1_data.ssz_append(&mut head);
        proof {
            lemma_lengths(pieces, 2);
            assert(head@ =~= frame_head(pieces, 2));
            assert(tail@ =~= frame_tail(pieces, 2));
        }
        self.graffiti.ssz_append(&mut head);
        proof {
            lemma_lengths(pieces, 3);
            assert(head@ =~= frame_head(pieces, 3));
            assert(tail@ =~= frame_tail(pieces, 3));
        }
        put_offset(&mut head, total + tail.len() as u128);
        items_append::<ProposerSlashing>(&self.proposer_slashings, &mut tail);
        proof {
            lemma_lengths(pieces, 4);
            assert(head@ =~= frame_head(pieces, 4));
            assert(tail@ =~= frame_tail(pieces, 4));
        }
        put_offset(&mut head, total + tail.len() as u128);
        var_items_append::<AttesterSlashing>(&self.attester_slashings, &mut tail);
        proof {
            lemma_lengths(pieces, 5);
            assert(head@ =~= frame_head(pieces, 5));
            assert(tail@ =~= frame_tail(pieces, 5));
        }
        put_offset(&mut head, total + tail.len() as u128);
        var_items_append::<Attestation>(&self.attestations, &mut tail);
        proof {
            lemma_lengths(pieces, 6);
            assert(head@ =~= frame_head(pieces, 6));
            assert(tail@ =~= frame_tail(pieces, 6));
        }
        put_offset(&mut head, total + tail.len() as u128);
        var_items_append::<Deposit>(&self.deposits, &mut tail);
        proof {
            lemma_lengths(pieces, 7);
            assert(head@ =~= frame_head(pieces, 7));
            assert(tail@ =~= frame_tail(pieces, 7));
        }
        put_offset(&mut head, total + tail.len() as u128);
        items_append::<SignedVoluntaryExit>(&self.voluntary_exits, &mut tail);
        proof {
            lemma_lengths(pieces, 8);
            assert(head@ =~= frame_head(pieces, 8));
            assert(tail@ =~= frame_tail(pieces, 8));
        }
        append(buf, head.as_slice());
        append(buf, tail.as_slice());
        assert(buf@ =~= old(buf)@ + frame(pieces));
    }

    fn ssz_decode(bytes: &[u8], config: &Config) -> (r: Option<BeaconBlockBody>) {
        let mut layout: Vec<Option<usize>> = Vec::new();
        layout.push(Some(96usize));
        layout.push(Some(72usize));
        layout.push(Some(32usize));
        layout.push(None);
        layout.push(None);
        layout.push(None);
        layout.push(None);
        layout.push(None);
        assert(layout_view(layout@) =~= BeaconBlockBody::layout(*config));
        let ranges = match split(bytes, &layout) {
            Some(ranges) => ranges,
            None => {
                return None;
            },
        };
        let ghost blobs = unframe(bytes@, BeaconBlockBody::layout(*config))->Some_0;
        assert(bytes@.subrange(ranges@[0].0 as int, ranges@[0].1 as int) == blobs[0]);
        let randao_reveal = match <SignatureBytes as Ssz>::ssz_decode(
            slice_subrange(bytes, ranges[0].0, ranges[0].1),
            config,
        ) {
            Some(x) => x,
            None => {
                return None;
            },
        };
        assert(bytes@.subrange(ranges@[1].0 as int, ranges@[1].1 as int) == blobs[1]);
        let eth1_data = match <Eth1Data as Ssz>::ssz_decode(
            slice_subrange(bytes, ranges[1].0, ranges[1].1),
            config,
        ) {
            Some(x) => x,
            None => {
                return None;
            },
        };
        assert(bytes@.subrange(ranges@[2].0 as int, ranges@[2].1 as int) == blobs[2]);
        let graffiti = match <H256 as Ssz>::ssz_decode(
            slice_subrange(bytes, ranges[2].0, ranges[2].1),
            config,
        ) {
            Some(x) => x,
            None => {
                return None;
            },
        };
        assert(bytes@.subrange(ranges@[3].0 as int, ranges@[3].1 as int) == blobs[3]);
        let proposer_slashings = match list_parse::<ProposerSlashing>(
            slice_subrange(bytes, ranges[3].0, ranges[3].1),
            config.max_proposer_slashings,
            config,
        ) {
            Some(x) => x,
            None => {
                return None;
            },
        };
        assert(bytes@.subrange(ranges@[4].0 as int, ranges@[4].1 as int) == blobs[4]);
        let attester_slashings = match var_list_parse::<AttesterSlashing>(
            slice_subrange(bytes, ranges[4].0, ranges[4].1),
            config.max_attester_slashings,
            config,
        ) {
            Some(x) => x,
            None => {
                return None;
            },
        };
        assert(bytes@.subrange(ranges@[5].0 as int, ranges@[5].1 as int) == blobs[5]);
        let attestations = match var_list_parse::<Attestation>(
            slice_subrange(bytes, ranges[5].0, ranges[5].1),
            config.max_attestations,
            config,
        ) {
            Some(x) => x,
            None => {
                return None;
            },
        };
        assert(bytes@.subrange(ranges@[6].0 as int, ranges@[6].1 as int) == blobs[6]);
        let deposits = match var_list_parse::<Deposit>(
            slice_subrange(bytes, ranges[6].0, ranges[6].1),
            config.max_deposits,
            config,
        ) {
            Some(x) => x,
            None => {
                return None;
            },
        };
        assert(bytes@.subrange(ranges@[7].0 as int, ranges@[7].1 as int) == blobs[7]);
        let voluntary_exits = match list_parse::<SignedVoluntaryExit>(
            slice_subrange(bytes, ranges[7].0, ranges[7].1),
            config.max_voluntary_exits,
            config,
        ) {
            Some(x) => x,
            None => {
                return None;
            },
        };
        let r = BeaconBlockBody {
            randao_reveal,
            eth1_data,
            graffiti,
            proposer_slashings,
            attester_slashings,
            attestations,
            deposits,
            voluntary_exits,
        };
        proof {
            let want = Self::spec_decode(bytes@, *config)->Some_0;
            assert(r.value().proposer_slashings =~= want.proposer_slashings);
            assert(r.value().attester_slashings =~= want.attester_slashings);
            assert(r.value().attestations =~= want.attestations);
            assert(r.value().deposits =~= want.deposits);
            assert(r.value().voluntary_exits =~= want.voluntary_exits);
        }
        Some(r)
    }
}

/// The parts before the parts of varying length take as many bytes as their lengths say.
proof fn lemma_head_total_beaconblockbody(v: BeaconBlockBodyValue)
    ensures
        ({
            let p = BeaconBlockBody::pieces(v);
            head_len(
                p,
                8,
            ) == p[0].bytes.len() + p[1].bytes.len() + p[2].bytes.len() + 4 + 4 + 4 + 4 + 4
        }),
{
    let p = BeaconBlockBody::pieces(v);
    lemma_head_step(p, 0);
    lemma_head_step(p, 1);
    lemma_head_step(p, 2);
    lemma_head_step(p, 3);
    lemma_head_step(p, 4);
    lemma_head_step(p, 5);
    lemma_head_step(p, 6);
    lemma_head_step(p, 7);
}

/// The mathematical value of a block.
pub struct BeaconBlockValue {
    pub slot: u64,
    pub proposer_index: u64,
    pub parent_root: H256,
    pub state_root: H256,
    pub body: BeaconBlockBodyValue,
}

impl BeaconBlock {
    /// The parts that the value is encoded as.
    pub open spec fn pieces(v: BeaconBlockValue) -> Seq<Piece> {
        seq![
            Piece { var: false, bytes: <u64 as Ssz>::spec_encode(v.slot) },
            Piece { var: false, bytes: <u64 as Ssz>::spec_encode(v.proposer_index) },
            Piece { var: false, bytes: <H256 as Ssz>::spec_encode(v.parent_root) },
            Piece { var: false, bytes: <H256 as Ssz>::spec_encode(v.state_root) },
            Piece { var: true, bytes: <BeaconBlockBody as Ssz>::spec_encode(v.body) },
        ]
    }

    /// The lengths of the parts of fixed length.
    pub open spec fn layout(config: Config) -> Seq<Option<nat>> {
        seq![
            Some(8nat),
            Some(8nat),
            Some(32nat),
            Some(32nat),
            None,
        ]
    }
}

impl Ssz for BeaconBlock {
    type Value = BeaconBlockValue;

    open spec fn value(&self) -> BeaconBlockValue {
        BeaconBlockValue {
            slot: self.slot,
            proposer_index: self.proposer_index,
            parent_root: self.parent_root,
            state_root: self.state_root,
            body: self.body.value(),
        }
    }

    open spec fn fits(v: BeaconBlockValue, config: Config) -> bool {
        &&& <BeaconBlockBody as Ssz>::fits(v.body, config)
        &&& frame(BeaconBlock::pieces(v)).len() < 0x1_0000_0000
    }

    open spec fn spec_encode(v: BeaconBlockValue) -> Seq<u8> {
        frame(BeaconBlock::pieces(v))
    }

    open spec fn spec_decode(bytes: Seq<u8>, config: Config) -> Option<BeaconBlockValue> {
        match unframe(bytes, BeaconBlock::layout(config)) {
            None => None,
            Some(blobs) => {
                let slot = <u64 as Ssz>::spec_decode(blobs[0], config);
                let proposer_index = <u64 as Ssz>::spec_decode(blobs[1], config);
                let parent_root = <H256 as Ssz>::spec_decode(blobs[2], config);
                let state_root = <H256 as Ssz>::spec_decode(blobs[3], config);
                let body = <BeaconBlockBody as Ssz>::spec_decode(blobs[4], config);
                if slot is Some
                    && proposer_index is Some
                    && parent_root is Some
                    && state_root is Some
                    && body is Some {
                    Some(
                        BeaconBlockValue {
                            slot: slot->Some_0,
                            proposer_index: proposer_index->Some_0,
                            parent_root: parent_root->Some_0,
                            state_root: state_root->Some_0,
                            body: body->Some_0,
                        }
                    )
                } else {
                    None
                }
            },
        }
    }

    proof fn lemma_round_trip(v: BeaconBlockValue, config: Config) {
        let pieces = BeaconBlock::pieces(v);
        <u64 as FixedSsz>::lemma_size(v.slot, Seq::empty(), config);
        <u64 as FixedSsz>::lemma_size(v.proposer_index, Seq::empty(), config);
        <H256 as FixedSsz>::lemma_size(v.parent_root, Seq::empty(), config);
        <H256 as FixedSsz>::lemma_size(v.state_root, Seq::empty(), config);
        lemma_unframe_frame(pieces);
        assert(layout_of(pieces) =~= BeaconBlock::layout(config));
        lemma_piece_within(pieces, 4);
        assert(pieces[0].bytes == <u64 as Ssz>::spec_encode(v.slot));
        assert(pieces[1].bytes == <u64 as Ssz>::spec_encode(v.proposer_index));
        assert(pieces[2].bytes == <H256 as Ssz>::spec_encode(v.parent_root));
        assert(pieces[3].bytes == <H256 as Ssz>::spec_encode(v.state_root));
        assert(pieces[4].bytes == <BeaconBlockBody as Ssz>::spec_encode(v.body));
        <u64 as Ssz>::lemma_round_trip(v.slot, config);
        <u64 as Ssz>::lemma_round_trip(v.proposer_index, config);
        <H256 as Ssz>::lemma_round_trip(v.parent_root, config);
        <H256 as Ssz>::lemma_round_trip(v.state_root, config);
        <BeaconBlockBody as Ssz>::lemma_round_trip(v.body, config);
    }

    fn ssz_append(&self, buf: &mut Vec<u8>) {
        let ghost v = self.value();
        let ghost pieces = BeaconBlock::pieces(v);
        let total: u128 = 0
            + 8u128
            + 8u128
            + 32u128
            + 32u128
            + 4u128;
        proof {
            let config: Config = arbitrary();
            <u64 as FixedSsz>::lemma_size(v.slot, Seq::empty(), config);
            <u64 as FixedSsz>::lemma_size(v.proposer_index, Seq::empty(), config);
            <H256 as FixedSsz>::lemma_size(v.parent_root, Seq::empty(), config);
            <H256 as FixedSsz>::lemma_size(v.state_root, Seq::empty(), config);
            lemma_head_total_beaconblock(v);
        }
        let mut head: Vec<u8> = Vec::new();
        let mut tail: Vec<u8> = Vec::new();
        proof {
            assert(head@ =~= frame_head(pieces, 0));
            assert(tail@ =~= frame_tail(pieces, 0));
        }
        self.slot.ssz_append(&mut head);
        proof {
            lemma_lengths(pieces, 1);
            assert(head@ =~= frame_head(pieces, 1));
            assert(tail@ =~= frame_tail(pieces, 1));
        }
        self.proposer_index.ssz_append(&mut head);
        proof {
            lemma_lengths(pieces, 2);
            assert(head@ =~= frame_head(pieces, 2));
            assert(tail@ =~= frame_tail(pieces, 2));
        }
        self.parent_root.ssz_append(&mut head);
        proof {
            lemma_lengths(pieces, 3);
            assert(head@ =~= frame_head(pieces, 3));
            assert(tail@ =~= frame_tail(pieces, 3));
        }
        self.state_root.ssz_append(&mut head);
        proof {
            lemma_lengths(pieces, 4);
            assert(head@ =~= frame_head(pieces, 4));
            assert(tail@ =~= frame_tail(pieces, 4));
        }
        put_offset(&mut head, total + tail.len() as u128);
        self.body.ssz_append(&mut tail);
        proof {
            lemma_lengths(pieces, 5);
            assert(head@ =~= frame_head(pieces, 5));
            assert(tail@ =~= frame_tail(pieces, 5));
        }
        append(buf, head.as_slice());
        append(buf, tail.as_slice());
        assert(buf@ =~= old(buf)@ + frame(pieces));
    }

    fn ssz_decode(bytes: &[u8], config: &Config) -> (r: Option<BeaconBlock>) {
        let mut layout: Vec<Option<usize>> = Vec::new();
        layout.push(Some(8usize));
        layout.push(Some(8usize));
        layout.push(Some(32usize));
        layout.push(Some(32usize));
        layout.push(None);
        assert(layout_view(layout@) =~= BeaconBlock::layout(*config));
        let ranges = match split(bytes, &layout) {
            Some(ranges) => ranges,
            None => {
                return None;
            },
        };
        let ghost blobs = unframe(bytes@, BeaconBlock::layout(*config))->Some_0;
        assert(bytes@.subrange(ranges@[0].0 as int, ranges@[0].1 as int) == blobs[0]);
        let slot = match <u64 as Ssz>::ssz_decode(
            slice_subrange(bytes, ranges[0].0, ranges[0].1),
            config,
        ) {
            Some(x) => x,
            None => {
                return None;
            },
        };
        assert(bytes@.subrange(ranges@[1].0 as int, ranges@[1].1 as int) == blobs[1]);
        let proposer_index = match <u64 as Ssz>::ssz_decode(
            slice_subrange(bytes, ranges[1].0, ranges[1].1),
            config,
        ) {
            Some(x) => x,
            None => {
                return None;
            },
        };
        assert(bytes@.subrange(ranges@[2].0 as int, ranges@[2].1 as int) == blobs[2]);
        let parent_root = match <H256 as Ssz>::ssz_decode(
            slice_subrange(bytes, ranges[2].0, ranges[2].1),
            config,
        ) {
            Some(x) => x,
            None => {
                return None;
            },
        };
        assert(bytes@.subrange(ranges@[3].0 as int, ranges@[3].1 as int) == blobs[3]);
        let state_root = match <H256 as Ssz>::ssz_decode(
            slice_subrange(bytes, ranges[3].0, ranges[3].1),
            config,
        ) {
            Some(x) => x,
            None => {
                return None;
            },
        };
        assert(bytes@.subrange(ranges@[4].0 as int, ranges@[4].1 as int) == blobs[4]);
        let body = match <BeaconBlockBody as Ssz>::ssz_decode(
            slice_subrange(bytes, ranges[4].0, ranges[4].1),
            config,
        ) {
            Some(x) => x,
            None => {
                return None;
            },
        };
        let r = BeaconBlock { slot, proposer_index, parent_root, state_root, body };
        proof {
            let want = Self::spec_decode(bytes@, *config)->Some_0;

        }
        Some(r)
    }
}

/// The parts before the parts of varying length take as many bytes as their lengths say.
proof fn lemma_head_total_beaconblock(v: BeaconBlockValue)
    ensures
        ({
            let p = BeaconBlock::pieces(v);
            head_len(
                p,
                5,
            ) == p[0].bytes.len() + p[1].bytes.len() + p[2].bytes.len() + p[3].bytes.len() + 4
        }),
{
    let p = BeaconBlock::pieces(v);
    lemma_head_step(p, 0);
    lemma_head_step(p, 1);
    lemma_head_step(p, 2);
    lemma_head_step(p, 3);
    lemma_head_step(p, 4);
}

/// The mathematical value of a signed block.
pub struct SignedBeaconBlockValue {
    pub message: BeaconBlockValue,
    pub signature: SignatureBytes,
}

impl SignedBeaconBlock {
    /// The parts that the value is encoded as.
    pub open spec fn pieces(v: SignedBeaconBlockValue) -> Seq<Piece> {
        seq![
            Piece { var: true, bytes: <BeaconBlock as Ssz>::spec_encode(v.message) },
            Piece { var: false, bytes: <SignatureBytes as Ssz>::spec_encode(v.signature) },
        ]
    }

    /// The lengths of the parts of fixed length.
    pub open spec fn layout(config: Config) -> Seq<Option<nat>> {
        seq![
            None,
            Some(96nat),
        ]
    }
}

impl Ssz for SignedBeaconBlock {
    type Value = SignedBeaconBlockValue;

    open spec fn value(&self) -> SignedBeaconBlockValue {
        SignedBeaconBlockValue {
            message: self.message.value(),
            signature: self.signature,
        }
    }

    open spec fn fits(v: SignedBeaconBlockValue, config: Config) -> bool {
        &&& <BeaconBlock as Ssz>::fits(v.message, config)
        &&& frame(SignedBeaconBlock::pieces(v)).len() < 0x1_0000_0000
    }

    open spec fn spec_encode(v: SignedBeaconBlockValue) -> Seq<u8> {
        frame(SignedBeaconBlock::pieces(v))
    }

    open spec fn spec_decode(bytes: Seq<u8>, config: Config) -> Option<SignedBeaconBlockValue> {
        match unframe(bytes, SignedBeaconBlock::layout(config)) {
            None => None,
            Some(blobs) => {
                let message = <BeaconBlock as Ssz>::spec_decode(blobs[0], config);
                let signature = <SignatureBytes as Ssz>::spec_decode(blobs[1], config);
                if message is Some && signature is Some {
                    Some(
                        SignedBeaconBlockValue {
                            message: message->Some_0,
                            signature: signature->Some_0,
                        }
                    )
                } else {
                    None
                }
            },
        }
    }

    proof fn lemma_round_trip(v: SignedBeaconBlockValue, config: Config) {
        let pieces = SignedBeaconBlock::pieces(v);
        <SignatureBytes as FixedSsz>::lemma_size(v.signature, Seq::empty(), config);
        lemma_unframe_frame(pieces);
        assert(layout_of(pieces) =~= SignedBeaconBlock::layout(config));
        lemma_piece_within(pieces, 0);
        assert(pieces[0].bytes == <BeaconBlock as Ssz>::spec_encode(v.message));
        assert(pieces[1].bytes == <SignatureBytes as Ssz>::spec_encode(v.signature));
        <BeaconBlock as Ssz>::lemma_round_trip(v.message, config);
        <SignatureBytes as Ssz>::lemma_round_trip(v.signature, config);
    }

    fn ssz_append(&self, buf: &mut Vec<u8>) {
        let ghost v = self.value();
        let ghost pieces = SignedBeaconBlock::pieces(v);
        let total: u128 = 0
            + 4u128
            + 96u128;
        proof {
            let config: Config = arbitrary();
            <SignatureBytes as FixedSsz>::lemma_size(v.signature, Seq::empty(), config);
            lemma_head_total_signedbeaconblock(v);
        }
        let mut head: Vec<u8> = Vec::new();
        let mut tail: Vec<u8> = Vec::new();
        proof {
            assert(head@ =~= frame_head(pieces, 0));
            assert(tail@ =~= frame_tail(pieces, 0));
        }
        put_offset(&mut head, total + tail.len() as u128);
        self.message.ssz_append(&mut tail);
        proof {
            lemma_lengths(pieces, 1);
            assert(head@ =~= frame_head(pieces, 1));
            assert(tail@ =~= frame_tail(pieces, 1));
        }
        self.signature.ssz_append(&mut head);
        proof {
            lemma_lengths(pieces, 2);
            assert(head@ =~= frame_head(pieces, 2));
            assert(tail@ =~= frame_tail(pieces, 2));
        }
        append(buf, head.as_slice());
        append(buf, tail.as_slice());
        assert(buf@ =~= old(buf)@ + frame(pieces));
    }

    fn ssz_decode(bytes: &[u8], config: &Config) -> (r: Option<SignedBeaconBlock>) {
        let mut layout: Vec<Option<usize>> = Vec::new();
        layout.push(None);
        layout.push(Some(96usize));
        assert(layout_view(layout@) =~= SignedBeaconBlock::layout(*config));
        let ranges = match split(bytes, &layout) {
            Some(ranges) => ranges,
            None => {
                return None;
            },
        };
        let ghost blobs = unframe(bytes@, SignedBeaconBlock::layout(*config))->Some_0;
        assert(bytes@.subrange(ranges@[0].0 as int, ranges@[0].1 as int) == blobs[0]);
        let message = match <BeaconBlock as Ssz>::ssz_decode(
            slice_subrange(bytes, ranges[0].0, ranges[0].1),
            config,
        ) {
            Some(x) => x,
            None => {
                return None;
            },
        };
        assert(bytes@.subrange(ranges@[1].0 as int, ranges@[1].1 as int) == blobs[1]);
        let signature = match <SignatureBytes as Ssz>::ssz_decode(
            slice_subrange(bytes, ranges[1].0, ranges[1].1),
            config,
        ) {
            Some(x) => x,
            None => {
                return None;
            },
        };
        let r = SignedBeaconBlock { message, signature };
        proof {
            let want = Self::spec_decode(bytes@, *config)->Some_0;

        }
        Some(r)
    }
}

/// The parts before the parts of varying length take as many bytes as their lengths say.
proof fn lemma_head_total_signedbeaconblock(v: SignedBeaconBlockValue)
    ensures
        ({
            let p = SignedBeaconBlock::pieces(v);
            head_len(p, 2) == 4 + p[1].bytes.len()
        }),
{
    let p = SignedBeaconBlock::pieces(v);
    lemma_head_step(p, 0);
    lemma_head_step(p, 1);
}

impl CompactCommittee {
    /// The parts that the value is encoded as.
    pub open spec fn pieces(v: CompactCommitteeView) -> Seq<Piece> {
        seq![
            Piece { var: true, bytes: items_encode::<PublicKeyBytes>(v.pubkeys) },
            Piece { var: true, bytes: items_encode::<u64>(v.compact_validators) },
        ]
    }

    /// The lengths of the parts of fixed length.
    pub open spec fn layout(config: Config) -> Seq<Option<nat>> {
        seq![
            None,
            None,
        ]
    }
}

impl Ssz for CompactCommittee {
    type Value = CompactCommitteeView;

    open spec fn value(&self) -> CompactCommitteeView {
        CompactCommitteeView {
            pubkeys: values::<PublicKeyBytes>(self.pubkeys@),
            compact_validators: values::<u64>(self.compact_validators@),
        }
    }

    open spec fn fits(v: CompactCommitteeView, config: Config) -> bool {
        &&& v.pubkeys.len() <= config.max_validators_per_committee
        &&& v.compact_validators.len() <= config.max_validators_per_committee
        &&& frame(CompactCommittee::pieces(v)).len() < 0x1_0000_0000
    }

    open spec fn spec_encode(v: CompactCommitteeView) -> Seq<u8> {
        frame(CompactCommittee::pieces(v))
    }

    open spec fn spec_decode(bytes: Seq<u8>, config: Config) -> Option<CompactCommitteeView> {
        match unframe(bytes, CompactCommittee::layout(config)) {
            None => None,
            Some(blobs) => {
                let pubkeys = list_decode::<PublicKeyBytes>(
                    blobs[0],
                    config.max_validators_per_committee as nat,
                    config,
                );
                let compact_validators = list_decode::<u64>(
                    blobs[1],
                    config.max_validators_per_committee as nat,
                    config,
                );
                if pubkeys is Some && compact_validators is Some {
                    Some(
                        CompactCommitteeView {
                            pubkeys: pubkeys->Some_0,
                            compact_validators: compact_validators->Some_0,
                        }
                    )
                } else {
                    None
                }
            },
        }
    }

    proof fn lemma_round_trip(v: CompactCommitteeView, config: Config) {
        let pieces = CompactCommittee::pieces(v);

        lemma_unframe_frame(pieces);
        assert(layout_of(pieces) =~= CompactCommittee::layout(config));
        assert(pieces[0].bytes == items_encode::<PublicKeyBytes>(v.pubkeys));
        assert(pieces[1].bytes == items_encode::<u64>(v.compact_validators));
        assert(all_fit::<PublicKeyBytes>(v.pubkeys, config));
        lemma_list_round_trip::<PublicKeyBytes>(
            v.pubkeys,
            config.max_validators_per_committee as nat,
            config,
        );
        assert(all_fit::<u64>(v.compact_validators, config));
        lemma_list_round_trip::<u64>(
            v.compact_validators,
            config.max_validators_per_committee as nat,
            config,
        );
    }

    fn ssz_append(&self, buf: &mut Vec<u8>) {
        let ghost v = self.value();
        let ghost pieces = CompactCommittee::pieces(v);
        let total: u128 = 0
            + 4u128
            + 4u128;
        proof {
            let config: Config = arbitrary();

            lemma_head_total_compactcommittee(v);
        }
        let mut head: Vec<u8> = Vec::new();
        let mut tail: Vec<u8> = Vec::new();
        proof {
            assert(head@ =~= frame_head(pieces, 0));
            assert(tail@ =~= frame_tail(pieces, 0));
        }
        put_offset(&mut head, total + tail.len() as u128);
        items_append::<PublicKeyBytes>(&self.pubkeys, &mut tail);
        proof {
            lemma_lengths(pieces, 1);
            assert(head@ =~= frame_head(pieces, 1));
            assert(tail@ =~= frame_tail(pieces, 1));
        }
        put_offset(&mut head, total + tail.len() as u128);
        items_append::<u64>(&self.compact_validators, &mut tail);
        proof {
            lemma_lengths(pieces, 2);
            assert(head@ =~= frame_head(pieces, 2));
            assert(tail@ =~= frame_tail(pieces, 2));
        }
        append(buf, head.as_slice());
        append(buf, tail.as_slice());
        assert(buf@ =~= old(buf)@ + frame(pieces));
    }

    fn ssz_decode(bytes: &[u8], config: &Config) -> (r: Option<CompactCommittee>) {
        let mut layout: Vec<Option<usize>> = Vec::new();
        layout.push(None);
        layout.push(None);
        assert(layout_view(layout@) =~= CompactCommittee::layout(*config));
        let ranges = match split(bytes, &layout) {
            Some(ranges) => ranges,
            None => {
                return None;
            },
        };
        let ghost blobs = unframe(bytes@, CompactCommittee::layout(*config))->Some_0;
        assert(bytes@.subrange(ranges@[0].0 as int, ranges@[0].1 as int) == blobs[0]);
        let pubkeys = match list_parse::<PublicKeyBytes>(
            slice_subrange(bytes, ranges[0].0, ranges[0].1),
            config.max_validators_per_committee,
            config,
        ) {
            Some(x) => x,
            None => {
                return None;
            },
        };
        assert(bytes@.subrange(ranges@[1].0 as int, ranges@[1].1 as int) == blobs[1]);
        let compact_validators = match list_parse::<u64>(
            slice_subrange(bytes, ranges[1].0, ranges[1].1),
            config.max_validators_per_committee,
            config,
        ) {
            Some(x) => x,
            None => {
                return None;
            },
        };
        let r = CompactCommittee { pubkeys, compact_validators };
        proof {
            let want = Self::spec_decode(bytes@, *config)->Some_0;
            assert(r.value().pubkeys =~= want.pubkeys);
            assert(r.value().compact_validators =~= want.compact_validators);
        }
        Some(r)
    }
}

/// The parts before the parts of varying length take as many bytes as their lengths say.
proof fn lemma_head_total_compactcommittee(v: CompactCommitteeView)
    ensures
        ({
            let p = CompactCommittee::pieces(v);
            head_len(p, 2) == 4 + 4
        }),
{
    let p = CompactCommittee::pieces(v);
    lemma_head_step(p, 0);
    lemma_head_step(p, 1);
}

impl BeaconState {
    /// The parts that the value is encoded as.
    pub open spec fn pieces(v: BeaconStateView) -> Seq<Piece> {
        seq![
            Piece { var: false, bytes: <u64 as Ssz>::spec_encode(v.genesis_time) },
            Piece { var: false, bytes: <H256 as Ssz>::spec_encode(v.genesis_validators_root) },
            Piece { var: false, bytes: <u64 as Ssz>::spec_encode(v.slot) },
            Piece { var: false, bytes: <Fork as Ssz>::spec_encode(v.fork) },
            Piece {
                var: false,
                bytes: <BeaconBlockHeader as Ssz>::spec_encode(v.latest_block_header),
            },
            Piece { var: false, bytes: items_encode::<H256>(v.block_roots) },
            Piece { var: false, bytes: items_encode::<H256>(v.state_roots) },
            Piece { var: true, bytes: items_encode::<H256>(v.historical_roots) },
            Piece { var: false, bytes: <Eth1Data as Ssz>::spec_encode(v.eth1_data) },
            Piece { var: true, bytes: items_encode::<Eth1Data>(v.eth1_data_votes) },
            Piece { var: false, bytes: <u64 as Ssz>::spec_encode(v.eth1_deposit_index) },
            Piece { var: true, bytes: items_encode::<Validator>(v.validators) },
            Piece { var: true, bytes: items_encode::<u64>(v.balances) },
            Piece { var: false, bytes: items_encode::<H256>(v.randao_mixes) },
            Piece { var: false, bytes: items_encode::<u64>(v.slashings) },
            Piece {
                var: true,
                bytes: var_items_encode::<PendingAttestation>(v.previous_epoch_attestations),
            },
            Piece {
                var: true,
                bytes: var_items_encode::<PendingAttestation>(v.current_epoch_attestations),
            },
            Piece { var: false, bytes: justification_encode(v.justification_bits) },
            Piece {
                var: false,
                bytes: <Checkpoint as Ssz>::spec_encode(v.previous_justified_checkpoint),
            },
            Piece {
                var: false,
                bytes: <Checkpoint as Ssz>::spec_encode(v.current_justified_checkpoint),
            },
            Piece { var: false, bytes: <Checkpoint as Ssz>::spec_encode(v.finalized_checkpoint) },
            Piece { var: true, bytes: items_encode::<ShardState>(v.shard_states) },
            Piece { var: true, bytes: v.online_countdown },
            Piece {
                var: true,
                bytes: <CompactCommittee as Ssz>::spec_encode(v.current_light_committee),
            },
            Piece {
                var: true,
                bytes: <CompactCommittee as Ssz>::spec_encode(v.next_light_committee),
            },
            Piece {
                var: true,
                bytes: var_items_encode::<Vec<ValidatorIndex>>(v.exposed_derived_secrets),
            },
        ]
    }

    /// The lengths of the parts of fixed length.
    pub open spec fn layout(config: Config) -> Seq<Option<nat>> {
        seq![
            Some(8nat),
            Some(32nat),
            Some(8nat),
            Some(16nat),
            Some(112nat),
            Some((config.slots_per_historical_root * 32) as nat),
            Some((config.slots_per_historical_root * 32) as nat),
            None,
            Some(72nat),
            None,
            Some(8nat),
            None,
            None,
            Some((config.epochs_per_historical_vector * 32) as nat),
            Some((config.epochs_per_slashings_vector * 8) as nat),
            None,
            None,
            Some(1nat),
            Some(40nat),
            Some(40nat),
            Some(40nat),
            None,
            None,
            None,
            None,
            None,
        ]
    }
}

impl Ssz for BeaconState {
    type Value = BeaconStateView;

    open spec fn value(&self) -> BeaconStateView {
        BeaconStateView {
            genesis_time: self.genesis_time,
            genesis_validators_root: self.genesis_validators_root,
            slot: self.slot,
            fork: self.fork,
            latest_block_header: self.latest_block_header,
            block_roots: values::<H256>(self.block_roots@),
            state_roots: values::<H256>(self.state_roots@),
            historical_roots: values::<H256>(self.historical_roots@),
            eth1_data: self.eth1_data,
            eth1_data_votes: values::<Eth1Data>(self.eth1_data_votes@),
            eth1_deposit_index: self.eth1_deposit_index,
            validators: values::<Validator>(self.validators@),
            balances: values::<u64>(self.balances@),
            randao_mixes: values::<H256>(self.randao_mixes@),
            slashings: values::<u64>(self.slashings@),
            previous_epoch_attestations: values::<PendingAttestation>(
                self.previous_epoch_attestations@
            ),
            current_epoch_attestations: values::<PendingAttestation>(
                self.current_epoch_attestations@
            ),
            justification_bits: self.justification_bits@,
            previous_justified_checkpoint: self.previous_justified_checkpoint,
            current_justified_checkpoint: self.current_justified_checkpoint,
            finalized_checkpoint: self.finalized_checkpoint,
            shard_states: values::<ShardState>(self.shard_states@),
            online_countdown: self.online_countdown@,
            current_light_committee: self.current_light_committee.value(),
            next_light_committee: self.next_light_committee.value(),
            exposed_derived_secrets: values::<Vec<ValidatorIndex>>(self.exposed_derived_secrets@),
        }
    }

    open spec fn fits(v: BeaconStateView, config: Config) -> bool {
        &&& v.block_roots.len() == config.slots_per_historical_root
        &&& v.state_roots.len() == config.slots_per_historical_root
        &&& v.historical_roots.len() <= config.historical_roots_limit
        &&& v.eth1_data_votes.len() <= config.slots_per_eth1_voting_period
        &&& v.validators.len() <= config.validator_registry_limit
        &&& v.balances.len() <= config.validator_registry_limit
        &&& v.randao_mixes.len() == config.epochs_per_historical_vector
        &&& v.slashings.len() == config.epochs_per_slashings_vector
        &&& v.previous_epoch_attestations.len() <= config.spec_max_attestations_per_epoch()
        &&& all_fit::<PendingAttestation>(v.previous_epoch_attestations, config)
        &&& v.current_epoch_attestations.len() <= config.spec_max_attestations_per_epoch()
        &&& all_fit::<PendingAttestation>(v.current_epoch_attestations, config)
        &&& v.justification_bits.len() == 4
        &&& v.shard_states.len() <= config.max_shards
        &&& v.online_countdown.len() <= config.validator_registry_limit
        &&& <CompactCommittee as Ssz>::fits(v.current_light_committee, config)
        &&& <CompactCommittee as Ssz>::fits(v.next_light_committee, config)
        &&& v.exposed_derived_secrets.len() == config.early_derived_secret_penalty_max_future_epochs
        &&& all_fit::<Vec<ValidatorIndex>>(v.exposed_derived_secrets, config)
        &&& frame(BeaconState::pieces(v)).len() < 0x1_0000_0000
    }

    open spec fn spec_encode(v: BeaconStateView) -> Seq<u8> {
        frame(BeaconState::pieces(v))
    }

    open spec fn spec_decode(bytes: Seq<u8>, config: Config) -> Option<BeaconStateView> {
        match unframe(bytes, BeaconState::layout(config)) {
            None => None,
            Some(blobs) => {
                let genesis_time = <u64 as Ssz>::spec_decode(blobs[0], config);
                let genesis_validators_root = <H256 as Ssz>::spec_decode(blobs[1], config);
                let slot = <u64 as Ssz>::spec_decode(blobs[2], config);
                let fork = <Fork as Ssz>::spec_decode(blobs[3], config);
                let latest_block_header = <BeaconBlockHeader as Ssz>::spec_decode(blobs[4], config);
                let block_roots = vector_decode::<H256>(
                    blobs[5],
                    config.slots_per_historical_root as nat,
                    config,
                );
                let state_roots = vector_decode::<H256>(
                    blobs[6],
                    config.slots_per_historical_root as nat,
                    config,
                );
                let historical_roots = list_decode::<H256>(
                    blobs[7],
                    config.historical_roots_limit as nat,
                    config,
                );
                let eth1_data = <Eth1Data as Ssz>::spec_decode(blobs[8], config);
                let eth1_data_votes = list_decode::<Eth1Data>(
                    blobs[9],
                    config.slots_per_eth1_voting_period as nat,
                    config,
                );
                let eth1_deposit_index = <u64 as Ssz>::spec_decode(blobs[10], config);
                let validators = list_decode::<Validator>(
                    blobs[11],
                    config.validator_registry_limit as nat,
                    config,
                );
                let balances = list_decode::<u64>(
                    blobs[12],
                    config.validator_registry_limit as nat,
                    config,
                );
                let randao_mixes = vector_decode::<H256>(
                    blobs[13],
                    config.epochs_per_historical_vector as nat,
                    config,
                );
                let slashings = vector_decode::<u64>(
                    blobs[14],
                    config.epochs_per_slashings_vector as nat,
                    config,
                );
                let previous_epoch_attestations = var_list_decode::<PendingAttestation>(
                    blobs[15],
                    config.spec_max_attestations_per_epoch() as nat,
                    config,
                );
                let current_epoch_attestations = var_list_decode::<PendingAttestation>(
                    blobs[16],
                    config.spec_max_attestations_per_epoch() as nat,
                    config,
                );
                let justification_bits = justification_decode(blobs[17]);
                let previous_justified_checkpoint = <Checkpoint as Ssz>::spec_decode(
                    blobs[18],
                    config,
                );
                let current_justified_checkpoint = <Checkpoint as Ssz>::spec_decode(
                    blobs[19],
                    config,
                );
                let finalized_checkpoint = <Checkpoint as Ssz>::spec_decode(blobs[20], config);
                let shard_states = list_decode::<ShardState>(
                    blobs[21],
                    config.max_shards as nat,
                    config,
                );
                let online_countdown = bytes_decode(
                    blobs[22],
                    config.validator_registry_limit as nat,
                );
                let current_light_committee = <CompactCommittee as Ssz>::spec_decode(
                    blobs[23],
                    config,
                );
                let next_light_committee = <CompactCommittee as Ssz>::spec_decode(
                    blobs[24],
                    config,
                );
                let exposed_derived_secrets = var_vector_decode::<Vec<ValidatorIndex>>(
                    blobs[25],
                    config.early_derived_secret_penalty_max_future_epochs as nat,
                    config,
                );
                if genesis_time is Some
                    && genesis_validators_root is Some
                    && slot is Some
                    && fork is Some
                    && latest_block_header is Some
                    && block_roots is Some
                    && state_roots is Some
                    && historical_roots is Some
                    && eth1_data is Some
                    && eth1_data_votes is Some
                    && eth1_deposit_index is Some
                    && validators is Some
                    && balances is Some
                    && randao_mixes is Some
                    && slashings is Some
                    && previous_epoch_attestations is Some
                    && current_epoch_attestations is Some
                    && justification_bits is Some
                    && previous_justified_checkpoint is Some
                    && current_justified_checkpoint is Some
                    && finalized_checkpoint is Some
                    && shard_states is Some
                    && online_countdown is Some
                    && current_light_committee is Some
                    && next_light_committee is Some
                    && exposed_derived_secrets is Some {
                    Some(
                        BeaconStateView {
                            genesis_time: genesis_time->Some_0,
                            genesis_validators_root: genesis_validators_root->Some_0,
                            slot: slot->Some_0,
                            fork: fork->Some_0,
                            latest_block_header: latest_block_header->Some_0,
                            block_roots: block_roots->Some_0,
                            state_roots: state_roots->Some_0,
                            historical_roots: historical_roots->Some_0,
                            eth1_data: eth1_data->Some_0,
                            eth1_data_votes: eth1_data_votes->Some_0,
                            eth1_deposit_index: eth1_deposit_index->Some_0,
                            validators: validators->Some_0,
                            balances: balances->Some_0,
                            randao_mixes: randao_mixes->Some_0,
                            slashings: slashings->Some_0,
                            previous_epoch_attestations: previous_epoch_attestations->Some_0,
                            current_epoch_attestations: current_epoch_attestations->Some_0,
                            justification_bits: justification_bits->Some_0,
                            previous_justified_checkpoint: previous_justified_checkpoint->Some_0,
                            current_justified_checkpoint: current_justified_checkpoint->Some_0,
                            finalized_checkpoint: finalized_checkpoint->Some_0,
                            shard_states: shard_states->Some_0,
                            online_countdown: online_countdown->Some_0,
                            current_light_committee: current_light_committee->Some_0,
                            next_light_committee: next_light_committee->Some_0,
                            exposed_derived_secrets: exposed_derived_secrets->Some_0,
                        }
                    )
                } else {
                    None
                }
            },
        }
    }

    proof fn lemma_round_trip(v: BeaconStateView, config: Config) {
        let pieces = BeaconState::pieces(v);
        <u64 as FixedSsz>::lemma_size(v.genesis_time, Seq::empty(), config);
        <H256 as FixedSsz>::lemma_size(v.genesis_validators_root, Seq::empty(), config);
        <u64 as FixedSsz>::lemma_size(v.slot, Seq::empty(), config);
        <Fork as FixedSsz>::lemma_size(v.fork, Seq::empty(), config);
        <BeaconBlockHeader as FixedSsz>::lemma_size(v.latest_block_header, Seq::empty(), config);
        lemma_items_len::<H256>(v.block_roots, config);
        lemma_items_len::<H256>(v.state_roots, config);
        <Eth1Data as FixedSsz>::lemma_size(v.eth1_data, Seq::empty(), config);
        <u64 as FixedSsz>::lemma_size(v.eth1_deposit_index, Seq::empty(), config);
        lemma_items_len::<H256>(v.randao_mixes, config);
        lemma_items_len::<u64>(v.slashings, config);
        <Checkpoint as FixedSsz>::lemma_size(v.previous_justified_checkpoint, Seq::empty(), config);
        <Checkpoint as FixedSsz>::lemma_size(v.current_justified_checkpoint, Seq::empty(), config);
        <Checkpoint as FixedSsz>::lemma_size(v.finalized_checkpoint, Seq::empty(), config);
        lemma_unframe_frame(pieces);
        assert(layout_of(pieces) =~= BeaconState::layout(config));
        lemma_piece_within(pieces, 15);
        lemma_piece_within(pieces, 16);
        lemma_piece_within(pieces, 23);
        lemma_piece_within(pieces, 24);
        lemma_piece_within(pieces, 25);
        assert(pieces[0].bytes == <u64 as Ssz>::spec_encode(v.genesis_time));
        assert(pieces[1].bytes == <H256 as Ssz>::spec_encode(v.genesis_validators_root));
        assert(pieces[2].bytes == <u64 as Ssz>::spec_encode(v.slot));
        assert(pieces[3].bytes == <Fork as Ssz>::spec_encode(v.fork));
        assert(pieces[4].bytes == <BeaconBlockHeader as Ssz>::spec_encode(v.latest_block_header));
        assert(pieces[5].bytes == items_encode::<H256>(v.block_roots));
        assert(pieces[6].bytes == items_encode::<H256>(v.state_roots));
        assert(pieces[7].bytes == items_encode::<H256>(v.historical_roots));
        assert(pieces[8].bytes == <Eth1Data as Ssz>::spec_encode(v.eth1_data));
        assert(pieces[9].bytes == items_encode::<Eth1Data>(v.eth1_data_votes));
        assert(pieces[10].bytes == <u64 as Ssz>::spec_encode(v.eth1_deposit_index));
        assert(pieces[11].bytes == items_encode::<Validator>(v.validators));
        assert(pieces[12].bytes == items_encode::<u64>(v.balances));
        assert(pieces[13].bytes == items_encode::<H256>(v.randao_mixes));
        assert(pieces[14].bytes == items_encode::<u64>(v.slashings));
        assert(
            pieces[15].bytes == var_items_encode::<PendingAttestation>(
                v.previous_epoch_attestations
            )
        );
        assert(
            pieces[16].bytes == var_items_encode::<PendingAttestation>(v.current_epoch_attestations)
        );
        assert(pieces[17].bytes == justification_encode(v.justification_bits));
        assert(
            pieces[18].bytes == <Checkpoint as Ssz>::spec_encode(v.previous_justified_checkpoint)
        );
        assert(
            pieces[19].bytes == <Checkpoint as Ssz>::spec_encode(v.current_justified_checkpoint)
        );
        assert(pieces[20].bytes == <Checkpoint as Ssz>::spec_encode(v.finalized_checkpoint));
        assert(pieces[21].bytes == items_encode::<ShardState>(v.shard_states));
        assert(pieces[22].bytes == v.online_countdown);
        assert(
            pieces[23].bytes == <CompactCommittee as Ssz>::spec_encode(v.current_light_committee)
        );
        assert(pieces[24].bytes == <CompactCommittee as Ssz>::spec_encode(v.next_light_committee));
        assert(
            pieces[25].bytes == var_items_encode::<Vec<ValidatorIndex>>(v.exposed_derived_secrets)
        );
        <u64 as Ssz>::lemma_round_trip(v.genesis_time, config);
        <H256 as Ssz>::lemma_round_trip(v.genesis_validators_root, config);
        <u64 as Ssz>::lemma_round_trip(v.slot, config);
        <Fork as Ssz>::lemma_round_trip(v.fork, config);
        <BeaconBlockHeader as Ssz>::lemma_round_trip(v.latest_block_header, config);
        assert(all_fit::<H256>(v.block_roots, config));
        lemma_vector_round_trip::<H256>(v.block_roots, config);
        assert(all_fit::<H256>(v.state_roots, config));
        lemma_vector_round_trip::<H256>(v.state_roots, config);
        assert(all_fit::<H256>(v.historical_roots, config));
        lemma_list_round_trip::<H256>(
            v.historical_roots,
            config.historical_roots_limit as nat,
            config,
        );
        <Eth1Data as Ssz>::lemma_round_trip(v.eth1_data, config);
        assert(all_fit::<Eth1Data>(v.eth1_data_votes, config));
        lemma_list_round_trip::<Eth1Data>(
            v.eth1_data_votes,
            config.slots_per_eth1_voting_period as nat,
            config,
        );
        <u64 as Ssz>::lemma_round_trip(v.eth1_deposit_index, config);
        assert(all_fit::<Validator>(v.validators, config));
        lemma_list_round_trip::<Validator>(
            v.validators,
            config.validator_registry_limit as nat,
            config,
        );
        assert(all_fit::<u64>(v.balances, config));
        lemma_list_round_trip::<u64>(v.balances, config.validator_registry_limit as nat, config);
        assert(all_fit::<H256>(v.randao_mixes, config));
        lemma_vector_round_trip::<H256>(v.randao_mixes, config);
        assert(all_fit::<u64>(v.slashings, config));
        lemma_vector_round_trip::<u64>(v.slashings, config);
        lemma_var_items_round_trip::<PendingAttestation>(v.previous_epoch_attestations, config);
        lemma_var_items_round_trip::<PendingAttestation>(v.current_epoch_attestations, config);
        lemma_justification_round_trip(v.justification_bits);
        <Checkpoint as Ssz>::lemma_round_trip(v.previous_justified_checkpoint, config);
        <Checkpoint as Ssz>::lemma_round_trip(v.current_justified_checkpoint, config);
        <Checkpoint as Ssz>::lemma_round_trip(v.finalized_checkpoint, config);
        assert(all_fit::<ShardState>(v.shard_states, config));
        lemma_list_round_trip::<ShardState>(v.shard_states, config.max_shards as nat, config);
        <CompactCommittee as Ssz>::lemma_round_trip(v.current_light_committee, config);
        <CompactCommittee as Ssz>::lemma_round_trip(v.next_light_committee, config);
        lemma_var_items_round_trip::<Vec<ValidatorIndex>>(v.exposed_derived_secrets, config);
    }

    #[verifier::rlimit(100)]
    fn ssz_append(&self, buf: &mut Vec<u8>) {
        let ghost v = self.value();
        let ghost pieces = BeaconState::pieces(v);
        let total: u128 = 0
            + 8u128
            + 32u128
            + 8u128
            + 16u128
            + 112u128
            + (self.block_roots.len() as u128) * 32
            + (self.state_roots.len() as u128) * 32
            + 4u128
            + 72u128
            + 4u128
            + 8u128
            + 4u128
            + 4u128
            + (self.randao_mixes.len() as u128) * 32
            + (self.slashings.len() as u128) * 8
            + 4u128
            + 4u128
            + 1u128
            + 40u128
            + 40u128
            + 40u128
            + 4u128
            + 4u128
            + 4u128
            + 4u128
            + 4u128;
        proof {
            let config: Config = arbitrary();
            <u64 as FixedSsz>::lemma_size(v.genesis_time, Seq::empty(), config);
            <H256 as FixedSsz>::lemma_size(v.genesis_validators_root, Seq::empty(), config);
            <u64 as FixedSsz>::lemma_size(v.slot, Seq::empty(), config);
            <Fork as FixedSsz>::lemma_size(v.fork, Seq::empty(), config);
            <BeaconBlockHeader as FixedSsz>::lemma_size(
                v.latest_block_header,
                Seq::empty(),
                config,
            );
            lemma_items_len::<H256>(v.block_roots, config);
            lemma_items_len::<H256>(v.state_roots, config);
            <Eth1Data as FixedSsz>::lemma_size(v.eth1_data, Seq::empty(), config);
            <u64 as FixedSsz>::lemma_size(v.eth1_deposit_index, Seq::empty(), config);
            lemma_items_len::<H256>(v.randao_mixes, config);
            lemma_items_len::<u64>(v.slashings, config);
            <Checkpoint as FixedSsz>::lemma_size(
                v.previous_justified_checkpoint,
                Seq::empty(),
                config,
            );
            <Checkpoint as FixedSsz>::lemma_size(
                v.current_justified_checkpoint,
                Seq::empty(),
                config,
            );
            <Checkpoint as FixedSsz>::lemma_size(v.finalized_checkpoint, Seq::empty(), config);
            lemma_head_total_beaconstate(v);
        }
        let mut head: Vec<u8> = Vec::new();
        let mut tail: Vec<u8> = Vec::new();
        proof {
            assert(head@ =~= frame_head(pieces, 0));
            assert(tail@ =~= frame_tail(pieces, 0));
        }
        self.genesis_time.ssz_append(&mut head);
        proof {
            lemma_lengths(pieces, 1);
            assert(head@ =~= frame_head(pieces, 1));
            assert(tail@ =~= frame_tail(pieces, 1));
        }
        self.genesis_validators_root.ssz_append(&mut head);
        proof {
            lemma_lengths(pieces, 2);
            assert(head@ =~= frame_head(pieces, 2));
            assert(tail@ =~= frame_tail(pieces, 2));
        }
        self.slot.ssz_append(&mut head);
        proof {
            lemma_lengths(pieces, 3);
            assert(head@ =~= frame_head(pieces, 3));
            assert(tail@ =~= frame_tail(pieces, 3));
        }
        self.fork.ssz_append(&mut head);
        proof {
            lemma_lengths(pieces, 4);
            assert(head@ =~= frame_head(pieces, 4));
            assert(tail@ =~= frame_tail(pieces, 4));
        }
        self.latest_block_header.ssz_append(&mut head);
        proof {
            lemma_lengths(pieces, 5);
            assert(head@ =~= frame_head(pieces, 5));
            assert(tail@ =~= frame_tail(pieces, 5));
        }
        items_append::<H256>(&self.block_roots, &mut head);
        proof {
            lemma_lengths(pieces, 6);
            assert(head@ =~= frame_head(pieces, 6));
            assert(tail@ =~= frame_tail(pieces, 6));
        }
        items_append::<H256>(&self.state_roots, &mut head);
        proof {
            lemma_lengths(pieces, 7);
            assert(head@ =~= frame_head(pieces, 7));
            assert(tail@ =~= frame_tail(pieces, 7));
        }
        put_offset(&mut head, total + tail.len() as u128);
        items_append::<H256>(&self.historical_roots, &mut tail);
        proof {
            lemma_lengths(pieces, 8);
            assert(head@ =~= frame_head(pieces, 8));
            assert(tail@ =~= frame_tail(pieces, 8));
        }
        self.eth1_data.ssz_append(&mut head);
        proof {
            lemma_lengths(pieces, 9);
            assert(head@ =~= frame_head(pieces, 9));
            assert(tail@ =~= frame_tail(pieces, 9));
        }
        put_offset(&mut head, total + tail.len() as u128);
        items_append::<Eth1Data>(&self.eth1_data_votes, &mut tail);
        proof {
            lemma_lengths(pieces, 10);
            assert(head@ =~= frame_head(pieces, 10));
            assert(tail@ =~= frame_tail(pieces, 10));
        }
        self.eth1_deposit_index.ssz_append(&mut head);
        proof {
            lemma_lengths(pieces, 11);
            assert(head@ =~= frame_head(pieces, 11));
            assert(tail@ =~= frame_tail(pieces, 11));
        }
        put_offset(&mut head, total + tail.len() as u128);
        items_append::<Validator>(&self.validators, &mut tail);
        proof {
            lemma_lengths(pieces, 12);
            assert(head@ =~= frame_head(pieces, 12));
            assert(tail@ =~= frame_tail(pieces, 12));
        }
        put_offset(&mut head, total + tail.len() as u128);
        items_append::<u64>(&self.balances, &mut tail);
        proof {
            lemma_lengths(pieces, 13);
            assert(head@ =~= frame_head(pieces, 13));
            assert(tail@ =~= frame_tail(pieces, 13));
        }
        items_append::<H256>(&self.randao_mixes, &mut head);
        proof {
            lemma_lengths(pieces, 14);
            assert(head@ =~= frame_head(pieces, 14));
            assert(tail@ =~= frame_tail(pieces, 14));
        }
        items_append::<u64>(&self.slashings, &mut head);
        proof {
            lemma_lengths(pieces, 15);
            assert(head@ =~= frame_head(pieces, 15));
            assert(tail@ =~= frame_tail(pieces, 15));
        }
        put_offset(&mut head, total + tail.len() as u128);
        var_items_append::<PendingAttestation>(&self.previous_epoch_attestations, &mut tail);
        proof {
            lemma_lengths(pieces, 16);
            assert(head@ =~= frame_head(pieces, 16));
            assert(tail@ =~= frame_tail(pieces, 16));
        }
        put_offset(&mut head, total + tail.len() as u128);
        var_items_append::<PendingAttestation>(&self.current_epoch_attestations, &mut tail);
        proof {
            lemma_lengths(pieces, 17);
            assert(head@ =~= frame_head(pieces, 17));
            assert(tail@ =~= frame_tail(pieces, 17));
        }
        justification_append(&self.justification_bits, &mut head);
        proof {
            lemma_lengths(pieces, 18);
            assert(head@ =~= frame_head(pieces, 18));
            assert(tail@ =~= frame_tail(pieces, 18));
        }
        self.previous_justified_checkpoint.ssz_append(&mut head);
        proof {
            lemma_lengths(pieces, 19);
            assert(head@ =~= frame_head(pieces, 19));
            assert(tail@ =~= frame_tail(pieces, 19));
        }
        self.current_justified_checkpoint.ssz_append(&mut head);
        proof {
            lemma_lengths(pieces, 20);
            assert(head@ =~= frame_head(pieces, 20));
            assert(tail@ =~= frame_tail(pieces, 20));
        }
        self.finalized_checkpoint.ssz_append(&mut head);
        proof {
            lemma_lengths(pieces, 21);
            assert(head@ =~= frame_head(pieces, 21));
            assert(tail@ =~= frame_tail(pieces, 21));
        }
        put_offset(&mut head, total + tail.len() as u128);
        items_append::<ShardState>(&self.shard_states, &mut tail);
        proof {
            lemma_lengths(pieces, 22);
            assert(head@ =~= frame_head(pieces, 22));
            assert(tail@ =~= frame_tail(pieces, 22));
        }
        put_offset(&mut head, total + tail.len() as u128);
        append(&mut tail, self.online_countdown.as_slice());
        proof {
            lemma_lengths(pieces, 23);
            assert(head@ =~= frame_head(pieces, 23));
            assert(tail@ =~= frame_tail(pieces, 23));
        }
        put_offset(&mut head, total + tail.len() as u128);
        self.current_light_committee.ssz_append(&mut tail);
        proof {
            lemma_lengths(pieces, 24);
            assert(head@ =~= frame_head(pieces, 24));
            assert(tail@ =~= frame_tail(pieces, 24));
        }
        put_offset(&mut head, total + tail.len() as u128);
        self.next_light_committee.ssz_append(&mut tail);
        proof {
            lemma_lengths(pieces, 25);
            assert(head@ =~= frame_head(pieces, 25));
            assert(tail@ =~= frame_tail(pieces, 25));
        }
        put_offset(&mut head, total + tail.len() as u128);
        var_items_append::<Vec<ValidatorIndex>>(&self.exposed_derived_secrets, &mut tail);
        proof {
            lemma_lengths(pieces, 26);
            assert(head@ =~= frame_head(pieces, 26));
            assert(tail@ =~= frame_tail(pieces, 26));
        }
        append(buf, head.as_slice());
        append(buf, tail.as_slice());
        assert(buf@ =~= old(buf)@ + frame(pieces));
    }

    fn ssz_decode(bytes: &[u8], config: &Config) -> (r: Option<BeaconState>) {
        let mut layout: Vec<Option<usize>> = Vec::new();
        layout.push(Some(8usize));
        layout.push(Some(32usize));
        layout.push(Some(8usize));
        layout.push(Some(16usize));
        layout.push(Some(112usize));
        layout.push(Some((config.slots_per_historical_root as usize) * 32));
        layout.push(Some((config.slots_per_historical_root as usize) * 32));
        layout.push(None);
        layout.push(Some(72usize));
        layout.push(None);
        layout.push(Some(8usize));
        layout.push(None);
        layout.push(None);
        layout.push(Some((config.epochs_per_historical_vector as usize) * 32));
        layout.push(Some((config.epochs_per_slashings_vector as usize) * 8));
        layout.push(None);
        layout.push(None);
        layout.push(Some(1usize));
        layout.push(Some(40usize));
        layout.push(Some(40usize));
        layout.push(Some(40usize));
        layout.push(None);
        layout.push(None);
        layout.push(None);
        layout.push(None);
        layout.push(None);
        assert(layout_view(layout@) =~= BeaconState::layout(*config));
        let ranges = match split(bytes, &layout) {
            Some(ranges) => ranges,
            None => {
                return None;
            },
        };
        let ghost blobs = unframe(bytes@, BeaconState::layout(*config))->Some_0;
        assert(bytes@.subrange(ranges@[0].0 as int, ranges@[0].1 as int) == blobs[0]);
        let genesis_time = match <u64 as Ssz>::ssz_decode(
            slice_subrange(bytes, ranges[0].0, ranges[0].1),
            config,
        ) {
            Some(x) => x,
            None => {
                return None;
            },
        };
        assert(bytes@.subrange(ranges@[1].0 as int, ranges@[1].1 as int) == blobs[1]);
        let genesis_validators_root = match <H256 as Ssz>::ssz_decode(
            slice_subrange(bytes, ranges[1].0, ranges[1].1),
            config,
        ) {
            Some(x) => x,
            None => {
                return None;
            },
        };
        assert(bytes@.subrange(ranges@[2].0 as int, ranges@[2].1 as int) == blobs[2]);
        let slot = match <u64 as Ssz>::ssz_decode(
            slice_subrange(bytes, ranges[2].0, ranges[2].1),
            config,
        ) {
            Some(x) => x,
            None => {
                return None;
            },
        };
        assert(bytes@.subrange(ranges@[3].0 as int, ranges@[3].1 as int) == blobs[3]);
        let fork = match <Fork as Ssz>::ssz_decode(
            slice_subrange(bytes, ranges[3].0, ranges[3].1),
            config,
        ) {
            Some(x) => x,
            None => {
                return None;
            },
        };
        assert(bytes@.subrange(ranges@[4].0 as int, ranges@[4].1 as int) == blobs[4]);
        let latest_block_header = match <BeaconBlockHeader as Ssz>::ssz_decode(
            slice_subrange(bytes, ranges[4].0, ranges[4].1),
            config,
        ) {
            Some(x) => x,
            None => {
                return None;
            },
        };
        assert(bytes@.subrange(ranges@[5].0 as int, ranges@[5].1 as int) == blobs[5]);
        let block_roots = match vector_parse::<H256>(
            slice_subrange(bytes, ranges[5].0, ranges[5].1),
            config.slots_per_historical_root,
            config,
        ) {
            Some(x) => x,
            None => {
                return None;
            },
        };
        assert(bytes@.subrange(ranges@[6].0 as int, ranges@[6].1 as int) == blobs[6]);
        let state_roots = match vector_parse::<H256>(
            slice_subrange(bytes, ranges[6].0, ranges[6].1),
            config.slots_per_historical_root,
            config,
        ) {
            Some(x) => x,
            None => {
                return None;
            },
        };
        assert(bytes@.subrange(ranges@[7].0 as int, ranges@[7].1 as int) == blobs[7]);
        let historical_roots = match list_parse::<H256>(
            slice_subrange(bytes, ranges[7].0, ranges[7].1),
            config.historical_roots_limit,
            config,
        ) {
            Some(x) => x,
            None => {
                return None;
            },
        };
        assert(bytes@.subrange(ranges@[8].0 as int, ranges@[8].1 as int) == blobs[8]);
        let eth1_data = match <Eth1Data as Ssz>::ssz_decode(
            slice_subrange(bytes, ranges[8].0, ranges[8].1),
            config,
        ) {
            Some(x) => x,
            None => {
                return None;
            },
        };
        assert(bytes@.subrange(ranges@[9].0 as int, ranges@[9].1 as int) == blobs[9]);
        let eth1_data_votes = match list_parse::<Eth1Data>(
            slice_subrange(bytes, ranges[9].0, ranges[9].1),
            config.slots_per_eth1_voting_period,
            config,
        ) {
            Some(x) => x,
            None => {
                return None;
            },
        };
        assert(bytes@.subrange(ranges@[10].0 as int, ranges@[10].1 as int) == blobs[10]);
        let eth1_deposit_index = match <u64 as Ssz>::ssz_decode(
            slice_subrange(bytes, ranges[10].0, ranges[10].1),
            config,
        ) {
            Some(x) => x,
            None => {
                return None;
            },
        };
        assert(bytes@.subrange(ranges@[11].0 as int, ranges@[11].1 as int) == blobs[11]);
        let validators = match list_parse::<Validator>(
            slice_subrange(bytes, ranges[11].0, ranges[11].1),
            config.validator_registry_limit,
            config,
        ) {
            Some(x) => x,
            None => {
                return None;
            },
        };
        assert(bytes@.subrange(ranges@[12].0 as int, ranges@[12].1 as int) == blobs[12]);
        let balances = match list_parse::<u64>(
            slice_subrange(bytes, ranges[12].0, ranges[12].1),
            config.validator_registry_limit,
            config,
        ) {
            Some(x) => x,
            None => {
                return None;
            },
        };
        assert(bytes@.subrange(ranges@[13].0 as int, ranges@[13].1 as int) == blobs[13]);
        let randao_mixes = match vector_parse::<H256>(
            slice_subrange(bytes, ranges[13].0, ranges[13].1),
            config.epochs_per_historical_vector,
            config,
        ) {
            Some(x) => x,
            None => {
                return None;
            },
        };
        assert(bytes@.subrange(ranges@[14].0 as int, ranges@[14].1 as int) == blobs[14]);
        let slashings = match vector_parse::<u64>(
            slice_subrange(bytes, ranges[14].0, ranges[14].1),
            config.epochs_per_slashings_vector,
            config,
        ) {
            Some(x) => x,
            None => {
                return None;
            },
        };
        assert(bytes@.subrange(ranges@[15].0 as int, ranges@[15].1 as int) == blobs[15]);
        let previous_epoch_attestations = match var_list_parse::<PendingAttestation>(
            slice_subrange(bytes, ranges[15].0, ranges[15].1),
            config.max_attestations_per_epoch(),
            config,
        ) {
            Some(x) => x,
            None => {
                return None;
            },
        };
        assert(bytes@.subrange(ranges@[16].0 as int, ranges@[16].1 as int) == blobs[16]);
        let current_epoch_attestations = match var_list_parse::<PendingAttestation>(
            slice_subrange(bytes, ranges[16].0, ranges[16].1),
            config.max_attestations_per_epoch(),
            config,
        ) {
            Some(x) => x,
            None => {
                return None;
            },
        };
        assert(bytes@.subrange(ranges@[17].0 as int, ranges@[17].1 as int) == blobs[17]);
        let justification_bits = match justification_parse(
            slice_subrange(bytes, ranges[17].0, ranges[17].1)
        ) {
            Some(x) => x,
            None => {
                return None;
            },
        };
        assert(bytes@.subrange(ranges@[18].0 as int, ranges@[18].1 as int) == blobs[18]);
        let previous_justified_checkpoint = match <Checkpoint as Ssz>::ssz_decode(
            slice_subrange(bytes, ranges[18].0, ranges[18].1),
            config,
        ) {
            Some(x) => x,
            None => {
                return None;
            },
        };
        assert(bytes@.subrange(ranges@[19].0 as int, ranges@[19].1 as int) == blobs[19]);
        let current_justified_checkpoint = match <Checkpoint as Ssz>::ssz_decode(
            slice_subrange(bytes, ranges[19].0, ranges[19].1),
            config,
        ) {
            Some(x) => x,
            None => {
                return None;
            },
        };
        assert(bytes@.subrange(ranges@[20].0 as int, ranges@[20].1 as int) == blobs[20]);
        let finalized_checkpoint = match <Checkpoint as Ssz>::ssz_decode(
            slice_subrange(bytes, ranges[20].0, ranges[20].1),
            config,
        ) {
            Some(x) => x,
            None => {
                return None;
            },
        };
        assert(bytes@.subrange(ranges@[21].0 as int, ranges@[21].1 as int) == blobs[21]);
        let shard_states = match list_parse::<ShardState>(
            slice_subrange(bytes, ranges[21].0, ranges[21].1),
            config.max_shards,
            config,
        ) {
            Some(x) => x,
            None => {
                return None;
            },
        };
        assert(bytes@.subrange(ranges@[22].0 as int, ranges@[22].1 as int) == blobs[22]);
        let online_countdown = match bytes_parse(
            slice_subrange(bytes, ranges[22].0, ranges[22].1),
            config.validator_registry_limit,
        ) {
            Some(x) => x,
            None => {
                return None;
            },
        };
        assert(bytes@.subrange(ranges@[23].0 as int, ranges@[23].1 as int) == blobs[23]);
        let current_light_committee = match <CompactCommittee as Ssz>::ssz_decode(
            slice_subrange(bytes, ranges[23].0, ranges[23].1),
            config,
        ) {
            Some(x) => x,
            None => {
                return None;
            },
        };
        assert(bytes@.subrange(ranges@[24].0 as int, ranges@[24].1 as int) == blobs[24]);
        let next_light_committee = match <CompactCommittee as Ssz>::ssz_decode(
            slice_subrange(bytes, ranges[24].0, ranges[24].1),
            config,
        ) {
            Some(x) => x,
            None => {
                return None;
            },
        };
        assert(bytes@.subrange(ranges@[25].0 as int, ranges@[25].1 as int) == blobs[25]);
        let exposed_derived_secrets = match var_vector_parse::<Vec<ValidatorIndex>>(
            slice_subrange(bytes, ranges[25].0, ranges[25].1),
            config.early_derived_secret_penalty_max_future_epochs,
            config,
        ) {
            Some(x) => x,
            None => {
                return None;
            },
        };
        let r = BeaconState {
            genesis_time,
            genesis_validators_root,
            slot,
            fork,
            latest_block_header,
            block_roots,
            state_roots,
            historical_roots,
            eth1_data,
            eth1_data_votes,
            eth1_deposit_index,
            validators,
            balances,
            randao_mixes,
            slashings,
            previous_epoch_attestations,
            current_epoch_attestations,
            justification_bits,
            previous_justified_checkpoint,
            current_justified_checkpoint,
            finalized_checkpoint,
            shard_states,
            online_countdown,
            current_light_committee,
            next_light_committee,
            exposed_derived_secrets,
        };
        proof {
            let want = Self::spec_decode(bytes@, *config)->Some_0;
            assert(r.value().block_roots =~= want.block_roots);
            assert(r.value().state_roots =~= want.state_roots);
            assert(r.value().historical_roots =~= want.historical_roots);
            assert(r.value().eth1_data_votes =~= want.eth1_data_votes);
            assert(r.value().validators =~= want.validators);
            assert(r.value().balances =~= want.balances);
            assert(r.value().randao_mixes =~= want.randao_mixes);
            assert(r.value().slashings =~= want.slashings);
            assert(r.value().previous_epoch_attestations =~= want.previous_epoch_attestations);
            assert(r.value().current_epoch_attestations =~= want.current_epoch_attestations);
            assert(r.value().justification_bits =~= want.justification_bits);
            assert(r.value().shard_states =~= want.shard_states);
            assert(r.value().online_countdown =~= want.online_countdown);
            assert(r.value().exposed_derived_secrets =~= want.exposed_derived_secrets);
        }
        Some(r)
    }
}

/// The parts before the parts of varying length take as many bytes as their lengths say.
proof fn lemma_head_total_beaconstate(v: BeaconStateView)
    ensures
        ({
            let p = BeaconState::pieces(v);
            head_len(
                p,
                26,
            ) == p[0].bytes.len()
                + p[1].bytes.len()
                + p[2].bytes.len()
                + p[3].bytes.len()
                + p[4].bytes.len()
                + p[5].bytes.len()
                + p[6].bytes.len()
                + 4
                + p[8].bytes.len()
                + 4
                + p[10].bytes.len()
                + 4
                + 4
                + p[13].bytes.len()
                + p[14].bytes.len()
                + 4
                + 4
                + p[17].bytes.len()
                + p[18].bytes.len()
                + p[19].bytes.len()
                + p[20].bytes.len()
                + 4
                + 4
                + 4
                + 4
                + 4
        }),
{
    let p = BeaconState::pieces(v);
    lemma_head_step(p, 0);
    lemma_head_step(p, 1);
    lemma_head_step(p, 2);
    lemma_head_step(p, 3);
    lemma_head_step(p, 4);
    lemma_head_step(p, 5);
    lemma_head_step(p, 6);
    lemma_head_step(p, 7);
    lemma_head_step(p, 8);
    lemma_head_step(p, 9);
    lemma_head_step(p, 10);
    lemma_head_step(p, 11);
    lemma_head_step(p, 12);
    lemma_head_step(p, 13);
    lemma_head_step(p, 14);
    lemma_head_step(p, 15);
    lemma_head_step(p, 16);
    lemma_head_step(p, 17);
    lemma_head_step(p, 18);
    lemma_head_step(p, 19);
    lemma_head_step(p, 20);
    lemma_head_step(p, 21);
    lemma_head_step(p, 22);
    lemma_head_step(p, 23);
    lemma_head_step(p, 24);
    lemma_head_step(p, 25);
}

} // verus!
