//! The encodings of lists and vectors.

use vstd::prelude::*;
use vstd::slice::slice_subrange;
use crate::codec::{FixedSsz, Ssz};
use crate::config::Config;
use crate::frame::{
    blobs_of, frame, frame_head, frame_tail, head_len, layout_of, layout_view, lemma_lengths,
    lemma_read_offset, lemma_unframe_frame, put_offset, read_offset, split, tail_len, unframe,
    Piece,
};
use crate::merkle::append;

verus! {

/// The values that a sequence of items holds.
pub open spec fn values<T: Ssz>(items: Seq<T>) -> Seq<T::Value> {
    Seq::new(items.len(), |i: int| items[i].value())
}

/// Every value is one that the profile admits.
pub open spec fn all_fit<T: Ssz>(vs: Seq<T::Value>, config: Config) -> bool {
    forall|i: int| 0 <= i < vs.len() ==> T::fits(#[trigger] vs[i], config)
}

/// The encodings of a sequence of values, one after the other.
pub open spec fn items_encode<T: Ssz>(vs: Seq<T::Value>) -> Seq<u8>
    decreases vs.len(),
{
    if vs.len() == 0 {
        Seq::empty()
    } else {
        items_encode::<T>(vs.drop_last()) + T::spec_encode(vs.last())
    }
}

/// The first `k` values that bytes hold, each in as many bytes as its kind takes.
pub open spec fn items_decode<T: FixedSsz>(bytes: Seq<u8>, k: nat, config: Config) -> Option<
    Seq<T::Value>,
>
    decreases k,
{
    if k == 0 {
        Some(Seq::empty())
    } else {
        match items_decode::<T>(bytes, (k - 1) as nat, config) {
            None => None,
            Some(before) => match T::spec_decode(
                bytes.subrange((k - 1) * T::spec_size(), (k * T::spec_size()) as int),
                config,
            ) {
                None => None,
                Some(x) => Some(before.push(x)),
            },
        }
    }
}

/// The values of a list whose items are of one length: the bytes are a whole number of
/// items, no more than the limit.
pub open spec fn list_decode<T: FixedSsz>(bytes: Seq<u8>, limit: nat, config: Config) -> Option<
    Seq<T::Value>,
> {
    let size = T::spec_size();
    if size == 0 || bytes.len() % size != 0 || bytes.len() / size > limit {
        None
    } else {
        items_decode::<T>(bytes, bytes.len() / size, config)
    }
}

/// The values of a vector whose items are of one length: the bytes are exactly `count`
/// items.
pub open spec fn vector_decode<T: FixedSsz>(bytes: Seq<u8>, count: nat, config: Config) -> Option<
    Seq<T::Value>,
> {
    if bytes.len() != count * T::spec_size() {
        None
    } else {
        items_decode::<T>(bytes, count, config)
    }
}

/// The encodings of items of one length take as many bytes as there are items, times
/// that length.
pub proof fn lemma_items_len<T: FixedSsz>(vs: Seq<T::Value>, config: Config)
    ensures
        items_encode::<T>(vs).len() == vs.len() * T::spec_size(),
    decreases vs.len(),
{
    if vs.len() > 0 {
        lemma_items_len::<T>(vs.drop_last(), config);
        T::lemma_size(vs.last(), Seq::empty(), config);
        let n = vs.len() as int;
        let size = T::spec_size() as int;
        assert((n - 1) * size + size == n * size) by (nonlinear_arith);
    }
}

/// The first items of bytes are those of every longer byte string that begins alike.
proof fn lemma_items_prefix<T: FixedSsz>(a: Seq<u8>, b: Seq<u8>, k: nat, config: Config)
    requires
        a.len() >= k * T::spec_size(),
    ensures
        items_decode::<T>(a + b, k, config) == items_decode::<T>(a, k, config),
    decreases k,
{
    if k > 0 {
        let size = T::spec_size() as int;
        assert((k - 1) * size + size == k * size) by (nonlinear_arith);
        assert(0 <= (k - 1) * size) by (nonlinear_arith)
            requires
                k >= 1,
                size >= 0,
        ;
        lemma_items_prefix::<T>(a, b, (k - 1) as nat, config);
        assert((a + b).subrange((k - 1) * size, k * size) =~= a.subrange(
            (k - 1) * size,
            k * size,
        ));
    }
}

/// Decoding the encodings of items gives the items.
pub proof fn lemma_items_round_trip<T: FixedSsz>(vs: Seq<T::Value>, config: Config)
    requires
        config.wf(),
        all_fit::<T>(vs, config),
    ensures
        items_encode::<T>(vs).len() == vs.len() * T::spec_size(),
        items_decode::<T>(items_encode::<T>(vs), vs.len(), config) == Some(vs),
    decreases vs.len(),
{
    lemma_items_len::<T>(vs, config);
    if vs.len() > 0 {
        let n = vs.len();
        let size = T::spec_size() as int;
        let before = vs.drop_last();
        let head = items_encode::<T>(before);
        let last = T::spec_encode(vs.last());
        assert(all_fit::<T>(before, config)) by {
            assert forall|i: int| 0 <= i < before.len() implies T::fits(
                #[trigger] before[i],
                config,
            ) by {
                assert(before[i] == vs[i]);
            }
        }
        lemma_items_round_trip::<T>(before, config);
        lemma_items_len::<T>(before, config);
        T::lemma_size(vs.last(), Seq::empty(), config);
        lemma_items_prefix::<T>(head, last, (n - 1) as nat, config);
        assert((n - 1) * size + size == n * size) by (nonlinear_arith);
        assert((head + last).subrange((n - 1) * size, n * size) =~= last);
        T::lemma_round_trip(vs.last(), config);
        assert(before.push(vs.last()) =~= vs);
    }
}

/// Decoding the encoding of a list within its limit gives the list.
pub proof fn lemma_list_round_trip<T: FixedSsz>(vs: Seq<T::Value>, limit: nat, config: Config)
    requires
        config.wf(),
        all_fit::<T>(vs, config),
        vs.len() <= limit,
    ensures
        list_decode::<T>(items_encode::<T>(vs), limit, config) == Some(vs),
{
    lemma_items_round_trip::<T>(vs, config);
    if vs.len() > 0 {
        T::lemma_size(vs[0], Seq::empty(), config);
    } else {
        T::lemma_size(arbitrary(), Seq::empty(), config);
    }
    let n = vs.len() as int;
    let size = T::spec_size() as int;
    assert((n * size) % size == 0 && (n * size) / size == n) by (nonlinear_arith)
        requires
            size > 0,
            n >= 0,
    ;
}

/// Decoding the encoding of a vector gives the vector.
pub proof fn lemma_vector_round_trip<T: FixedSsz>(vs: Seq<T::Value>, config: Config)
    requires
        config.wf(),
        all_fit::<T>(vs, config),
    ensures
        vector_decode::<T>(items_encode::<T>(vs), vs.len(), config) == Some(vs),
{
    lemma_items_round_trip::<T>(vs, config);
}

proof fn lemma_items_fail<T: FixedSsz>(bytes: Seq<u8>, k: nat, n: nat, config: Config)
    requires
        k <= n,
        items_decode::<T>(bytes, k, config) is None,
    ensures
        items_decode::<T>(bytes, n, config) is None,
    decreases n - k,
{
    if k < n {
        lemma_items_fail::<T>(bytes, k, (n - 1) as nat, config);
    }
}

/// Appends the encodings of the items.
pub fn items_append<T: Ssz>(items: &Vec<T>, buf: &mut Vec<u8>)
    ensures
        final(buf)@ == old(buf)@ + items_encode::<T>(values(items@)),
{
    let ghost vs = values(items@);
    let mut i: usize = 0;
    assert(vs.take(0) =~= Seq::empty());
    assert(buf@ =~= old(buf)@ + items_encode::<T>(vs.take(0)));
    while i < items.len()
        invariant
            i <= items@.len(),
            vs == values(items@),
            buf@ == old(buf)@ + items_encode::<T>(vs.take(i as int)),
        decreases items@.len() - i,
    {
        items[i].ssz_append(buf);
        proof {
            let next = vs.take(i as int + 1);
            assert(next.drop_last() =~= vs.take(i as int));
            assert(next.last() == items@[i as int].value());
            assert(buf@ =~= old(buf)@ + items_encode::<T>(next));
        }
        i += 1;
    }
    assert(vs.take(items@.len() as int) =~= vs);
}

/// The first `count` items of the bytes, which hold at least as many.
fn items_parse<T: FixedSsz>(bytes: &[u8], count: usize, config: &Config) -> (r: Option<Vec<T>>)
    requires
        config.wf(),
        count * T::spec_size() <= bytes@.len(),
    ensures
        match r {
            Some(items) => items_decode::<T>(bytes@, count as nat, *config) == Some(
                values(items@),
            ),
            None => items_decode::<T>(bytes@, count as nat, *config) is None,
        },
{
    let size = T::size();
    let total = bytes.len();
    let mut out: Vec<T> = Vec::new();
    let mut at: usize = 0;
    let mut k: usize = 0;
    assert(values(out@) =~= Seq::<T::Value>::empty());
    while k < count
        invariant
            config.wf(),
            size == T::spec_size(),
            size > 0,
            k <= count,
            count * size <= bytes@.len(),
            bytes@.len() <= usize::MAX,
            at == k * size,
            items_decode::<T>(bytes@, k as nat, *config) == Some(values(out@)),
        decreases count - k,
    {
        assert((k + 1) * size <= count * size && (k + 1) * size == k * size + size)
            by (nonlinear_arith)
            requires
                k < count,
                size > 0,
        ;
        let ghost before = values(out@);
        match T::ssz_decode(slice_subrange(bytes, at, at + size), config) {
            Some(x) => {
                out.push(x);
                assert(values(out@) =~= before.push(x.value()));
            },
            None => {
                proof {
                    lemma_items_fail::<T>(bytes@, (k + 1) as nat, count as nat, *config);
                }
                return None;
            },
        }
        at = at + size;
        k += 1;
    }
    Some(out)
}

/// Decodes a list whose items are of one length.
pub fn list_parse<T: FixedSsz>(bytes: &[u8], limit: u64, config: &Config) -> (r: Option<Vec<T>>)
    requires
        config.wf(),
    ensures
        match r {
            Some(items) => list_decode::<T>(bytes@, limit as nat, *config) == Some(
                values(items@),
            ),
            None => list_decode::<T>(bytes@, limit as nat, *config) is None,
        },
{
    let size = T::size();
    if bytes.len() % size != 0 {
        return None;
    }
    let count = bytes.len() / size;
    if count as u64 > limit {
        return None;
    }
    assert(count * size <= bytes@.len()) by (nonlinear_arith)
        requires
            count == (bytes@.len() as int) / (size as int),
            size > 0,
    ;
    items_parse::<T>(bytes, count, config)
}

/// Decodes a vector of `count` items of one length.
pub fn vector_parse<T: FixedSsz>(bytes: &[u8], count: u64, config: &Config) -> (r: Option<
    Vec<T>,
>)
    requires
        config.wf(),
        count <= 0x100_0000_0000,
    ensures
        match r {
            Some(items) => vector_decode::<T>(bytes@, count as nat, *config) == Some(
                values(items@),
            ),
            None => vector_decode::<T>(bytes@, count as nat, *config) is None,
        },
{
    let size = T::size();
    assert(count * size <= 0x100_0000_0000 * 0x1_0000) by (nonlinear_arith)
        requires
            count <= 0x100_0000_0000,
            size <= 0x1_0000,
    ;
    if bytes.len() as u128 != (count as u128) * (size as u128) {
        return None;
    }
    assert(count <= count * size) by (nonlinear_arith)
        requires
            size >= 1,
            count >= 0,
    ;
    items_parse::<T>(bytes, count as usize, config)
}

/// The bytes of a list of bytes: no more than the limit.
pub open spec fn bytes_decode(bytes: Seq<u8>, limit: nat) -> Option<Seq<u8>> {
    if bytes.len() > limit {
        None
    } else {
        Some(bytes)
    }
}

/// Decodes a list of bytes.
pub fn bytes_parse(bytes: &[u8], limit: u64) -> (r: Option<Vec<u8>>)
    ensures
        match r {
            Some(items) => bytes_decode(bytes@, limit as nat) == Some(items@),
            None => bytes_decode(bytes@, limit as nat) is None,
        },
{
    if bytes.len() as u64 > limit {
        return None;
    }
    let mut out: Vec<u8> = Vec::new();
    append(&mut out, bytes);
    assert(out@ =~= bytes@);
    Some(out)
}

/// The parts that a sequence of values of varying length is encoded as.
pub open spec fn var_pieces<T: Ssz>(vs: Seq<T::Value>) -> Seq<Piece> {
    Seq::new(vs.len(), |i: int| Piece { var: true, bytes: T::spec_encode(vs[i]) })
}

/// The encoding of a sequence of values of varying length: the places where the values
/// begin, then the values.
pub open spec fn var_items_encode<T: Ssz>(vs: Seq<T::Value>) -> Seq<u8> {
    frame(var_pieces::<T>(vs))
}

/// The layout of `n` parts of varying length.
pub open spec fn var_layout(n: nat) -> Seq<Option<nat>> {
    Seq::new(n, |i: int| None)
}

/// The values that the first `k` of a sequence of byte strings encode.
pub open spec fn blobs_decode<T: Ssz>(blobs: Seq<Seq<u8>>, k: nat, config: Config) -> Option<
    Seq<T::Value>,
>
    decreases k,
{
    if k == 0 {
        Some(Seq::empty())
    } else {
        match blobs_decode::<T>(blobs, (k - 1) as nat, config) {
            None => None,
            Some(before) => match T::spec_decode(blobs[k - 1], config) {
                None => None,
                Some(x) => Some(before.push(x)),
            },
        }
    }
}

/// The number of values of varying length that bytes hold: the place where the first
/// begins tells it, as four bytes stand for each value before that place.
pub open spec fn var_count(bytes: Seq<u8>) -> Option<nat> {
    if bytes.len() == 0 {
        Some(0)
    } else if bytes.len() < 4 || read_offset(bytes, 0) % 4 != 0 || read_offset(bytes, 0) == 0 {
        None
    } else {
        Some((read_offset(bytes, 0) / 4) as nat)
    }
}

/// The values of varying length that bytes hold, `count` of them.
pub open spec fn var_items_decode<T: Ssz>(bytes: Seq<u8>, count: nat, config: Config) -> Option<
    Seq<T::Value>,
> {
    match unframe(bytes, var_layout(count)) {
        None => None,
        Some(blobs) => blobs_decode::<T>(blobs, count, config),
    }
}

/// The values of a list whose items vary in length: no more than the limit.
pub open spec fn var_list_decode<T: Ssz>(bytes: Seq<u8>, limit: nat, config: Config) -> Option<
    Seq<T::Value>,
> {
    match var_count(bytes) {
        None => None,
        Some(count) => if count > limit {
            None
        } else {
            var_items_decode::<T>(bytes, count, config)
        },
    }
}

/// The values of a vector whose items vary in length: exactly `count` of them.
pub open spec fn var_vector_decode<T: Ssz>(bytes: Seq<u8>, count: nat, config: Config) -> Option<
    Seq<T::Value>,
> {
    if var_count(bytes) != Some(count) {
        None
    } else {
        var_items_decode::<T>(bytes, count, config)
    }
}

proof fn lemma_blobs_round_trip<T: Ssz>(vs: Seq<T::Value>, k: nat, config: Config)
    requires
        config.wf(),
        all_fit::<T>(vs, config),
        k <= vs.len(),
    ensures
        blobs_decode::<T>(blobs_of(var_pieces::<T>(vs)), k, config) == Some(vs.take(k as int)),
    decreases k,
{
    if k > 0 {
        lemma_blobs_round_trip::<T>(vs, (k - 1) as nat, config);
        T::lemma_round_trip(vs[k - 1], config);
        assert(vs.take(k - 1).push(vs[k - 1]) =~= vs.take(k as int));
    } else {
        assert(vs.take(0) =~= Seq::<T::Value>::empty());
    }
}

proof fn lemma_var_head<T: Ssz>(vs: Seq<T::Value>, k: nat)
    requires
        k <= vs.len(),
    ensures
        head_len(var_pieces::<T>(vs), k) == 4 * k,
    decreases k,
{
    if k > 0 {
        lemma_var_head::<T>(vs, (k - 1) as nat);
    }
}

/// Decoding the encoding of values of varying length gives the values.
pub proof fn lemma_var_items_round_trip<T: Ssz>(vs: Seq<T::Value>, config: Config)
    requires
        config.wf(),
        all_fit::<T>(vs, config),
        var_items_encode::<T>(vs).len() < 0x1_0000_0000,
    ensures
        var_count(var_items_encode::<T>(vs)) == Some(vs.len()),
        var_items_decode::<T>(var_items_encode::<T>(vs), vs.len(), config) == Some(vs),
{
    let pieces = var_pieces::<T>(vs);
    let n = vs.len();
    lemma_unframe_frame(pieces);
    assert(layout_of(pieces) =~= var_layout(n));
    lemma_blobs_round_trip::<T>(vs, n, config);
    assert(vs.take(n as int) =~= vs);
    lemma_var_head::<T>(vs, n);
    lemma_lengths(pieces, n);
    if n > 0 {
        lemma_read_offset(pieces, 0);
        assert(head_len(pieces, 0) == 0);
        assert(tail_len(pieces, 0) == 0);
    } else {
        assert(frame_head(pieces, 0).len() == 0);
        assert(frame_tail(pieces, 0).len() == 0);
    }
}

proof fn lemma_blobs_fail<T: Ssz>(blobs: Seq<Seq<u8>>, k: nat, n: nat, config: Config)
    requires
        k <= n,
        blobs_decode::<T>(blobs, k, config) is None,
    ensures
        blobs_decode::<T>(blobs, n, config) is None,
    decreases n - k,
{
    if k < n {
        lemma_blobs_fail::<T>(blobs, k, (n - 1) as nat, config);
    }
}

/// Appends the encoding of items of varying length.
pub fn var_items_append<T: Ssz>(items: &Vec<T>, buf: &mut Vec<u8>)
    ensures
        final(buf)@ == old(buf)@ + var_items_encode::<T>(values(items@)),
{
    let ghost vs = values(items@);
    let ghost pieces = var_pieces::<T>(vs);
    let n = items.len();
    proof {
        lemma_var_head::<T>(vs, n as nat);
    }
    let mut head: Vec<u8> = Vec::new();
    let mut tail: Vec<u8> = Vec::new();
    let mut i: usize = 0;
    while i < n
        invariant
            n == items@.len(),
            vs == values(items@),
            pieces == var_pieces::<T>(vs),
            head_len(pieces, n as nat) == 4 * n,
            i <= n,
            head@ == frame_head(pieces, i as nat),
            tail@ == frame_tail(pieces, i as nat),
            tail@.len() == tail_len(pieces, i as nat),
        decreases n - i,
    {
        proof {
            lemma_lengths(pieces, i as nat);
            lemma_lengths(pieces, (i + 1) as nat);
        }
        put_offset(&mut head, 4u128 * (n as u128) + tail.len() as u128);
        items[i].ssz_append(&mut tail);
        i += 1;
    }
    append(buf, head.as_slice());
    append(buf, tail.as_slice());
    assert(buf@ =~= old(buf)@ + frame(pieces));
}

/// The number of items of varying length that the bytes hold.
fn var_count_of(bytes: &[u8]) -> (r: Option<usize>)
    ensures
        match r {
            Some(n) => var_count(bytes@) == Some(n as nat),
            None => var_count(bytes@) is None,
        },
{
    if bytes.len() == 0 {
        return Some(0);
    }
    if bytes.len() < 4 {
        return None;
    }
    let first = vstd::bytes::u32_from_le_bytes(slice_subrange(bytes, 0, 4));
    if first % 4 != 0 || first == 0 {
        return None;
    }
    Some((first / 4) as usize)
}

/// The items of varying length that the bytes hold, `count` of them.
fn var_items_parse<T: Ssz>(bytes: &[u8], count: usize, config: &Config) -> (r: Option<Vec<T>>)
    requires
        config.wf(),
    ensures
        match r {
            Some(items) => var_items_decode::<T>(bytes@, count as nat, *config) == Some(
                values(items@),
            ),
            None => var_items_decode::<T>(bytes@, count as nat, *config) is None,
        },
{
    let mut layout: Vec<Option<usize>> = Vec::new();
    let mut k: usize = 0;
    while k < count
        invariant
            k <= count,
            layout@.len() == k,
            forall|i: int| 0 <= i < k ==> (#[trigger] layout@[i]) is None,
        decreases count - k,
    {
        layout.push(None);
        k += 1;
    }
    assert(layout_view(layout@) =~= var_layout(count as nat));
    let ranges = match split(bytes, &layout) {
        Some(ranges) => ranges,
        None => {
            return None;
        },
    };
    let ghost blobs = unframe(bytes@, var_layout(count as nat))->Some_0;
    let mut out: Vec<T> = Vec::new();
    let mut i: usize = 0;
    assert(values(out@) =~= Seq::<T::Value>::empty());
    while i < count
        invariant
            config.wf(),
            i <= count,
            ranges@.len() == count,
            unframe(bytes@, var_layout(count as nat)) == Some(blobs),
            blobs.len() == count,
            forall|t: int|
                0 <= t < count ==> {
                    &&& (#[trigger] ranges@[t]).0 <= ranges@[t].1 <= bytes@.len()
                    &&& bytes@.subrange(ranges@[t].0 as int, ranges@[t].1 as int) == blobs[t]
                },
            blobs_decode::<T>(blobs, i as nat, *config) == Some(values(out@)),
        decreases count - i,
    {
        let range = ranges[i];
        let ghost before = values(out@);
        match T::ssz_decode(slice_subrange(bytes, range.0, range.1), config) {
            Some(x) => {
                out.push(x);
                assert(values(out@) =~= before.push(x.value()));
            },
            None => {
                proof {
                    lemma_blobs_fail::<T>(blobs, (i + 1) as nat, count as nat, *config);
                }
                return None;
            },
        }
        i += 1;
    }
    Some(out)
}

/// Decodes a list whose items vary in length.
pub fn var_list_parse<T: Ssz>(bytes: &[u8], limit: u64, config: &Config) -> (r: Option<Vec<T>>)
    requires
        config.wf(),
    ensures
        match r {
            Some(items) => var_list_decode::<T>(bytes@, limit as nat, *config) == Some(
                values(items@),
            ),
            None => var_list_decode::<T>(bytes@, limit as nat, *config) is None,
        },
{
    let count = match var_count_of(bytes) {
        Some(count) => count,
        None => {
            return None;
        },
    };
    if count as u64 > limit {
        return None;
    }
    var_items_parse::<T>(bytes, count, config)
}

/// Decodes a vector of `count` items that vary in length.
pub fn var_vector_parse<T: Ssz>(bytes: &[u8], count: u64, config: &Config) -> (r: Option<Vec<T>>)
    requires
        config.wf(),
    ensures
        match r {
            Some(items) => var_vector_decode::<T>(bytes@, count as nat, *config) == Some(
                values(items@),
            ),
            None => var_vector_decode::<T>(bytes@, count as nat, *config) is None,
        },
{
    let found = match var_count_of(bytes) {
        Some(found) => found,
        None => {
            return None;
        },
    };
    if found as u64 != count {
        return None;
    }
    var_items_parse::<T>(bytes, found, config)
}

} // verus!
