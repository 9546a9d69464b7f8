//! How parts of fixed and of varying length make up an encoding, and how the encoding
//! is taken apart again.

use vstd::bytes::{
    lemma_auto_spec_u32_to_from_le_bytes, spec_u32_from_le_bytes, spec_u32_to_le_bytes,
    u32_from_le_bytes, u32_to_le_bytes,
};
use vstd::prelude::*;
use vstd::slice::slice_subrange;
use crate::merkle::append;

verus! {

/// One part of a value as it is encoded: its bytes, and whether their number varies. A
/// part of varying length is encoded after all parts of fixed length, and the place where
/// it begins stands among them in its stead.
pub struct Piece {
    pub var: bool,
    pub bytes: Seq<u8>,
}

/// How a place in the encoding is written: as four bytes, lowest first.
pub open spec fn offset_bytes(place: nat) -> Seq<u8> {
    spec_u32_to_le_bytes((place % 0x1_0000_0000) as u32)
}

/// The number of bytes that the first `k` parts take before the parts of varying length.
pub open spec fn head_len(pieces: Seq<Piece>, k: nat) -> nat
    decreases k,
{
    if k == 0 {
        0
    } else {
        head_len(pieces, (k - 1) as nat) + if pieces[k - 1].var {
            4
        } else {
            pieces[k - 1].bytes.len()
        }
    }
}

/// The number of bytes that the parts of varying length among the first `k` take.
pub open spec fn tail_len(pieces: Seq<Piece>, k: nat) -> nat
    decreases k,
{
    if k == 0 {
        0
    } else {
        tail_len(pieces, (k - 1) as nat) + if pieces[k - 1].var {
            pieces[k - 1].bytes.len()
        } else {
            0
        }
    }
}

/// What the first `k` parts put before the parts of varying length.
pub open spec fn frame_head(pieces: Seq<Piece>, k: nat) -> Seq<u8>
    decreases k,
{
    if k == 0 {
        Seq::empty()
    } else {
        frame_head(pieces, (k - 1) as nat) + if pieces[k - 1].var {
            offset_bytes(head_len(pieces, pieces.len()) + tail_len(pieces, (k - 1) as nat))
        } else {
            pieces[k - 1].bytes
        }
    }
}

/// The parts of varying length among the first `k`, one after the other.
pub open spec fn frame_tail(pieces: Seq<Piece>, k: nat) -> Seq<u8>
    decreases k,
{
    if k == 0 {
        Seq::empty()
    } else {
        frame_tail(pieces, (k - 1) as nat) + if pieces[k - 1].var {
            pieces[k - 1].bytes
        } else {
            Seq::empty()
        }
    }
}

/// The encoding of a value that is made of parts.
pub open spec fn frame(pieces: Seq<Piece>) -> Seq<u8> {
    frame_head(pieces, pieces.len()) + frame_tail(pieces, pieces.len())
}

/// The lengths of the parts of fixed length; nothing for a part of varying length.
pub open spec fn layout_of(pieces: Seq<Piece>) -> Seq<Option<nat>> {
    Seq::new(
        pieces.len(),
        |i: int|
            if pieces[i].var {
                None
            } else {
                Some(pieces[i].bytes.len())
            },
    )
}

/// The bytes of the parts.
pub open spec fn blobs_of(pieces: Seq<Piece>) -> Seq<Seq<u8>> {
    Seq::new(pieces.len(), |i: int| pieces[i].bytes)
}

/// Where the `k`-th part stands among the parts of fixed length.
pub open spec fn layout_head_len(layout: Seq<Option<nat>>, k: nat) -> nat
    decreases k,
{
    if k == 0 {
        0
    } else {
        layout_head_len(layout, (k - 1) as nat) + match layout[k - 1] {
            Some(n) => n,
            None => 4,
        }
    }
}

/// The place that is written at `at`.
pub open spec fn read_offset(bytes: Seq<u8>, at: int) -> int {
    spec_u32_from_le_bytes(bytes.subrange(at, at + 4)) as int
}

/// Where the first part of varying length from the `j`-th on begins; the end of the bytes
/// where there is none.
pub open spec fn next_start(bytes: Seq<u8>, layout: Seq<Option<nat>>, j: int) -> int
    decreases layout.len() - j,
{
    if j < 0 || j >= layout.len() {
        bytes.len() as int
    } else if layout[j] is None {
        read_offset(bytes, layout_head_len(layout, j as nat) as int)
    } else {
        next_start(bytes, layout, j + 1)
    }
}

/// Where the `i`-th part begins.
pub open spec fn start_of(bytes: Seq<u8>, layout: Seq<Option<nat>>, i: int) -> int {
    match layout[i] {
        Some(_) => layout_head_len(layout, i as nat) as int,
        None => read_offset(bytes, layout_head_len(layout, i as nat) as int),
    }
}

/// Where the `i`-th part ends: a part of varying length ends where the next one begins.
pub open spec fn end_of(bytes: Seq<u8>, layout: Seq<Option<nat>>, i: int) -> int {
    match layout[i] {
        Some(n) => (layout_head_len(layout, i as nat) + n) as int,
        None => next_start(bytes, layout, i + 1),
    }
}

/// The bytes are made of parts of this layout: they hold all parts of fixed length; the
/// first part of varying length begins right after them, or the bytes end there; and no
/// part of varying length begins after its end.
pub open spec fn frame_ok(bytes: Seq<u8>, layout: Seq<Option<nat>>) -> bool {
    &&& layout_head_len(layout, layout.len()) <= bytes.len()
    &&& next_start(bytes, layout, 0) == layout_head_len(layout, layout.len())
    &&& forall|i: int|
        0 <= i < layout.len() && layout[i] is None ==> #[trigger] start_of(bytes, layout, i)
            <= end_of(bytes, layout, i)
}

/// The bytes of the parts that make up `bytes`, if it is made of parts of this layout.
pub open spec fn unframe(bytes: Seq<u8>, layout: Seq<Option<nat>>) -> Option<Seq<Seq<u8>>> {
    if frame_ok(bytes, layout) {
        Some(
            Seq::new(
                layout.len(),
                |i: int| bytes.subrange(start_of(bytes, layout, i), end_of(bytes, layout, i)),
            ),
        )
    } else {
        None
    }
}

/// The head and the tail of the first parts are as long as the lengths of the parts say.
pub proof fn lemma_lengths(pieces: Seq<Piece>, k: nat)
    requires
        k <= pieces.len(),
    ensures
        frame_head(pieces, k).len() == head_len(pieces, k),
        frame_tail(pieces, k).len() == tail_len(pieces, k),
        layout_head_len(layout_of(pieces), k) == head_len(pieces, k),
    decreases k,
{
    if k > 0 {
        lemma_lengths(pieces, (k - 1) as nat);
        lemma_auto_spec_u32_to_from_le_bytes();
    }
}

proof fn lemma_monotone(pieces: Seq<Piece>, i: nat, k: nat)
    requires
        i <= k <= pieces.len(),
    ensures
        head_len(pieces, i) <= head_len(pieces, k),
        tail_len(pieces, i) <= tail_len(pieces, k),
    decreases k,
{
    if i < k {
        lemma_monotone(pieces, i, (k - 1) as nat);
    }
}

/// The `i`-th part stands in the head at its place.
proof fn lemma_head_part(pieces: Seq<Piece>, i: nat, k: nat)
    requires
        i < k <= pieces.len(),
    ensures
        frame_head(pieces, k).subrange(
            head_len(pieces, i) as int,
            head_len(pieces, i + 1) as int,
        ) == (if pieces[i as int].var {
            offset_bytes(head_len(pieces, pieces.len()) + tail_len(pieces, i))
        } else {
            pieces[i as int].bytes
        }),
    decreases k,
{
    lemma_lengths(pieces, i);
    lemma_lengths(pieces, i + 1);
    if k == i + 1 {
        let part = if pieces[i as int].var {
            offset_bytes(head_len(pieces, pieces.len()) + tail_len(pieces, i))
        } else {
            pieces[i as int].bytes
        };
        assert(frame_head(pieces, k) == frame_head(pieces, i) + part);
        assert((frame_head(pieces, i) + part).subrange(
            head_len(pieces, i) as int,
            head_len(pieces, i + 1) as int,
        ) =~= part);
    } else {
        lemma_head_part(pieces, i, (k - 1) as nat);
        lemma_lengths(pieces, (k - 1) as nat);
        lemma_monotone(pieces, i + 1, (k - 1) as nat);
        let before = frame_head(pieces, (k - 1) as nat);
        let whole = frame_head(pieces, k);
        assert(whole.subrange(head_len(pieces, i) as int, head_len(pieces, i + 1) as int)
            =~= before.subrange(head_len(pieces, i) as int, head_len(pieces, i + 1) as int));
    }
}

/// The `i`-th part, where its length varies, stands in the tail at its place.
proof fn lemma_tail_part(pieces: Seq<Piece>, i: nat, k: nat)
    requires
        i < k <= pieces.len(),
        pieces[i as int].var,
    ensures
        frame_tail(pieces, k).subrange(
            tail_len(pieces, i) as int,
            tail_len(pieces, i + 1) as int,
        ) == pieces[i as int].bytes,
    decreases k,
{
    lemma_lengths(pieces, i);
    lemma_lengths(pieces, i + 1);
    if k == i + 1 {
        let part = pieces[i as int].bytes;
        assert(frame_tail(pieces, k) == frame_tail(pieces, i) + part);
        assert((frame_tail(pieces, i) + part).subrange(
            tail_len(pieces, i) as int,
            tail_len(pieces, i + 1) as int,
        ) =~= part);
    } else {
        lemma_tail_part(pieces, i, (k - 1) as nat);
        lemma_lengths(pieces, (k - 1) as nat);
        lemma_monotone(pieces, i + 1, (k - 1) as nat);
        let before = frame_tail(pieces, (k - 1) as nat);
        let whole = frame_tail(pieces, k);
        assert(whole.subrange(tail_len(pieces, i) as int, tail_len(pieces, i + 1) as int)
            =~= before.subrange(tail_len(pieces, i) as int, tail_len(pieces, i + 1) as int));
    }
}

/// The place of a part of varying length is read back from the encoding.
pub proof fn lemma_read_offset(pieces: Seq<Piece>, i: nat)
    requires
        i < pieces.len(),
        pieces[i as int].var,
        frame(pieces).len() < 0x1_0000_0000,
    ensures
        read_offset(frame(pieces), head_len(pieces, i) as int) == head_len(pieces, pieces.len())
            + tail_len(pieces, i),
{
    let n = pieces.len();
    lemma_lengths(pieces, n);
    lemma_lengths(pieces, i);
    lemma_lengths(pieces, i + 1);
    lemma_monotone(pieces, i + 1, n);
    lemma_monotone(pieces, i, n);
    lemma_head_part(pieces, i, n);
    lemma_auto_spec_u32_to_from_le_bytes();
    let head = frame_head(pieces, n);
    let whole = frame(pieces);
    let at = head_len(pieces, i) as int;
    assert(whole.subrange(at, at + 4) =~= head.subrange(at, at + 4));
    let place = head_len(pieces, n) + tail_len(pieces, i);
    assert(place < 0x1_0000_0000);
}

proof fn lemma_next_start(pieces: Seq<Piece>, j: int)
    requires
        0 <= j <= pieces.len(),
        frame(pieces).len() < 0x1_0000_0000,
    ensures
        next_start(frame(pieces), layout_of(pieces), j) == head_len(pieces, pieces.len())
            + tail_len(pieces, j as nat),
    decreases pieces.len() - j,
{
    let n = pieces.len();
    lemma_lengths(pieces, n);
    if j < n {
        lemma_lengths(pieces, j as nat);
        if pieces[j].var {
            lemma_read_offset(pieces, j as nat);
        } else {
            lemma_next_start(pieces, j + 1);
        }
    }
}

/// Taking the encoding of parts apart gives the parts.
pub proof fn lemma_unframe_frame(pieces: Seq<Piece>)
    requires
        frame(pieces).len() < 0x1_0000_0000,
    ensures
        unframe(frame(pieces), layout_of(pieces)) == Some(blobs_of(pieces)),
{
    let n = pieces.len();
    let bytes = frame(pieces);
    let layout = layout_of(pieces);
    lemma_lengths(pieces, n);
    lemma_next_start(pieces, 0);
    assert forall|i: int| 0 <= i < n implies {
        &&& start_of(bytes, layout, i) <= end_of(bytes, layout, i)
        &&& bytes.subrange(start_of(bytes, layout, i), end_of(bytes, layout, i))
            == pieces[i].bytes
    } by {
        lemma_lengths(pieces, i as nat);
        lemma_lengths(pieces, (i + 1) as nat);
        lemma_monotone(pieces, (i + 1) as nat, n);
        if pieces[i].var {
            lemma_read_offset(pieces, i as nat);
            lemma_next_start(pieces, i + 1);
            lemma_tail_part(pieces, i as nat, n);
            let head = frame_head(pieces, n);
            let tail = frame_tail(pieces, n);
            let a = tail_len(pieces, i as nat) as int;
            let b = tail_len(pieces, (i + 1) as nat) as int;
            assert(bytes.subrange(head.len() + a, head.len() + b) =~= tail.subrange(a, b));
        } else {
            lemma_head_part(pieces, i as nat, n);
            let head = frame_head(pieces, n);
            let a = head_len(pieces, i as nat) as int;
            let b = head_len(pieces, (i + 1) as nat) as int;
            assert(bytes.subrange(a, b) =~= head.subrange(a, b));
        }
    }
    assert(frame_ok(bytes, layout));
    assert(unframe(bytes, layout)->Some_0 =~= blobs_of(pieces));
}

/// The head grows by a part's own bytes, or by the four bytes of its place where its
/// length varies.
pub proof fn lemma_head_step(pieces: Seq<Piece>, k: nat)
    ensures
        head_len(pieces, k + 1) == head_len(pieces, k) + if pieces[k as int].var {
            4
        } else {
            pieces[k as int].bytes.len()
        },
{
}

/// No part is longer than the whole encoding.
pub proof fn lemma_piece_within(pieces: Seq<Piece>, i: int)
    requires
        0 <= i < pieces.len(),
    ensures
        pieces[i].bytes.len() <= frame(pieces).len(),
{
    let n = pieces.len();
    lemma_lengths(pieces, n);
    lemma_lengths(pieces, i as nat);
    lemma_lengths(pieces, (i + 1) as nat);
    lemma_monotone(pieces, (i + 1) as nat, n);
}

/// Writes the place where a part of varying length begins.
pub(crate) fn put_offset(buf: &mut Vec<u8>, place: u128)
    ensures
        final(buf)@ == old(buf)@ + offset_bytes(place as nat),
{
    let low = (place % 0x1_0000_0000) as u32;
    let b = u32_to_le_bytes(low);
    append(buf, b.as_slice());
}

/// The layout as the machine holds it.
pub open spec fn layout_view(layout: Seq<Option<usize>>) -> Seq<Option<nat>> {
    Seq::new(
        layout.len(),
        |i: int|
            match layout[i] {
                Some(n) => Some(n as nat),
                None => None,
            },
    )
}

/// Where each part of the bytes begins and ends, if the bytes are made of parts of this
/// layout.
pub(crate) fn split(bytes: &[u8], layout: &Vec<Option<usize>>) -> (r: Option<Vec<(usize, usize)>>)
    ensures
        match r {
            Some(ranges) => {
                &&& frame_ok(bytes@, layout_view(layout@))
                &&& ranges@.len() == layout@.len()
                &&& forall|i: int|
                    0 <= i < ranges@.len() ==> {
                        &&& (#[trigger] ranges@[i]).0 == start_of(
                            bytes@,
                            layout_view(layout@),
                            i,
                        )
                        &&& ranges@[i].1 == end_of(bytes@, layout_view(layout@), i)
                        &&& ranges@[i].0 <= ranges@[i].1 <= bytes@.len()
                    }
            },
            None => !frame_ok(bytes@, layout_view(layout@)),
        },
{
    let ghost lay = layout_view(layout@);
    let n = layout.len();
    let mut places: Vec<usize> = Vec::new();
    let mut total: usize = 0;
    let mut k: usize = 0;
    while k < n
        invariant
            n == layout@.len(),
            lay == layout_view(layout@),
            k <= n,
            places@.len() == k,
            total == layout_head_len(lay, k as nat),
            total <= bytes@.len(),
            forall|i: int| 0 <= i < k ==> places@[i] == layout_head_len(lay, i as nat),
        decreases n - k,
    {
        places.push(total);
        assert(lay[k as int] == match layout@[k as int] {
            Some(n) => Some(n as nat),
            None => None,
        });
        let step = match layout[k] {
            Some(len) => len,
            None => 4,
        };
        if step > bytes.len() - total {
            proof {
                lemma_layout_monotone(lay, (k + 1) as nat, n as nat);
            }
            return None;
        }
        total = total + step;
        k += 1;
    }
    let mut ranges: Vec<(usize, usize)> = crate::math::filled(n, (0usize, 0usize));
    let mut next = bytes.len();
    let mut i = n;
    while i > 0
        invariant
            n == layout@.len(),
            lay == layout_view(layout@),
            i <= n,
            places@.len() == n,
            ranges@.len() == n,
            total == layout_head_len(lay, n as nat),
            total <= bytes@.len(),
            bytes@.len() <= usize::MAX,
            forall|t: int| 0 <= t < n ==> places@[t] == layout_head_len(lay, t as nat),
            next == next_start(bytes@, lay, i as int),
            next <= bytes@.len(),
            forall|t: int|
                i <= t < n ==> {
                    &&& (#[trigger] ranges@[t]).0 == start_of(bytes@, lay, t)
                    &&& ranges@[t].1 == end_of(bytes@, lay, t)
                    &&& ranges@[t].0 <= ranges@[t].1 <= bytes@.len()
                },
        decreases i,
    {
        i -= 1;
        let at = places[i];
        assert(lay[i as int] == match layout@[i as int] {
            Some(n) => Some(n as nat),
            None => None,
        });
        proof {
            lemma_layout_monotone(lay, (i + 1) as nat, n as nat);
            assert(at == layout_head_len(lay, i as nat));
            assert(layout_head_len(lay, (i + 1) as nat) == at + match lay[i as int] {
                Some(n) => n,
                None => 4,
            });
        }
        match layout[i] {
            Some(len) => {
                ranges.set(i, (at, at + len));
            },
            None => {
                let place = u32_from_le_bytes(slice_subrange(bytes, at, at + 4)) as usize;
                assert(place == read_offset(bytes@, at as int));
                assert(place == start_of(bytes@, lay, i as int));
                assert(next == end_of(bytes@, lay, i as int));
                if place > next {
                    return None;
                }
                ranges.set(i, (place, next));
                next = place;
            },
        }
    }
    if next != total {
        return None;
    }
    proof {
        assert forall|t: int| 0 <= t < n && lay[t] is None implies #[trigger] start_of(
            bytes@,
            lay,
            t,
        ) <= end_of(bytes@, lay, t) by {
            assert(ranges@[t].0 <= ranges@[t].1);
        }
    }
    Some(ranges)
}

proof fn lemma_layout_monotone(layout: Seq<Option<nat>>, i: nat, k: nat)
    requires
        i <= k <= layout.len(),
    ensures
        layout_head_len(layout, i) <= layout_head_len(layout, k),
    decreases k,
{
    if i < k {
        lemma_layout_monotone(layout, i, (k - 1) as nat);
    }
}

} // verus!
