//! Cutting a buffer of concatenated frames into one slice per frame.
//!
//! A frame boundary is found by scanning for the two magic bytes. A DEFLATE payload
//! may hold the same two bytes, so the cut is right only where no payload does: that
//! is a condition on the payloads that the splitter cannot check, and the laws below
//! state it as a precondition.
use vstd::prelude::*;
use vstd::slice::slice_subrange;

use crate::compression::header::{magic_at, MAGIC_HIGH, MAGIC_LOW};

verus! {

/// First position at or after `i` where the magic begins in `b`, or `b.len()` where
/// there is none.
pub open spec fn next_boundary(b: Seq<u8>, i: int) -> int
    decreases b.len() - i,
{
    if i < 0 || i + 1 >= b.len() {
        b.len() as int
    } else if magic_at(b, i) {
        i
    } else {
        next_boundary(b, i + 1)
    }
}

/// The frames of `b` from position `s` on: each runs from its start to the next magic
/// after that start, the last one to the end of `b`.
pub open spec fn frames_from(b: Seq<u8>, s: int) -> Seq<Seq<u8>>
    decreases b.len() - s,
{
    if s < 0 || s >= b.len() {
        Seq::empty()
    } else {
        proof {
            lemma_next_boundary_bounds(b, s + 1);
        }
        let e = next_boundary(b, s + 1);
        seq![b.subrange(s, e)] + frames_from(b, e)
    }
}

/// The frames of `b`: the first starts at offset 0, whatever its bytes, and a new one
/// starts at every later position where the magic begins.
pub open spec fn frames_of(b: Seq<u8>) -> Seq<Seq<u8>> {
    frames_from(b, 0)
}

/// A frame as the splitter sees it: it begins with the magic and holds it nowhere else.
pub open spec fn is_delimited_frame(f: Seq<u8>) -> bool {
    &&& magic_at(f, 0)
    &&& forall|j: int| 1 <= j < f.len() ==> !magic_at(f, j)
}

/// The contents of a sequence of slices.
pub open spec fn slices_view(v: Seq<&[u8]>) -> Seq<Seq<u8>> {
    v.map_values(|s: &[u8]| s@)
}

pub proof fn lemma_next_boundary_bounds(b: Seq<u8>, i: int)
    requires
        0 <= i <= b.len(),
    ensures
        i <= next_boundary(b, i) <= b.len(),
        next_boundary(b, i) < b.len() ==> magic_at(b, next_boundary(b, i)),
        forall|j: int| i <= j < next_boundary(b, i) ==> !magic_at(b, j),
    decreases b.len() - i,
{
    if i + 1 < b.len() && !magic_at(b, i) {
        lemma_next_boundary_bounds(b, i + 1);
    }
}

/// Where no magic begins in `[i, k)` and `k` is the end of `b` or a magic position,
/// the next boundary from `i` is `k`.
proof fn lemma_next_boundary_at(b: Seq<u8>, i: int, k: int)
    requires
        0 <= i <= k <= b.len(),
        forall|j: int| i <= j < k ==> !magic_at(b, j),
        k == b.len() || magic_at(b, k),
    ensures
        next_boundary(b, i) == k,
    decreases k - i,
{
    if i < k {
        if i + 1 < b.len() {
            lemma_next_boundary_at(b, i + 1, k);
        }
    }
}

/// Boundaries in the second part of a concatenation are those of the part, shifted.
proof fn lemma_next_boundary_shift(p: Seq<u8>, q: Seq<u8>, s: int)
    requires
        0 <= s,
    ensures
        next_boundary(p + q, p.len() + s) == p.len() + next_boundary(q, s),
    decreases q.len() - s,
{
    let b = p + q;
    if s + 1 < q.len() {
        assert(magic_at(b, p.len() + s) == magic_at(q, s));
        if !magic_at(q, s) {
            lemma_next_boundary_shift(p, q, s + 1);
        }
    }
}

/// The frames in the second part of a concatenation are those of the part alone.
proof fn lemma_frames_from_shift(p: Seq<u8>, q: Seq<u8>, s: int)
    requires
        0 <= s,
    ensures
        frames_from(p + q, p.len() + s) == frames_from(q, s),
    decreases q.len() - s,
{
    let b = p + q;
    if s < q.len() {
        lemma_next_boundary_shift(p, q, s + 1);
        lemma_next_boundary_bounds(q, s + 1);
        let e = next_boundary(q, s + 1);
        lemma_frames_from_shift(p, q, e);
        assert(b.subrange(p.len() + s, p.len() + e) =~= q.subrange(s, e));
    }
}

/// Splitting the concatenation of frames that each begin with the magic and hold it
/// nowhere else gives back exactly those frames, in order.
pub proof fn lemma_split_concatenated_frames(fs: Seq<Seq<u8>>)
    requires
        forall|k: int| 0 <= k < fs.len() ==> is_delimited_frame(#[trigger] fs[k]),
    ensures
        frames_of(fs.flatten()) == fs,
        forall|k: int| 0 <= k < fs.len() ==> magic_at(#[trigger] frames_of(fs.flatten())[k], 0),
    decreases fs.len(),
{
    if fs.len() == 0 {
        assert(frames_of(fs.flatten()) =~= fs);
    } else {
        let f = fs[0];
        let tail = fs.drop_first();
        let rest = tail.flatten();
        let b = fs.flatten();
        assert(b == f + rest);
        assert forall|k: int| 0 <= k < tail.len() implies is_delimited_frame(
            #[trigger] tail[k],
        ) by {
            assert(tail[k] == fs[k + 1]);
        }
        lemma_split_concatenated_frames(tail);
        assert(is_delimited_frame(f));
        if tail.len() > 0 {
            assert(is_delimited_frame(fs[1]));
            assert(rest == fs[1] + tail.drop_first().flatten());
            assert(rest[0] == MAGIC_HIGH && rest[1] == MAGIC_LOW);
            assert(magic_at(b, f.len() as int));
        }
        assert forall|j: int| 1 <= j < f.len() implies !magic_at(b, j) by {
            if j + 1 < f.len() {
                assert(magic_at(b, j) == magic_at(f, j));
            } else {
                assert(MAGIC_HIGH != MAGIC_LOW);
            }
        }
        lemma_next_boundary_at(b, 1, f.len() as int);
        assert(b.subrange(0, f.len() as int) =~= f);
        lemma_frames_from_shift(f, rest, 0);
        assert(frames_of(b) =~= seq![f] + tail);
        assert(frames_of(b) =~= fs);
    }
}

/// The frames from `s` on cover `b` from `s` to its end, none is empty, each but the
/// first (and the first too where the magic begins at `s`) begins with the magic, and
/// none holds the magic anywhere else.
proof fn lemma_frames_from_cover(b: Seq<u8>, s: int)
    requires
        0 <= s <= b.len(),
    ensures
        frames_from(b, s).flatten() == b.skip(s),
        forall|k: int| 0 <= k < frames_from(b, s).len() ==> (#[trigger] frames_from(b, s)[k]).len() > 0,
        forall|k: int|
            0 < k < frames_from(b, s).len() ==> magic_at(#[trigger] frames_from(b, s)[k], 0),
        magic_at(b, s) ==> magic_at(frames_from(b, s)[0], 0),
        forall|k: int, j: int|
            #![trigger magic_at(frames_from(b, s)[k], j)]
            0 <= k < frames_from(b, s).len() && 1 <= j ==> !magic_at(frames_from(b, s)[k], j),
    decreases b.len() - s,
{
    let fr = frames_from(b, s);
    if s == b.len() {
        assert(b.skip(s) =~= Seq::<u8>::empty());
    } else {
        lemma_next_boundary_bounds(b, s + 1);
        let e = next_boundary(b, s + 1);
        let head = b.subrange(s, e);
        let rest = frames_from(b, e);
        lemma_frames_from_cover(b, e);
        assert(fr == seq![head] + rest);
        assert(fr.drop_first() =~= rest);
        assert(head + b.skip(e) =~= b.skip(s));
        assert forall|k: int| 0 < k < fr.len() implies magic_at(#[trigger] fr[k], 0) by {
            assert(fr[k] == rest[k - 1]);
            if k == 1 {
                assert(e < b.len());
            }
        }
        assert forall|k: int, j: int|
            #![trigger magic_at(fr[k], j)]
            0 <= k < fr.len() && 1 <= j implies !magic_at(fr[k], j) by {
            if k == 0 {
                if magic_at(head, j) {
                    assert(magic_at(b, s + j));
                }
            } else {
                assert(fr[k] == rest[k - 1]);
            }
        }
        assert forall|k: int| 0 <= k < fr.len() implies (#[trigger] fr[k]).len() > 0 by {
            if k > 0 {
                assert(fr[k] == rest[k - 1]);
            }
        }
    }
}

/// Given a buffer of bytes, returns a slice for each compressed frame in the buffer.
pub fn split_frames(data: &[u8]) -> (r: Vec<&[u8]>)
    ensures
        slices_view(r@) == frames_of(data@),
        slices_view(r@).flatten() == data@,
        forall|k: int| 0 <= k < r@.len() ==> (#[trigger] r@[k])@.len() > 0,
        forall|k: int| 0 < k < r@.len() ==> magic_at((#[trigger] r@[k])@, 0),
        forall|k: int, j: int|
            #![trigger magic_at(r@[k]@, j)]
            0 <= k < r@.len() && 1 <= j ==> !magic_at(r@[k]@, j),
{
    let len = data.len();
    let mut r: Vec<&[u8]> = Vec::new();
    if len == 0 {
        assert(slices_view(r@) =~= frames_of(data@));
        proof {
            lemma_split_frames_cover(data@, r@);
        }
        return r;
    }
    let mut start: usize = 0;
    let mut i: usize = 1;
    while i < len - 1
        invariant
            len == data@.len(),
            0 <= start < i <= len,
            slices_view(r@) + frames_from(data@, start as int) == frames_of(data@),
            next_boundary(data@, start + 1) == next_boundary(data@, i as int),
        decreases len - i,
    {
        if data[i] == MAGIC_HIGH && data[i + 1] == MAGIC_LOW {
            let frame = slice_subrange(data, start, i);
            proof {
                lemma_next_boundary_bounds(data@, start + 1);
                assert(frames_from(data@, start as int) == seq![frame@] + frames_from(
                    data@,
                    i as int,
                ));
                assert(slices_view(r@.push(frame)) =~= slices_view(r@).push(frame@));
            }
            r.push(frame);
            start = i;
        }
        i += 1;
    }
    let frame = slice_subrange(data, start, len);
    proof {
        assert(next_boundary(data@, i as int) == len);
        assert(frames_from(data@, len as int) =~= Seq::<Seq<u8>>::empty());
        assert(frames_from(data@, start as int) =~= seq![frame@]);
        assert(slices_view(r@.push(frame)) =~= slices_view(r@).push(frame@));
        assert(slices_view(r@) + seq![frame@] =~= slices_view(r@).push(frame@));
    }
    r.push(frame);
    proof {
        lemma_split_frames_cover(data@, r@);
    }
    r
}

/// What the splitter's contract says of its slices, drawn from the frames it returns.
proof fn lemma_split_frames_cover(data: Seq<u8>, r: Seq<&[u8]>)
    requires
        slices_view(r) == frames_of(data),
    ensures
        slices_view(r).flatten() == data,
        forall|k: int| 0 <= k < r.len() ==> (#[trigger] r[k])@.len() > 0,
        forall|k: int| 0 < k < r.len() ==> magic_at((#[trigger] r[k])@, 0),
        forall|k: int, j: int|
            #![trigger magic_at(r[k]@, j)]
            0 <= k < r.len() && 1 <= j ==> !magic_at(r[k]@, j),
{
    lemma_frames_from_cover(data, 0);
    assert(data.skip(0) =~= data);
    assert forall|k: int| 0 <= k < r.len() implies slices_view(r)[k] == (#[trigger] r[k])@ by {}
}

} // verus!
