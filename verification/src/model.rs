//! The mathematical model of chunking: repeatedly applying a cut function
//! to the bytes that remain produces a sequence of contiguous chunks.
//!
//! Each chunker variant supplies its own cut function; the lemmas here hold
//! for every cut function that satisfies the stated admissibility
//! conditions, and each variant proves that its cut function does.

use vstd::prelude::*;

verus! {

/// The sequence of `(fingerprint, offset, length)` records that repeatedly
/// applying `cutf` to the data remaining at `pos` yields. The sequence ends
/// when no data remains or when the cut function reports no further cut
/// (a non-positive or out-of-range length).
pub open spec fn chunk_seq<H>(
    data: Seq<u8>,
    pos: int,
    cutf: spec_fn(Seq<u8>) -> (H, int),
) -> Seq<(H, int, int)>
    decreases data.len() - pos,
{
    if pos < 0 || pos >= data.len() {
        Seq::empty()
    } else {
        let r = cutf(data.skip(pos));
        let c = r.1;
        if c <= 0 || c > data.len() - pos {
            Seq::empty()
        } else {
            seq![(r.0, pos, c)] + chunk_seq(data, pos + c, cutf)
        }
    }
}

/// The sum of the lengths of the given chunks.
pub open spec fn sum_lengths<H>(cs: Seq<(H, int, int)>) -> int
    decreases cs.len(),
{
    if cs.len() == 0 {
        0
    } else {
        cs[0].2 + sum_lengths(cs.drop_first())
    }
}

/// A cut function is admissible when it consumes at least one byte of any
/// non-empty window and never more than the window holds.
pub open spec fn admissible_cut<H>(cutf: spec_fn(Seq<u8>) -> (H, int)) -> bool {
    forall|w: Seq<u8>| w.len() > 0 ==> 0 < (#[trigger] cutf(w)).1 <= w.len()
}

/// A cut function takes windows no longer than `min` whole.
pub open spec fn takes_short_whole<H>(cutf: spec_fn(Seq<u8>) -> (H, int), min: int) -> bool {
    forall|w: Seq<u8>| 0 < w.len() <= min ==> (#[trigger] cutf(w)).1 == w.len()
}

/// A cut function consumes at least `min` bytes of any window longer than
/// `min`.
pub open spec fn respects_min_floor<H>(cutf: spec_fn(Seq<u8>) -> (H, int), min: int) -> bool {
    forall|w: Seq<u8>| w.len() > min ==> (#[trigger] cutf(w)).1 >= min
}

/// For an admissible cut function the chunks tile the data exactly: the
/// first chunk starts at `pos`, each later chunk starts where the previous
/// one ended, every chunk is non-empty, the final chunk ends at the end of
/// the data, and the lengths sum to the number of bytes covered. This is
/// the sum-to-total law: no gaps, no overlaps, nothing lost.
pub proof fn lemma_chunk_seq_tiles<H>(data: Seq<u8>, pos: int, cutf: spec_fn(Seq<u8>) -> (H, int))
    requires
        admissible_cut(cutf),
        0 <= pos <= data.len(),
    ensures
        ({
            let cs = chunk_seq(data, pos, cutf);
            &&& (cs.len() == 0 <==> pos == data.len())
            &&& cs.len() > 0 ==> cs[0].1 == pos
            &&& forall|i: int|
                0 <= i < cs.len() - 1 ==> (#[trigger] cs[i + 1]).1 == cs[i].1 + cs[i].2
            &&& cs.len() > 0 ==> cs[cs.len() - 1].1 + cs[cs.len() - 1].2 == data.len()
            &&& forall|i: int| 0 <= i < cs.len() ==> 0 < (#[trigger] cs[i]).2
            &&& sum_lengths(cs) == data.len() - pos
        }),
    decreases data.len() - pos,
{
    let cs = chunk_seq(data, pos, cutf);
    if pos >= data.len() {
    } else {
        let w = data.skip(pos);
        assert(w.len() == data.len() - pos);
        let r = cutf(w);
        let c = r.1;
        assert(0 < c <= data.len() - pos);
        let rest = chunk_seq(data, pos + c, cutf);
        lemma_chunk_seq_tiles(data, pos + c, cutf);
        assert(cs == seq![(r.0, pos, c)] + rest);
        assert(cs.drop_first() =~= rest);
        assert forall|i: int| 0 <= i < cs.len() - 1 implies (#[trigger] cs[i + 1]).1 == cs[i].1
            + cs[i].2 by {
            if i == 0 {
                assert(rest.len() > 0);
                assert(cs[1] == rest[0]);
            } else {
                assert(cs[i] == rest[i - 1]);
                assert(cs[i + 1] == rest[i]);
            }
        }
        assert forall|i: int| 0 <= i < cs.len() implies 0 < (#[trigger] cs[i]).2 by {
            if i > 0 {
                assert(cs[i] == rest[i - 1]);
            }
        }
        if rest.len() > 0 {
            assert(cs[cs.len() - 1] == rest[rest.len() - 1]);
        }
    }
}

/// The minimum-size floor: every chunk except possibly the last one is at
/// least `min` bytes long, provided the cut function consumes at least
/// `min` bytes of any window longer than `min` and takes shorter windows
/// whole.
pub proof fn lemma_chunk_seq_min_floor<H>(
    data: Seq<u8>,
    pos: int,
    cutf: spec_fn(Seq<u8>) -> (H, int),
    min: int,
)
    requires
        admissible_cut(cutf),
        takes_short_whole(cutf, min),
        respects_min_floor(cutf, min),
        0 <= pos <= data.len(),
    ensures
        ({
            let cs = chunk_seq(data, pos, cutf);
            forall|i: int| 0 <= i < cs.len() - 1 ==> (#[trigger] cs[i]).2 >= min
        }),
    decreases data.len() - pos,
{
    let cs = chunk_seq(data, pos, cutf);
    if pos >= data.len() {
    } else {
        let w = data.skip(pos);
        assert(w.len() == data.len() - pos);
        let r = cutf(w);
        let c = r.1;
        if 0 < c <= data.len() - pos {
            let rest = chunk_seq(data, pos + c, cutf);
            lemma_chunk_seq_min_floor(data, pos + c, cutf, min);
            assert(cs == seq![(r.0, pos, c)] + rest);
            assert forall|i: int| 0 <= i < cs.len() - 1 implies (#[trigger] cs[i]).2 >= min by {
                if i == 0 {
                    // a later chunk exists, so this window was longer than
                    // its cut; sub-minimum windows are taken whole, so the
                    // window was longer than `min` and the floor applies
                    assert(rest.len() > 0);
                    lemma_chunk_seq_tiles(data, pos + c, cutf);
                    assert(c < w.len());
                    if w.len() <= min {
                        assert(c == w.len());
                    }
                } else {
                    assert(cs[i] == rest[i - 1]);
                }
            }
        }
    }
}

/// Two cut functions that agree on every window produce the same chunks.
pub proof fn lemma_chunk_seq_congruence<H>(
    data: Seq<u8>,
    pos: int,
    f: spec_fn(Seq<u8>) -> (H, int),
    g: spec_fn(Seq<u8>) -> (H, int),
)
    requires
        forall|w: Seq<u8>| #[trigger] f(w) == g(w),
    ensures
        chunk_seq(data, pos, f) == chunk_seq(data, pos, g),
    decreases data.len() - pos,
{
    if pos < 0 || pos >= data.len() {
    } else {
        let r = f(data.skip(pos));
        let c = r.1;
        if c <= 0 || c > data.len() - pos {
        } else {
            lemma_chunk_seq_congruence(data, pos + c, f, g);
        }
    }
}

/// Chunking is deterministic: the chunk sequence is a mathematical function
/// of the data and the cut function alone, so equal inputs give equal
/// sequences, across repeated runs and across process restarts.
pub proof fn lemma_chunk_seq_deterministic<H>(
    data1: Seq<u8>,
    data2: Seq<u8>,
    cutf1: spec_fn(Seq<u8>) -> (H, int),
    cutf2: spec_fn(Seq<u8>) -> (H, int),
)
    requires
        data1 == data2,
        cutf1 == cutf2,
    ensures
        chunk_seq(data1, 0, cutf1) == chunk_seq(data2, 0, cutf2),
{
}

} // verus!
