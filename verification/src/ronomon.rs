//! A variation of the FastCDC algorithm using 31-bit integers and right
//! shifts instead of left shifts.
//!
//! The hash values stay below `2^31`, so the right-shift-and-add recurrence
//! can never overflow a 32-bit integer, and the masks need no zero padding.
//! The pivot between the "harder" and "easier" hash judgments is chosen
//! from a combination of the average and minimum chunk sizes, and the masks
//! use one bit of chunk size normalization.

use crate::config::ConfigError;
use crate::log2::{lemma_log2_floor_lower, lemma_log2_floor_upper, log2_floor};
use crate::model::{
    admissible_cut, chunk_seq, lemma_chunk_seq_min_floor, lemma_chunk_seq_tiles,
    respects_min_floor, sum_lengths, takes_short_whole,
};
use crate::tables::TABLE31;
use vstd::arithmetic::power2::*;
use vstd::prelude::*;

verus! {

/// Smallest acceptable value for the minimum chunk size.
pub const MINIMUM_MIN: usize = 64;

/// Largest acceptable value for the minimum chunk size.
pub const MINIMUM_MAX: usize = 67_108_864;

/// Smallest acceptable value for the average chunk size.
pub const AVERAGE_MIN: usize = 256;

/// Largest acceptable value for the average chunk size.
pub const AVERAGE_MAX: usize = 268_435_456;

/// Smallest acceptable value for the maximum chunk size.
pub const MAXIMUM_MIN: usize = 1024;

/// Largest acceptable value for the maximum chunk size.
pub const MAXIMUM_MAX: usize = 1_073_741_824;

/// Represents a chunk returned by the chunker.
#[derive(Debug, Clone, Copy, Eq, PartialEq, Hash)]
pub struct Chunk {
    /// Hash found at this location.
    pub hash: u32,
    /// Starting byte position within the original content.
    pub offset: usize,
    /// Length of the chunk in bytes.
    pub length: usize,
}

/// Which configuration error, if any, the given sizes provoke. The checks
/// run in this order: minimum, average, maximum; too low before too high.
pub open spec fn config_check(min_size: int, avg_size: int, max_size: int) -> Option<ConfigError> {
    if min_size < MINIMUM_MIN {
        Some(ConfigError::MinimumTooLow)
    } else if min_size > MINIMUM_MAX {
        Some(ConfigError::MinimumTooHigh)
    } else if avg_size < AVERAGE_MIN {
        Some(ConfigError::AverageTooLow)
    } else if avg_size > AVERAGE_MAX {
        Some(ConfigError::AverageTooHigh)
    } else if max_size < MAXIMUM_MIN {
        Some(ConfigError::MaximumTooLow)
    } else if max_size > MAXIMUM_MAX {
        Some(ConfigError::MaximumTooHigh)
    } else {
        None
    }
}

/// The normal point of the desired chunk size: the average size reduced by
/// an offset of one and a half times the minimum size, clamped to the
/// average and to the window.
pub open spec fn center_size_spec(average: int, minimum: int, source_size: int) -> int {
    let raw = minimum + (minimum + 1) / 2;
    let offset = if raw > average {
        average
    } else {
        raw
    };
    let size = average - offset;
    if size > source_size {
        source_size
    } else {
        size
    }
}

/// Find the middle of the desired chunk size, or what the FastCDC paper
/// refers to as the "normal size".
pub fn center_size(average: usize, minimum: usize, source_size: usize) -> (r: usize)
    requires
        minimum <= MINIMUM_MAX,
    ensures
        r == center_size_spec(average as int, minimum as int, source_size as int),
        r <= source_size,
{
    let mut offset: usize = minimum + (minimum / 2 + minimum % 2);
    if offset > average {
        offset = average;
    }
    let size: usize = average - offset;
    if size > source_size {
        source_size
    } else {
        size
    }
}

/// A bit mask with `bits` least-significant one bits: `2^bits - 1`.
pub open spec fn mask_spec(bits: nat) -> u32 {
    (pow2(bits) - 1) as u32
}

/// Returns two raised to the `bits` power, minus one. In other words, a
/// bit mask with that many least-significant bits set to 1.
pub fn mask(bits: u32) -> (r: u32)
    requires
        1 <= bits <= 31,
    ensures
        r == mask_spec(bits as nat),
{
    proof {
        lemma2_to64();
        if bits < 31 {
            lemma_pow2_strictly_increases(bits as nat, 31);
        }
        vstd::bits::lemma_u32_shl_is_mul(1u32, bits);
        lemma_pow2_pos(bits as nat);
    }
    (1u32 << bits) - 1
}

/// One step of the rolling hash: shift right one bit and add the table
/// entry of the incoming byte. The sum never exceeds 32 bits because the
/// table entries have their high bit clear.
pub open spec fn ronomon_step(h: u32, b: u8) -> u32 {
    vstd::wrapping::u32_specs::wrapping_add(h >> 1u32, TABLE31[b as int])
}

/// The scan for a boundary from position `j`: each step folds `data[j]`
/// into the hash and tests it against the mask for the region `j` lies in
/// (the harder `mask_s` below `center`, the easier `mask_l` from there on).
/// Returns the hash and one past the matching byte, or the final hash and
/// zero when no byte up to `size` matches.
pub open spec fn ronomon_scan(
    data: Seq<u8>,
    j: int,
    h: u32,
    center: int,
    size: int,
    mask_s: u32,
    mask_l: u32,
) -> (u32, int)
    decreases size - j,
{
    if j >= size {
        (h, 0)
    } else {
        let h2 = ronomon_step(h, data[j]);
        let m = if j < center {
            mask_s
        } else {
            mask_l
        };
        if h2 & m == 0 {
            (h2, j + 1)
        } else {
            ronomon_scan(data, j + 1, h2, center, size, mask_s, mask_l)
        }
    }
}

/// The boundary this variant finds in the window `data`: windows no longer
/// than the minimum are taken whole when terminal (zero otherwise); longer
/// windows are scanned from the minimum up to `min(len, max)`. When no
/// byte matches, a non-terminal window shorter than the maximum yields a
/// zero length (more data may come); otherwise the whole scanned region is
/// the chunk.
pub open spec fn ronomon_cut(
    data: Seq<u8>,
    min: int,
    avg: int,
    max: int,
    mask_s: u32,
    mask_l: u32,
    eof: bool,
) -> (u32, int) {
    let n = data.len() as int;
    if n <= min {
        if eof {
            (0, n)
        } else {
            (0, 0)
        }
    } else {
        let size = if n > max {
            max
        } else {
            n
        };
        let center = center_size_spec(avg, min, size);
        let r = ronomon_scan(data, min, 0, center, size, mask_s, mask_l);
        if r.1 != 0 {
            r
        } else if !eof && size < max {
            (r.0, 0)
        } else {
            (r.0, size)
        }
    }
}

/// A successful scan lands strictly past its start and within the window.
pub proof fn lemma_ronomon_scan_bounds(
    data: Seq<u8>,
    j: int,
    h: u32,
    center: int,
    size: int,
    mask_s: u32,
    mask_l: u32,
)
    ensures
        ({
            let r = ronomon_scan(data, j, h, center, size, mask_s, mask_l);
            r.1 == 0 || j < r.1 <= size
        }),
    decreases size - j,
{
    if j >= size {
    } else {
        let h2 = ronomon_step(h, data[j]);
        lemma_ronomon_scan_bounds(data, j + 1, h2, center, size, mask_s, mask_l);
    }
}

/// The cut length never exceeds the window, and a terminal window always
/// yields a positive cut.
pub proof fn lemma_ronomon_cut_bounds(
    data: Seq<u8>,
    min: int,
    avg: int,
    max: int,
    mask_s: u32,
    mask_l: u32,
    eof: bool,
)
    requires
        0 <= min,
        1 <= max,
    ensures
        ({
            let c = ronomon_cut(data, min, avg, max, mask_s, mask_l, eof).1;
            &&& 0 <= c <= data.len()
            &&& eof && data.len() > 0 ==> 0 < c
            &&& min <= max ==> c <= max
            &&& min <= max && data.len() > min && c != 0 ==> c >= min
        }),
{
    let n = data.len() as int;
    if n <= min {
    } else {
        let size = if n > max {
            max
        } else {
            n
        };
        let center = center_size_spec(avg, min, size);
        lemma_ronomon_scan_bounds(data, min, 0, center, size, mask_s, mask_l);
    }
}

/// The cut function of a terminal chunker is admissible, takes windows no
/// longer than the minimum whole, and (when the minimum does not exceed
/// the maximum) never cuts a long window before the minimum size.
pub proof fn lemma_ronomon_cut_well_behaved(
    min: int,
    avg: int,
    max: int,
    mask_s: u32,
    mask_l: u32,
)
    requires
        0 <= min,
        1 <= max,
    ensures
        admissible_cut(
            |w: Seq<u8>| ronomon_cut(w, min, avg, max, mask_s, mask_l, true),
        ),
        takes_short_whole(
            |w: Seq<u8>| ronomon_cut(w, min, avg, max, mask_s, mask_l, true),
            min,
        ),
        min <= max ==> respects_min_floor(
            |w: Seq<u8>| ronomon_cut(w, min, avg, max, mask_s, mask_l, true),
            min,
        ),
{
    let cutf = |w: Seq<u8>| ronomon_cut(w, min, avg, max, mask_s, mask_l, true);
    assert forall|w: Seq<u8>| w.len() > 0 implies 0 < (#[trigger] cutf(w)).1 <= w.len() by {
        lemma_ronomon_cut_bounds(w, min, avg, max, mask_s, mask_l, true);
    }
    assert forall|w: Seq<u8>| 0 < w.len() <= min implies (#[trigger] cutf(w)).1 == w.len() by {}
    if min <= max {
        assert forall|w: Seq<u8>| w.len() > min implies (#[trigger] cutf(w)).1 >= min by {
            lemma_ronomon_cut_bounds(w, min, avg, max, mask_s, mask_l, true);
        }
    }
}

///
/// The FastCDC chunker implementation by Joran Dirk Greef.
///
/// Use `new` to construct a new instance, and then call `next_chunk`
/// repeatedly to obtain the sequence of `Chunk`s.
///
#[derive(Debug, Clone, Eq, PartialEq)]
pub struct FastCDC<'a> {
    pub source: &'a [u8],
    pub bytes_processed: usize,
    pub bytes_remaining: usize,
    pub min_size: usize,
    pub avg_size: usize,
    pub max_size: usize,
    pub mask_s: u32,
    pub mask_l: u32,
    pub eof: bool,
}

impl<'a> FastCDC<'a> {
    /// The internal consistency of a chunker: the cursor and the remainder
    /// cover the source exactly, and the configuration is within bounds.
    pub open spec fn wf(self) -> bool {
        &&& self.bytes_processed + self.bytes_remaining == self.source@.len()
        &&& self.source@.len() <= usize::MAX
        &&& MINIMUM_MIN <= self.min_size <= MINIMUM_MAX
        &&& AVERAGE_MIN <= self.avg_size <= AVERAGE_MAX
        &&& MAXIMUM_MIN <= self.max_size <= MAXIMUM_MAX
    }

    /// This chunker's boundary rule as a function of a byte window.
    pub open spec fn cut_fn(self) -> spec_fn(Seq<u8>) -> (u32, int) {
        |w: Seq<u8>|
            ronomon_cut(
                w,
                self.min_size as int,
                self.avg_size as int,
                self.max_size as int,
                self.mask_s,
                self.mask_l,
                self.eof,
            )
    }

    /// The chunks this chunker has yet to yield.
    pub open spec fn chunks(self) -> Seq<(u32, int, int)> {
        chunk_seq(self.source@, self.bytes_processed as int, self.cut_fn())
    }

    ///
    /// Construct a new `FastCDC` that will process the given slice of
    /// bytes, rejecting sizes outside the documented bounds.
    ///
    /// The `min_size` specifies the preferred minimum chunk size, likewise
    /// for `max_size`; the `avg_size` is what the FastCDC paper refers to
    /// as the desired "normal size" of the chunks.
    ///
    pub fn new(source: &'a [u8], min_size: usize, avg_size: usize, max_size: usize) -> (r: Result<
        Self,
        ConfigError,
    >)
        ensures
            ({
                let check = config_check(min_size as int, avg_size as int, max_size as int);
                match r {
                    Ok(c) => check is None && c == Self::fresh(
                        source,
                        min_size,
                        avg_size,
                        max_size,
                        true,
                    ),
                    Err(e) => check == Some(e),
                }
            }),
    {
        FastCDC::with_eof(source, min_size, avg_size, max_size, true)
    }

    /// The chunker that `with_eof` builds from the given arguments: cursor
    /// at the start, masks derived from the floor of the base-2 logarithm
    /// of the average size, one bit harder and one bit easier.
    pub open spec fn fresh(
        source: &'a [u8],
        min_size: usize,
        avg_size: usize,
        max_size: usize,
        eof: bool,
    ) -> Self {
        FastCDC {
            source,
            bytes_processed: 0,
            bytes_remaining: source@.len() as usize,
            min_size,
            avg_size,
            max_size,
            mask_s: mask_spec((log2_floor(avg_size as nat) + 1) as nat),
            mask_l: mask_spec((log2_floor(avg_size as nat) - 1) as nat),
            eof,
        }
    }

    ///
    /// Construct a new `FastCDC` that will process multiple blocks of
    /// bytes, rejecting sizes outside the documented bounds.
    ///
    /// If `eof` is `false`, then the `source` contains a non-terminal block
    /// of bytes, meaning that there will be more data available in a
    /// subsequent call. If `eof` is `true` then the `source` is expected to
    /// contain the final block of data.
    ///
    pub fn with_eof(
        source: &'a [u8],
        min_size: usize,
        avg_size: usize,
        max_size: usize,
        eof: bool,
    ) -> (r: Result<Self, ConfigError>)
        ensures
            ({
                let check = config_check(min_size as int, avg_size as int, max_size as int);
                match r {
                    Ok(c) => check is None && c == Self::fresh(
                        source,
                        min_size,
                        avg_size,
                        max_size,
                        eof,
                    ),
                    Err(e) => check == Some(e),
                }
            }),
            r is Ok ==> r.unwrap().wf() && r.unwrap().chunks() == chunk_seq(
                source@,
                0,
                r.unwrap().cut_fn(),
            ),
    {
        if min_size < MINIMUM_MIN {
            return Err(ConfigError::MinimumTooLow);
        }
        if min_size > MINIMUM_MAX {
            return Err(ConfigError::MinimumTooHigh);
        }
        if avg_size < AVERAGE_MIN {
            return Err(ConfigError::AverageTooLow);
        }
        if avg_size > AVERAGE_MAX {
            return Err(ConfigError::AverageTooHigh);
        }
        if max_size < MAXIMUM_MIN {
            return Err(ConfigError::MaximumTooLow);
        }
        if max_size > MAXIMUM_MAX {
            return Err(ConfigError::MaximumTooHigh);
        }
        proof {
            lemma2_to64();
            lemma_log2_floor_lower(avg_size as nat, 8);
            lemma_log2_floor_upper(avg_size as nat, 28);
        }
        let bits = crate::log2::floor_ilog2(avg_size as u32);
        let mask_s = mask(bits + 1);
        let mask_l = mask(bits - 1);
        Ok(
            FastCDC {
                source,
                bytes_processed: 0,
                bytes_remaining: source.len(),
                min_size,
                avg_size,
                max_size,
                mask_s,
                mask_l,
                eof,
            },
        )
    }

    /// Returns the size of the next chunk: the hash observed at the
    /// boundary and the number of bytes from `source_offset` that belong
    /// to the chunk, exactly as `ronomon_cut` describes for the window of
    /// `source_size` bytes starting there.
    pub fn cut(&self, source_offset: usize, source_size: usize) -> (r: (u32, usize))
        requires
            self.wf(),
            source_offset + source_size <= self.source@.len(),
        ensures
            ({
                let w = self.source@.subrange(
                    source_offset as int,
                    source_offset + source_size,
                );
                (r.0, r.1 as int) == ronomon_cut(
                    w,
                    self.min_size as int,
                    self.avg_size as int,
                    self.max_size as int,
                    self.mask_s,
                    self.mask_l,
                    self.eof,
                )
            }),
            r.1 <= source_size,
    {
        let ghost w = self.source@.subrange(source_offset as int, source_offset + source_size);
        proof {
            assert(w.len() == source_size as int);
            lemma_ronomon_cut_bounds(
                w,
                self.min_size as int,
                self.avg_size as int,
                self.max_size as int,
                self.mask_s,
                self.mask_l,
                self.eof,
            );
        }
        if source_size <= self.min_size {
            if !self.eof {
                (0, 0)
            } else {
                (0, source_size)
            }
        } else {
            let scan_limit: usize = if source_size > self.max_size {
                self.max_size
            } else {
                source_size
            };
            let cs = center_size(self.avg_size, self.min_size, scan_limit);
            let ghost size = scan_limit as int;
            let ghost center = cs as int;
            let source_len1: usize = source_offset + cs;
            let source_len2: usize = source_offset + scan_limit;
            let mut hash: u32 = 0;
            let mut cursor: usize = source_offset + self.min_size;
            // Start by using the "harder" chunking judgement to find chunks
            // that run smaller than the desired normal size.
            while cursor < source_len1
                invariant
                    self.wf(),
                    source_offset + source_size <= self.source@.len(),
                    w == self.source@.subrange(source_offset as int, source_offset + source_size),
                    w.len() == source_size as int,
                    self.min_size < source_size,
                    size == (if source_size > self.max_size {
                        self.max_size as int
                    } else {
                        source_size as int
                    }),
                    center == center_size_spec(self.avg_size as int, self.min_size as int, size),
                    source_len1 == source_offset + center,
                    center <= size <= source_size,
                    source_offset <= cursor <= source_offset + source_size,
                    ronomon_scan(w, self.min_size as int, 0, center, size, self.mask_s, self.mask_l)
                        == ronomon_scan(
                        w,
                        cursor - source_offset,
                        hash,
                        center,
                        size,
                        self.mask_s,
                        self.mask_l,
                    ),
                decreases source_len1 - cursor,
            {
                let ghost j = cursor - source_offset;
                assert(w[j] == self.source@[cursor as int]);
                let index = self.source[cursor] as usize;
                hash = (hash >> 1).wrapping_add(TABLE31[index]);
                if (hash & self.mask_s) == 0 {
                    return (hash, cursor + 1 - source_offset);
                }
                cursor += 1;
            }
            // Fall back to using the "easier" chunking judgement to find
            // chunks that run larger than the desired normal size.
            while cursor < source_len2
                invariant
                    self.wf(),
                    source_offset + source_size <= self.source@.len(),
                    w == self.source@.subrange(source_offset as int, source_offset + source_size),
                    w.len() == source_size as int,
                    self.min_size < source_size,
                    size == (if source_size > self.max_size {
                        self.max_size as int
                    } else {
                        source_size as int
                    }),
                    center == center_size_spec(self.avg_size as int, self.min_size as int, size),
                    source_len2 == source_offset + size,
                    center <= size <= source_size,
                    source_offset <= cursor <= source_offset + source_size,
                    center <= cursor - source_offset,
                    ronomon_scan(w, self.min_size as int, 0, center, size, self.mask_s, self.mask_l)
                        == ronomon_scan(
                        w,
                        cursor - source_offset,
                        hash,
                        center,
                        size,
                        self.mask_s,
                        self.mask_l,
                    ),
                decreases source_len2 - cursor,
            {
                let ghost j = cursor - source_offset;
                assert(w[j] == self.source@[cursor as int]);
                let index = self.source[cursor] as usize;
                hash = (hash >> 1).wrapping_add(TABLE31[index]);
                if (hash & self.mask_l) == 0 {
                    return (hash, cursor + 1 - source_offset);
                }
                cursor += 1;
            }
            // If source is not the last buffer, we may yet find a larger
            // chunk. If the scanned region already spans the maximum, we
            // will not find a larger chunk and should emit.
            if !self.eof && scan_limit < self.max_size {
                (hash, 0)
            } else {
                // All else fails, return the whole region. This will happen
                // with pathological data, such as all zeroes.
                (hash, scan_limit)
            }
        }
    }

    /// Yield the next chunk, or `None` once the source is exhausted (or,
    /// for a non-terminal chunker, once no boundary fits in what remains).
    /// The chunks come out exactly in the order of `chunks()`.
    pub fn next_chunk(&mut self) -> (r: Option<Chunk>)
        requires
            old(self).wf(),
        ensures
            final(self).wf(),
            final(self).source == old(self).source,
            final(self).min_size == old(self).min_size,
            final(self).avg_size == old(self).avg_size,
            final(self).max_size == old(self).max_size,
            final(self).mask_s == old(self).mask_s,
            final(self).mask_l == old(self).mask_l,
            final(self).eof == old(self).eof,
            match r {
                None => *final(self) == *old(self) && old(self).chunks().len() == 0,
                Some(c) => {
                    &&& old(self).chunks().len() > 0
                    &&& (c.hash, c.offset as int, c.length as int) == old(self).chunks()[0]
                    &&& 0 < c.length <= old(self).bytes_remaining
                    &&& old(self).min_size <= old(self).max_size ==> c.length <= old(self).max_size
                    &&& final(self).chunks() == old(self).chunks().drop_first()
                    &&& final(self).bytes_processed == old(self).bytes_processed + c.length
                },
            },
    {
        proof {
            if self.bytes_remaining > 0 {
                assert(self.source@.subrange(
                    self.bytes_processed as int,
                    self.bytes_processed + self.bytes_remaining,
                ) =~= self.source@.skip(self.bytes_processed as int));
                lemma_ronomon_cut_bounds(
                    self.source@.skip(self.bytes_processed as int),
                    self.min_size as int,
                    self.avg_size as int,
                    self.max_size as int,
                    self.mask_s,
                    self.mask_l,
                    self.eof,
                );
            }
        }
        if self.bytes_remaining == 0 {
            None
        } else {
            let (chunk_hash, chunk_size) = self.cut(self.bytes_processed, self.bytes_remaining);
            if chunk_size == 0 {
                None
            } else {
                let chunk_start = self.bytes_processed;
                self.bytes_processed += chunk_size;
                self.bytes_remaining -= chunk_size;
                proof {
                    let cs = old(self).chunks();
                    assert(cs == seq![
                        (chunk_hash, chunk_start as int, chunk_size as int),
                    ] + self.chunks());
                    assert(cs.drop_first() =~= self.chunks());
                }
                Some(Chunk { hash: chunk_hash, offset: chunk_start, length: chunk_size })
            }
        }
    }

    /// An upper bound on the number of chunks that remain: every chunk
    /// takes at least one byte, and all but the last take at least
    /// `min_size` bytes, so the remainder divided by the minimum bounds
    /// the count from above for any caller sizing a collection.
    pub fn size_hint(&self) -> (r: (usize, Option<usize>))
        requires
            self.wf(),
        ensures
            r.0 == self.bytes_remaining / self.min_size,
            r.1 == Some(r.0),
    {
        let upper_bound = self.bytes_remaining / self.min_size;
        (upper_bound, Some(upper_bound))
    }
}

/// Sum-to-total for a terminal chunker: its chunks tile the source with no
/// gaps and no overlaps — the first starts at zero, each next chunk starts
/// where the previous ended, the last ends at the end of the source, and
/// the lengths sum to the source length.
pub proof fn lemma_chunks_tile(data: Seq<u8>, min: int, avg: int, max: int, ms: u32, ml: u32)
    requires
        1 <= min,
        1 <= max,
    ensures
        ({
            let cs = chunk_seq(data, 0, |w: Seq<u8>| ronomon_cut(w, min, avg, max, ms, ml, true));
            &&& (cs.len() == 0 <==> data.len() == 0)
            &&& cs.len() > 0 ==> cs[0].1 == 0
            &&& forall|i: int|
                0 <= i < cs.len() - 1 ==> (#[trigger] cs[i + 1]).1 == cs[i].1 + cs[i].2
            &&& cs.len() > 0 ==> cs[cs.len() - 1].1 + cs[cs.len() - 1].2 == data.len()
            &&& sum_lengths(cs) == data.len()
        }),
{
    lemma_ronomon_cut_well_behaved(min, avg, max, ms, ml);
    lemma_chunk_seq_tiles(data, 0, |w: Seq<u8>| ronomon_cut(w, min, avg, max, ms, ml, true));
}

/// The minimum-size floor: when the minimum does not exceed the maximum,
/// every chunk of a terminal chunker except possibly the last one is at
/// least `min` bytes long.
pub proof fn lemma_chunks_min_floor(data: Seq<u8>, min: int, avg: int, max: int, ms: u32, ml: u32)
    requires
        1 <= min <= max,
    ensures
        ({
            let cs = chunk_seq(data, 0, |w: Seq<u8>| ronomon_cut(w, min, avg, max, ms, ml, true));
            forall|i: int| 0 <= i < cs.len() - 1 ==> (#[trigger] cs[i]).2 >= min
        }),
{
    lemma_ronomon_cut_well_behaved(min, avg, max, ms, ml);
    lemma_chunk_seq_min_floor(
        data,
        0,
        |w: Seq<u8>| ronomon_cut(w, min, avg, max, ms, ml, true),
        min,
    );
}

} // verus!
