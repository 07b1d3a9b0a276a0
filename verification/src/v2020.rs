//! The canonical FastCDC algorithm as described in the 2020 paper by Wen
//! Xia, et al.
//!
//! The algorithm incorporates a simplified hash judgement using the fast
//! Gear hash, sub-minimum chunk cut-point skipping, normalized chunking to
//! produce chunks of a more consistent length, and "rolling two bytes each
//! time", which roughly halves the number of loop iterations of the 2016
//! version while producing different — but equally deterministic — cut
//! points.
//!
//! ## Altering the chunking
//!
//! The `with_level_and_seed` constructors allow for changing the gear
//! table values in order to alter the chunk boundaries. If the seed is
//! non-zero, then it is used to perform a bitwise exclusive OR on the
//! values in both the gear and left-shifted gear tables (with the seed
//! itself shifted left for the latter). Modifying the gear hash is useful
//! for preventing attacks based on monitoring the chunking behavior and
//! using that information to infer other attributes of the data that
//! would otherwise be unknown.

use crate::config::ConfigError;
use crate::log2::{lemma_log2_round_range, log2_round};
use crate::model::{
    admissible_cut, chunk_seq, lemma_chunk_seq_congruence, lemma_chunk_seq_min_floor,
    lemma_chunk_seq_tiles, respects_min_floor, sum_lengths, takes_short_whole,
};
use crate::source::ByteSource;
use crate::tables::{GEAR, GEAR_LS};
use vstd::prelude::*;

pub use crate::log2::logarithm2;
pub use crate::tables::MASKS;

mod async_stream_cdc;

pub use async_stream_cdc::AsyncStreamCDC;

verus! {

/// Smallest acceptable value for the minimum chunk size.
pub const MINIMUM_MIN: u32 = 64;

/// Largest acceptable value for the minimum chunk size.
pub const MINIMUM_MAX: u32 = 1_048_576;

/// Smallest acceptable value for the average chunk size.
pub const AVERAGE_MIN: u32 = 256;

/// Largest acceptable value for the average chunk size.
pub const AVERAGE_MAX: u32 = 4_194_304;

/// Smallest acceptable value for the maximum chunk size.
pub const MAXIMUM_MIN: u32 = 1024;

/// Largest acceptable value for the maximum chunk size.
pub const MAXIMUM_MAX: u32 = 16_777_216;

/// Which configuration error, if any, the given sizes provoke. The checks
/// run in this order: minimum, average, maximum; too low before too high.
pub open spec fn config_check(min_size: int, avg_size: int, max_size: int) -> Option<ConfigError> {
    if min_size < MINIMUM_MIN {
        Some(ConfigError::MinimumTooLow)
    } else if min_size > MINIMUM_MAX {
        Some(ConfigError::MinimumTooHigh)
    } else if avg_size < AVERAGE_MIN {
        Some(ConfigError::AverageTooLow)
    } else if avg_size > AVERAGE_MAX {
        Some(ConfigError::AverageTooHigh)
    } else if max_size < MAXIMUM_MIN {
        Some(ConfigError::MaximumTooLow)
    } else if max_size > MAXIMUM_MAX {
        Some(ConfigError::MaximumTooHigh)
    } else {
        None
    }
}

/// The gear table with every entry XOR-perturbed by the seed. A zero seed
/// leaves the table unchanged.
pub open spec fn seeded_gear(seed: u64) -> Seq<u64> {
    Seq::new(256, |i: int| GEAR[i] ^ seed)
}

/// The left-shifted gear table with every entry XOR-perturbed by the seed
/// shifted left by one bit.
pub open spec fn seeded_gear_ls(seed: u64) -> Seq<u64> {
    Seq::new(256, |i: int| GEAR_LS[i] ^ (seed << 1u64))
}

/// The scan for a boundary rolling two bytes per iteration: at pair index
/// `k` the bytes `2k` and `2k + 1` are folded in turn into the hash, each
/// tested against its own mask for the region `k` lies in (the harder
/// masks below `centerh`, the easier ones from there on). Returns the
/// hash and the position of the matching byte, or the final hash and zero
/// when no byte in a pair below `limith` matches.
pub open spec fn duo_scan(
    data: Seq<u8>,
    k: int,
    h: u64,
    centerh: int,
    limith: int,
    mask_s: u64,
    mask_l: u64,
    mask_s_ls: u64,
    mask_l_ls: u64,
    gear: Seq<u64>,
    gear_ls: Seq<u64>,
) -> (u64, int)
    decreases limith - k,
{
    if k >= limith {
        (h, 0)
    } else {
        let a = 2 * k;
        let h1 = vstd::wrapping::u64_specs::wrapping_add(h << 2u64, gear_ls[data[a] as int]);
        let m1 = if k < centerh {
            mask_s_ls
        } else {
            mask_l_ls
        };
        if h1 & m1 == 0 {
            (h1, a)
        } else {
            let h2 = vstd::wrapping::u64_specs::wrapping_add(h1, gear[data[a + 1] as int]);
            let m2 = if k < centerh {
                mask_s
            } else {
                mask_l
            };
            if h2 & m2 == 0 {
                (h2, a + 1)
            } else {
                duo_scan(
                    data,
                    k + 1,
                    h2,
                    centerh,
                    limith,
                    mask_s,
                    mask_l,
                    mask_s_ls,
                    mask_l_ls,
                    gear,
                    gear_ls,
                )
            }
        }
    }
}

/// The boundary this variant finds in the window `data`: windows no longer
/// than the minimum are taken whole with a hash of zero; longer windows
/// are scanned two bytes at a time from pair `min / 2` up to pair
/// `min(len, max) / 2`, with the pivot between the masks at pair
/// `min(avg, min(len, max)) / 2`. When no byte matches, the whole region
/// up to `min(len, max)` is the chunk.
pub open spec fn cut_spec(
    data: Seq<u8>,
    min: int,
    avg: int,
    max: int,
    mask_s: u64,
    mask_l: u64,
    mask_s_ls: u64,
    mask_l_ls: u64,
    gear: Seq<u64>,
    gear_ls: Seq<u64>,
) -> (u64, int) {
    let n = data.len() as int;
    if n <= min {
        (0, n)
    } else {
        let limit = if n > max {
            max
        } else {
            n
        };
        let center = if avg > limit {
            limit
        } else {
            avg
        };
        let r = duo_scan(
            data,
            min / 2,
            0,
            center / 2,
            limit / 2,
            mask_s,
            mask_l,
            mask_s_ls,
            mask_l_ls,
            gear,
            gear_ls,
        );
        if r.1 != 0 {
            r
        } else {
            (r.0, limit)
        }
    }
}

/// What the streaming chunker computes at each step: the boundary in the
/// window truncated to the buffer capacity of `max` bytes. The windowing
/// law below shows this equals `cut_spec` on the whole window whenever the
/// minimum does not exceed the maximum.
pub open spec fn buffered_cut_spec(
    data: Seq<u8>,
    min: int,
    avg: int,
    max: int,
    mask_s: u64,
    mask_l: u64,
    mask_s_ls: u64,
    mask_l_ls: u64,
    gear: Seq<u64>,
    gear_ls: Seq<u64>,
) -> (u64, int) {
    let limit = if data.len() > max {
        max
    } else {
        data.len() as int
    };
    cut_spec(
        data.take(limit),
        min,
        avg,
        max,
        mask_s,
        mask_l,
        mask_s_ls,
        mask_l_ls,
        gear,
        gear_ls,
    )
}

/// A successful scan lands on one of the two bytes of a pair between its
/// start and `limith`.
pub proof fn lemma_duo_scan_bounds(
    data: Seq<u8>,
    k: int,
    h: u64,
    centerh: int,
    limith: int,
    mask_s: u64,
    mask_l: u64,
    mask_s_ls: u64,
    mask_l_ls: u64,
    gear: Seq<u64>,
    gear_ls: Seq<u64>,
)
    requires
        0 <= k,
    ensures
        ({
            let r = duo_scan(
                data,
                k,
                h,
                centerh,
                limith,
                mask_s,
                mask_l,
                mask_s_ls,
                mask_l_ls,
                gear,
                gear_ls,
            );
            r.1 == 0 || 2 * k <= r.1 <= 2 * limith - 1
        }),
    decreases limith - k,
{
    if k >= limith {
    } else {
        let a = 2 * k;
        let h1 = vstd::wrapping::u64_specs::wrapping_add(h << 2u64, gear_ls[data[a] as int]);
        let m1 = if k < centerh {
            mask_s_ls
        } else {
            mask_l_ls
        };
        if h1 & m1 == 0 {
        } else {
            let h2 = vstd::wrapping::u64_specs::wrapping_add(h1, gear[data[a + 1] as int]);
            lemma_duo_scan_bounds(
                data,
                k + 1,
                h2,
                centerh,
                limith,
                mask_s,
                mask_l,
                mask_s_ls,
                mask_l_ls,
                gear,
                gear_ls,
            );
        }
    }
}

/// A scan reads only the bytes of pairs strictly below `limith`, so two
/// windows that agree there scan identically.
pub proof fn lemma_duo_scan_congruence(
    d1: Seq<u8>,
    d2: Seq<u8>,
    k: int,
    h: u64,
    centerh: int,
    limith: int,
    mask_s: u64,
    mask_l: u64,
    mask_s_ls: u64,
    mask_l_ls: u64,
    gear: Seq<u64>,
    gear_ls: Seq<u64>,
)
    requires
        forall|b: int| 2 * k <= b < 2 * limith ==> d1[b] == d2[b],
    ensures
        duo_scan(d1, k, h, centerh, limith, mask_s, mask_l, mask_s_ls, mask_l_ls, gear, gear_ls)
            == duo_scan(
            d2,
            k,
            h,
            centerh,
            limith,
            mask_s,
            mask_l,
            mask_s_ls,
            mask_l_ls,
            gear,
            gear_ls,
        ),
    decreases limith - k,
{
    if k >= limith {
    } else {
        let a = 2 * k;
        let h1 = vstd::wrapping::u64_specs::wrapping_add(h << 2u64, gear_ls[d1[a] as int]);
        let m1 = if k < centerh {
            mask_s_ls
        } else {
            mask_l_ls
        };
        if h1 & m1 == 0 {
        } else {
            let h2 = vstd::wrapping::u64_specs::wrapping_add(h1, gear[d1[a + 1] as int]);
            lemma_duo_scan_congruence(
                d1,
                d2,
                k + 1,
                h2,
                centerh,
                limith,
                mask_s,
                mask_l,
                mask_s_ls,
                mask_l_ls,
                gear,
                gear_ls,
            );
        }
    }
}

/// The cut length never exceeds the window, a non-empty window always
/// yields a positive cut, and (when the minimum does not exceed the
/// maximum) a window longer than the minimum is never cut before
/// `2 * (min / 2)` — the minimum size rounded down to a byte pair.
pub proof fn lemma_cut_bounds(
    data: Seq<u8>,
    min: int,
    avg: int,
    max: int,
    ms: u64,
    ml: u64,
    ms_ls: u64,
    ml_ls: u64,
    gear: Seq<u64>,
    gear_ls: Seq<u64>,
)
    requires
        2 <= min,
        1 <= max,
    ensures
        ({
            let c = cut_spec(data, min, avg, max, ms, ml, ms_ls, ml_ls, gear, gear_ls).1;
            &&& 0 <= c <= data.len()
            &&& data.len() > 0 ==> 0 < c
            &&& data.len() > min ==> c <= max
            &&& min <= max ==> c <= max
            &&& min <= max && data.len() > min ==> c >= 2 * (min / 2)
        }),
{
    let n = data.len() as int;
    if n <= min {
    } else {
        let limit = if n > max {
            max
        } else {
            n
        };
        let center = if avg > limit {
            limit
        } else {
            avg
        };
        lemma_duo_scan_bounds(
            data,
            min / 2,
            0,
            center / 2,
            limit / 2,
            ms,
            ml,
            ms_ls,
            ml_ls,
            gear,
            gear_ls,
        );
    }
}

/// The cut function of this variant is admissible, takes windows no longer
/// than the minimum whole, and (when the minimum does not exceed the
/// maximum) never cuts a long window before the minimum rounded down to a
/// byte pair.
pub proof fn lemma_cut_well_behaved(
    min: int,
    avg: int,
    max: int,
    ms: u64,
    ml: u64,
    ms_ls: u64,
    ml_ls: u64,
    gear: Seq<u64>,
    gear_ls: Seq<u64>,
)
    requires
        2 <= min,
        1 <= max,
    ensures
        admissible_cut(
            |w: Seq<u8>| cut_spec(w, min, avg, max, ms, ml, ms_ls, ml_ls, gear, gear_ls),
        ),
        takes_short_whole(
            |w: Seq<u8>| cut_spec(w, min, avg, max, ms, ml, ms_ls, ml_ls, gear, gear_ls),
            2 * (min / 2),
        ),
        min <= max ==> respects_min_floor(
            |w: Seq<u8>| cut_spec(w, min, avg, max, ms, ml, ms_ls, ml_ls, gear, gear_ls),
            2 * (min / 2),
        ),
{
    let cutf = |w: Seq<u8>| cut_spec(w, min, avg, max, ms, ml, ms_ls, ml_ls, gear, gear_ls);
    assert forall|w: Seq<u8>| w.len() > 0 implies 0 < (#[trigger] cutf(w)).1 <= w.len() by {
        lemma_cut_bounds(w, min, avg, max, ms, ml, ms_ls, ml_ls, gear, gear_ls);
    }
    assert forall|w: Seq<u8>| 0 < w.len() <= 2 * (min / 2) implies (#[trigger] cutf(w)).1
        == w.len() by {}
    if min <= max {
        assert forall|w: Seq<u8>| w.len() > 2 * (min / 2) implies (#[trigger] cutf(w)).1 >= 2 * (
        min / 2) by {
            lemma_cut_bounds(w, min, avg, max, ms, ml, ms_ls, ml_ls, gear, gear_ls);
        }
    }
}

/// The windowing law: the boundary depends only on the first
/// `min(len, max)` bytes of the window, so cutting a window truncated to
/// the buffer capacity of `max` bytes finds the same boundary as cutting
/// the whole window. This is what lets a streaming chunker with a buffer
/// of `max` bytes reproduce the in-memory chunker exactly.
pub proof fn lemma_cut_window_truncation(
    data: Seq<u8>,
    min: int,
    avg: int,
    max: int,
    ms: u64,
    ml: u64,
    ms_ls: u64,
    ml_ls: u64,
    gear: Seq<u64>,
    gear_ls: Seq<u64>,
)
    requires
        2 <= min <= max,
    ensures
        buffered_cut_spec(data, min, avg, max, ms, ml, ms_ls, ml_ls, gear, gear_ls) == cut_spec(
            data,
            min,
            avg,
            max,
            ms,
            ml,
            ms_ls,
            ml_ls,
            gear,
            gear_ls,
        ),
{
    let n = data.len() as int;
    let limit = if n > max {
        max
    } else {
        n
    };
    let trunc = data.take(limit);
    if n <= max {
        assert(trunc =~= data);
    } else {
        assert(trunc.len() == max);
        if n <= min {
        } else if max <= min {
            // both sides scan an empty range of pairs and take the whole
            // truncated region with a zero hash
            assert(max == min);
            let center = if avg > limit {
                limit
            } else {
                avg
            };
            assert(duo_scan(
                data,
                min / 2,
                0,
                center / 2,
                limit / 2,
                ms,
                ml,
                ms_ls,
                ml_ls,
                gear,
                gear_ls,
            ).1 == 0 || min / 2 < limit / 2) by {
                lemma_duo_scan_bounds(
                    data,
                    min / 2,
                    0,
                    center / 2,
                    limit / 2,
                    ms,
                    ml,
                    ms_ls,
                    ml_ls,
                    gear,
                    gear_ls,
                );
            }
        } else {
            let center = if avg > limit {
                limit
            } else {
                avg
            };
            lemma_duo_scan_congruence(
                trunc,
                data,
                min / 2,
                0,
                center / 2,
                limit / 2,
                ms,
                ml,
                ms_ls,
                ml_ls,
                gear,
                gear_ls,
            );
        }
    }
}

/// The level for the normalized chunking used by `FastCDC` and
/// `StreamCDC`.
///
/// Normalized chunking "generates chunks whose sizes are normalized to a
/// specified region centered at the expected chunk size," as described in
/// section 4.4 of the FastCDC 2016 paper.
///
/// Note that lower levels of normalization will result in a larger range
/// of generated chunk sizes. It may be beneficial to widen the
/// minimum/maximum chunk size values given to the `FastCDC` constructor in
/// that case.
///
/// Note that higher levels of normalization may result in the final chunk
/// of data being smaller than the minimum chunk size, which results in a
/// hash value of zero since no calculations are performed for sub-minimum
/// chunks.
#[derive(Copy, Clone, Debug)]
pub enum Normalization {
    /// No chunk size normalization, produces a wide range of chunk sizes.
    Level0,
    /// Level 1 normalization, in which fewer chunks are outside of the desired range.
    Level1,
    /// Level 2 normalization, where most chunks are of the desired size.
    Level2,
    /// Level 3 normalization, nearly all chunks are the desired size.
    Level3,
}

impl Normalization {
    /// The number of normalization bits this level spreads between the two
    /// masks.
    pub open spec fn bits_spec(self) -> u32 {
        match self {
            Normalization::Level0 => 0,
            Normalization::Level1 => 1,
            Normalization::Level2 => 2,
            Normalization::Level3 => 3,
        }
    }

    /// The number of normalization bits of this level.
    pub fn bits(&self) -> (r: u32)
        ensures
            r == self.bits_spec(),
    {
        match self {
            Normalization::Level0 => 0,
            Normalization::Level1 => 1,
            Normalization::Level2 => 2,
            Normalization::Level3 => 3,
        }
    }
}

/// Represents a chunk returned from the `FastCDC` chunker.
#[derive(Debug, Clone, Copy, Eq, PartialEq, Hash)]
pub struct Chunk {
    /// The gear hash value as of the end of the chunk.
    pub hash: u64,
    /// Starting byte position within the source.
    pub offset: usize,
    /// Length of the chunk in bytes.
    pub length: usize,
}

/// Produce the gear table (and left-shifted gear table) in which the
/// values have been XOR'd with the given seed; a zero seed leaves both
/// tables as they are. The shared originals are copied, never mutated.
pub fn get_gear_with_seed(seed: u64) -> (r: ([u64; 256], [u64; 256]))
    ensures
        r.0@ == seeded_gear(seed),
        r.1@ == seeded_gear_ls(seed),
{
    let mut gear: [u64; 256] = GEAR;
    let mut gear_ls: [u64; 256] = GEAR_LS;
    if seed > 0 {
        let mut i: usize = 0;
        while i < 256
            invariant
                i <= 256,
                forall|j: int| 0 <= j < i ==> gear@[j] == GEAR@[j] ^ seed,
                forall|j: int| i <= j < 256 ==> gear@[j] == GEAR@[j],
            decreases 256 - i,
        {
            gear[i] = gear[i] ^ seed;
            i += 1;
        }
        let seed_ls = seed << 1u64;
        let mut i: usize = 0;
        while i < 256
            invariant
                i <= 256,
                forall|j: int| 0 <= j < i ==> gear_ls@[j] == GEAR_LS@[j] ^ seed_ls,
                forall|j: int| i <= j < 256 ==> gear_ls@[j] == GEAR_LS@[j],
            decreases 256 - i,
        {
            gear_ls[i] = gear_ls[i] ^ seed_ls;
            i += 1;
        }
        proof {
            assert(gear@ =~= seeded_gear(seed));
            assert(gear_ls@ =~= seeded_gear_ls(seed));
        }
    } else {
        proof {
            assert forall|j: int| 0 <= j < 256 implies GEAR@[j] ^ seed == GEAR@[j] by {
                let v = GEAR@[j];
                assert(v ^ 0u64 == v) by (bit_vector);
            }
            assert forall|j: int| 0 <= j < 256 implies GEAR_LS@[j] ^ (seed << 1u64)
                == GEAR_LS@[j] by {
                let v = GEAR_LS@[j];
                assert(0u64 << 1u64 == 0u64) by (bit_vector);
                assert(v ^ 0u64 == v) by (bit_vector);
            }
            assert(gear@ =~= seeded_gear(seed));
            assert(gear_ls@ =~= seeded_gear_ls(seed));
        }
    }
    (gear, gear_ls)
}

/// Find the next chunk cut point in the source: the hash observed at the
/// boundary and the number of bytes of `source` that belong to the chunk,
/// exactly as `cut_spec` describes. The caller supplies the gear tables
/// (usually from `get_gear_with_seed`) along with both plain and
/// left-shifted masks.
#[allow(clippy::too_many_arguments)]
pub fn cut(
    source: &[u8],
    min_size: usize,
    avg_size: usize,
    max_size: usize,
    mask_s: u64,
    mask_l: u64,
    mask_s_ls: u64,
    mask_l_ls: u64,
    gear: [u64; 256],
    gear_ls: [u64; 256],
) -> (r: (u64, usize))
    requires
        2 <= min_size,
        1 <= max_size,
    ensures
        (r.0, r.1 as int) == cut_spec(
            source@,
            min_size as int,
            avg_size as int,
            max_size as int,
            mask_s,
            mask_l,
            mask_s_ls,
            mask_l_ls,
            gear@,
            gear_ls@,
        ),
        r.1 <= source@.len(),
{
    proof {
        lemma_cut_bounds(
            source@,
            min_size as int,
            avg_size as int,
            max_size as int,
            mask_s,
            mask_l,
            mask_s_ls,
            mask_l_ls,
            gear@,
            gear_ls@,
        );
    }
    let n = source.len();
    if n <= min_size {
        return (0, n);
    }
    let limit: usize = if n > max_size {
        max_size
    } else {
        n
    };
    let center: usize = if avg_size > limit {
        limit
    } else {
        avg_size
    };
    let centerh: usize = center / 2;
    let limith: usize = limit / 2;
    let mut index: usize = min_size / 2;
    let mut hash: u64 = 0;
    while index < centerh
        invariant
            2 <= min_size,
            min_size < n,
            center <= limit <= n == source@.len(),
            limit == (if n > max_size {
                max_size as int
            } else {
                n as int
            }),
            center == (if avg_size > limit {
                limit as int
            } else {
                avg_size as int
            }),
            centerh == center / 2,
            limith == limit / 2,
            min_size / 2 <= index,
            index <= limith || index == min_size / 2,
            duo_scan(
                source@,
                min_size as int / 2,
                0,
                centerh as int,
                limith as int,
                mask_s,
                mask_l,
                mask_s_ls,
                mask_l_ls,
                gear@,
                gear_ls@,
            ) == duo_scan(
                source@,
                index as int,
                hash,
                centerh as int,
                limith as int,
                mask_s,
                mask_l,
                mask_s_ls,
                mask_l_ls,
                gear@,
                gear_ls@,
            ),
        decreases centerh - index,
    {
        let a = index * 2;
        hash = (hash << 2u64).wrapping_add(gear_ls[source[a] as usize]);
        if (hash & mask_s_ls) == 0 {
            return (hash, a);
        }
        hash = hash.wrapping_add(gear[source[a + 1] as usize]);
        if (hash & mask_s) == 0 {
            return (hash, a + 1);
        }
        index += 1;
    }
    while index < limith
        invariant
            2 <= min_size,
            min_size < n,
            center <= limit <= n == source@.len(),
            limit == (if n > max_size {
                max_size as int
            } else {
                n as int
            }),
            center == (if avg_size > limit {
                limit as int
            } else {
                avg_size as int
            }),
            centerh == center / 2,
            limith == limit / 2,
            min_size / 2 <= index,
            index <= limith || index == min_size / 2,
            centerh <= index,
            duo_scan(
                source@,
                min_size as int / 2,
                0,
                centerh as int,
                limith as int,
                mask_s,
                mask_l,
                mask_s_ls,
                mask_l_ls,
                gear@,
                gear_ls@,
            ) == duo_scan(
                source@,
                index as int,
                hash,
                centerh as int,
                limith as int,
                mask_s,
                mask_l,
                mask_s_ls,
                mask_l_ls,
                gear@,
                gear_ls@,
            ),
        decreases limith - index,
    {
        let a = index * 2;
        hash = (hash << 2u64).wrapping_add(gear_ls[source[a] as usize]);
        if (hash & mask_l_ls) == 0 {
            return (hash, a);
        }
        hash = hash.wrapping_add(gear[source[a + 1] as usize]);
        if (hash & mask_l) == 0 {
            return (hash, a + 1);
        }
        index += 1;
    }
    // If all else fails, return the largest chunk. This will happen with
    // pathological data, such as all zeroes.
    (hash, limit)
}

///
/// The FastCDC chunker implementation from 2020.
///
/// Use `new` to construct an instance, and then call `next_chunk`
/// repeatedly to obtain the sequence of chunks.
///
#[derive(Debug, Clone, Eq, PartialEq)]
pub struct FastCDC<'a> {
    pub source: &'a [u8],
    pub processed: usize,
    pub remaining: usize,
    pub min_size: usize,
    pub avg_size: usize,
    pub max_size: usize,
    pub mask_s: u64,
    pub mask_l: u64,
    pub mask_s_ls: u64,
    pub mask_l_ls: u64,
    pub gear: [u64; 256],
    pub gear_ls: [u64; 256],
}

impl<'a> FastCDC<'a> {
    /// The internal consistency of a chunker: the cursor and the remainder
    /// cover the source exactly, and the configuration is within bounds.
    pub open spec fn wf(self) -> bool {
        &&& self.processed + self.remaining == self.source@.len()
        &&& self.source@.len() <= usize::MAX
        &&& MINIMUM_MIN <= self.min_size <= MINIMUM_MAX
        &&& AVERAGE_MIN <= self.avg_size <= AVERAGE_MAX
        &&& MAXIMUM_MIN <= self.max_size <= MAXIMUM_MAX
    }

    /// This chunker's boundary rule as a function of a byte window.
    pub open spec fn cut_fn(self) -> spec_fn(Seq<u8>) -> (u64, int) {
        |w: Seq<u8>|
            cut_spec(
                w,
                self.min_size as int,
                self.avg_size as int,
                self.max_size as int,
                self.mask_s,
                self.mask_l,
                self.mask_s_ls,
                self.mask_l_ls,
                self.gear@,
                self.gear_ls@,
            )
    }

    /// The chunks this chunker has yet to yield.
    pub open spec fn chunks(self) -> Seq<(u64, int, int)> {
        chunk_seq(self.source@, self.processed as int, self.cut_fn())
    }

    /// What `with_level_and_seed` builds from the given arguments: cursor
    /// at the start, masks selected from the mask table around the rounded
    /// base-2 logarithm of the average size, shifted apart by the
    /// normalization level (with left-shifted copies of both), and gear
    /// tables perturbed by the seed.
    pub open spec fn fresh(
        self,
        source: &'a [u8],
        min_size: u32,
        avg_size: u32,
        max_size: u32,
        level: Normalization,
        seed: u64,
    ) -> bool {
        let mask_s = MASKS[(log2_round(avg_size as nat) + level.bits_spec()) as int];
        let mask_l = MASKS[(log2_round(avg_size as nat) - level.bits_spec()) as int];
        &&& self.source == source
        &&& self.processed == 0
        &&& self.remaining == source@.len()
        &&& self.min_size == min_size as usize
        &&& self.avg_size == avg_size as usize
        &&& self.max_size == max_size as usize
        &&& self.mask_s == mask_s
        &&& self.mask_l == mask_l
        &&& self.mask_s_ls == mask_s << 1u64
        &&& self.mask_l_ls == mask_l << 1u64
        &&& self.gear@ == seeded_gear(seed)
        &&& self.gear_ls@ == seeded_gear_ls(seed)
    }

    ///
    /// Construct a `FastCDC` that will process the given slice of bytes,
    /// rejecting sizes outside the documented bounds.
    ///
    /// Uses chunk size normalization level 1 by default.
    ///
    pub fn new(source: &'a [u8], min_size: u32, avg_size: u32, max_size: u32) -> (r: Result<
        Self,
        ConfigError,
    >)
        ensures
            ({
                let check = config_check(min_size as int, avg_size as int, max_size as int);
                match r {
                    Ok(c) => check is None && c.fresh(
                        source,
                        min_size,
                        avg_size,
                        max_size,
                        Normalization::Level1,
                        0,
                    ) && c.wf(),
                    Err(e) => check == Some(e),
                }
            }),
    {
        FastCDC::with_level(source, min_size, avg_size, max_size, Normalization::Level1)
    }

    ///
    /// Create a new `FastCDC` with the given normalization level,
    /// rejecting sizes outside the documented bounds.
    ///
    pub fn with_level(
        source: &'a [u8],
        min_size: u32,
        avg_size: u32,
        max_size: u32,
        level: Normalization,
    ) -> (r: Result<Self, ConfigError>)
        ensures
            ({
                let check = config_check(min_size as int, avg_size as int, max_size as int);
                match r {
                    Ok(c) => check is None && c.fresh(
                        source,
                        min_size,
                        avg_size,
                        max_size,
                        level,
                        0,
                    ) && c.wf(),
                    Err(e) => check == Some(e),
                }
            }),
    {
        FastCDC::with_level_and_seed(source, min_size, avg_size, max_size, level, 0)
    }

    ///
    /// Create a new `FastCDC` with the given normalization level and seed
    /// to be XOR'd with the values in the gear tables, rejecting sizes
    /// outside the documented bounds.
    ///
    pub fn with_level_and_seed(
        source: &'a [u8],
        min_size: u32,
        avg_size: u32,
        max_size: u32,
        level: Normalization,
        seed: u64,
    ) -> (r: Result<Self, ConfigError>)
        ensures
            ({
                let check = config_check(min_size as int, avg_size as int, max_size as int);
                match r {
                    Ok(c) => check is None && c.fresh(
                        source,
                        min_size,
                        avg_size,
                        max_size,
                        level,
                        seed,
                    ) && c.wf(),
                    Err(e) => check == Some(e),
                }
            }),
    {
        if min_size < MINIMUM_MIN {
            return Err(ConfigError::MinimumTooLow);
        }
        if min_size > MINIMUM_MAX {
            return Err(ConfigError::MinimumTooHigh);
        }
        if avg_size < AVERAGE_MIN {
            return Err(ConfigError::AverageTooLow);
        }
        if avg_size > AVERAGE_MAX {
            return Err(ConfigError::AverageTooHigh);
        }
        if max_size < MAXIMUM_MIN {
            return Err(ConfigError::MaximumTooLow);
        }
        if max_size > MAXIMUM_MAX {
            return Err(ConfigError::MaximumTooHigh);
        }
        proof {
            lemma_log2_round_range(avg_size as nat);
        }
        let bits = logarithm2(avg_size);
        let normalization = level.bits();
        let mask_s = MASKS[(bits + normalization) as usize];
        let mask_l = MASKS[(bits - normalization) as usize];
        let (gear, gear_ls) = get_gear_with_seed(seed);
        Ok(
            FastCDC {
                source,
                processed: 0,
                remaining: source.len(),
                min_size: min_size as usize,
                avg_size: avg_size as usize,
                max_size: max_size as usize,
                mask_s,
                mask_l,
                mask_s_ls: mask_s << 1u64,
                mask_l_ls: mask_l << 1u64,
                gear,
                gear_ls,
            },
        )
    }

    ///
    /// Find the next cut point in the data, where `start` is the position
    /// from which to start processing the source data, and `remaining` are
    /// the number of bytes left to be processed.
    ///
    /// The returned 2-tuple consists of the 64-bit hash (fingerprint) and
    /// the byte offset of the end of the chunk. Note that the hash values
    /// may differ from those produced by the 2016 chunker.
    ///
    /// There is a special case in which the remaining bytes are less than
    /// the minimum chunk size, at which point this function returns a hash
    /// of 0 and the cut point is the end of the source data.
    ///
    pub fn cut(&self, start: usize, remaining: usize) -> (r: (u64, usize))
        requires
            self.wf(),
            start + remaining <= self.source@.len(),
        ensures
            ({
                let rr = cut_spec(
                    self.source@.subrange(start as int, start + remaining),
                    self.min_size as int,
                    self.avg_size as int,
                    self.max_size as int,
                    self.mask_s,
                    self.mask_l,
                    self.mask_s_ls,
                    self.mask_l_ls,
                    self.gear@,
                    self.gear_ls@,
                );
                r.0 == rr.0 && r.1 == start + rr.1
            }),
    {
        let end = start + remaining;
        let (hash, count) = cut(
            &self.source[start..end],
            self.min_size,
            self.avg_size,
            self.max_size,
            self.mask_s,
            self.mask_l,
            self.mask_s_ls,
            self.mask_l_ls,
            self.gear,
            self.gear_ls,
        );
        (hash, start + count)
    }

    /// Yield the next chunk, or `None` once the source is exhausted. The
    /// chunks come out exactly in the order of `chunks()`.
    pub fn next_chunk(&mut self) -> (r: Option<Chunk>)
        requires
            old(self).wf(),
        ensures
            final(self).wf(),
            final(self).source == old(self).source,
            final(self).min_size == old(self).min_size,
            final(self).avg_size == old(self).avg_size,
            final(self).max_size == old(self).max_size,
            final(self).mask_s == old(self).mask_s,
            final(self).mask_l == old(self).mask_l,
            final(self).mask_s_ls == old(self).mask_s_ls,
            final(self).mask_l_ls == old(self).mask_l_ls,
            final(self).gear == old(self).gear,
            final(self).gear_ls == old(self).gear_ls,
            match r {
                None => *final(self) == *old(self) && old(self).chunks().len() == 0,
                Some(c) => {
                    &&& old(self).chunks().len() > 0
                    &&& (c.hash, c.offset as int, c.length as int) == old(self).chunks()[0]
                    &&& 0 < c.length <= old(self).remaining
                    &&& old(self).min_size <= old(self).max_size ==> c.length <= old(self).max_size
                    &&& final(self).chunks() == old(self).chunks().drop_first()
                    &&& final(self).processed == old(self).processed + c.length
                },
            },
    {
        proof {
            if self.remaining > 0 {
                assert(self.source@.subrange(
                    self.processed as int,
                    self.processed + self.remaining,
                ) =~= self.source@.skip(self.processed as int));
                lemma_cut_bounds(
                    self.source@.skip(self.processed as int),
                    self.min_size as int,
                    self.avg_size as int,
                    self.max_size as int,
                    self.mask_s,
                    self.mask_l,
                    self.mask_s_ls,
                    self.mask_l_ls,
                    self.gear@,
                    self.gear_ls@,
                );
            }
        }
        if self.remaining == 0 {
            None
        } else {
            let (hash, cutpoint) = self.cut(self.processed, self.remaining);
            let offset = self.processed;
            let length = cutpoint - offset;
            if length == 0 {
                None
            } else {
                self.processed += length;
                self.remaining -= length;
                proof {
                    let cs = old(self).chunks();
                    assert(cs == seq![(hash, offset as int, length as int)] + self.chunks());
                    assert(cs.drop_first() =~= self.chunks());
                }
                Some(Chunk { hash, offset, length })
            }
        }
    }

    /// An upper bound on the number of chunks that remain, for any caller
    /// sizing a collection ahead of time.
    pub fn size_hint(&self) -> (r: (usize, Option<usize>))
        requires
            self.wf(),
        ensures
            r.0 == self.remaining / self.min_size,
            r.1 == Some(r.0),
    {
        let upper_bound = self.remaining / self.min_size;
        (upper_bound, Some(upper_bound))
    }
}

/// Sum-to-total: the chunks of this variant tile the source with no gaps
/// and no overlaps — the first starts at zero, each next chunk starts
/// where the previous ended, the last ends at the end of the source, and
/// the lengths sum to the source length.
pub proof fn lemma_chunks_tile(
    data: Seq<u8>,
    min: int,
    avg: int,
    max: int,
    ms: u64,
    ml: u64,
    ms_ls: u64,
    ml_ls: u64,
    gear: Seq<u64>,
    gear_ls: Seq<u64>,
)
    requires
        2 <= min,
        1 <= max,
    ensures
        ({
            let cs = chunk_seq(
                data,
                0,
                |w: Seq<u8>| cut_spec(w, min, avg, max, ms, ml, ms_ls, ml_ls, gear, gear_ls),
            );
            &&& (cs.len() == 0 <==> data.len() == 0)
            &&& cs.len() > 0 ==> cs[0].1 == 0
            &&& forall|i: int|
                0 <= i < cs.len() - 1 ==> (#[trigger] cs[i + 1]).1 == cs[i].1 + cs[i].2
            &&& cs.len() > 0 ==> cs[cs.len() - 1].1 + cs[cs.len() - 1].2 == data.len()
            &&& sum_lengths(cs) == data.len()
        }),
{
    lemma_cut_well_behaved(min, avg, max, ms, ml, ms_ls, ml_ls, gear, gear_ls);
    lemma_chunk_seq_tiles(
        data,
        0,
        |w: Seq<u8>| cut_spec(w, min, avg, max, ms, ml, ms_ls, ml_ls, gear, gear_ls),
    );
}

/// The minimum-size floor: when the minimum does not exceed the maximum,
/// every chunk except possibly the last one is at least `2 * (min / 2)`
/// bytes long — the minimum size rounded down to a whole byte pair, which
/// is `min` itself for every even minimum.
pub proof fn lemma_chunks_min_floor(
    data: Seq<u8>,
    min: int,
    avg: int,
    max: int,
    ms: u64,
    ml: u64,
    ms_ls: u64,
    ml_ls: u64,
    gear: Seq<u64>,
    gear_ls: Seq<u64>,
)
    requires
        2 <= min <= max,
    ensures
        ({
            let cs = chunk_seq(
                data,
                0,
                |w: Seq<u8>| cut_spec(w, min, avg, max, ms, ml, ms_ls, ml_ls, gear, gear_ls),
            );
            forall|i: int| 0 <= i < cs.len() - 1 ==> (#[trigger] cs[i]).2 >= 2 * (min / 2)
        }),
{
    lemma_cut_well_behaved(min, avg, max, ms, ml, ms_ls, ml_ls, gear, gear_ls);
    lemma_chunk_seq_min_floor(
        data,
        0,
        |w: Seq<u8>| cut_spec(w, min, avg, max, ms, ml, ms_ls, ml_ls, gear, gear_ls),
        2 * (min / 2),
    );
}

/// Streaming/in-memory equivalence: chunking through a bounded buffer of
/// `max` bytes (what `StreamCDC` computes, `buffered_cut_spec`) yields
/// exactly the chunks of the whole-buffer chunker, however the source
/// splits its reads, whenever the minimum does not exceed the maximum.
pub proof fn lemma_stream_chunks_equal_in_memory(
    data: Seq<u8>,
    min: int,
    avg: int,
    max: int,
    ms: u64,
    ml: u64,
    ms_ls: u64,
    ml_ls: u64,
    gear: Seq<u64>,
    gear_ls: Seq<u64>,
)
    requires
        2 <= min <= max,
    ensures
        chunk_seq(
            data,
            0,
            |w: Seq<u8>| buffered_cut_spec(w, min, avg, max, ms, ml, ms_ls, ml_ls, gear, gear_ls),
        ) == chunk_seq(
            data,
            0,
            |w: Seq<u8>| cut_spec(w, min, avg, max, ms, ml, ms_ls, ml_ls, gear, gear_ls),
        ),
{
    let bf = |w: Seq<u8>| buffered_cut_spec(w, min, avg, max, ms, ml, ms_ls, ml_ls, gear, gear_ls);
    let df = |w: Seq<u8>| cut_spec(w, min, avg, max, ms, ml, ms_ls, ml_ls, gear, gear_ls);
    assert forall|w: Seq<u8>| #[trigger] bf(w) == df(w) by {
        lemma_cut_window_truncation(w, min, avg, max, ms, ml, ms_ls, ml_ls, gear, gear_ls);
    }
    lemma_chunk_seq_congruence(data, 0, bf, df);
}

/// Seed determinism: the chunk sequence is a mathematical function of the
/// input bytes, the configuration, and the seeded gear tables, so the
/// same input chunked twice with the same seed produces identical results
/// both times. (A different seed changes the gear tables and with them,
/// in general, the boundaries — that direction is observed by tests, as
/// nothing forces two different tables to disagree on a given input.)
pub proof fn lemma_seeded_chunks_deterministic(
    data1: Seq<u8>,
    data2: Seq<u8>,
    min: int,
    avg: int,
    max: int,
    ms: u64,
    ml: u64,
    ms_ls: u64,
    ml_ls: u64,
    seed1: u64,
    seed2: u64,
)
    requires
        data1 == data2,
        seed1 == seed2,
    ensures
        chunk_seq(
            data1,
            0,
            |w: Seq<u8>|
                cut_spec(
                    w,
                    min,
                    avg,
                    max,
                    ms,
                    ml,
                    ms_ls,
                    ml_ls,
                    seeded_gear(seed1),
                    seeded_gear_ls(seed1),
                ),
        ) == chunk_seq(
            data2,
            0,
            |w: Seq<u8>|
                cut_spec(
                    w,
                    min,
                    avg,
                    max,
                    ms,
                    ml,
                    ms_ls,
                    ml_ls,
                    seeded_gear(seed2),
                    seeded_gear_ls(seed2),
                ),
        ),
{
}

/// The error type returned from the `StreamCDC` chunker.
#[derive(Debug)]
pub enum Error {
    /// End of source data reached.
    Empty,
    /// An I/O error occurred, described by the source.
    IoError(String),
    /// Something unexpected happened.
    Other(String),
}

impl Error {
    /// What `message` returns for each variant.
    pub open spec fn message_spec(self) -> Seq<char> {
        match self {
            Error::Empty => "chunker error: Empty"@,
            Error::IoError(s) => "chunker error: IoError("@ + s@ + ")"@,
            Error::Other(s) => "chunker error: Other("@ + s@ + ")"@,
        }
    }

    /// A short description of the error, in the form
    /// `chunker error: <variant>`, with the detail of a failed read or an
    /// unexpected condition in parentheses.
    pub fn message(&self) -> (r: String)
        ensures
            r@ == self.message_spec(),
    {
        match self {
            Error::Empty => String::from_str("chunker error: Empty"),
            Error::IoError(s) => {
                let mut m = String::from_str("chunker error: IoError(");
                m.append(s.as_str());
                m.append(")");
                m
            },
            Error::Other(s) => {
                let mut m = String::from_str("chunker error: Other(");
                m.append(s.as_str());
                m.append(")");
                m
            },
        }
    }
}

/// Represents a chunk returned from the `StreamCDC` chunker, which owns a
/// copy of its bytes because the chunker's internal buffer is reused.
#[derive(Debug, Clone, Eq, PartialEq, Hash)]
pub struct ChunkData {
    /// The gear hash value as of the end of the chunk.
    pub hash: u64,
    /// Starting byte position within the source.
    pub offset: u64,
    /// Length of the chunk in bytes.
    pub length: usize,
    /// Source bytes contained in this chunk.
    pub data: Vec<u8>,
}

///
/// The FastCDC chunker implementation from 2020 with streaming support.
///
/// Use `new` to construct an instance, and then call `next_chunk`
/// repeatedly to obtain `ChunkData` values, or `read_chunk` to drive the
/// buffer by hand.
///
/// Note that this struct allocates a buffer of `max_size` bytes to act as
/// a window onto the source while finding chunk boundaries.
///
pub struct StreamCDC<S: ByteSource> {
    /// Buffer of data from source for finding cut points.
    pub buffer: Vec<u8>,
    /// Maximum capacity of the buffer (always `max_size`).
    pub capacity: usize,
    /// Source from which data is read into `buffer`.
    pub source: S,
    /// Number of bytes read from the source so far.
    pub processed: u64,
    /// True when the source produces no more data.
    pub eof: bool,
    pub min_size: usize,
    pub avg_size: usize,
    pub max_size: usize,
    pub mask_s: u64,
    pub mask_l: u64,
    pub mask_s_ls: u64,
    pub mask_l_ls: u64,
    pub gear: [u64; 256],
    pub gear_ls: [u64; 256],
    /// The whole byte stream: what the source has delivered so far
    /// followed by what it still holds.
    pub full: Ghost<Seq<u8>>,
}

impl<S: ByteSource> StreamCDC<S> {
    /// The internal consistency of a streaming chunker: the buffer is a
    /// window of the stream starting at `processed`, the source holds
    /// exactly the rest, and the configuration is within bounds.
    pub open spec fn wf(self) -> bool {
        &&& self.capacity == self.max_size
        &&& self.buffer@.len() <= self.capacity
        &&& self.full@.len() <= u64::MAX
        &&& self.processed + self.buffer@.len() + self.source.remaining().len()
            == self.full@.len()
        &&& self.buffer@ == self.full@.subrange(
            self.processed as int,
            self.processed + self.buffer@.len(),
        )
        &&& self.source.remaining() == self.full@.skip(self.processed + self.buffer@.len())
        &&& (self.eof ==> self.source.remaining().len() == 0)
        &&& MINIMUM_MIN <= self.min_size <= MINIMUM_MAX
        &&& AVERAGE_MIN <= self.avg_size <= AVERAGE_MAX
        &&& MAXIMUM_MIN <= self.max_size <= MAXIMUM_MAX
    }

    /// The streaming boundary rule as a function of the bytes that remain:
    /// the cut in the window truncated to the buffer capacity.
    pub open spec fn cut_fn(self) -> spec_fn(Seq<u8>) -> (u64, int) {
        |w: Seq<u8>|
            buffered_cut_spec(
                w,
                self.min_size as int,
                self.avg_size as int,
                self.max_size as int,
                self.mask_s,
                self.mask_l,
                self.mask_s_ls,
                self.mask_l_ls,
                self.gear@,
                self.gear_ls@,
            )
    }

    /// The chunks this chunker has yet to yield (barring source failures).
    pub open spec fn chunks(self) -> Seq<(u64, int, int)> {
        chunk_seq(self.full@, self.processed as int, self.cut_fn())
    }

    /// What `with_level_and_seed` establishes for the fields of a freshly
    /// built streaming chunker.
    pub open spec fn fresh(
        self,
        source: S,
        min_size: u32,
        avg_size: u32,
        max_size: u32,
        level: Normalization,
        seed: u64,
    ) -> bool {
        let mask_s = MASKS[(log2_round(avg_size as nat) + level.bits_spec()) as int];
        let mask_l = MASKS[(log2_round(avg_size as nat) - level.bits_spec()) as int];
        &&& self.full@ == source.remaining()
        &&& self.processed == 0
        &&& self.min_size == min_size as usize
        &&& self.avg_size == avg_size as usize
        &&& self.max_size == max_size as usize
        &&& self.mask_s == mask_s
        &&& self.mask_l == mask_l
        &&& self.mask_s_ls == mask_s << 1u64
        &&& self.mask_l_ls == mask_l << 1u64
        &&& self.gear@ == seeded_gear(seed)
        &&& self.gear_ls@ == seeded_gear_ls(seed)
    }

    ///
    /// Construct a `StreamCDC` that will process bytes from the given
    /// source, rejecting sizes outside the documented bounds.
    ///
    /// Uses chunk size normalization level 1 by default.
    ///
    pub fn new(source: S, min_size: u32, avg_size: u32, max_size: u32) -> (r: Result<
        Self,
        ConfigError,
    >)
        ensures
            ({
                let check = config_check(min_size as int, avg_size as int, max_size as int);
                match r {
                    Ok(c) => {
                        &&& check is None
                        &&& (source.remaining().len() <= u64::MAX ==> c.wf())
                        &&& c.fresh(source, min_size, avg_size, max_size, Normalization::Level1, 0)
                    },
                    Err(e) => check == Some(e),
                }
            }),
    {
        StreamCDC::with_level(source, min_size, avg_size, max_size, Normalization::Level1)
    }

    ///
    /// Create a new `StreamCDC` with the given normalization level,
    /// rejecting sizes outside the documented bounds.
    ///
    pub fn with_level(
        source: S,
        min_size: u32,
        avg_size: u32,
        max_size: u32,
        level: Normalization,
    ) -> (r: Result<Self, ConfigError>)
        ensures
            ({
                let check = config_check(min_size as int, avg_size as int, max_size as int);
                match r {
                    Ok(c) => {
                        &&& check is None
                        &&& (source.remaining().len() <= u64::MAX ==> c.wf())
                        &&& c.fresh(source, min_size, avg_size, max_size, level, 0)
                    },
                    Err(e) => check == Some(e),
                }
            }),
    {
        StreamCDC::with_level_and_seed(source, min_size, avg_size, max_size, level, 0)
    }

    ///
    /// Create a new `StreamCDC` with the given normalization level and
    /// hash seed, rejecting sizes outside the documented bounds.
    ///
    pub fn with_level_and_seed(
        source: S,
        min_size: u32,
        avg_size: u32,
        max_size: u32,
        level: Normalization,
        seed: u64,
    ) -> (r: Result<Self, ConfigError>)
        ensures
            ({
                let check = config_check(min_size as int, avg_size as int, max_size as int);
                match r {
                    Ok(c) => {
                        &&& check is None
                        &&& (source.remaining().len() <= u64::MAX ==> c.wf())
                        &&& c.fresh(source, min_size, avg_size, max_size, level, seed)
                    },
                    Err(e) => check == Some(e),
                }
            }),
    {
        if min_size < MINIMUM_MIN {
            return Err(ConfigError::MinimumTooLow);
        }
        if min_size > MINIMUM_MAX {
            return Err(ConfigError::MinimumTooHigh);
        }
        if avg_size < AVERAGE_MIN {
            return Err(ConfigError::AverageTooLow);
        }
        if avg_size > AVERAGE_MAX {
            return Err(ConfigError::AverageTooHigh);
        }
        if max_size < MAXIMUM_MIN {
            return Err(ConfigError::MaximumTooLow);
        }
        if max_size > MAXIMUM_MAX {
            return Err(ConfigError::MaximumTooHigh);
        }
        proof {
            lemma_log2_round_range(avg_size as nat);
        }
        let bits = logarithm2(avg_size);
        let normalization = level.bits();
        let mask_s = MASKS[(bits + normalization) as usize];
        let mask_l = MASKS[(bits - normalization) as usize];
        let (gear, gear_ls) = get_gear_with_seed(seed);
        let ghost full = source.remaining();
        let c = StreamCDC {
            buffer: Vec::new(),
            capacity: max_size as usize,
            source,
            processed: 0,
            eof: false,
            min_size: min_size as usize,
            avg_size: avg_size as usize,
            max_size: max_size as usize,
            mask_s,
            mask_l,
            mask_s_ls: mask_s << 1u64,
            mask_l_ls: mask_l << 1u64,
            gear,
            gear_ls,
            full: Ghost(full),
        };
        proof {
            assert(c.buffer@ =~= c.full@.subrange(0, 0));
            assert(c.source.remaining() =~= c.full@.skip(0));
        }
        Ok(c)
    }

    /// Fill the buffer with data from the source, returning the number of
    /// bytes read (zero if end of source has been reached). After a
    /// successful fill the buffer is at capacity or the source is
    /// exhausted, however the source splits its reads.
    fn fill_buffer(&mut self) -> (r: Result<usize, Error>)
        requires
            old(self).wf(),
        ensures
            final(self).wf(),
            final(self).full == old(self).full,
            final(self).processed == old(self).processed,
            final(self).capacity == old(self).capacity,
            final(self).min_size == old(self).min_size,
            final(self).avg_size == old(self).avg_size,
            final(self).max_size == old(self).max_size,
            final(self).mask_s == old(self).mask_s,
            final(self).mask_l == old(self).mask_l,
            final(self).mask_s_ls == old(self).mask_s_ls,
            final(self).mask_l_ls == old(self).mask_l_ls,
            final(self).gear == old(self).gear,
            final(self).gear_ls == old(self).gear_ls,
            old(self).eof ==> r is Ok && *final(self) == *old(self),
            r matches Ok(n) ==> final(self).buffer@.len() == old(self).buffer@.len() + n,
            match r {
                Ok(_) => final(self).buffer@.len() == final(self).capacity || final(self).eof,
                Err(e) => e is IoError,
            },
    {
        if self.eof {
            Ok(0)
        } else {
            let mut all_bytes_read: usize = 0;
            while !self.eof && self.buffer.len() < self.capacity
                invariant
                    self.wf(),
                    self.full == old(self).full,
                    self.processed == old(self).processed,
                    self.capacity == old(self).capacity,
                    self.min_size == old(self).min_size,
                    self.avg_size == old(self).avg_size,
                    self.max_size == old(self).max_size,
                    self.mask_s == old(self).mask_s,
                    self.mask_l == old(self).mask_l,
                    self.mask_s_ls == old(self).mask_s_ls,
                    self.mask_l_ls == old(self).mask_l_ls,
                    self.gear == old(self).gear,
                    self.gear_ls == old(self).gear_ls,
                    !old(self).eof,
                    self.buffer@.len() == old(self).buffer@.len() + all_bytes_read,
                decreases
                    self.capacity - self.buffer.len() + (if self.eof {
                        0int
                    } else {
                        1int
                    }),
            {
                let ghost p = self.processed as int;
                let ghost pre_buf = self.buffer@;
                let ghost pre_rem = self.source.remaining();
                let want = self.capacity - self.buffer.len();
                let read_result = self.source.read_up_to(want);
                match read_result {
                    Ok(data) => {
                        if data.len() == 0 {
                            self.eof = true;
                            proof {
                                assert(self.source.remaining() =~= pre_rem);
                            }
                        } else {
                            let ghost blen = pre_buf.len() as int;
                            let ghost dseq = data@;
                            let ghost dlen = data@.len() as int;
                            let dcount = data.len();
                            let mut data = data;
                            self.buffer.append(&mut data);
                            all_bytes_read += dcount;
                            proof {
                                assert(dseq == pre_rem.take(dlen));
                                assert(self.buffer@ == pre_buf + dseq);
                                assert(pre_buf == self.full@.subrange(p, p + blen));
                                assert(pre_rem == self.full@.skip(p + blen));
                                assert(self.buffer@ =~= self.full@.subrange(p, p + blen + dlen));
                                assert(self.source.remaining() == pre_rem.skip(dlen));
                                assert(self.source.remaining() =~= self.full@.skip(
                                    p + blen + dlen,
                                ));
                            }
                        }
                    },
                    Err(msg) => {
                        return Err(Error::IoError(msg));
                    },
                }
            }
            Ok(all_bytes_read)
        }
    }

    /// Drains a specified number of bytes from the front of the buffer,
    /// returning them as an owned vector; refuses a count larger than the
    /// buffer currently holds.
    fn drain_bytes(&mut self, count: usize) -> (r: Result<Vec<u8>, Error>)
        ensures
            final(self).source == old(self).source,
            final(self).full == old(self).full,
            final(self).processed == old(self).processed,
            final(self).eof == old(self).eof,
            final(self).capacity == old(self).capacity,
            final(self).min_size == old(self).min_size,
            final(self).avg_size == old(self).avg_size,
            final(self).max_size == old(self).max_size,
            final(self).mask_s == old(self).mask_s,
            final(self).mask_l == old(self).mask_l,
            final(self).mask_s_ls == old(self).mask_s_ls,
            final(self).mask_l_ls == old(self).mask_l_ls,
            final(self).gear == old(self).gear,
            final(self).gear_ls == old(self).gear_ls,
            match r {
                Ok(data) => {
                    &&& count <= old(self).buffer@.len()
                    &&& data@ == old(self).buffer@.take(count as int)
                    &&& final(self).buffer@ == old(self).buffer@.skip(count as int)
                },
                Err(e) => {
                    &&& e is Other
                    &&& count > old(self).buffer@.len()
                    &&& final(self).buffer == old(self).buffer
                },
            },
    {
        if count > self.buffer.len() {
            Err(Error::Other(String::from_str("drain count exceeds buffered length")))
        } else {
            let mut data = self.buffer.split_off(count);
            core::mem::swap(&mut self.buffer, &mut data);
            proof {
                assert(data@ =~= old(self).buffer@.take(count as int));
                assert(self.buffer@ =~= old(self).buffer@.skip(count as int));
            }
            Ok(data)
        }
    }

    /// Find the next chunk in the source. If the end of the source has
    /// been reached, returns `Error::Empty` as the error. A successful
    /// result is exactly the next record of `chunks()`: the boundary found
    /// in the bytes of the stream that begin at `processed`, with a copy
    /// of exactly those bytes.
    pub fn read_chunk(&mut self) -> (r: Result<ChunkData, Error>)
        requires
            old(self).wf(),
        ensures
            final(self).wf(),
            final(self).full == old(self).full,
            final(self).min_size == old(self).min_size,
            final(self).avg_size == old(self).avg_size,
            final(self).max_size == old(self).max_size,
            final(self).mask_s == old(self).mask_s,
            final(self).mask_l == old(self).mask_l,
            final(self).mask_s_ls == old(self).mask_s_ls,
            final(self).mask_l_ls == old(self).mask_l_ls,
            final(self).gear == old(self).gear,
            final(self).gear_ls == old(self).gear_ls,
            match r {
                Ok(chunk) => {
                    &&& old(self).chunks().len() > 0
                    &&& (chunk.hash, chunk.offset as int, chunk.length as int) == old(
                        self,
                    ).chunks()[0]
                    &&& chunk.data@ == old(self).full@.subrange(
                        chunk.offset as int,
                        chunk.offset + chunk.length,
                    )
                    &&& final(self).chunks() == old(self).chunks().drop_first()
                    &&& final(self).processed == old(self).processed + chunk.length
                },
                Err(e) => {
                    &&& !(e is Other)
                    &&& final(self).processed == old(self).processed
                    &&& (e is Empty ==> old(self).processed == old(self).full@.len()
                        && final(self).chunks() == old(self).chunks())
                },
            },
            old(self).eof && old(self).buffer@.len() > 0 ==> r is Ok,
            old(self).eof && old(self).buffer@.len() == 0 ==> r matches Err(Error::Empty),
    {
        match self.fill_buffer() {
            Ok(_) => {},
            Err(e) => {
                return Err(e);
            },
        }
        if self.buffer.len() == 0 {
            proof {
                assert(self.processed == self.full@.len());
            }
            Err(Error::Empty)
        } else {
            let ghost p = self.processed as int;
            let ghost wfull = self.full@.skip(p);
            proof {
                // the buffer holds exactly the window that the streaming
                // cut rule examines: the stream suffix truncated to the
                // buffer capacity
                let blen = self.buffer@.len() as int;
                let limit = if wfull.len() > self.max_size {
                    self.max_size as int
                } else {
                    wfull.len() as int
                };
                if self.buffer@.len() == self.capacity {
                    assert(limit == blen);
                } else {
                    assert(self.eof);
                    assert(limit == blen);
                }
                assert(self.buffer@ =~= wfull.take(limit));
                lemma_cut_bounds(
                    self.buffer@,
                    self.min_size as int,
                    self.avg_size as int,
                    self.max_size as int,
                    self.mask_s,
                    self.mask_l,
                    self.mask_s_ls,
                    self.mask_l_ls,
                    self.gear@,
                    self.gear_ls@,
                );
            }
            let (hash, count) = cut(
                self.buffer.as_slice(),
                self.min_size,
                self.avg_size,
                self.max_size,
                self.mask_s,
                self.mask_l,
                self.mask_s_ls,
                self.mask_l_ls,
                self.gear,
                self.gear_ls,
            );
            if count == 0 {
                Err(Error::Empty)
            } else {
                let offset = self.processed;
                self.processed = self.processed + count as u64;
                let data = match self.drain_bytes(count) {
                    Ok(data) => data,
                    Err(e) => {
                        return Err(e);
                    },
                };
                proof {
                    assert(self.buffer@ =~= self.full@.subrange(
                        self.processed as int,
                        self.processed + self.buffer@.len(),
                    ));
                    assert(data@ =~= self.full@.subrange(p, p + count));
                    let cs = old(self).chunks();
                    assert(cs == seq![(hash, p, count as int)] + self.chunks());
                    assert(cs.drop_first() =~= self.chunks());
                }
                Ok(ChunkData { hash, offset, length: count, data })
            }
        }
    }

    /// Yield the next chunk, or `None` once the source is exhausted; a
    /// source failure is surfaced as an item so the caller can decide
    /// whether to retry or abort.
    pub fn next_chunk(&mut self) -> (r: Option<Result<ChunkData, Error>>)
        requires
            old(self).wf(),
        ensures
            final(self).wf(),
            final(self).full == old(self).full,
            final(self).min_size == old(self).min_size,
            final(self).avg_size == old(self).avg_size,
            final(self).max_size == old(self).max_size,
            final(self).mask_s == old(self).mask_s,
            final(self).mask_l == old(self).mask_l,
            final(self).mask_s_ls == old(self).mask_s_ls,
            final(self).mask_l_ls == old(self).mask_l_ls,
            final(self).gear == old(self).gear,
            final(self).gear_ls == old(self).gear_ls,
            match r {
                None => old(self).processed == old(self).full@.len() && final(self).chunks()
                    == old(self).chunks(),
                Some(Ok(chunk)) => {
                    &&& old(self).chunks().len() > 0
                    &&& (chunk.hash, chunk.offset as int, chunk.length as int) == old(
                        self,
                    ).chunks()[0]
                    &&& chunk.data@ == old(self).full@.subrange(
                        chunk.offset as int,
                        chunk.offset + chunk.length,
                    )
                    &&& final(self).chunks() == old(self).chunks().drop_first()
                },
                Some(Err(e)) => !(e is Other) && !(e is Empty) && final(self).processed == old(
                    self,
                ).processed,
            },
            old(self).eof ==> match r {
                Some(item) => item is Ok,
                None => true,
            },
    {
        let chunk = self.read_chunk();
        match chunk {
            Err(Error::Empty) => None,
            other => Some(other),
        }
    }
}

} // verus!
