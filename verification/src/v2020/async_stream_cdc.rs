//! The chunking state machine behind an asynchronously driven stream of
//! chunks.
//!
//! `AsyncStreamCDC` holds the same buffer, cursor, and configuration as
//! `StreamCDC`, but owns no source of its own: a driver loop performs the
//! reads wherever they may suspend, hands the bytes in through
//! `push_data`, marks the end of the stream with `finish`, and collects a
//! chunk with `read_chunk` whenever `needs_data` reports that the buffer
//! is ready. The buffer management and cut-point detection are exactly
//! those of the blocking streaming chunker.

use crate::config::ConfigError;
use crate::log2::{lemma_log2_round_range, log2_round};
use crate::v2020::{
    buffered_cut_spec, config_check, cut, get_gear_with_seed, lemma_cut_bounds, logarithm2,
    seeded_gear, seeded_gear_ls, ChunkData, Error, Normalization, AVERAGE_MAX, AVERAGE_MIN,
    MASKS, MAXIMUM_MAX, MAXIMUM_MIN, MINIMUM_MAX, MINIMUM_MIN,
};
use vstd::prelude::*;

verus! {

///
/// The chunking core of an async-streamable FastCDC chunker from 2020.
///
/// Use `new` to construct an instance, then alternate between feeding it
/// (`needs_data`, `push_data`, `finish`) and collecting chunks
/// (`read_chunk`) from a driver loop that performs the actual reads —
/// suspending at them, if it likes, since this machine never blocks.
///
/// Note that this struct allocates a buffer of `max_size` bytes to act as
/// a window onto the source while finding chunk boundaries.
///
pub struct AsyncStreamCDC {
    /// Buffer of data from source for finding cut points.
    pub buffer: Vec<u8>,
    /// Maximum capacity of the buffer (always `max_size`).
    pub capacity: usize,
    /// Number of bytes read from the source so far.
    pub processed: u64,
    /// True when the source produces no more data.
    pub eof: bool,
    pub min_size: usize,
    pub avg_size: usize,
    pub max_size: usize,
    pub mask_s: u64,
    pub mask_l: u64,
    pub mask_s_ls: u64,
    pub mask_l_ls: u64,
    pub gear: [u64; 256],
    pub gear_ls: [u64; 256],
}

impl AsyncStreamCDC {
    /// The internal consistency of the state machine: the buffer fits its
    /// capacity, the cursor leaves room for it, and the configuration is
    /// within bounds.
    pub open spec fn wf(self) -> bool {
        &&& self.capacity == self.max_size
        &&& self.buffer@.len() <= self.capacity
        &&& self.processed + self.buffer@.len() <= u64::MAX
        &&& MINIMUM_MIN <= self.min_size <= MINIMUM_MAX
        &&& AVERAGE_MIN <= self.avg_size <= AVERAGE_MAX
        &&& MAXIMUM_MIN <= self.max_size <= MAXIMUM_MAX
    }

    /// What `with_level_and_seed` establishes for the fields of a freshly
    /// built state machine.
    pub open spec fn fresh(
        self,
        min_size: u32,
        avg_size: u32,
        max_size: u32,
        level: Normalization,
        seed: u64,
    ) -> bool {
        let mask_s = MASKS[(log2_round(avg_size as nat) + level.bits_spec()) as int];
        let mask_l = MASKS[(log2_round(avg_size as nat) - level.bits_spec()) as int];
        &&& self.buffer@.len() == 0
        &&& self.processed == 0
        &&& !self.eof
        &&& self.min_size == min_size as usize
        &&& self.avg_size == avg_size as usize
        &&& self.max_size == max_size as usize
        &&& self.mask_s == mask_s
        &&& self.mask_l == mask_l
        &&& self.mask_s_ls == mask_s << 1u64
        &&& self.mask_l_ls == mask_l << 1u64
        &&& self.gear@ == seeded_gear(seed)
        &&& self.gear_ls@ == seeded_gear_ls(seed)
    }

    ///
    /// Construct an `AsyncStreamCDC` for the given chunk sizes, rejecting
    /// sizes outside the documented bounds.
    ///
    /// Uses chunk size normalization level 1 by default.
    ///
    pub fn new(min_size: u32, avg_size: u32, max_size: u32) -> (r: Result<Self, ConfigError>)
        ensures
            ({
                let check = config_check(min_size as int, avg_size as int, max_size as int);
                match r {
                    Ok(c) => check is None && c.wf() && c.fresh(
                        min_size,
                        avg_size,
                        max_size,
                        Normalization::Level1,
                        0,
                    ),
                    Err(e) => check == Some(e),
                }
            }),
    {
        Self::with_level(min_size, avg_size, max_size, Normalization::Level1)
    }

    ///
    /// Create a new `AsyncStreamCDC` with the given normalization level,
    /// rejecting sizes outside the documented bounds.
    ///
    pub fn with_level(
        min_size: u32,
        avg_size: u32,
        max_size: u32,
        level: Normalization,
    ) -> (r: Result<Self, ConfigError>)
        ensures
            ({
                let check = config_check(min_size as int, avg_size as int, max_size as int);
                match r {
                    Ok(c) => check is None && c.wf() && c.fresh(
                        min_size,
                        avg_size,
                        max_size,
                        level,
                        0,
                    ),
                    Err(e) => check == Some(e),
                }
            }),
    {
        Self::with_level_and_seed(min_size, avg_size, max_size, level, 0)
    }

    ///
    /// Create a new `AsyncStreamCDC` with the given normalization level
    /// and seed to be XOR'd with the values in the gear tables, rejecting
    /// sizes outside the documented bounds.
    ///
    pub fn with_level_and_seed(
        min_size: u32,
        avg_size: u32,
        max_size: u32,
        level: Normalization,
        seed: u64,
    ) -> (r: Result<Self, ConfigError>)
        ensures
            ({
                let check = config_check(min_size as int, avg_size as int, max_size as int);
                match r {
                    Ok(c) => check is None && c.wf() && c.fresh(
                        min_size,
                        avg_size,
                        max_size,
                        level,
                        seed,
                    ),
                    Err(e) => check == Some(e),
                }
            }),
    {
        if min_size < MINIMUM_MIN {
            return Err(ConfigError::MinimumTooLow);
        }
        if min_size > MINIMUM_MAX {
            return Err(ConfigError::MinimumTooHigh);
        }
        if avg_size < AVERAGE_MIN {
            return Err(ConfigError::AverageTooLow);
        }
        if avg_size > AVERAGE_MAX {
            return Err(ConfigError::AverageTooHigh);
        }
        if max_size < MAXIMUM_MIN {
            return Err(ConfigError::MaximumTooLow);
        }
        if max_size > MAXIMUM_MAX {
            return Err(ConfigError::MaximumTooHigh);
        }
        proof {
            lemma_log2_round_range(avg_size as nat);
        }
        let bits = logarithm2(avg_size);
        let normalization = level.bits();
        let mask_s = MASKS[(bits + normalization) as usize];
        let mask_l = MASKS[(bits - normalization) as usize];
        let (gear, gear_ls) = get_gear_with_seed(seed);
        Ok(
            AsyncStreamCDC {
                buffer: Vec::new(),
                capacity: max_size as usize,
                processed: 0,
                eof: false,
                min_size: min_size as usize,
                avg_size: avg_size as usize,
                max_size: max_size as usize,
                mask_s,
                mask_l,
                mask_s_ls: mask_s << 1u64,
                mask_l_ls: mask_l << 1u64,
                gear,
                gear_ls,
            },
        )
    }

    /// Whether the driver should read more bytes before the next cut: the
    /// source has not ended and the buffer is below capacity.
    pub fn needs_data(&self) -> (r: bool)
        ensures
            r == (!self.eof && self.buffer@.len() < self.capacity),
    {
        !self.eof && self.buffer.len() < self.capacity
    }

    /// Hand the machine the bytes of one completed read, appended at the
    /// tail of the buffer. The driver never hands over more than the
    /// buffer has room for.
    pub fn push_data(&mut self, data: &[u8])
        requires
            old(self).buffer@.len() + data@.len() <= old(self).capacity,
            old(self).processed + old(self).buffer@.len() + data@.len() <= u64::MAX,
        ensures
            final(self).buffer@ == old(self).buffer@ + data@,
            final(self).capacity == old(self).capacity,
            final(self).processed == old(self).processed,
            final(self).eof == old(self).eof,
            final(self).min_size == old(self).min_size,
            final(self).avg_size == old(self).avg_size,
            final(self).max_size == old(self).max_size,
            final(self).mask_s == old(self).mask_s,
            final(self).mask_l == old(self).mask_l,
            final(self).mask_s_ls == old(self).mask_s_ls,
            final(self).mask_l_ls == old(self).mask_l_ls,
            final(self).gear == old(self).gear,
            final(self).gear_ls == old(self).gear_ls,
            old(self).wf() ==> final(self).wf(),
    {
        let mut i: usize = 0;
        while i < data.len()
            invariant
                i <= data@.len(),
                self.buffer@ == old(self).buffer@ + data@.take(i as int),
                old(self).buffer@.len() + data@.len() <= old(self).capacity,
                self.capacity == old(self).capacity,
                self.processed == old(self).processed,
                self.eof == old(self).eof,
                self.min_size == old(self).min_size,
                self.avg_size == old(self).avg_size,
                self.max_size == old(self).max_size,
                self.mask_s == old(self).mask_s,
                self.mask_l == old(self).mask_l,
                self.mask_s_ls == old(self).mask_s_ls,
                self.mask_l_ls == old(self).mask_l_ls,
                self.gear == old(self).gear,
                self.gear_ls == old(self).gear_ls,
            decreases data@.len() - i,
        {
            let b = data[i];
            self.buffer.push(b);
            i += 1;
            proof {
                assert(self.buffer@ =~= old(self).buffer@ + data@.take(i as int));
            }
        }
        proof {
            assert(data@.take(data@.len() as int) =~= data@);
        }
    }

    /// Record that the source has ended: no more data will be pushed, and
    /// the remaining buffered bytes form the final window.
    pub fn finish(&mut self)
        ensures
            final(self).eof,
            final(self).buffer == old(self).buffer,
            final(self).capacity == old(self).capacity,
            final(self).processed == old(self).processed,
            final(self).min_size == old(self).min_size,
            final(self).avg_size == old(self).avg_size,
            final(self).max_size == old(self).max_size,
            final(self).mask_s == old(self).mask_s,
            final(self).mask_l == old(self).mask_l,
            final(self).mask_s_ls == old(self).mask_s_ls,
            final(self).mask_l_ls == old(self).mask_l_ls,
            final(self).gear == old(self).gear,
            final(self).gear_ls == old(self).gear_ls,
            old(self).wf() ==> final(self).wf(),
    {
        self.eof = true;
    }

    /// Drains a specified number of bytes from the front of the buffer,
    /// returning them as an owned vector; refuses a count larger than the
    /// buffer currently holds.
    pub fn drain_bytes(&mut self, count: usize) -> (r: Result<Vec<u8>, Error>)
        ensures
            final(self).capacity == old(self).capacity,
            final(self).processed == old(self).processed,
            final(self).eof == old(self).eof,
            final(self).min_size == old(self).min_size,
            final(self).avg_size == old(self).avg_size,
            final(self).max_size == old(self).max_size,
            final(self).mask_s == old(self).mask_s,
            final(self).mask_l == old(self).mask_l,
            final(self).mask_s_ls == old(self).mask_s_ls,
            final(self).mask_l_ls == old(self).mask_l_ls,
            final(self).gear == old(self).gear,
            final(self).gear_ls == old(self).gear_ls,
            match r {
                Ok(data) => {
                    &&& count <= old(self).buffer@.len()
                    &&& data@ == old(self).buffer@.take(count as int)
                    &&& final(self).buffer@ == old(self).buffer@.skip(count as int)
                },
                Err(e) => {
                    &&& e is Other
                    &&& count > old(self).buffer@.len()
                    &&& final(self).buffer == old(self).buffer
                },
            },
    {
        if count > self.buffer.len() {
            Err(Error::Other(String::from_str("drain count exceeds buffered length")))
        } else {
            let mut data = self.buffer.split_off(count);
            core::mem::swap(&mut self.buffer, &mut data);
            proof {
                assert(data@ =~= old(self).buffer@.take(count as int));
                assert(self.buffer@ =~= old(self).buffer@.skip(count as int));
            }
            Ok(data)
        }
    }

    /// Find the next chunk in the buffered window, which must be ready:
    /// either at capacity or final. If no bytes remain, returns
    /// `Error::Empty`. A successful result carries the boundary that the
    /// streaming cut rule finds in the buffered window — the same rule
    /// the blocking streaming chunker applies — together with a copy of
    /// exactly the consumed bytes.
    pub fn read_chunk(&mut self) -> (r: Result<ChunkData, Error>)
        requires
            old(self).wf(),
            !old(self).eof ==> old(self).buffer@.len() == old(self).capacity,
        ensures
            final(self).wf(),
            final(self).capacity == old(self).capacity,
            final(self).eof == old(self).eof,
            final(self).min_size == old(self).min_size,
            final(self).avg_size == old(self).avg_size,
            final(self).max_size == old(self).max_size,
            final(self).mask_s == old(self).mask_s,
            final(self).mask_l == old(self).mask_l,
            final(self).mask_s_ls == old(self).mask_s_ls,
            final(self).mask_l_ls == old(self).mask_l_ls,
            final(self).gear == old(self).gear,
            final(self).gear_ls == old(self).gear_ls,
            match r {
                Ok(chunk) => {
                    &&& old(self).buffer@.len() > 0
                    &&& ({
                        let rr = buffered_cut_spec(
                            old(self).buffer@,
                            old(self).min_size as int,
                            old(self).avg_size as int,
                            old(self).max_size as int,
                            old(self).mask_s,
                            old(self).mask_l,
                            old(self).mask_s_ls,
                            old(self).mask_l_ls,
                            old(self).gear@,
                            old(self).gear_ls@,
                        );
                        &&& chunk.hash == rr.0
                        &&& chunk.length == rr.1
                        &&& chunk.offset == old(self).processed
                        &&& chunk.data@ == old(self).buffer@.take(rr.1)
                        &&& final(self).buffer@ == old(self).buffer@.skip(rr.1)
                        &&& final(self).processed == old(self).processed + rr.1
                    })
                },
                Err(e) => {
                    &&& e is Empty
                    &&& old(self).buffer@.len() == 0
                    &&& final(self).buffer == old(self).buffer
                    &&& final(self).processed == old(self).processed
                },
            },
    {
        if self.buffer.len() == 0 {
            Err(Error::Empty)
        } else {
            proof {
                // the buffer never exceeds its capacity of `max_size`
                // bytes, so the streaming cut rule over it is the plain
                // cut over the whole buffer
                assert(self.buffer@.take(self.buffer@.len() as int) =~= self.buffer@);
                lemma_cut_bounds(
                    self.buffer@,
                    self.min_size as int,
                    self.avg_size as int,
                    self.max_size as int,
                    self.mask_s,
                    self.mask_l,
                    self.mask_s_ls,
                    self.mask_l_ls,
                    self.gear@,
                    self.gear_ls@,
                );
            }
            let (hash, count) = cut(
                self.buffer.as_slice(),
                self.min_size,
                self.avg_size,
                self.max_size,
                self.mask_s,
                self.mask_l,
                self.mask_s_ls,
                self.mask_l_ls,
                self.gear,
                self.gear_ls,
            );
            if count == 0 {
                Err(Error::Empty)
            } else {
                let offset = self.processed;
                self.processed = self.processed + count as u64;
                let data = match self.drain_bytes(count) {
                    Ok(data) => data,
                    Err(e) => {
                        return Err(e);
                    },
                };
                Ok(ChunkData { hash, offset, length: count, data })
            }
        }
    }
}

} // verus!
