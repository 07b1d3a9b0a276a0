//! Byte sources for the streaming chunkers.
//!
//! A [`ByteSource`] hands bytes to a streaming chunker in portions of any
//! size, like a blocking reader does. [`MemorySource`] is the verified
//! in-memory source; callers outside the verified world may implement
//! [`ByteSource`] for their own readers (a file, a network stream) and are
//! then responsible for honoring its contract.

use vstd::prelude::*;

verus! {

/// A source of bytes that a streaming chunker drains from the front.
pub trait ByteSource {
    /// The bytes this source will still deliver, oldest first. Sources
    /// outside the verified world may leave this at its default; nothing
    /// is proved about them in any case.
    open spec fn remaining(&self) -> Seq<u8> {
        Seq::empty()
    }

    /// Read up to `want` bytes from the front of the source.
    ///
    /// A successful read removes the returned bytes from `remaining`; it
    /// may return fewer bytes than asked for, and returns an empty vector
    /// only when asked for nothing or when the source is exhausted. A
    /// failed read returns a description of the failure and leaves the
    /// source unchanged.
    fn read_up_to(&mut self, want: usize) -> (r: Result<Vec<u8>, String>)
        ensures
            match r {
                Ok(buf) => {
                    &&& buf@.len() <= want
                    &&& buf@.len() <= old(self).remaining().len()
                    &&& buf@ == old(self).remaining().take(buf@.len() as int)
                    &&& final(self).remaining() == old(self).remaining().skip(buf@.len() as int)
                    &&& (buf@.len() == 0 ==> want == 0 || old(self).remaining().len() == 0)
                },
                Err(_) => final(self).remaining() == old(self).remaining(),
            },
    ;
}

/// A byte source over a fully resident buffer: it hands out the bytes of
/// `data` from front to back and never fails.
pub struct MemorySource {
    data: Vec<u8>,
    pos: usize,
}

impl MemorySource {
    #[verifier::type_invariant]
    spec fn inv(self) -> bool {
        self.pos <= self.data.len()
    }

    /// Wrap the given bytes as a source that delivers exactly those bytes.
    pub fn new(data: Vec<u8>) -> (r: Self)
        ensures
            r.remaining() == data@,
    {
        let r = MemorySource { data, pos: 0 };
        proof {
            assert(r.remaining() =~= r.data@);
        }
        r
    }
}

impl ByteSource for MemorySource {
    closed spec fn remaining(&self) -> Seq<u8> {
        self.data@.skip(self.pos as int)
    }

    fn read_up_to(&mut self, want: usize) -> (r: Result<Vec<u8>, String>)
        ensures
            r is Ok,
            r matches Ok(buf) ==> buf@.len() == (if want <= old(self).remaining().len() {
                want as int
            } else {
                old(self).remaining().len() as int
            }),
    {
        proof {
            use_type_invariant(&*self);
        }
        let avail = self.data.len() - self.pos;
        let take = if want < avail {
            want
        } else {
            avail
        };
        let mut buf: Vec<u8> = Vec::new();
        let mut i: usize = 0;
        while i < take
            invariant
                *self == *old(self),
                self.pos <= self.data.len(),
                take <= self.data.len() - self.pos,
                i <= take,
                buf@ =~= self.data@.subrange(self.pos as int, self.pos + i),
            decreases take - i,
        {
            let b = self.data[self.pos + i];
            buf.push(b);
            i = i + 1;
        }
        proof {
            assert(buf@ =~= self.remaining().take(take as int));
            assert(self.data@.skip(self.pos + take) =~= self.remaining().skip(take as int));
        }
        self.pos = self.pos + take;
        Ok(buf)
    }
}

} // verus!
