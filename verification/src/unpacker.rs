//! The byte source: a forward-only cursor that unpacking reads from.
//!
//! The abstraction is minimal by design — one operation, read an exact number
//! of bytes — so that any backing store can implement it, each with its own
//! failure type. A source fails exactly when fewer bytes are available than
//! requested; `remaining` is the model of what it can still deliver.

use vstd::prelude::*;

verus! {

/// A forward-only source that unpacking reads from.
pub trait Unpacker {
    /// The source's own failure type, opaque to the protocol.
    type Error;

    /// The bytes this source can still deliver, in order.
    spec fn remaining(&self) -> Seq<u8>;

    /// Reads exactly `count` bytes, advancing the cursor past them, or fails
    /// with the source's own error — exactly when fewer than `count` bytes
    /// are available — leaving the cursor where it was.
    fn unpack_bytes(&mut self, count: usize) -> (r: Result<Vec<u8>, Self::Error>)
        ensures
            match r {
                Ok(bytes) => {
                    &&& count <= old(self).remaining().len()
                    &&& bytes@ == old(self).remaining().take(count as int)
                    &&& final(self).remaining() == old(self).remaining().skip(count as int)
                },
                Err(_) => {
                    &&& count > old(self).remaining().len()
                    &&& final(self).remaining() == old(self).remaining()
                },
            },
    ;
}

/// Failure of an in-memory source: more bytes were requested than remain.
#[derive(Debug, Clone, Copy, PartialEq, Eq)]
pub struct UnexpectedEof {
    /// How many bytes the read asked for.
    pub requested: usize,
    /// How many bytes were still available.
    pub available: usize,
}

/// The in-memory source: a cursor over a borrowed byte slice.
pub struct SliceUnpacker<'a> {
    bytes: &'a [u8],
    position: usize,
}

impl<'a> SliceUnpacker<'a> {
    /// The cursor never moves past the end of the slice.
    #[verifier::type_invariant]
    spec fn cursor_in_bounds(self) -> bool {
        self.position <= self.bytes@.len()
    }

    /// Starts a cursor at the beginning of `bytes`.
    pub fn new(bytes: &'a [u8]) -> (r: SliceUnpacker<'a>)
        ensures
            r.remaining() == bytes@,
    {
        let r = SliceUnpacker { bytes, position: 0 };
        proof {
            assert(r.remaining() =~= bytes@);
        }
        r
    }
}

impl<'a> Unpacker for SliceUnpacker<'a> {
    type Error = UnexpectedEof;

    closed spec fn remaining(&self) -> Seq<u8> {
        self.bytes@.skip(self.position as int)
    }

    fn unpack_bytes(&mut self, count: usize) -> (r: Result<Vec<u8>, Self::Error>) {
        proof {
            use_type_invariant(&*self);
        }
        let available = self.bytes.len() - self.position;
        if count > available {
            return Err(UnexpectedEof { requested: count, available });
        }
        let mut out: Vec<u8> = Vec::new();
        let mut i: usize = 0;
        while i < count
            invariant
                self.bytes@.len() <= usize::MAX,
                self.position + count <= self.bytes@.len(),
                self.bytes@ == old(self).bytes@,
                self.position == old(self).position,
                i <= count,
                out@ == self.bytes@.subrange(self.position as int, self.position + i),
            decreases count - i,
        {
            out.push(self.bytes[self.position + i]);
            i = i + 1;
            proof {
                assert(out@ =~= self.bytes@.subrange(
                    self.position as int,
                    self.position + i,
                ));
            }
        }
        self.position = self.position + count;
        proof {
            assert(out@ =~= old(self).remaining().take(count as int));
            assert(self.remaining() =~= old(self).remaining().skip(count as int));
        }
        Ok(out)
    }
}

} // verus!
