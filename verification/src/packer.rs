//! The byte sink: an append-only destination for packed bytes.
//!
//! The abstraction is minimal by design — one operation, write an exact byte
//! slice — so that any backing store can implement it, each with its own
//! failure type.

use vstd::prelude::*;

verus! {

/// An append-only destination that packing writes to.
pub trait Packer {
    /// The sink's own failure type, opaque to the protocol.
    type Error;

    /// All bytes this sink has accepted so far, in order.
    spec fn written(&self) -> Seq<u8>;

    /// Whether this sink accepts every write (true of an in-memory sink).
    spec fn always_accepts() -> bool;

    /// Appends exactly `bytes` to the sink, or fails with the sink's own
    /// error, having then accepted nothing of `bytes`.
    fn pack_bytes(&mut self, bytes: &[u8]) -> (r: Result<(), Self::Error>)
        ensures
            r is Ok ==> final(self).written() == old(self).written() + bytes@,
            r is Err ==> final(self).written() == old(self).written(),
            Self::always_accepts() ==> r is Ok,
    ;
}

/// The in-memory sink: a byte vector accepts every write.
impl Packer for Vec<u8> {
    type Error = crate::error::Infallible;

    open spec fn written(&self) -> Seq<u8> {
        self@
    }

    open spec fn always_accepts() -> bool {
        true
    }

    fn pack_bytes(&mut self, bytes: &[u8]) -> (r: Result<(), Self::Error>) {
        self.extend_from_slice(bytes);
        Ok(())
    }
}

} // verus!
