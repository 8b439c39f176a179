//! The pack/unpack contract that every encodable type implements.
//!
//! Each type fixes, at the specification level, its exact wire bytes
//! (`encoding`), the structural decode of a byte stream (`decode`), and its
//! semantic validation verdict (`check`). The executable `pack` and `unpack`
//! are then proved against those three, and two laws tie the three together:
//! decoding inverts encoding, and a decoded value's encoding is exactly the
//! prefix consumed.

use vstd::prelude::*;

use crate::error::UnpackError;
use crate::packer::Packer;
use crate::unpacker::Unpacker;

verus! {

/// The structural outcome of decoding a byte stream, before any verification:
/// a value, a stream too short to hold one, or a domain error the bytes force
/// (such as an unknown union tag).
pub enum Decoded<T, E> {
    /// The stream begins with the encoding of this value.
    Value(T),
    /// The stream ended before a whole value was read.
    Short,
    /// The bytes read do not form a value of the type.
    Fail(E),
}

/// A type that can be packed to a byte sink and unpacked from a byte source.
pub trait Packable: Sized {
    /// The type's own domain error: unknown tags, failed verification — or
    /// [`crate::error::Infallible`] where no such failure exists.
    type UnpackError;

    /// The exact bytes this value packs to.
    spec fn encoding(self) -> Seq<u8>;

    /// The structural decode of a stream that begins with the bytes of one
    /// value of this type; verification is no part of it.
    spec fn decode(bytes: Seq<u8>) -> Decoded<Self, Self::UnpackError>;

    /// The semantic validation verdict on a structurally decoded value:
    /// what the verification hook finds when it runs.
    spec fn check(self) -> Result<(), Self::UnpackError>;

    /// Law: decoding any stream that begins with a value's encoding yields
    /// that value, whatever follows it.
    proof fn lemma_decode_inverts_encoding(self, rest: Seq<u8>)
        ensures
            Self::decode(self.encoding() + rest) == Decoded::<Self, Self::UnpackError>::Value(
                self,
            ),
    ;

    /// Law: a structurally decoded value's encoding is exactly the prefix of
    /// the stream it was read from.
    proof fn lemma_decode_is_prefix(bytes: Seq<u8>)
        ensures
            Self::decode(bytes) matches Decoded::Value(v) ==> {
                &&& v.encoding().len() <= bytes.len()
                &&& bytes.take(v.encoding().len() as int) == v.encoding()
            },
    ;

    /// Packs this value, appending exactly its encoding to the sink; only the
    /// sink's own failure can stop it.
    fn pack<P: Packer>(&self, packer: &mut P) -> (r: Result<(), P::Error>)
        ensures
            r is Ok ==> final(packer).written() == old(packer).written() + self.encoding(),
            P::always_accepts() ==> r is Ok,
    ;

    /// Unpacks one value from the source, validating it exactly when `verify`
    /// is true, threading that same flag into every nested field or payload.
    ///
    /// The outcome is pinned down case by case: success returns the value the
    /// stream structurally starts with and consumes exactly its encoding; a
    /// transport error occurs exactly when the stream is too short; a domain
    /// error is either the one the bytes force or, with `verify` set, the
    /// verdict of the decoded value's verification hook.
    ///
    /// Disabling verification is therefore always at least as permissive:
    /// the clauses with `verify` false accept every structurally decodable
    /// stream and only skip the hooks, never admitting different bytes.
    fn unpack<U: Unpacker>(unpacker: &mut U, verify: bool) -> (r: Result<
        Self,
        UnpackError<Self::UnpackError, U::Error>,
    >)
        ensures
            match r {
                Ok(v) => {
                    &&& Self::decode(old(unpacker).remaining()) == Decoded::<
                        Self,
                        Self::UnpackError,
                    >::Value(v)
                    &&& final(unpacker).remaining() == old(unpacker).remaining().skip(
                        v.encoding().len() as int,
                    )
                    &&& verify ==> v.check() is Ok
                },
                Err(UnpackError::Unpacker(_)) => Self::decode(old(unpacker).remaining())
                    is Short,
                Err(UnpackError::Packable(e)) => {
                    ||| Self::decode(old(unpacker).remaining()) == Decoded::<
                        Self,
                        Self::UnpackError,
                    >::Fail(e)
                    ||| {
                        &&& verify
                        &&& (Self::decode(old(unpacker).remaining()) matches Decoded::Value(v)
                            && v.check() == Err::<(), Self::UnpackError>(e))
                    }
                },
            },
    ;
}

} // verus!
