//! The error taxonomy: the split between decode-domain errors and transport
//! errors, the "no validation possible" marker, and the conversion of that
//! marker into richer domain error types.

use vstd::prelude::*;

verus! {

/// Marker domain error for types with no semantic validation.
///
/// Fixed-width primitives have no invalid bit pattern, so their decode can
/// only fail through the byte source itself. The protocol never constructs a
/// value of this type: every contract that could surface one rules it out.
#[derive(Debug, Clone, Copy, PartialEq, Eq)]
pub struct Infallible;

/// A decode failure, tagged by where it arose.
///
/// The two cases are kept distinct because recovery policy differs: a domain
/// error is about the payload and is always meaningful to report; a transport
/// error is about the channel and often warrants retry or connection-level
/// handling.
#[derive(Debug, Clone, Copy, PartialEq, Eq)]
pub enum UnpackError<T, U> {
    /// The bytes were read but violated the decoding type's own rules:
    /// an unknown union tag, or a failed verification hook.
    Packable(T),
    /// The underlying byte source failed to supply the bytes.
    Unpacker(U),
}

impl<U> UnpackError<Infallible, U> {
    /// Converts an error whose domain case cannot arise into one with any
    /// richer domain error type, keeping the transport case untouched.
    ///
    /// This is what lets a record mixing unvalidated and validated fields
    /// expose a single error type.
    pub fn coerce<V>(self) -> (r: UnpackError<V, U>)
        requires
            self is Unpacker,
        ensures
            self matches UnpackError::Unpacker(u) ==> r == UnpackError::<V, U>::Unpacker(u),
    {
        match self {
            UnpackError::Packable(_) => unreached(),
            UnpackError::Unpacker(u) => UnpackError::Unpacker(u),
        }
    }
}

/// Domain error of a tagged union whose discriminant matches no declared
/// variant: carries the value read and the tag width in bytes it was read as.
#[derive(Debug, Clone, Copy, PartialEq, Eq)]
pub struct UnknownTag {
    /// The discriminant value that matched no variant.
    pub tag: u64,
    /// The width in bytes of the union's tags.
    pub width: usize,
}

} // verus!
