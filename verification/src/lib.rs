//! A binary serialization protocol: a pair of symmetric operations, `pack`
//! (value to byte stream) and `unpack` (byte stream to value), defined over a
//! closed set of primitive and composite types, with an optional validation
//! pass that can be enabled or disabled per call.
//!
//! A value's encoding is the concatenation of its constituent primitives'
//! little-endian byte representations, in declared field order for records,
//! and, for tagged unions, the tag bytes followed by the selected variant's
//! payload bytes, with no length prefix, padding, or alignment anywhere.
//!
//! Every operation carries a contract: packing is proved to append exactly the
//! value's encoding to the sink, and unpacking is proved to return exactly the
//! value whose encoding the source starts with, or the precise error that the
//! input forces.

pub mod error;
pub mod num;
pub mod packable;
pub mod packer;
pub mod record;
pub mod unpacker;
pub mod variant;

pub use error::{Infallible, UnknownTag, UnpackError};
pub use packable::{Decoded, Packable};
pub use packer::Packer;
pub use unpacker::{SliceUnpacker, UnexpectedEof, Unpacker};
