//! Record (composite) codecs, and the verification hook.
//!
//! A record packs as the concatenation of its fields' encodings, in declared
//! field order, and unpacks by decoding each field in that same order,
//! threading one unchanged verify flag into every field. The first failure
//! aborts and is returned; no partial record is ever exposed.
//!
//! These types stand for what the code-generation facility emits for a
//! declared shape: [`Header`], a plain record of two primitives; [`Percent`],
//! a value with a verification hook; and [`Sample`], a record mixing an
//! unvalidated field with a validated one under a single error type.

use vstd::pervasive::arbitrary;
use vstd::prelude::*;

use vstd::bytes::lemma_auto_spec_u32_to_from_le_bytes;

use crate::error::Infallible;
use crate::error::UnpackError;
use crate::packable::{Decoded, Packable};
use crate::packer::Packer;
use crate::unpacker::Unpacker;

verus! {

/// A record of two fields: an eight-bit kind byte, then a four-byte unsigned
/// value, packed in that order.
#[derive(Debug, Clone, Copy, PartialEq, Eq)]
pub struct Header {
    /// The leading kind byte.
    pub kind: u8,
    /// The four-byte unsigned value that follows it.
    pub value: u32,
}

impl Packable for Header {
    type UnpackError = Infallible;

    open spec fn encoding(self) -> Seq<u8> {
        self.kind.encoding() + self.value.encoding()
    }

    open spec fn decode(bytes: Seq<u8>) -> Decoded<Header, Infallible> {
        match <u8 as Packable>::decode(bytes) {
            Decoded::Short => Decoded::Short,
            Decoded::Fail(e) => Decoded::Fail(e),
            Decoded::Value(kind) => match <u32 as Packable>::decode(
                bytes.skip(kind.encoding().len() as int),
            ) {
                Decoded::Short => Decoded::Short,
                Decoded::Fail(e) => Decoded::Fail(e),
                Decoded::Value(value) => Decoded::Value(Header { kind, value }),
            },
        }
    }

    open spec fn check(self) -> Result<(), Infallible> {
        Ok(())
    }

    proof fn lemma_decode_inverts_encoding(self, rest: Seq<u8>) {
        lemma_auto_spec_u32_to_from_le_bytes();
        let bytes = self.encoding() + rest;
        self.kind.lemma_decode_inverts_encoding(self.value.encoding() + rest);
        assert(bytes =~= self.kind.encoding() + (self.value.encoding() + rest));
        self.value.lemma_decode_inverts_encoding(rest);
        assert(bytes.skip(1) =~= self.value.encoding() + rest);
    }

    proof fn lemma_decode_is_prefix(bytes: Seq<u8>) {
        lemma_auto_spec_u32_to_from_le_bytes();
        match Self::decode(bytes) {
            Decoded::Value(v) => {
                <u8 as Packable>::lemma_decode_is_prefix(bytes);
                <u32 as Packable>::lemma_decode_is_prefix(bytes.skip(1));
                assert(bytes.take(5) =~= bytes.take(1) + bytes.skip(1).take(4));
                assert(bytes.take(v.encoding().len() as int) =~= v.encoding());
            },
            _ => {},
        }
    }

    fn pack<P: Packer>(&self, packer: &mut P) -> (r: Result<(), P::Error>) {
        match self.kind.pack(packer) {
            Ok(()) => (),
            Err(e) => return Err(e),
        }
        match self.value.pack(packer) {
            Ok(()) => (),
            Err(e) => return Err(e),
        }
        proof {
            assert(final(packer).written() =~= old(packer).written() + self.encoding());
        }
        Ok(())
    }

    fn unpack<U: Unpacker>(unpacker: &mut U, verify: bool) -> (r: Result<
        Header,
        UnpackError<Infallible, U::Error>,
    >) {
        let kind = match u8::unpack(unpacker, verify) {
            Ok(kind) => kind,
            Err(e) => return Err(e),
        };
        let value = match u32::unpack(unpacker, verify) {
            Ok(value) => value,
            Err(e) => return Err(e),
        };
        proof {
            lemma_auto_spec_u32_to_from_le_bytes();
            assert(final(unpacker).remaining() =~= old(unpacker).remaining().skip(5));
        }
        Ok(Header { kind, value })
    }
}

/// Domain error of [`Percent`]: the decoded byte exceeds one hundred.
#[derive(Debug, Clone, Copy, PartialEq, Eq)]
pub struct InvalidPercent {
    /// The out-of-range byte that was decoded.
    pub value: u8,
}

/// A percentage: one byte on the wire, semantically at most one hundred.
///
/// The bound is no part of the structural decode: any byte decodes. It is the
/// verification hook that rejects an out-of-range value, and the hook runs
/// exactly when unpacking is asked to verify.
#[derive(Debug, Clone, Copy, PartialEq, Eq)]
pub struct Percent {
    /// The decoded byte; at most one hundred once verified.
    pub value: u8,
}

impl Percent {
    /// The verification hook: rejects a value over one hundred.
    pub fn verify_value(value: u8) -> (r: Result<(), InvalidPercent>)
        ensures
            r == (Percent { value }).check(),
    {
        if value <= 100 {
            Ok(())
        } else {
            Err(InvalidPercent { value })
        }
    }
}

impl Packable for Percent {
    type UnpackError = InvalidPercent;

    open spec fn encoding(self) -> Seq<u8> {
        self.value.encoding()
    }

    open spec fn decode(bytes: Seq<u8>) -> Decoded<Percent, InvalidPercent> {
        match <u8 as Packable>::decode(bytes) {
            Decoded::Short => Decoded::Short,
            // a primitive's structural decode cannot fail
            Decoded::Fail(_) => Decoded::Fail(arbitrary()),
            Decoded::Value(value) => Decoded::Value(Percent { value }),
        }
    }

    open spec fn check(self) -> Result<(), InvalidPercent> {
        if self.value <= 100 {
            Ok(())
        } else {
            Err(InvalidPercent { value: self.value })
        }
    }

    proof fn lemma_decode_inverts_encoding(self, rest: Seq<u8>) {
        self.value.lemma_decode_inverts_encoding(rest);
    }

    proof fn lemma_decode_is_prefix(bytes: Seq<u8>) {
        <u8 as Packable>::lemma_decode_is_prefix(bytes);
    }

    fn pack<P: Packer>(&self, packer: &mut P) -> (r: Result<(), P::Error>) {
        self.value.pack(packer)
    }

    fn unpack<U: Unpacker>(unpacker: &mut U, verify: bool) -> (r: Result<
        Percent,
        UnpackError<InvalidPercent, U::Error>,
    >) {
        let value = match u8::unpack(unpacker, verify) {
            Ok(value) => value,
            Err(e) => return Err(e.coerce()),
        };
        if verify {
            match Percent::verify_value(value) {
                Ok(()) => (),
                Err(e) => return Err(UnpackError::Packable(e)),
            }
        }
        Ok(Percent { value })
    }
}

/// A record mixing an unvalidated field with a validated one: a four-byte
/// identifier, then a [`Percent`] level. The identifier's own domain error is
/// [`Infallible`], so the record exposes the level's error type alone.
#[derive(Debug, Clone, Copy, PartialEq, Eq)]
pub struct Sample {
    /// The four-byte identifier; any value is valid.
    pub id: u32,
    /// The level; its verification hook bounds it when verifying.
    pub level: Percent,
}

impl Packable for Sample {
    type UnpackError = InvalidPercent;

    open spec fn encoding(self) -> Seq<u8> {
        self.id.encoding() + self.level.encoding()
    }

    open spec fn decode(bytes: Seq<u8>) -> Decoded<Sample, InvalidPercent> {
        match <u32 as Packable>::decode(bytes) {
            Decoded::Short => Decoded::Short,
            // a primitive's structural decode cannot fail
            Decoded::Fail(_) => Decoded::Fail(arbitrary()),
            Decoded::Value(id) => match <Percent as Packable>::decode(
                bytes.skip(id.encoding().len() as int),
            ) {
                Decoded::Short => Decoded::Short,
                Decoded::Fail(e) => Decoded::Fail(e),
                Decoded::Value(level) => Decoded::Value(Sample { id, level }),
            },
        }
    }

    open spec fn check(self) -> Result<(), InvalidPercent> {
        self.level.check()
    }

    proof fn lemma_decode_inverts_encoding(self, rest: Seq<u8>) {
        lemma_auto_spec_u32_to_from_le_bytes();
        let bytes = self.encoding() + rest;
        self.id.lemma_decode_inverts_encoding(self.level.encoding() + rest);
        assert(bytes =~= self.id.encoding() + (self.level.encoding() + rest));
        self.level.lemma_decode_inverts_encoding(rest);
        assert(bytes.skip(4) =~= self.level.encoding() + rest);
    }

    proof fn lemma_decode_is_prefix(bytes: Seq<u8>) {
        lemma_auto_spec_u32_to_from_le_bytes();
        match Self::decode(bytes) {
            Decoded::Value(v) => {
                <u32 as Packable>::lemma_decode_is_prefix(bytes);
                <Percent as Packable>::lemma_decode_is_prefix(bytes.skip(4));
                assert(bytes.take(5) =~= bytes.take(4) + bytes.skip(4).take(1));
                assert(bytes.take(v.encoding().len() as int) =~= v.encoding());
            },
            _ => {},
        }
    }

    fn pack<P: Packer>(&self, packer: &mut P) -> (r: Result<(), P::Error>) {
        match self.id.pack(packer) {
            Ok(()) => (),
            Err(e) => return Err(e),
        }
        match self.level.pack(packer) {
            Ok(()) => (),
            Err(e) => return Err(e),
        }
        proof {
            assert(final(packer).written() =~= old(packer).written() + self.encoding());
        }
        Ok(())
    }

    fn unpack<U: Unpacker>(unpacker: &mut U, verify: bool) -> (r: Result<
        Sample,
        UnpackError<InvalidPercent, U::Error>,
    >) {
        let id = match u32::unpack(unpacker, verify) {
            Ok(id) => id,
            Err(e) => return Err(e.coerce()),
        };
        let level = match Percent::unpack(unpacker, verify) {
            Ok(level) => level,
            Err(e) => return Err(e),
        };
        proof {
            lemma_auto_spec_u32_to_from_le_bytes();
            assert(final(unpacker).remaining() =~= old(unpacker).remaining().skip(5));
        }
        Ok(Sample { id, level })
    }
}

} // verus!
