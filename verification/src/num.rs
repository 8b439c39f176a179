//! Fixed-width primitive codecs.
//!
//! Every built-in integer type packs as its little-endian byte representation
//! verbatim, and unpacks by reading exactly that many bytes back. There is no
//! invalid bit pattern, so the domain error of every primitive is
//! [`Infallible`]: only the byte source itself can make a primitive fail.
//!
//! A signed value travels as its two's-complement wire form: the unsigned
//! value of the same width that is congruent to it modulo the width's range.

use vstd::bytes::lemma_auto_spec_u128_to_from_le_bytes;
use vstd::bytes::lemma_auto_spec_u16_to_from_le_bytes;
use vstd::bytes::lemma_auto_spec_u32_to_from_le_bytes;
use vstd::bytes::lemma_auto_spec_u64_to_from_le_bytes;
use vstd::bytes::spec_u128_from_le_bytes;
use vstd::bytes::spec_u128_to_le_bytes;
use vstd::bytes::spec_u16_from_le_bytes;
use vstd::bytes::spec_u16_to_le_bytes;
use vstd::bytes::spec_u32_from_le_bytes;
use vstd::bytes::spec_u32_to_le_bytes;
use vstd::bytes::spec_u64_from_le_bytes;
use vstd::bytes::spec_u64_to_le_bytes;
use vstd::bytes::u128_from_le_bytes;
use vstd::bytes::u128_to_le_bytes;
use vstd::bytes::u16_from_le_bytes;
use vstd::bytes::u16_to_le_bytes;
use vstd::bytes::u32_from_le_bytes;
use vstd::bytes::u32_to_le_bytes;
use vstd::bytes::u64_from_le_bytes;
use vstd::bytes::u64_to_le_bytes;
use vstd::prelude::*;

use crate::error::Infallible;
use crate::error::UnpackError;
use crate::packable::{Decoded, Packable};
use crate::packer::Packer;
use crate::unpacker::Unpacker;

verus! {

impl Packable for u8 {
    type UnpackError = Infallible;

    open spec fn encoding(self) -> Seq<u8> {
        seq![self]
    }

    open spec fn decode(bytes: Seq<u8>) -> Decoded<u8, Infallible> {
        if bytes.len() < 1 {
            Decoded::Short
        } else {
            Decoded::Value(bytes[0])
        }
    }

    open spec fn check(self) -> Result<(), Infallible> {
        Ok(())
    }

    proof fn lemma_decode_inverts_encoding(self, rest: Seq<u8>) {
        assert((self.encoding() + rest)[0] == self);
    }

    proof fn lemma_decode_is_prefix(bytes: Seq<u8>) {
        if bytes.len() >= 1 {
            assert(bytes.take(1) =~= seq![bytes[0]]);
        }
    }

    fn pack<P: Packer>(&self, packer: &mut P) -> (r: Result<(), P::Error>) {
        let mut bytes: Vec<u8> = Vec::new();
        bytes.push(*self);
        proof {
            assert(bytes@ =~= self.encoding());
        }
        packer.pack_bytes(bytes.as_slice())
    }

    fn unpack<U: Unpacker>(unpacker: &mut U, verify: bool) -> (r: Result<
        u8,
        UnpackError<Infallible, U::Error>,
    >) {
        match unpacker.unpack_bytes(1) {
            Ok(bytes) => {
                let value = bytes[0];
                proof {
                    assert(value.encoding() =~= old(unpacker).remaining().take(1));
                }
                Ok(value)
            },
            Err(e) => Err(UnpackError::Unpacker(e)),
        }
    }
}

impl Packable for u16 {
    type UnpackError = Infallible;

    open spec fn encoding(self) -> Seq<u8> {
        spec_u16_to_le_bytes(self)
    }

    open spec fn decode(bytes: Seq<u8>) -> Decoded<u16, Infallible> {
        if bytes.len() < 2 {
            Decoded::Short
        } else {
            Decoded::Value(spec_u16_from_le_bytes(bytes.take(2)))
        }
    }

    open spec fn check(self) -> Result<(), Infallible> {
        Ok(())
    }

    proof fn lemma_decode_inverts_encoding(self, rest: Seq<u8>) {
        lemma_auto_spec_u16_to_from_le_bytes();
        assert((self.encoding() + rest).take(2) =~= self.encoding());
    }

    proof fn lemma_decode_is_prefix(bytes: Seq<u8>) {
        lemma_auto_spec_u16_to_from_le_bytes();
    }

    fn pack<P: Packer>(&self, packer: &mut P) -> (r: Result<(), P::Error>) {
        let bytes = u16_to_le_bytes(*self);
        packer.pack_bytes(bytes.as_slice())
    }

    fn unpack<U: Unpacker>(unpacker: &mut U, verify: bool) -> (r: Result<
        u16,
        UnpackError<Infallible, U::Error>,
    >) {
        match unpacker.unpack_bytes(2) {
            Ok(bytes) => {
                let value = u16_from_le_bytes(bytes.as_slice());
                proof {
                    lemma_auto_spec_u16_to_from_le_bytes();
                }
                Ok(value)
            },
            Err(e) => Err(UnpackError::Unpacker(e)),
        }
    }
}

impl Packable for u32 {
    type UnpackError = Infallible;

    open spec fn encoding(self) -> Seq<u8> {
        spec_u32_to_le_bytes(self)
    }

    open spec fn decode(bytes: Seq<u8>) -> Decoded<u32, Infallible> {
        if bytes.len() < 4 {
            Decoded::Short
        } else {
            Decoded::Value(spec_u32_from_le_bytes(bytes.take(4)))
        }
    }

    open spec fn check(self) -> Result<(), Infallible> {
        Ok(())
    }

    proof fn lemma_decode_inverts_encoding(self, rest: Seq<u8>) {
        lemma_auto_spec_u32_to_from_le_bytes();
        assert((self.encoding() + rest).take(4) =~= self.encoding());
    }

    proof fn lemma_decode_is_prefix(bytes: Seq<u8>) {
        lemma_auto_spec_u32_to_from_le_bytes();
    }

    fn pack<P: Packer>(&self, packer: &mut P) -> (r: Result<(), P::Error>) {
        let bytes = u32_to_le_bytes(*self);
        packer.pack_bytes(bytes.as_slice())
    }

    fn unpack<U: Unpacker>(unpacker: &mut U, verify: bool) -> (r: Result<
        u32,
        UnpackError<Infallible, U::Error>,
    >) {
        match unpacker.unpack_bytes(4) {
            Ok(bytes) => {
                let value = u32_from_le_bytes(bytes.as_slice());
                proof {
                    lemma_auto_spec_u32_to_from_le_bytes();
                }
                Ok(value)
            },
            Err(e) => Err(UnpackError::Unpacker(e)),
        }
    }
}

impl Packable for u64 {
    type UnpackError = Infallible;

    open spec fn encoding(self) -> Seq<u8> {
        spec_u64_to_le_bytes(self)
    }

    open spec fn decode(bytes: Seq<u8>) -> Decoded<u64, Infallible> {
        if bytes.len() < 8 {
            Decoded::Short
        } else {
            Decoded::Value(spec_u64_from_le_bytes(bytes.take(8)))
        }
    }

    open spec fn check(self) -> Result<(), Infallible> {
        Ok(())
    }

    proof fn lemma_decode_inverts_encoding(self, rest: Seq<u8>) {
        lemma_auto_spec_u64_to_from_le_bytes();
        assert((self.encoding() + rest).take(8) =~= self.encoding());
    }

    proof fn lemma_decode_is_prefix(bytes: Seq<u8>) {
        lemma_auto_spec_u64_to_from_le_bytes();
    }

    fn pack<P: Packer>(&self, packer: &mut P) -> (r: Result<(), P::Error>) {
        let bytes = u64_to_le_bytes(*self);
        packer.pack_bytes(bytes.as_slice())
    }

    fn unpack<U: Unpacker>(unpacker: &mut U, verify: bool) -> (r: Result<
        u64,
        UnpackError<Infallible, U::Error>,
    >) {
        match unpacker.unpack_bytes(8) {
            Ok(bytes) => {
                let value = u64_from_le_bytes(bytes.as_slice());
                proof {
                    lemma_auto_spec_u64_to_from_le_bytes();
                }
                Ok(value)
            },
            Err(e) => Err(UnpackError::Unpacker(e)),
        }
    }
}

impl Packable for u128 {
    type UnpackError = Infallible;

    open spec fn encoding(self) -> Seq<u8> {
        spec_u128_to_le_bytes(self)
    }

    open spec fn decode(bytes: Seq<u8>) -> Decoded<u128, Infallible> {
        if bytes.len() < 16 {
            Decoded::Short
        } else {
            Decoded::Value(spec_u128_from_le_bytes(bytes.take(16)))
        }
    }

    open spec fn check(self) -> Result<(), Infallible> {
        Ok(())
    }

    proof fn lemma_decode_inverts_encoding(self, rest: Seq<u8>) {
        lemma_auto_spec_u128_to_from_le_bytes();
        assert((self.encoding() + rest).take(16) =~= self.encoding());
    }

    proof fn lemma_decode_is_prefix(bytes: Seq<u8>) {
        lemma_auto_spec_u128_to_from_le_bytes();
    }

    fn pack<P: Packer>(&self, packer: &mut P) -> (r: Result<(), P::Error>) {
        let bytes = u128_to_le_bytes(*self);
        packer.pack_bytes(bytes.as_slice())
    }

    fn unpack<U: Unpacker>(unpacker: &mut U, verify: bool) -> (r: Result<
        u128,
        UnpackError<Infallible, U::Error>,
    >) {
        match unpacker.unpack_bytes(16) {
            Ok(bytes) => {
                let value = u128_from_le_bytes(bytes.as_slice());
                proof {
                    lemma_auto_spec_u128_to_from_le_bytes();
                }
                Ok(value)
            },
            Err(e) => Err(UnpackError::Unpacker(e)),
        }
    }
}

/// The two's-complement wire form of an `i8`.
pub open spec fn wire_of_i8(v: i8) -> u8 {
    if v >= 0 {
        v as u8
    } else {
        (v + 0x100) as u8
    }
}

/// The `i8` whose two's-complement wire form is `u`.
pub open spec fn i8_of_wire(u: u8) -> i8 {
    if u < 0x80 {
        u as i8
    } else {
        (u - 0x100) as i8
    }
}

impl Packable for i8 {
    type UnpackError = Infallible;

    open spec fn encoding(self) -> Seq<u8> {
        seq![wire_of_i8(self)]
    }

    open spec fn decode(bytes: Seq<u8>) -> Decoded<i8, Infallible> {
        if bytes.len() < 1 {
            Decoded::Short
        } else {
            Decoded::Value(i8_of_wire(bytes[0]))
        }
    }

    open spec fn check(self) -> Result<(), Infallible> {
        Ok(())
    }

    proof fn lemma_decode_inverts_encoding(self, rest: Seq<u8>) {
        assert((self.encoding() + rest)[0] == wire_of_i8(self));
    }

    proof fn lemma_decode_is_prefix(bytes: Seq<u8>) {
        if bytes.len() >= 1 {
            assert(bytes.take(1) =~= seq![bytes[0]]);
        }
    }

    fn pack<P: Packer>(&self, packer: &mut P) -> (r: Result<(), P::Error>) {
        let wire: u8 = if *self >= 0 {
            *self as u8
        } else {
            ((*self - i8::MIN) as u8) + 0x80
        };
        let mut bytes: Vec<u8> = Vec::new();
        bytes.push(wire);
        proof {
            assert(bytes@ =~= self.encoding());
        }
        packer.pack_bytes(bytes.as_slice())
    }

    fn unpack<U: Unpacker>(unpacker: &mut U, verify: bool) -> (r: Result<
        i8,
        UnpackError<Infallible, U::Error>,
    >) {
        match unpacker.unpack_bytes(1) {
            Ok(bytes) => {
                let wire = bytes[0];
                let value: i8 = if wire < 0x80 {
                    wire as i8
                } else {
                    ((wire - 0x80) as i8) + i8::MIN
                };
                proof {
                    assert(value.encoding() =~= old(unpacker).remaining().take(1));
                }
                Ok(value)
            },
            Err(e) => Err(UnpackError::Unpacker(e)),
        }
    }
}

/// The two's-complement wire form of an `i16`.
pub open spec fn wire_of_i16(v: i16) -> u16 {
    if v >= 0 {
        v as u16
    } else {
        (v + 0x1_0000) as u16
    }
}

/// The `i16` whose two's-complement wire form is `u`.
pub open spec fn i16_of_wire(u: u16) -> i16 {
    if u < 0x8000 {
        u as i16
    } else {
        (u - 0x1_0000) as i16
    }
}

impl Packable for i16 {
    type UnpackError = Infallible;

    open spec fn encoding(self) -> Seq<u8> {
        spec_u16_to_le_bytes(wire_of_i16(self))
    }

    open spec fn decode(bytes: Seq<u8>) -> Decoded<i16, Infallible> {
        if bytes.len() < 2 {
            Decoded::Short
        } else {
            Decoded::Value(i16_of_wire(spec_u16_from_le_bytes(bytes.take(2))))
        }
    }

    open spec fn check(self) -> Result<(), Infallible> {
        Ok(())
    }

    proof fn lemma_decode_inverts_encoding(self, rest: Seq<u8>) {
        lemma_auto_spec_u16_to_from_le_bytes();
        assert((self.encoding() + rest).take(2) =~= self.encoding());
    }

    proof fn lemma_decode_is_prefix(bytes: Seq<u8>) {
        lemma_auto_spec_u16_to_from_le_bytes();
    }

    fn pack<P: Packer>(&self, packer: &mut P) -> (r: Result<(), P::Error>) {
        let wire: u16 = if *self >= 0 {
            *self as u16
        } else {
            ((*self - i16::MIN) as u16) + 0x8000
        };
        let bytes = u16_to_le_bytes(wire);
        packer.pack_bytes(bytes.as_slice())
    }

    fn unpack<U: Unpacker>(unpacker: &mut U, verify: bool) -> (r: Result<
        i16,
        UnpackError<Infallible, U::Error>,
    >) {
        match unpacker.unpack_bytes(2) {
            Ok(bytes) => {
                let wire = u16_from_le_bytes(bytes.as_slice());
                let value: i16 = if wire < 0x8000 {
                    wire as i16
                } else {
                    ((wire - 0x8000) as i16) + i16::MIN
                };
                proof {
                    lemma_auto_spec_u16_to_from_le_bytes();
                }
                Ok(value)
            },
            Err(e) => Err(UnpackError::Unpacker(e)),
        }
    }
}

/// The two's-complement wire form of an `i32`.
pub open spec fn wire_of_i32(v: i32) -> u32 {
    if v >= 0 {
        v as u32
    } else {
        (v + 0x1_0000_0000) as u32
    }
}

/// The `i32` whose two's-complement wire form is `u`.
pub open spec fn i32_of_wire(u: u32) -> i32 {
    if u < 0x8000_0000 {
        u as i32
    } else {
        (u - 0x1_0000_0000) as i32
    }
}

impl Packable for i32 {
    type UnpackError = Infallible;

    open spec fn encoding(self) -> Seq<u8> {
        spec_u32_to_le_bytes(wire_of_i32(self))
    }

    open spec fn decode(bytes: Seq<u8>) -> Decoded<i32, Infallible> {
        if bytes.len() < 4 {
            Decoded::Short
        } else {
            Decoded::Value(i32_of_wire(spec_u32_from_le_bytes(bytes.take(4))))
        }
    }

    open spec fn check(self) -> Result<(), Infallible> {
        Ok(())
    }

    proof fn lemma_decode_inverts_encoding(self, rest: Seq<u8>) {
        lemma_auto_spec_u32_to_from_le_bytes();
        assert((self.encoding() + rest).take(4) =~= self.encoding());
    }

    proof fn lemma_decode_is_prefix(bytes: Seq<u8>) {
        lemma_auto_spec_u32_to_from_le_bytes();
    }

    fn pack<P: Packer>(&self, packer: &mut P) -> (r: Result<(), P::Error>) {
        let wire: u32 = if *self >= 0 {
            *self as u32
        } else {
            ((*self - i32::MIN) as u32) + 0x8000_0000
        };
        let bytes = u32_to_le_bytes(wire);
        packer.pack_bytes(bytes.as_slice())
    }

    fn unpack<U: Unpacker>(unpacker: &mut U, verify: bool) -> (r: Result<
        i32,
        UnpackError<Infallible, U::Error>,
    >) {
        match unpacker.unpack_bytes(4) {
            Ok(bytes) => {
                let wire = u32_from_le_bytes(bytes.as_slice());
                let value: i32 = if wire < 0x8000_0000 {
                    wire as i32
                } else {
                    ((wire - 0x8000_0000) as i32) + i32::MIN
                };
                proof {
                    lemma_auto_spec_u32_to_from_le_bytes();
                }
                Ok(value)
            },
            Err(e) => Err(UnpackError::Unpacker(e)),
        }
    }
}

/// The two's-complement wire form of an `i64`.
pub open spec fn wire_of_i64(v: i64) -> u64 {
    if v >= 0 {
        v as u64
    } else {
        (v + 0x1_0000_0000_0000_0000) as u64
    }
}

/// The `i64` whose two's-complement wire form is `u`.
pub open spec fn i64_of_wire(u: u64) -> i64 {
    if u < 0x8000_0000_0000_0000 {
        u as i64
    } else {
        (u - 0x1_0000_0000_0000_0000) as i64
    }
}

impl Packable for i64 {
    type UnpackError = Infallible;

    open spec fn encoding(self) -> Seq<u8> {
        spec_u64_to_le_bytes(wire_of_i64(self))
    }

    open spec fn decode(bytes: Seq<u8>) -> Decoded<i64, Infallible> {
        if bytes.len() < 8 {
            Decoded::Short
        } else {
            Decoded::Value(i64_of_wire(spec_u64_from_le_bytes(bytes.take(8))))
        }
    }

    open spec fn check(self) -> Result<(), Infallible> {
        Ok(())
    }

    proof fn lemma_decode_inverts_encoding(self, rest: Seq<u8>) {
        lemma_auto_spec_u64_to_from_le_bytes();
        assert((self.encoding() + rest).take(8) =~= self.encoding());
    }

    proof fn lemma_decode_is_prefix(bytes: Seq<u8>) {
        lemma_auto_spec_u64_to_from_le_bytes();
    }

    fn pack<P: Packer>(&self, packer: &mut P) -> (r: Result<(), P::Error>) {
        let wire: u64 = if *self >= 0 {
            *self as u64
        } else {
            ((*self - i64::MIN) as u64) + 0x8000_0000_0000_0000
        };
        let bytes = u64_to_le_bytes(wire);
        packer.pack_bytes(bytes.as_slice())
    }

    fn unpack<U: Unpacker>(unpacker: &mut U, verify: bool) -> (r: Result<
        i64,
        UnpackError<Infallible, U::Error>,
    >) {
        match unpacker.unpack_bytes(8) {
            Ok(bytes) => {
                let wire = u64_from_le_bytes(bytes.as_slice());
                let value: i64 = if wire < 0x8000_0000_0000_0000 {
                    wire as i64
                } else {
                    ((wire - 0x8000_0000_0000_0000) as i64) + i64::MIN
                };
                proof {
                    lemma_auto_spec_u64_to_from_le_bytes();
                }
                Ok(value)
            },
            Err(e) => Err(UnpackError::Unpacker(e)),
        }
    }
}

/// The two's-complement wire form of an `i128`.
pub open spec fn wire_of_i128(v: i128) -> u128 {
    if v >= 0 {
        v as u128
    } else {
        (v + 0x1_0000_0000_0000_0000_0000_0000_0000_0000) as u128
    }
}

/// The `i128` whose two's-complement wire form is `u`.
pub open spec fn i128_of_wire(u: u128) -> i128 {
    if u < 0x8000_0000_0000_0000_0000_0000_0000_0000 {
        u as i128
    } else {
        (u - 0x1_0000_0000_0000_0000_0000_0000_0000_0000) as i128
    }
}

impl Packable for i128 {
    type UnpackError = Infallible;

    open spec fn encoding(self) -> Seq<u8> {
        spec_u128_to_le_bytes(wire_of_i128(self))
    }

    open spec fn decode(bytes: Seq<u8>) -> Decoded<i128, Infallible> {
        if bytes.len() < 16 {
            Decoded::Short
        } else {
            Decoded::Value(i128_of_wire(spec_u128_from_le_bytes(bytes.take(16))))
        }
    }

    open spec fn check(self) -> Result<(), Infallible> {
        Ok(())
    }

    proof fn lemma_decode_inverts_encoding(self, rest: Seq<u8>) {
        lemma_auto_spec_u128_to_from_le_bytes();
        assert((self.encoding() + rest).take(16) =~= self.encoding());
    }

    proof fn lemma_decode_is_prefix(bytes: Seq<u8>) {
        lemma_auto_spec_u128_to_from_le_bytes();
    }

    fn pack<P: Packer>(&self, packer: &mut P) -> (r: Result<(), P::Error>) {
        let wire: u128 = if *self >= 0 {
            *self as u128
        } else {
            ((*self - i128::MIN) as u128) + 0x8000_0000_0000_0000_0000_0000_0000_0000
        };
        let bytes = u128_to_le_bytes(wire);
        packer.pack_bytes(bytes.as_slice())
    }

    fn unpack<U: Unpacker>(unpacker: &mut U, verify: bool) -> (r: Result<
        i128,
        UnpackError<Infallible, U::Error>,
    >) {
        match unpacker.unpack_bytes(16) {
            Ok(bytes) => {
                let wire = u128_from_le_bytes(bytes.as_slice());
                let value: i128 = if wire < 0x8000_0000_0000_0000_0000_0000_0000_0000 {
                    wire as i128
                } else {
                    ((wire - 0x8000_0000_0000_0000_0000_0000_0000_0000) as i128) + i128::MIN
                };
                proof {
                    lemma_auto_spec_u128_to_from_le_bytes();
                }
                Ok(value)
            },
            Err(e) => Err(UnpackError::Unpacker(e)),
        }
    }
}

} // verus!
