//! Tagged-union (variant) codecs.
//!
//! A union packs as its active variant's declared tag — written with the tag
//! width's primitive codec — followed by that variant's payload bytes; there
//! is no length prefix or padding. Decoding is one transition: read the
//! discriminant, look up the variant with that tag, unpack its payload with
//! the same verify flag, or fail with an unknown-tag domain error carrying
//! the value read and the tag width.
//!
//! Tag uniqueness is enforced when a union's codec is assembled: a
//! [`UnionLayout`] cannot be built from tags that are not pairwise distinct,
//! so a defective union is rejected before any instance of it can be packed
//! or unpacked. [`Message`] stands for what the code-generation facility
//! emits for a declared two-variant union with one-byte tags.

use vstd::pervasive::arbitrary;
use vstd::prelude::*;

use vstd::bytes::lemma_auto_spec_u32_to_from_le_bytes;

use crate::error::UnknownTag;
use crate::error::UnpackError;
use crate::packable::{Decoded, Packable};
use crate::packer::Packer;
use crate::unpacker::Unpacker;

verus! {

/// A two-variant tagged union with one-byte tags: tag zero carries no
/// payload, tag one carries one four-byte signed integer.
#[derive(Debug, Clone, Copy, PartialEq, Eq)]
pub enum Message {
    /// Tag zero: no payload bytes at all.
    Ping,
    /// Tag one: a four-byte signed payload.
    Value(i32),
}

impl Packable for Message {
    type UnpackError = UnknownTag;

    open spec fn encoding(self) -> Seq<u8> {
        match self {
            Message::Ping => seq![0u8],
            Message::Value(v) => seq![1u8] + v.encoding(),
        }
    }

    open spec fn decode(bytes: Seq<u8>) -> Decoded<Message, UnknownTag> {
        match <u8 as Packable>::decode(bytes) {
            Decoded::Short => Decoded::Short,
            // a primitive's structural decode cannot fail
            Decoded::Fail(_) => Decoded::Fail(arbitrary()),
            Decoded::Value(tag) => if tag == 0 {
                Decoded::Value(Message::Ping)
            } else if tag == 1 {
                match <i32 as Packable>::decode(bytes.skip(1)) {
                    Decoded::Short => Decoded::Short,
                    // a primitive's structural decode cannot fail
                    Decoded::Fail(_) => Decoded::Fail(arbitrary()),
                    Decoded::Value(v) => Decoded::Value(Message::Value(v)),
                }
            } else {
                Decoded::Fail(UnknownTag { tag: tag as u64, width: 1 })
            },
        }
    }

    open spec fn check(self) -> Result<(), UnknownTag> {
        Ok(())
    }

    proof fn lemma_decode_inverts_encoding(self, rest: Seq<u8>) {
        lemma_auto_spec_u32_to_from_le_bytes();
        let bytes = self.encoding() + rest;
        match self {
            Message::Ping => {
                assert(bytes[0] == 0u8);
            },
            Message::Value(v) => {
                assert(bytes[0] == 1u8);
                v.lemma_decode_inverts_encoding(rest);
                assert(bytes.skip(1) =~= v.encoding() + rest);
            },
        }
    }

    proof fn lemma_decode_is_prefix(bytes: Seq<u8>) {
        lemma_auto_spec_u32_to_from_le_bytes();
        match Self::decode(bytes) {
            Decoded::Value(m) => {
                match m {
                    Message::Ping => {
                        assert(bytes.take(1) =~= seq![bytes[0]]);
                    },
                    Message::Value(v) => {
                        <i32 as Packable>::lemma_decode_is_prefix(bytes.skip(1));
                        assert(bytes.take(5) =~= seq![bytes[0]] + bytes.skip(1).take(4));
                        assert(bytes.take(m.encoding().len() as int) =~= m.encoding());
                    },
                }
            },
            _ => {},
        }
    }

    fn pack<P: Packer>(&self, packer: &mut P) -> (r: Result<(), P::Error>) {
        match self {
            Message::Ping => {
                let tag: u8 = 0;
                tag.pack(packer)
            },
            Message::Value(v) => {
                let tag: u8 = 1;
                match tag.pack(packer) {
                    Ok(()) => (),
                    Err(e) => return Err(e),
                }
                match v.pack(packer) {
                    Ok(()) => (),
                    Err(e) => return Err(e),
                }
                proof {
                    assert(final(packer).written() =~= old(packer).written() + self.encoding());
                }
                Ok(())
            },
        }
    }

    fn unpack<U: Unpacker>(unpacker: &mut U, verify: bool) -> (r: Result<
        Message,
        UnpackError<UnknownTag, U::Error>,
    >) {
        let tag = match u8::unpack(unpacker, verify) {
            Ok(tag) => tag,
            Err(e) => return Err(e.coerce()),
        };
        if tag == 0 {
            Ok(Message::Ping)
        } else if tag == 1 {
            match i32::unpack(unpacker, verify) {
                Ok(v) => {
                    proof {
                        lemma_auto_spec_u32_to_from_le_bytes();
                        assert(final(unpacker).remaining() =~= old(unpacker).remaining().skip(
                            5,
                        ));
                    }
                    Ok(Message::Value(v))
                },
                Err(e) => Err(e.coerce()),
            }
        } else {
            Err(UnpackError::Packable(UnknownTag { tag: tag as u64, width: 1 }))
        }
    }
}

/// The width, in bytes, of a union's tags: a property of the union, fixed
/// when its codec is assembled, and no part of the byte stream itself.
#[derive(Debug, Clone, Copy, PartialEq, Eq)]
pub enum TagWidth {
    /// One-byte tags.
    One,
    /// Two-byte tags.
    Two,
    /// Four-byte tags.
    Four,
    /// Eight-byte tags.
    Eight,
}

impl TagWidth {
    /// The largest value a tag of this width can hold, plus one.
    pub open spec fn range(self) -> int {
        match self {
            TagWidth::One => 0x100,
            TagWidth::Two => 0x1_0000,
            TagWidth::Four => 0x1_0000_0000,
            TagWidth::Eight => 0x1_0000_0000_0000_0000,
        }
    }

    /// The number of bytes a tag of this width occupies on the wire.
    pub open spec fn byte_len(self) -> int {
        match self {
            TagWidth::One => 1,
            TagWidth::Two => 2,
            TagWidth::Four => 4,
            TagWidth::Eight => 8,
        }
    }

    /// The wire bytes of `tag` at this width: the little-endian encoding of
    /// the unsigned primitive of the same width.
    pub open spec fn tag_encoding(self, tag: u64) -> Seq<u8> {
        match self {
            TagWidth::One => (tag as u8).encoding(),
            TagWidth::Two => (tag as u16).encoding(),
            TagWidth::Four => (tag as u32).encoding(),
            TagWidth::Eight => tag.encoding(),
        }
    }

    /// Structural decode of one tag of this width from the head of `bytes`,
    /// widened to the common discriminant type.
    pub open spec fn decode_tag(self, bytes: Seq<u8>) -> Decoded<u64, crate::error::Infallible> {
        match self {
            TagWidth::One => match <u8 as Packable>::decode(bytes) {
                Decoded::Value(v) => Decoded::Value(v as u64),
                Decoded::Short => Decoded::Short,
                Decoded::Fail(e) => Decoded::Fail(e),
            },
            TagWidth::Two => match <u16 as Packable>::decode(bytes) {
                Decoded::Value(v) => Decoded::Value(v as u64),
                Decoded::Short => Decoded::Short,
                Decoded::Fail(e) => Decoded::Fail(e),
            },
            TagWidth::Four => match <u32 as Packable>::decode(bytes) {
                Decoded::Value(v) => Decoded::Value(v as u64),
                Decoded::Short => Decoded::Short,
                Decoded::Fail(e) => Decoded::Fail(e),
            },
            TagWidth::Eight => match <u64 as Packable>::decode(bytes) {
                Decoded::Value(v) => Decoded::Value(v),
                Decoded::Short => Decoded::Short,
                Decoded::Fail(e) => Decoded::Fail(e),
            },
        }
    }
}

/// Law: decoding any stream that begins with a fitting tag's wire bytes
/// yields that tag back, whatever follows it.
pub proof fn lemma_tag_roundtrip(width: TagWidth, tag: u64, rest: Seq<u8>)
    requires
        tag < width.range(),
    ensures
        width.decode_tag(width.tag_encoding(tag) + rest) == Decoded::<
            u64,
            crate::error::Infallible,
        >::Value(tag),
{
    match width {
        TagWidth::One => (tag as u8).lemma_decode_inverts_encoding(rest),
        TagWidth::Two => (tag as u16).lemma_decode_inverts_encoding(rest),
        TagWidth::Four => (tag as u32).lemma_decode_inverts_encoding(rest),
        TagWidth::Eight => tag.lemma_decode_inverts_encoding(rest),
    }
}

/// Rejection when a union's codec is assembled from its declared tags.
#[derive(Debug, Clone, Copy, PartialEq, Eq)]
pub enum LayoutError {
    /// Two variants declare the same tag: the union is defective and no
    /// codec for it may exist.
    DuplicateTag {
        /// The tag that two variants share.
        tag: u64,
    },
    /// A variant's tag does not fit the union's tag width.
    OversizedTag {
        /// The tag that is too large for the width.
        tag: u64,
    },
}

/// Whether no two of `tags` are equal.
pub open spec fn distinct_tags(tags: Seq<u64>) -> bool {
    forall|a: int, b: int| 0 <= a < b < tags.len() ==> tags[a] != tags[b]
}

/// Whether every one of `tags` fits in `width` bytes.
pub open spec fn tags_fit(tags: Seq<u64>, width: TagWidth) -> bool {
    forall|k: int| 0 <= k < tags.len() ==> tags[k] < width.range()
}

/// The declared shape of a tagged union: its tag width and the tag of each
/// variant, in declaration order.
///
/// This is the registration step the code-generation facility performs:
/// assembling the layout is the one place a union's tags exist together, so
/// it is here — before any instance can be packed or unpacked — that a
/// duplicate tag is rejected, never as a decode-time ambiguity.
#[derive(Debug)]
pub struct UnionLayout {
    width: TagWidth,
    tags: Vec<u64>,
}

impl UnionLayout {
    /// The tags are pairwise distinct and each fits the tag width.
    #[verifier::type_invariant]
    spec fn tags_well_formed(self) -> bool {
        distinct_tags(self.tags@) && tags_fit(self.tags@, self.width)
    }

    /// The tag of each declared variant, in declaration order.
    pub closed spec fn tags(&self) -> Seq<u64> {
        self.tags@
    }

    /// The width of this union's tags.
    pub closed spec fn spec_width(&self) -> TagWidth {
        self.width
    }

    /// Assembles a union's layout, rejecting it unless every tag fits the
    /// width and no two variants share a tag.
    pub fn new(width: TagWidth, tags: Vec<u64>) -> (r: Result<UnionLayout, LayoutError>)
        ensures
            r is Ok <==> (distinct_tags(tags@) && tags_fit(tags@, width)),
            r matches Ok(layout) ==> layout.tags() == tags@ && layout.spec_width() == width,
            r matches Err(LayoutError::OversizedTag { tag }) ==> (exists|k: int|
                0 <= k < tags@.len() && tags@[k] == tag && !(tags@[k] < width.range())),
            r matches Err(LayoutError::DuplicateTag { tag }) ==> tags_fit(tags@, width)
                && (exists|a: int, b: int|
                0 <= a < b < tags@.len() && tags@[a] == tags@[b] && tags@[a] == tag),
    {
        let limit_known: bool = match width {
            TagWidth::Eight => false,
            _ => true,
        };
        let limit: u64 = match width {
            TagWidth::One => 0xFF,
            TagWidth::Two => 0xFFFF,
            TagWidth::Four => 0xFFFF_FFFF,
            TagWidth::Eight => 0xFFFF_FFFF_FFFF_FFFF,
        };
        let mut i: usize = 0;
        while i < tags.len()
            invariant
                limit == width.range() - 1 || width == TagWidth::Eight,
                limit_known == !(width matches TagWidth::Eight),
                i <= tags@.len(),
                forall|k: int| 0 <= k < i ==> tags@[k] < width.range(),
            decreases tags@.len() - i,
        {
            if limit_known && tags[i] > limit {
                return Err(LayoutError::OversizedTag { tag: tags[i] });
            }
            i = i + 1;
        }
        let mut a: usize = 0;
        while a < tags.len()
            invariant
                tags_fit(tags@, width),
                a <= tags@.len(),
                forall|x: int, y: int| 0 <= x < y < tags@.len() && x < a ==> tags@[x] != tags@[y],
            decreases tags@.len() - a,
        {
            let mut b: usize = a + 1;
            while b < tags.len()
                invariant
                    tags_fit(tags@, width),
                    a < b <= tags@.len() || (a + 1 == b && b >= tags@.len()),
                    forall|x: int, y: int| 0 <= x < y < tags@.len() && x < a ==> tags@[x]
                        != tags@[y],
                    forall|y: int| a < y < b ==> tags@[a as int] != tags@[y],
                decreases tags@.len() - b,
            {
                if tags[a] == tags[b] {
                    proof {
                        let x = a as int;
                        let y = b as int;
                        assert(0 <= x < y < tags@.len() && tags@[x] == tags@[y]);
                    }
                    return Err(LayoutError::DuplicateTag { tag: tags[a] });
                }
                b = b + 1;
            }
            a = a + 1;
        }
        Ok(UnionLayout { width, tags })
    }

    /// Finds the declared variant whose tag is `tag`, if any.
    pub fn lookup(&self, tag: u64) -> (r: Option<usize>)
        ensures
            match r {
                Some(index) => 0 <= index < self.tags().len() && self.tags()[index as int]
                    == tag,
                None => forall|k: int| 0 <= k < self.tags().len() ==> self.tags()[k] != tag,
            },
    {
        let mut i: usize = 0;
        while i < self.tags.len()
            invariant
                i <= self.tags@.len(),
                forall|k: int| 0 <= k < i ==> self.tags@[k] != tag,
            decreases self.tags@.len() - i,
        {
            if self.tags[i] == tag {
                return Some(i);
            }
            i = i + 1;
        }
        None
    }

    /// Writes the declared tag of variant `index`, using the tag width's
    /// primitive codec; the payload is the caller's to pack next.
    pub fn pack_tag<P: Packer>(&self, index: usize, packer: &mut P) -> (r: Result<(), P::Error>)
        requires
            index < self.tags().len(),
        ensures
            r is Ok ==> final(packer).written() == old(packer).written()
                + self.spec_width().tag_encoding(self.tags()[index as int]),
            P::always_accepts() ==> r is Ok,
    {
        proof {
            use_type_invariant(self);
        }
        let tag = self.tags[index];
        match self.width {
            TagWidth::One => (tag as u8).pack(packer),
            TagWidth::Two => (tag as u16).pack(packer),
            TagWidth::Four => (tag as u32).pack(packer),
            TagWidth::Eight => tag.pack(packer),
        }
    }

    /// One decode transition for the union: reads the discriminant with the
    /// tag width's primitive codec and finds the variant declaring it, or
    /// fails with an unknown-tag domain error carrying the value read and
    /// the width, never an ambiguity. The variant's payload is the caller's
    /// to unpack next.
    pub fn unpack_index<U: Unpacker>(&self, unpacker: &mut U) -> (r: Result<
        usize,
        UnpackError<UnknownTag, U::Error>,
    >)
        ensures
            match r {
                Ok(index) => {
                    &&& (self.spec_width().decode_tag(old(unpacker).remaining())
                        matches Decoded::Value(t) && 0 <= index < self.tags().len()
                        && self.tags()[index as int] == t)
                    &&& final(unpacker).remaining() == old(unpacker).remaining().skip(
                        self.spec_width().byte_len(),
                    )
                },
                Err(UnpackError::Unpacker(_)) => self.spec_width().decode_tag(
                    old(unpacker).remaining(),
                ) is Short,
                Err(UnpackError::Packable(e)) => {
                    &&& (self.spec_width().decode_tag(old(unpacker).remaining())
                        matches Decoded::Value(t) && e == (UnknownTag {
                        tag: t,
                        width: self.spec_width().byte_len() as usize,
                    }) && (forall|k: int|
                        0 <= k < self.tags().len() ==> self.tags()[k] != t))
                },
            },
    {
        let tag: u64 = match self.width {
            TagWidth::One => match u8::unpack(unpacker, false) {
                Ok(v) => v as u64,
                Err(e) => return Err(e.coerce()),
            },
            TagWidth::Two => match u16::unpack(unpacker, false) {
                Ok(v) => {
                    proof {
                        vstd::bytes::lemma_auto_spec_u16_to_from_le_bytes();
                    }
                    v as u64
                },
                Err(e) => return Err(e.coerce()),
            },
            TagWidth::Four => match u32::unpack(unpacker, false) {
                Ok(v) => {
                    proof {
                        lemma_auto_spec_u32_to_from_le_bytes();
                    }
                    v as u64
                },
                Err(e) => return Err(e.coerce()),
            },
            TagWidth::Eight => match u64::unpack(unpacker, false) {
                Ok(v) => {
                    proof {
                        vstd::bytes::lemma_auto_spec_u64_to_from_le_bytes();
                    }
                    v
                },
                Err(e) => return Err(e.coerce()),
            },
        };
        let width_bytes: usize = match self.width {
            TagWidth::One => 1,
            TagWidth::Two => 2,
            TagWidth::Four => 4,
            TagWidth::Eight => 8,
        };
        match self.lookup(tag) {
            Some(index) => Ok(index),
            None => Err(UnpackError::Packable(UnknownTag { tag, width: width_bytes })),
        }
    }

    /// How many variants the union declares.
    pub fn tag_count(&self) -> (r: usize)
        ensures
            r == self.tags().len(),
    {
        self.tags.len()
    }

    /// The width of this union's tags.
    pub fn width(&self) -> (r: TagWidth)
        ensures
            r == self.spec_width(),
    {
        self.width
    }
}

} // verus!
