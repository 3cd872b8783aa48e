//! Type tags of the wire format.
//!
//! Every encoded value starts with a single tag byte. The two most significant
//! bits hold the [`Kind`] of the value, the remaining six bits are a data
//! field. A data field below [`DATA_MASK`] carries a small length or value
//! inline; the value [`DATA_MASK`] itself is reserved and means that the
//! actual length or value follows the tag, encoded separately.

use vstd::prelude::*;

verus! {

/// Data masked into the low bits of a tag byte. The value itself is reserved
/// to mean "not inlined, read separately".
pub const DATA_MASK: u8 = 0x3f;

/// The largest length that can be embedded in a tag's data field.
pub const MAX_INLINE_LEN: usize = 62;

/// The category of a wire tag, held in the two most significant bits of the
/// tag byte.
#[derive(Debug, Clone, Copy, PartialEq, Eq, Structural)]
pub enum Kind {
    /// A pack of bytes padded to a power of two; data is the exponent.
    Pack,
    /// A length-prefixed blob of raw bytes; data is the byte length.
    Prefix,
    /// A length-prefixed sequence of typed values; data is the element count.
    Sequence,
    /// A continuation-encoded numerical value; data is the value itself if it
    /// is small enough.
    Continuation,
}

/// The bit pattern a [`Kind`] occupies in a tag byte.
pub open spec fn spec_kind_bits(kind: Kind) -> u8 {
    match kind {
        Kind::Pack => 0x00,
        Kind::Prefix => 0x40,
        Kind::Sequence => 0x80,
        Kind::Continuation => 0xc0,
    }
}

/// The [`Kind`] encoded by the two most significant bits of a tag byte.
pub open spec fn spec_kind_of(repr: u8) -> Kind {
    if repr < 0x40 {
        Kind::Pack
    } else if repr < 0x80 {
        Kind::Prefix
    } else if repr < 0xc0 {
        Kind::Sequence
    } else {
        Kind::Continuation
    }
}

impl Kind {
    /// The bit pattern this kind occupies in a tag byte.
    pub fn bits(self) -> (r: u8)
        ensures
            r == spec_kind_bits(self),
    {
        match self {
            Kind::Pack => 0x00,
            Kind::Prefix => 0x40,
            Kind::Sequence => 0x80,
            Kind::Continuation => 0xc0,
        }
    }
}

/// A type tag.
///
/// The kind of the element is held in the 2 MSBs, which indicates that it is
/// one of the variants of the [`Kind`] enumeration.
///
/// The remaining 6 bits are the data field, and its use depends on the
/// [`Kind`] in question. Usually it smuggles extra data in case a value is
/// small, which it usually is.
#[derive(Debug, Clone, Copy, PartialEq, Eq, Hash, Structural)]
pub struct Tag {
    /// The raw byte of the tag. Every byte is a meaningful tag, so the
    /// representation is open: contracts about concrete tag bytes compute.
    pub repr: u8,
}

impl Tag {
    /// The raw byte of the tag.
    pub open spec fn spec_byte(self) -> u8 {
        self.repr
    }

    /// The tag a byte stands for.
    pub open spec fn spec_from_byte(repr: u8) -> Tag {
        Tag { repr }
    }

    /// The tag built from a kind and a data field, with the data saturated to
    /// [`DATA_MASK`].
    pub open spec fn spec_new(kind: Kind, data: u8) -> Tag {
        Tag::spec_from_byte(
            (spec_kind_bits(kind) + if data < DATA_MASK {
                data
            } else {
                DATA_MASK
            }) as u8,
        )
    }

    /// The kind of the tag.
    pub open spec fn spec_kind(self) -> Kind {
        spec_kind_of(self.spec_byte())
    }

    /// The raw data field of the tag.
    pub open spec fn spec_data_raw(self) -> u8 {
        (self.spec_byte() % 0x40) as u8
    }

    /// The data field of the tag, or `None` when it holds the reserved
    /// [`DATA_MASK`] value.
    pub open spec fn spec_data(self) -> Option<u8> {
        if self.spec_data_raw() == DATA_MASK {
            None
        } else {
            Some(self.spec_data_raw())
        }
    }

    /// Construct a new tag.
    ///
    /// If `data` is larger or equal to [`DATA_MASK`] it is considered as
    /// empty: the data field saturates to the reserved value.
    pub fn new(kind: Kind, data: u8) -> (r: Tag)
        ensures
            r == Tag::spec_new(kind, data),
            r.spec_kind() == kind,
            r.spec_data_raw() == if data < DATA_MASK { data } else { DATA_MASK },
    {
        let field: u8 = if data < DATA_MASK {
            data
        } else {
            DATA_MASK
        };
        let repr: u8 = kind.bits() + field;
        proof {
            lemma_tag_fields(kind, field);
        }
        Tag { repr }
    }

    /// Construct a new empty tag of the given [`Kind`]: its data field holds
    /// the reserved [`DATA_MASK`] value.
    pub fn empty(kind: Kind) -> (r: Tag)
        ensures
            r == Tag::spec_new(kind, DATA_MASK),
            r.spec_kind() == kind,
            r.spec_data() is None,
    {
        Tag::new(kind, DATA_MASK)
    }

    /// Access the kind of the tag. Every byte maps to a kind, so this is
    /// total.
    pub fn kind(self) -> (r: Kind)
        ensures
            r == self.spec_kind(),
    {
        if self.repr < 0x40 {
            Kind::Pack
        } else if self.repr < 0x80 {
            Kind::Prefix
        } else if self.repr < 0xc0 {
            Kind::Sequence
        } else {
            Kind::Continuation
        }
    }

    /// Access the raw data field of the tag.
    pub fn data_raw(self) -> (r: u8)
        ensures
            r == self.spec_data_raw(),
    {
        let repr: u8 = self.repr;
        proof {
            assert(repr & 0x3f == repr % 0x40) by (bit_vector);
        }
        repr & DATA_MASK
    }

    /// Construct a tag from a raw byte.
    pub fn from_byte(repr: u8) -> (r: Tag)
        ensures
            r == Tag::spec_from_byte(repr),
            r.spec_byte() == repr,
    {
        Tag { repr }
    }

    /// Coerce the tag into its raw byte.
    pub fn byte(self) -> (r: u8)
        ensures
            r == self.spec_byte(),
    {
        self.repr
    }

    /// Attempt to construct a tag with the given length embedded.
    ///
    /// Returns a tuple where the boolean indicates if the value was embedded
    /// or not.
    pub fn with_len(kind: Kind, len: usize) -> (r: (Tag, bool))
        ensures
            r.1 == (len < DATA_MASK as usize),
            len < DATA_MASK as usize ==> r.0 == Tag::spec_new(kind, len as u8),
            len >= DATA_MASK as usize ==> r.0 == Tag::spec_new(kind, DATA_MASK),
            r.0.spec_kind() == kind,
    {
        if len < DATA_MASK as usize {
            (Tag::new(kind, len as u8), true)
        } else {
            (Tag::new(kind, DATA_MASK), false)
        }
    }

    /// Attempt to construct a tag with the given byte value embedded.
    ///
    /// Returns a tuple where the boolean indicates if the value was embedded
    /// or not.
    pub fn with_byte(kind: Kind, len: u8) -> (r: (Tag, bool))
        ensures
            r.1 == (len < DATA_MASK),
            r.0 == Tag::spec_new(kind, len),
            r.0.spec_kind() == kind,
    {
        if len < DATA_MASK {
            (Tag::new(kind, len), true)
        } else {
            (Tag::new(kind, DATA_MASK), false)
        }
    }

    /// Get the embedded data field, or `None` when it holds the reserved
    /// value meaning "read separately".
    pub fn data(self) -> (r: Option<u8>)
        ensures
            r == self.spec_data(),
    {
        let raw: u8 = self.data_raw();
        if raw == DATA_MASK {
            None
        } else {
            Some(raw)
        }
    }
}

/// A tag byte assembled from kind bits and a small data field decomposes into
/// exactly those two parts.
proof fn lemma_tag_fields(kind: Kind, field: u8)
    requires
        field <= DATA_MASK,
    ensures
        spec_kind_of((spec_kind_bits(kind) + field) as u8) == kind,
        ((spec_kind_bits(kind) + field) as u8) % 0x40 == field,
        ((spec_kind_bits(kind) + field) as u8) & DATA_MASK == ((spec_kind_bits(kind) + field) as u8) % 0x40,
{
    let b = (spec_kind_bits(kind) + field) as u8;
    assert(b & 0x3f == b % 0x40) by (bit_vector);
}

/// Converting a byte into a tag and back is the identity, for every byte.
pub proof fn lemma_tag_byte_identity(b: u8)
    ensures
        Tag::spec_from_byte(b).spec_byte() == b,
{
}

/// A tag built from a kind and data below [`DATA_MASK`] reports exactly that
/// data; from [`DATA_MASK`] or above it reports `None`, meaning the value is
/// stored out of line.
pub proof fn lemma_tag_data_round_trip(kind: Kind, data: u8)
    ensures
        data < DATA_MASK ==> Tag::spec_new(kind, data).spec_data() == Some(data),
        data >= DATA_MASK ==> Tag::spec_new(kind, data).spec_data() is None,
        Tag::spec_new(kind, data).spec_kind() == kind,
{
    if data < DATA_MASK {
        lemma_tag_fields(kind, data);
    } else {
        lemma_tag_fields(kind, DATA_MASK);
    }
}

} // verus!
