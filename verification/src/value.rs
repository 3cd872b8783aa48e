//! Traits for values that travel over the wire.
//!
//! A type that implements [`Encode`] says exactly which bytes it writes; one
//! that implements [`Decode`] says exactly what it reads back, for every
//! input. [`Codec`] ties the two together with a proof obligation: decoding
//! what was encoded yields the value back, whatever bytes follow — the
//! round-trip law of the format. The scalar types of the format implement
//! all three here; composite values are built from them with the sequence,
//! blob and pack framing of [`crate::en`] and [`crate::de`].

use vstd::prelude::*;

use crate::de;
use crate::en;
use crate::en::{IntMode, LenMode};
use crate::error::Error;
use crate::laws;

verus! {

/// A value that can be written to the wire.
pub trait Encode {
    /// Whether the value can be written under the given configuration.
    spec fn wf(&self, imode: IntMode, lmode: LenMode) -> bool;

    /// The exact bytes the value is written as.
    spec fn wire(&self, imode: IntMode, lmode: LenMode) -> Seq<u8>;

    /// Append the value's encoding to `out`.
    fn encode(&self, out: &mut Vec<u8>, imode: IntMode, lmode: LenMode)
        requires
            self.wf(imode, lmode),
        ensures
            final(out)@ == old(out)@ + self.wire(imode, lmode),
    ;
}

/// A value that can be read back from the wire.
pub trait Decode where Self: Sized {
    /// The exact result of reading a value of this type at index `i` of `s`.
    spec fn dec(imode: IntMode, lmode: LenMode, s: Seq<u8>, i: int) -> Result<(Self, int), Error>;

    /// Read a value of this type at `*pos`, advancing past it on success and
    /// leaving `*pos` alone on failure.
    fn decode(data: &[u8], pos: &mut usize, imode: IntMode, lmode: LenMode) -> (r: Result<
        Self,
        Error,
    >)
        ensures
            match r {
                Ok(v) => Self::dec(imode, lmode, data@, *old(pos) as int) == Ok::<
                    (Self, int),
                    Error,
                >((v, *final(pos) as int)) && *old(pos) < *final(pos) <= data@.len(),
                Err(e) => Self::dec(imode, lmode, data@, *old(pos) as int) == Err::<
                    (Self, int),
                    Error,
                >(e) && *final(pos) == *old(pos),
            },
    ;
}

/// A value whose encoding and decoding are exact inverses.
pub trait Codec: Encode + Decode {
    /// Round trip: decoding this value's encoding from its position in any
    /// larger stream yields the value back and stops right after it.
    proof fn lemma_round_trip(&self, imode: IntMode, lmode: LenMode, s: Seq<u8>, i: int)
        requires
            0 <= i,
            self.wf(imode, lmode),
            i + self.wire(imode, lmode).len() <= s.len(),
            s.subrange(i, i + self.wire(imode, lmode).len()) == self.wire(imode, lmode),
        ensures
            Self::dec(imode, lmode, s, i) == Ok::<(Self, int), Error>(
                (*self, i + self.wire(imode, lmode).len()),
            ),
    ;
}

impl Encode for u8 {
    open spec fn wf(&self, imode: IntMode, lmode: LenMode) -> bool {
        true
    }

    open spec fn wire(&self, imode: IntMode, lmode: LenMode) -> Seq<u8> {
        en::spec_encode_u8(imode, *self)
    }

    fn encode(&self, out: &mut Vec<u8>, imode: IntMode, lmode: LenMode) {
        en::encode_u8(out, imode, *self);
    }
}

impl Decode for u8 {
    open spec fn dec(imode: IntMode, lmode: LenMode, s: Seq<u8>, i: int) -> Result<
        (u8, int),
        Error,
    > {
        de::spec_decode_u8(imode, s, i)
    }

    fn decode(data: &[u8], pos: &mut usize, imode: IntMode, lmode: LenMode) -> (r: Result<
        u8,
        Error,
    >) {
        de::decode_u8(data, pos, imode)
    }
}

impl Codec for u8 {
    proof fn lemma_round_trip(&self, imode: IntMode, lmode: LenMode, s: Seq<u8>, i: int) {
        laws::lemma_u8_round_trip(imode, *self, s, i);
    }
}

impl Encode for u32 {
    open spec fn wf(&self, imode: IntMode, lmode: LenMode) -> bool {
        true
    }

    open spec fn wire(&self, imode: IntMode, lmode: LenMode) -> Seq<u8> {
        en::spec_encode_u32(imode, *self)
    }

    fn encode(&self, out: &mut Vec<u8>, imode: IntMode, lmode: LenMode) {
        en::encode_u32(out, imode, *self);
    }
}

impl Decode for u32 {
    open spec fn dec(imode: IntMode, lmode: LenMode, s: Seq<u8>, i: int) -> Result<
        (u32, int),
        Error,
    > {
        de::spec_decode_u32(imode, s, i)
    }

    fn decode(data: &[u8], pos: &mut usize, imode: IntMode, lmode: LenMode) -> (r: Result<
        u32,
        Error,
    >) {
        de::decode_u32(data, pos, imode)
    }
}

impl Codec for u32 {
    proof fn lemma_round_trip(&self, imode: IntMode, lmode: LenMode, s: Seq<u8>, i: int) {
        laws::lemma_u32_round_trip(imode, *self, s, i);
    }
}

impl Encode for u64 {
    open spec fn wf(&self, imode: IntMode, lmode: LenMode) -> bool {
        true
    }

    open spec fn wire(&self, imode: IntMode, lmode: LenMode) -> Seq<u8> {
        en::spec_encode_u64(imode, *self)
    }

    fn encode(&self, out: &mut Vec<u8>, imode: IntMode, lmode: LenMode) {
        en::encode_u64(out, imode, *self);
    }
}

impl Decode for u64 {
    open spec fn dec(imode: IntMode, lmode: LenMode, s: Seq<u8>, i: int) -> Result<
        (u64, int),
        Error,
    > {
        de::spec_decode_u64(imode, s, i)
    }

    fn decode(data: &[u8], pos: &mut usize, imode: IntMode, lmode: LenMode) -> (r: Result<
        u64,
        Error,
    >) {
        de::decode_u64(data, pos, imode)
    }
}

impl Codec for u64 {
    proof fn lemma_round_trip(&self, imode: IntMode, lmode: LenMode, s: Seq<u8>, i: int) {
        laws::lemma_u64_round_trip(imode, *self, s, i);
    }
}

impl Encode for i32 {
    open spec fn wf(&self, imode: IntMode, lmode: LenMode) -> bool {
        true
    }

    open spec fn wire(&self, imode: IntMode, lmode: LenMode) -> Seq<u8> {
        en::spec_encode_i32(imode, *self)
    }

    fn encode(&self, out: &mut Vec<u8>, imode: IntMode, lmode: LenMode) {
        en::encode_i32(out, imode, *self);
    }
}

impl Decode for i32 {
    open spec fn dec(imode: IntMode, lmode: LenMode, s: Seq<u8>, i: int) -> Result<
        (i32, int),
        Error,
    > {
        de::spec_decode_i32(imode, s, i)
    }

    fn decode(data: &[u8], pos: &mut usize, imode: IntMode, lmode: LenMode) -> (r: Result<
        i32,
        Error,
    >) {
        de::decode_i32(data, pos, imode)
    }
}

impl Codec for i32 {
    proof fn lemma_round_trip(&self, imode: IntMode, lmode: LenMode, s: Seq<u8>, i: int) {
        laws::lemma_i32_round_trip(imode, *self, s, i);
    }
}

impl Encode for i64 {
    open spec fn wf(&self, imode: IntMode, lmode: LenMode) -> bool {
        true
    }

    open spec fn wire(&self, imode: IntMode, lmode: LenMode) -> Seq<u8> {
        en::spec_encode_i64(imode, *self)
    }

    fn encode(&self, out: &mut Vec<u8>, imode: IntMode, lmode: LenMode) {
        en::encode_i64(out, imode, *self);
    }
}

impl Decode for i64 {
    open spec fn dec(imode: IntMode, lmode: LenMode, s: Seq<u8>, i: int) -> Result<
        (i64, int),
        Error,
    > {
        de::spec_decode_i64(imode, s, i)
    }

    fn decode(data: &[u8], pos: &mut usize, imode: IntMode, lmode: LenMode) -> (r: Result<
        i64,
        Error,
    >) {
        de::decode_i64(data, pos, imode)
    }
}

impl Codec for i64 {
    proof fn lemma_round_trip(&self, imode: IntMode, lmode: LenMode, s: Seq<u8>, i: int) {
        laws::lemma_i64_round_trip(imode, *self, s, i);
    }
}

impl Encode for bool {
    open spec fn wf(&self, imode: IntMode, lmode: LenMode) -> bool {
        true
    }

    open spec fn wire(&self, imode: IntMode, lmode: LenMode) -> Seq<u8> {
        en::spec_encode_bool(*self)
    }

    fn encode(&self, out: &mut Vec<u8>, imode: IntMode, lmode: LenMode) {
        en::encode_bool(out, *self);
    }
}

impl Decode for bool {
    open spec fn dec(imode: IntMode, lmode: LenMode, s: Seq<u8>, i: int) -> Result<
        (bool, int),
        Error,
    > {
        de::spec_decode_bool(s, i)
    }

    fn decode(data: &[u8], pos: &mut usize, imode: IntMode, lmode: LenMode) -> (r: Result<
        bool,
        Error,
    >) {
        de::decode_bool(data, pos)
    }
}

impl Codec for bool {
    proof fn lemma_round_trip(&self, imode: IntMode, lmode: LenMode, s: Seq<u8>, i: int) {
        laws::lemma_bool_round_trip(*self, s, i);
    }
}

impl Encode for Vec<u8> {
    open spec fn wf(&self, imode: IntMode, lmode: LenMode) -> bool {
        lmode is Fixed32 ==> self@.len() <= u32::MAX
    }

    open spec fn wire(&self, imode: IntMode, lmode: LenMode) -> Seq<u8> {
        en::spec_encode_bytes(lmode, self@)
    }

    fn encode(&self, out: &mut Vec<u8>, imode: IntMode, lmode: LenMode) {
        en::encode_bytes(out, lmode, self.as_slice());
    }
}



impl<T: Encode> Encode for Option<T> {
    open spec fn wf(&self, imode: IntMode, lmode: LenMode) -> bool {
        match self {
            Some(v) => v.wf(imode, lmode),
            None => true,
        }
    }

    open spec fn wire(&self, imode: IntMode, lmode: LenMode) -> Seq<u8> {
        match self {
            Some(v) => en::spec_sequence_header(lmode, 1) + v.wire(imode, lmode),
            None => en::spec_sequence_header(lmode, 0),
        }
    }

    fn encode(&self, out: &mut Vec<u8>, imode: IntMode, lmode: LenMode) {
        match self {
            Some(v) => {
                en::encode_sequence_header(out, lmode, 1);
                v.encode(out, imode, lmode);
                assert(out@ =~= old(out)@ + self.wire(imode, lmode));
            },
            None => {
                en::encode_sequence_header(out, lmode, 0);
            },
        }
    }
}

impl<T: Decode> Decode for Option<T> {
    open spec fn dec(imode: IntMode, lmode: LenMode, s: Seq<u8>, i: int) -> Result<
        (Option<T>, int),
        Error,
    > {
        match de::spec_decode_sequence_header(lmode, s, i) {
            Err(e) => Err(e),
            Ok((n, j)) => if n == 0 {
                Ok((None, j))
            } else if n == 1 {
                match T::dec(imode, lmode, s, j) {
                    Err(e) => Err(e),
                    Ok((v, k)) => Ok((Some(v), k)),
                }
            } else {
                Err(Error::KindMismatch)
            },
        }
    }

    fn decode(data: &[u8], pos: &mut usize, imode: IntMode, lmode: LenMode) -> (r: Result<
        Option<T>,
        Error,
    >) {
        let start: usize = *pos;
        let n = match de::decode_sequence_header(data, pos, lmode) {
            Ok(n) => n,
            Err(e) => {
                return Err(e);
            },
        };
        if n == 0 {
            Ok(None)
        } else if n == 1 {
            match T::decode(data, pos, imode, lmode) {
                Ok(v) => Ok(Some(v)),
                Err(e) => {
                    *pos = start;
                    Err(e)
                },
            }
        } else {
            *pos = start;
            Err(Error::KindMismatch)
        }
    }
}

impl<T: Codec> Codec for Option<T> {
    proof fn lemma_round_trip(&self, imode: IntMode, lmode: LenMode, s: Seq<u8>, i: int) {
        match self {
            Some(v) => {
                let h = en::spec_sequence_header(lmode, 1);
                laws::lemma_concat_split(s, i, h, v.wire(imode, lmode));
                laws::lemma_sequence_header_round_trip(lmode, 1, s, i);
                v.lemma_round_trip(imode, lmode, s, i + h.len());
            },
            None => {
                laws::lemma_sequence_header_round_trip(lmode, 0, s, i);
            },
        }
    }
}

/// Trait governing how to encode a sequence: elements are pushed one at a
/// time, and ending the sequence writes its header and the collected
/// elements to the sink.
pub trait SequenceEncoder {
    /// The encodings of the elements pushed so far, in order.
    spec fn elements(&self) -> Seq<u8>;

    /// How many elements were pushed so far.
    spec fn count(&self) -> u64;

    /// Push an element into the sequence.
    fn push<T: Encode>(&mut self, value: &T, imode: IntMode, lmode: LenMode)
        requires
            value.wf(imode, lmode),
            old(self).count() < u64::MAX,
        ensures
            final(self).elements() == old(self).elements() + value.wire(imode, lmode),
            final(self).count() == old(self).count() + 1,
    ;

    /// Finish encoding the sequence: append its header and every element to
    /// `out`.
    fn end_sequence(self, out: &mut Vec<u8>, lmode: LenMode)
        requires
            lmode is Fixed32 ==> self.count() <= u32::MAX,
        ensures
            final(out)@ == old(out)@ + crate::en::spec_sequence_header(lmode, self.count())
                + self.elements(),
    ;
}

/// A sequence encoder that buffers its elements until the count is known.
pub struct SequenceBuilder {
    buf: Vec<u8>,
    n: u64,
}

impl SequenceBuilder {
    /// The encodings of the elements pushed so far, in order.
    pub closed spec fn spec_buf(&self) -> Seq<u8> {
        self.buf@
    }

    /// How many elements were pushed so far.
    pub closed spec fn spec_count(&self) -> u64 {
        self.n
    }

    /// An empty sequence.
    pub fn new() -> (r: SequenceBuilder)
        ensures
            r.spec_buf() == Seq::<u8>::empty(),
            r.spec_count() == 0,
    {
        SequenceBuilder { buf: Vec::new(), n: 0 }
    }
}

impl SequenceEncoder for SequenceBuilder {
    closed spec fn elements(&self) -> Seq<u8> {
        self.spec_buf()
    }

    closed spec fn count(&self) -> u64 {
        self.n
    }

    fn push<T: Encode>(&mut self, value: &T, imode: IntMode, lmode: LenMode) {
        value.encode(&mut self.buf, imode, lmode);
        self.n = self.n + 1;
    }

    fn end_sequence(self, out: &mut Vec<u8>, lmode: LenMode) {
        crate::en::encode_sequence_header(out, lmode, self.n);
        let mut elements = self.buf;
        out.append(&mut elements);
        assert(out@ =~= old(out)@ + crate::en::spec_sequence_header(lmode, self.n)
            + self.spec_buf());
    }
}

/// Round trip for every codec type under every configuration: what was
/// encoded decodes back to the same value, with any suffix left untouched.
pub proof fn lemma_codec_round_trip<T: Codec>(v: T, imode: IntMode, lmode: LenMode, rest: Seq<u8>)
    requires
        v.wf(imode, lmode),
    ensures
        T::dec(imode, lmode, v.wire(imode, lmode) + rest, 0) == Ok::<(T, int), Error>(
            (v, v.wire(imode, lmode).len() as int),
        ),
{
    let s = v.wire(imode, lmode) + rest;
    assert(s.subrange(0, v.wire(imode, lmode).len() as int) =~= v.wire(imode, lmode));
    v.lemma_round_trip(imode, lmode, s, 0);
}

} // verus!
