//! The wire decoder.
//!
//! Decoding mirrors encoding: read one tag byte, branch on its kind, read the
//! inline data field or the out-of-line value that follows, then the payload
//! of the now-known length. Every function here validates untrusted input: it
//! never panics, never reads past the end of the slice, and reports a typed
//! [`Error`] for every failure. The spec functions pin down the exact result
//! for every input.

use vstd::prelude::*;

use crate::continuation::{cont_decode, spec_cont_decode};
use crate::en::{spec_pow2, IntMode, LenMode};
use crate::error::Error;
use crate::fixed::{spec_fixed32_value, spec_fixed64_value, ByteOrder};
use crate::tag::{Kind, Tag, DATA_MASK};
use crate::zigzag::{spec_unzigzag32, spec_unzigzag64, unzigzag32, unzigzag64};

verus! {

/// The tag at index `i` of `s`, and the index after it.
pub open spec fn spec_decode_tag(s: Seq<u8>, i: int) -> Result<(Tag, int), Error> {
    if 0 <= i < s.len() {
        Ok((Tag::spec_from_byte(s[i]), i + 1))
    } else {
        Err(Error::BufferExhausted)
    }
}

/// An out-of-line length read at index `i` through the given length
/// encoding.
pub open spec fn spec_decode_len_overflow(lmode: LenMode, s: Seq<u8>, i: int) -> Result<
    (u64, int),
    Error,
> {
    match lmode {
        LenMode::Variable => spec_cont_decode(s, i),
        LenMode::Fixed32 => if i + 4 <= s.len() {
            Ok((spec_fixed32_value(ByteOrder::Big, s.subrange(i, i + 4)) as u64, i + 4))
        } else {
            Err(Error::BufferExhausted)
        },
        LenMode::Fixed64 => if i + 8 <= s.len() {
            Ok((spec_fixed64_value(ByteOrder::Big, s.subrange(i, i + 8)), i + 8))
        } else {
            Err(Error::BufferExhausted)
        },
    }
}

/// A header of the given kind at index `i`: the tag's inline data field, or
/// the out-of-line value that follows an empty tag. A tag of another kind is
/// a mismatch.
pub open spec fn spec_decode_header(kind: Kind, lmode: LenMode, s: Seq<u8>, i: int) -> Result<
    (u64, int),
    Error,
> {
    match spec_decode_tag(s, i) {
        Err(e) => Err(e),
        Ok((t, j)) => if t.spec_kind() != kind {
            Err(Error::KindMismatch)
        } else if t.spec_data_raw() != DATA_MASK {
            Ok((t.spec_data_raw() as u64, j))
        } else {
            spec_decode_len_overflow(lmode, s, j)
        },
    }
}

/// An unsigned 64-bit value at index `i`.
pub open spec fn spec_decode_u64(imode: IntMode, s: Seq<u8>, i: int) -> Result<(u64, int), Error> {
    match imode {
        IntMode::Variable => spec_decode_header(Kind::Continuation, LenMode::Variable, s, i),
        IntMode::Fixed(order) => match spec_decode_tag(s, i) {
            Err(e) => Err(e),
            Ok((t, j)) => if t.spec_kind() != Kind::Prefix || t.spec_data_raw() != 8 {
                Err(Error::KindMismatch)
            } else if j + 8 <= s.len() {
                Ok((spec_fixed64_value(order, s.subrange(j, j + 8)), j + 8))
            } else {
                Err(Error::BufferExhausted)
            },
        },
    }
}

/// An unsigned 32-bit value at index `i`. A wider continuation value is an
/// overflow.
pub open spec fn spec_decode_u32(imode: IntMode, s: Seq<u8>, i: int) -> Result<(u32, int), Error> {
    match imode {
        IntMode::Variable => match spec_decode_header(Kind::Continuation, LenMode::Variable, s, i) {
            Err(e) => Err(e),
            Ok((v, j)) => if v <= u32::MAX as u64 {
                Ok((v as u32, j))
            } else {
                Err(Error::IntegerOverflow)
            },
        },
        IntMode::Fixed(order) => match spec_decode_tag(s, i) {
            Err(e) => Err(e),
            Ok((t, j)) => if t.spec_kind() != Kind::Prefix || t.spec_data_raw() != 4 {
                Err(Error::KindMismatch)
            } else if j + 4 <= s.len() {
                Ok((spec_fixed32_value(order, s.subrange(j, j + 4)), j + 4))
            } else {
                Err(Error::BufferExhausted)
            },
        },
    }
}

/// A byte-sized value at index `i`. A wider continuation value is an
/// overflow.
pub open spec fn spec_decode_u8(imode: IntMode, s: Seq<u8>, i: int) -> Result<(u8, int), Error> {
    match imode {
        IntMode::Variable => match spec_decode_header(Kind::Continuation, LenMode::Variable, s, i) {
            Err(e) => Err(e),
            Ok((v, j)) => if v <= u8::MAX as u64 {
                Ok((v as u8, j))
            } else {
                Err(Error::IntegerOverflow)
            },
        },
        IntMode::Fixed(_) => match spec_decode_tag(s, i) {
            Err(e) => Err(e),
            Ok((t, j)) => if t.spec_kind() != Kind::Prefix || t.spec_data_raw() != 1 {
                Err(Error::KindMismatch)
            } else if j + 1 <= s.len() {
                Ok((s[j], j + 1))
            } else {
                Err(Error::BufferExhausted)
            },
        },
    }
}

/// A signed 64-bit value at index `i`: an unsigned value mapped back through
/// zigzag.
pub open spec fn spec_decode_i64(imode: IntMode, s: Seq<u8>, i: int) -> Result<(i64, int), Error> {
    match spec_decode_u64(imode, s, i) {
        Err(e) => Err(e),
        Ok((v, j)) => Ok((spec_unzigzag64(v), j)),
    }
}

/// A signed 32-bit value at index `i`: an unsigned value mapped back through
/// zigzag.
pub open spec fn spec_decode_i32(imode: IntMode, s: Seq<u8>, i: int) -> Result<(i32, int), Error> {
    match spec_decode_u32(imode, s, i) {
        Err(e) => Err(e),
        Ok((v, j)) => Ok((spec_unzigzag32(v), j)),
    }
}

/// A boolean at index `i`: a continuation tag whose data field is one for
/// true and anything else for false.
pub open spec fn spec_decode_bool(s: Seq<u8>, i: int) -> Result<(bool, int), Error> {
    match spec_decode_tag(s, i) {
        Err(e) => Err(e),
        Ok((t, j)) => if t.spec_kind() != Kind::Continuation {
            Err(Error::KindMismatch)
        } else {
            Ok((t.spec_data_raw() == 1, j))
        },
    }
}

/// A length-prefixed blob at index `i`: a prefix header, then that many raw
/// bytes.
pub open spec fn spec_decode_bytes(lmode: LenMode, s: Seq<u8>, i: int) -> Result<
    (Seq<u8>, int),
    Error,
> {
    match spec_decode_header(Kind::Prefix, lmode, s, i) {
        Err(e) => Err(e),
        Ok((n, j)) => if j + n <= s.len() {
            Ok((s.subrange(j, j + n), j + n))
        } else {
            Err(Error::BufferExhausted)
        },
    }
}

/// The element count of a sequence at index `i`.
pub open spec fn spec_decode_sequence_header(lmode: LenMode, s: Seq<u8>, i: int) -> Result<
    (u64, int),
    Error,
> {
    spec_decode_header(Kind::Sequence, lmode, s, i)
}

/// A packed blob at index `i`: either a prefix tag with the length inline,
/// or a pack tag whose data field is the exponent of the padded payload
/// size. The payload is returned with its padding.
pub open spec fn spec_decode_pack(s: Seq<u8>, i: int) -> Result<(Seq<u8>, int), Error> {
    match spec_decode_tag(s, i) {
        Err(e) => Err(e),
        Ok((t, j)) => if t.spec_kind() == Kind::Prefix && t.spec_data_raw() != DATA_MASK {
            let n = t.spec_data_raw() as int;
            if j + n <= s.len() {
                Ok((s.subrange(j, j + n), j + n))
            } else {
                Err(Error::BufferExhausted)
            }
        } else if t.spec_kind() == Kind::Pack && t.spec_data_raw() != DATA_MASK {
            let n = spec_pow2(t.spec_data_raw() as nat) as int;
            if j + n <= s.len() {
                Ok((s.subrange(j, j + n), j + n))
            } else {
                Err(Error::BufferExhausted)
            }
        } else {
            Err(Error::KindMismatch)
        },
    }
}

/// Read the tag at `*pos` and advance past it.
pub fn decode_tag(data: &[u8], pos: &mut usize) -> (r: Result<Tag, Error>)
    ensures
        match r {
            Ok(t) => spec_decode_tag(data@, *old(pos) as int) == Ok::<(Tag, int), Error>(
                (t, *final(pos) as int),
            ) && *final(pos) == *old(pos) + 1 && *old(pos) < data@.len(),
            Err(e) => spec_decode_tag(data@, *old(pos) as int) == Err::<(Tag, int), Error>(e)
                && *final(pos) == *old(pos),
        },
{
    if *pos < data.len() {
        let b: u8 = *vstd::slice::slice_index_get(data, *pos);
        *pos = *pos + 1;
        Ok(Tag::from_byte(b))
    } else {
        Err(Error::BufferExhausted)
    }
}

/// Copy `n` bytes from `*pos` and advance past them.
fn read_vec(data: &[u8], pos: &mut usize, n: usize) -> (r: Result<Vec<u8>, Error>)
    ensures
        match r {
            Ok(v) => *old(pos) + n <= data@.len() && v@ == data@.subrange(
                *old(pos) as int,
                *old(pos) + n,
            ) && *final(pos) == *old(pos) + n,
            Err(e) => e == Error::BufferExhausted && *old(pos) + n > data@.len() && *final(pos)
                == *old(pos),
        },
{
    if n > data.len() || *pos > data.len() - n {
        return Err(Error::BufferExhausted);
    }
    let dlen: usize = data.len();
    let mut v: Vec<u8> = Vec::new();
    let mut k: usize = 0;
    while k < n
        invariant
            k <= n,
            *pos + n <= dlen,
            dlen == data@.len(),
            *pos == *old(pos),
            v@ == data@.subrange(*pos as int, *pos + k),
        decreases n - k,
    {
        v.push(*vstd::slice::slice_index_get(data, *pos + k));
        assert(v@ =~= data@.subrange(*pos as int, *pos + k + 1));
        k = k + 1;
    }
    *pos = *pos + n;
    Ok(v)
}

/// Read an out-of-line length at `*pos` through the given length encoding.
fn decode_len_overflow(data: &[u8], pos: &mut usize, lmode: LenMode) -> (r: Result<u64, Error>)
    ensures
        match r {
            Ok(v) => spec_decode_len_overflow(lmode, data@, *old(pos) as int) == Ok::<
                (u64, int),
                Error,
            >((v, *final(pos) as int)) && *old(pos) < *final(pos) <= data@.len(),
            Err(e) => spec_decode_len_overflow(lmode, data@, *old(pos) as int) == Err::<
                (u64, int),
                Error,
            >(e) && *final(pos) == *old(pos),
        },
{
    match lmode {
        LenMode::Variable => cont_decode(data, pos),
        LenMode::Fixed32 => {
            match read_vec(data, pos, 4) {
                Ok(bytes) => {
                    let v = fixed32_value_of(&bytes, ByteOrder::Big);
                    Ok(v as u64)
                },
                Err(e) => Err(e),
            }
        },
        LenMode::Fixed64 => {
            match read_vec(data, pos, 8) {
                Ok(bytes) => {
                    let v = fixed64_value_of(&bytes, ByteOrder::Big);
                    Ok(v)
                },
                Err(e) => Err(e),
            }
        },
    }
}

/// The 32-bit value of four raw bytes in the given byte order.
fn fixed32_value_of(bytes: &Vec<u8>, order: ByteOrder) -> (r: u32)
    requires
        bytes@.len() == 4,
    ensures
        r == spec_fixed32_value(order, bytes@),
{
    let (b0, b1, b2, b3) = match order {
        ByteOrder::Big => (bytes[0], bytes[1], bytes[2], bytes[3]),
        ByteOrder::Little => (bytes[3], bytes[2], bytes[1], bytes[0]),
    };
    0x1000000 * (b0 as u32) + 0x10000 * (b1 as u32) + 0x100 * (b2 as u32) + (b3 as u32)
}

/// The 64-bit value of eight raw bytes in the given byte order.
fn fixed64_value_of(bytes: &Vec<u8>, order: ByteOrder) -> (r: u64)
    requires
        bytes@.len() == 8,
    ensures
        r == spec_fixed64_value(order, bytes@),
{
    let mut head: Vec<u8> = Vec::new();
    let mut tail: Vec<u8> = Vec::new();
    let mut k: usize = 0;
    while k < 4
        invariant
            k <= 4,
            bytes@.len() == 8,
            head@ == bytes@.subrange(0, k as int),
        decreases 4 - k,
    {
        head.push(bytes[k]);
        assert(head@ =~= bytes@.subrange(0, k + 1));
        k = k + 1;
    }
    let mut k2: usize = 4;
    while k2 < 8
        invariant
            4 <= k2 <= 8,
            bytes@.len() == 8,
            tail@ == bytes@.subrange(4, k2 as int),
        decreases 8 - k2,
    {
        tail.push(bytes[k2]);
        assert(tail@ =~= bytes@.subrange(4, k2 + 1));
        k2 = k2 + 1;
    }
    let (hi, lo) = match order {
        ByteOrder::Big => (fixed32_value_of(&head, order), fixed32_value_of(&tail, order)),
        ByteOrder::Little => (fixed32_value_of(&tail, order), fixed32_value_of(&head, order)),
    };
    0x100000000 * (hi as u64) + (lo as u64)
}

/// Read a header of the given kind at `*pos`: the tag's inline data field or
/// the out-of-line value after it.
pub fn decode_header(data: &[u8], pos: &mut usize, kind: Kind, lmode: LenMode) -> (r: Result<
    u64,
    Error,
>)
    ensures
        match r {
            Ok(v) => spec_decode_header(kind, lmode, data@, *old(pos) as int) == Ok::<
                (u64, int),
                Error,
            >((v, *final(pos) as int)) && *old(pos) < *final(pos) <= data@.len(),
            Err(e) => spec_decode_header(kind, lmode, data@, *old(pos) as int) == Err::<
                (u64, int),
                Error,
            >(e) && *final(pos) == *old(pos),
        },
{
    let start: usize = *pos;
    let t = match decode_tag(data, pos) {
        Ok(t) => t,
        Err(e) => {
            return Err(e);
        },
    };
    if t.kind() != kind {
        *pos = start;
        return Err(Error::KindMismatch);
    }
    let raw: u8 = t.data_raw();
    if raw != DATA_MASK {
        Ok(raw as u64)
    } else {
        match decode_len_overflow(data, pos, lmode) {
            Ok(v) => Ok(v),
            Err(e) => {
                *pos = start;
                Err(e)
            },
        }
    }
}

/// Read an unsigned 64-bit value at `*pos`.
pub fn decode_u64(data: &[u8], pos: &mut usize, imode: IntMode) -> (r: Result<u64, Error>)
    ensures
        match r {
            Ok(v) => spec_decode_u64(imode, data@, *old(pos) as int) == Ok::<(u64, int), Error>(
                (v, *final(pos) as int),
            ) && *old(pos) < *final(pos) <= data@.len(),
            Err(e) => spec_decode_u64(imode, data@, *old(pos) as int) == Err::<(u64, int), Error>(e)
                && *final(pos) == *old(pos),
        },
{
    match imode {
        IntMode::Variable => decode_header(data, pos, Kind::Continuation, LenMode::Variable),
        IntMode::Fixed(order) => {
            let start: usize = *pos;
            let t = match decode_tag(data, pos) {
                Ok(t) => t,
                Err(e) => {
                    return Err(e);
                },
            };
            if t.kind() != Kind::Prefix || t.data_raw() != 8 {
                *pos = start;
                return Err(Error::KindMismatch);
            }
            match read_vec(data, pos, 8) {
                Ok(bytes) => Ok(fixed64_value_of(&bytes, order)),
                Err(e) => {
                    *pos = start;
                    Err(e)
                },
            }
        },
    }
}

/// Read an unsigned 32-bit value at `*pos`.
pub fn decode_u32(data: &[u8], pos: &mut usize, imode: IntMode) -> (r: Result<u32, Error>)
    ensures
        match r {
            Ok(v) => spec_decode_u32(imode, data@, *old(pos) as int) == Ok::<(u32, int), Error>(
                (v, *final(pos) as int),
            ) && *old(pos) < *final(pos) <= data@.len(),
            Err(e) => spec_decode_u32(imode, data@, *old(pos) as int) == Err::<(u32, int), Error>(e)
                && *final(pos) == *old(pos),
        },
{
    match imode {
        IntMode::Variable => {
            let start: usize = *pos;
            match decode_header(data, pos, Kind::Continuation, LenMode::Variable) {
                Ok(v) => if v <= u32::MAX as u64 {
                    Ok(v as u32)
                } else {
                    *pos = start;
                    Err(Error::IntegerOverflow)
                },
                Err(e) => Err(e),
            }
        },
        IntMode::Fixed(order) => {
            let start: usize = *pos;
            let t = match decode_tag(data, pos) {
                Ok(t) => t,
                Err(e) => {
                    return Err(e);
                },
            };
            if t.kind() != Kind::Prefix || t.data_raw() != 4 {
                *pos = start;
                return Err(Error::KindMismatch);
            }
            match read_vec(data, pos, 4) {
                Ok(bytes) => Ok(fixed32_value_of(&bytes, order)),
                Err(e) => {
                    *pos = start;
                    Err(e)
                },
            }
        },
    }
}

/// Read a byte-sized value at `*pos`.
pub fn decode_u8(data: &[u8], pos: &mut usize, imode: IntMode) -> (r: Result<u8, Error>)
    ensures
        match r {
            Ok(v) => spec_decode_u8(imode, data@, *old(pos) as int) == Ok::<(u8, int), Error>(
                (v, *final(pos) as int),
            ) && *old(pos) < *final(pos) <= data@.len(),
            Err(e) => spec_decode_u8(imode, data@, *old(pos) as int) == Err::<(u8, int), Error>(e)
                && *final(pos) == *old(pos),
        },
{
    match imode {
        IntMode::Variable => {
            let start: usize = *pos;
            match decode_header(data, pos, Kind::Continuation, LenMode::Variable) {
                Ok(v) => if v <= u8::MAX as u64 {
                    Ok(v as u8)
                } else {
                    *pos = start;
                    Err(Error::IntegerOverflow)
                },
                Err(e) => Err(e),
            }
        },
        IntMode::Fixed(_) => {
            let start: usize = *pos;
            let t = match decode_tag(data, pos) {
                Ok(t) => t,
                Err(e) => {
                    return Err(e);
                },
            };
            if t.kind() != Kind::Prefix || t.data_raw() != 1 {
                *pos = start;
                return Err(Error::KindMismatch);
            }
            if *pos < data.len() {
                let b: u8 = *vstd::slice::slice_index_get(data, *pos);
                *pos = *pos + 1;
                Ok(b)
            } else {
                *pos = start;
                Err(Error::BufferExhausted)
            }
        },
    }
}

/// Read a signed 64-bit value at `*pos` through the zigzag mapping.
pub fn decode_i64(data: &[u8], pos: &mut usize, imode: IntMode) -> (r: Result<i64, Error>)
    ensures
        match r {
            Ok(v) => spec_decode_i64(imode, data@, *old(pos) as int) == Ok::<(i64, int), Error>(
                (v, *final(pos) as int),
            ) && *old(pos) < *final(pos) <= data@.len(),
            Err(e) => spec_decode_i64(imode, data@, *old(pos) as int) == Err::<(i64, int), Error>(e)
                && *final(pos) == *old(pos),
        },
{
    match decode_u64(data, pos, imode) {
        Ok(v) => Ok(unzigzag64(v)),
        Err(e) => Err(e),
    }
}

/// Read a signed 32-bit value at `*pos` through the zigzag mapping.
pub fn decode_i32(data: &[u8], pos: &mut usize, imode: IntMode) -> (r: Result<i32, Error>)
    ensures
        match r {
            Ok(v) => spec_decode_i32(imode, data@, *old(pos) as int) == Ok::<(i32, int), Error>(
                (v, *final(pos) as int),
            ) && *old(pos) < *final(pos) <= data@.len(),
            Err(e) => spec_decode_i32(imode, data@, *old(pos) as int) == Err::<(i32, int), Error>(e)
                && *final(pos) == *old(pos),
        },
{
    match decode_u32(data, pos, imode) {
        Ok(v) => Ok(unzigzag32(v)),
        Err(e) => Err(e),
    }
}

/// Read a boolean at `*pos`.
pub fn decode_bool(data: &[u8], pos: &mut usize) -> (r: Result<bool, Error>)
    ensures
        match r {
            Ok(v) => spec_decode_bool(data@, *old(pos) as int) == Ok::<(bool, int), Error>(
                (v, *final(pos) as int),
            ) && *old(pos) < *final(pos) <= data@.len(),
            Err(e) => spec_decode_bool(data@, *old(pos) as int) == Err::<(bool, int), Error>(e)
                && *final(pos) == *old(pos),
        },
{
    let start: usize = *pos;
    let t = match decode_tag(data, pos) {
        Ok(t) => t,
        Err(e) => {
            return Err(e);
        },
    };
    if t.kind() != Kind::Continuation {
        *pos = start;
        return Err(Error::KindMismatch);
    }
    Ok(t.data_raw() == 1)
}

/// Read a length-prefixed blob at `*pos`.
pub fn decode_bytes(data: &[u8], pos: &mut usize, lmode: LenMode) -> (r: Result<Vec<u8>, Error>)
    ensures
        match r {
            Ok(v) => spec_decode_bytes(lmode, data@, *old(pos) as int) == Ok::<
                (Seq<u8>, int),
                Error,
            >((v@, *final(pos) as int)) && *old(pos) < *final(pos) <= data@.len(),
            Err(e) => spec_decode_bytes(lmode, data@, *old(pos) as int) == Err::<
                (Seq<u8>, int),
                Error,
            >(e) && *final(pos) == *old(pos),
        },
{
    let start: usize = *pos;
    let n = match decode_header(data, pos, Kind::Prefix, lmode) {
        Ok(n) => n,
        Err(e) => {
            return Err(e);
        },
    };
    let remaining: usize = data.len() - *pos;
    if n > remaining as u64 {
        *pos = start;
        return Err(Error::BufferExhausted);
    }
    match read_vec(data, pos, n as usize) {
        Ok(v) => Ok(v),
        Err(e) => {
            *pos = start;
            Err(e)
        },
    }
}

/// Read the element count of a sequence at `*pos`.
pub fn decode_sequence_header(data: &[u8], pos: &mut usize, lmode: LenMode) -> (r: Result<
    u64,
    Error,
>)
    ensures
        match r {
            Ok(v) => spec_decode_sequence_header(lmode, data@, *old(pos) as int) == Ok::<
                (u64, int),
                Error,
            >((v, *final(pos) as int)) && *old(pos) < *final(pos) <= data@.len(),
            Err(e) => spec_decode_sequence_header(lmode, data@, *old(pos) as int) == Err::<
                (u64, int),
                Error,
            >(e) && *final(pos) == *old(pos),
        },
{
    decode_header(data, pos, Kind::Sequence, lmode)
}

/// Read a packed blob at `*pos`, padding included.
pub fn decode_pack(data: &[u8], pos: &mut usize) -> (r: Result<Vec<u8>, Error>)
    ensures
        match r {
            Ok(v) => spec_decode_pack(data@, *old(pos) as int) == Ok::<(Seq<u8>, int), Error>(
                (v@, *final(pos) as int),
            ) && *old(pos) < *final(pos) <= data@.len(),
            Err(e) => spec_decode_pack(data@, *old(pos) as int) == Err::<(Seq<u8>, int), Error>(e)
                && *final(pos) == *old(pos),
        },
{
    let start: usize = *pos;
    let t = match decode_tag(data, pos) {
        Ok(t) => t,
        Err(e) => {
            return Err(e);
        },
    };
    let raw: u8 = t.data_raw();
    let n: u64 = if t.kind() == Kind::Prefix && raw != DATA_MASK {
        raw as u64
    } else if t.kind() == Kind::Pack && raw != DATA_MASK {
        crate::en::pow2_val(raw as u64)
    } else {
        *pos = start;
        return Err(Error::KindMismatch);
    };
    let remaining: usize = data.len() - *pos;
    if n > remaining as u64 {
        *pos = start;
        return Err(Error::BufferExhausted);
    }
    match read_vec(data, pos, n as usize) {
        Ok(v) => Ok(v),
        Err(e) => {
            *pos = start;
            Err(e)
        },
    }
}

/// The index after one whole encoded value at index `i`, whatever its kind:
/// the tag, the out-of-line value or length, the payload, and every nested
/// element of a sequence.
pub open spec fn spec_skip(s: Seq<u8>, i: int, lmode: LenMode) -> Result<int, Error>
    decreases s.len() - i, 0int,
{
    match spec_decode_tag(s, i) {
        Err(e) => Err(e),
        Ok((t, j)) => match t.spec_kind() {
            Kind::Continuation => {
                if t.spec_data_raw() != DATA_MASK {
                    Ok(j)
                } else {
                    match spec_cont_decode(s, j) {
                        Err(e) => Err(e),
                        Ok((v, j2)) => Ok(j2),
                    }
                }
            },
            Kind::Prefix => match spec_decode_bytes(lmode, s, i) {
                Err(e) => Err(e),
                Ok((b, j2)) => Ok(j2),
            },
            Kind::Pack => match spec_decode_pack(s, i) {
                Err(e) => Err(e),
                Ok((b, j2)) => Ok(j2),
            },
            Kind::Sequence => match spec_decode_sequence_header(lmode, s, i) {
                Err(e) => Err(e),
                Ok((n, j2)) => if i < j2 <= s.len() {
                    spec_skip_n(s, j2, n, lmode)
                } else {
                    Err(Error::BufferExhausted)
                },
            },
        },
    }
}

/// The index after `count` whole encoded values starting at index `i`.
pub open spec fn spec_skip_n(s: Seq<u8>, i: int, count: u64, lmode: LenMode) -> Result<int, Error>
    decreases s.len() - i, count,
{
    if count == 0 {
        Ok(i)
    } else {
        match spec_skip(s, i, lmode) {
            Err(e) => Err(e),
            Ok(j) => if i < j <= s.len() {
                spec_skip_n(s, j, (count - 1) as u64, lmode)
            } else {
                Err(Error::BufferExhausted)
            },
        }
    }
}

/// Skip one whole encoded value at `*pos`, nested contents included.
pub fn skip_value(data: &[u8], pos: &mut usize, lmode: LenMode) -> (r: Result<(), Error>)
    ensures
        match r {
            Ok(()) => spec_skip(data@, *old(pos) as int, lmode) == Ok::<int, Error>(
                *final(pos) as int,
            ) && *old(pos) < *final(pos) <= data@.len(),
            Err(e) => spec_skip(data@, *old(pos) as int, lmode) == Err::<int, Error>(e)
                && *final(pos) == *old(pos),
        },
    decreases data@.len() - *old(pos),
{
    let start: usize = *pos;
    let t = match decode_tag(data, pos) {
        Ok(t) => t,
        Err(e) => {
            return Err(e);
        },
    };
    match t.kind() {
        Kind::Continuation => {
            if t.data_raw() != DATA_MASK {
                Ok(())
            } else {
                match cont_decode(data, pos) {
                    Ok(v) => Ok(()),
                    Err(e) => {
                        *pos = start;
                        Err(e)
                    },
                }
            }
        },
        Kind::Prefix => {
            *pos = start;
            match decode_bytes(data, pos, lmode) {
                Ok(b) => Ok(()),
                Err(e) => Err(e),
            }
        },
        Kind::Pack => {
            *pos = start;
            match decode_pack(data, pos) {
                Ok(b) => Ok(()),
                Err(e) => Err(e),
            }
        },
        Kind::Sequence => {
            *pos = start;
            let n = match decode_sequence_header(data, pos, lmode) {
                Ok(n) => n,
                Err(e) => {
                    return Err(e);
                },
            };
            let ghost j2: int = *pos as int;
            let mut k: u64 = 0;
            loop
                invariant
                    0 <= k <= n,
                    start == *old(pos),
                    start < j2 <= data@.len(),
                    j2 <= *pos as int,
                    start < *pos <= data@.len(),
                    spec_decode_sequence_header(lmode, data@, start as int) == Ok::<
                        (u64, int),
                        Error,
                    >((n, j2)),
                    spec_skip_n(data@, j2, n, lmode) == spec_skip_n(
                        data@,
                        *pos as int,
                        (n - k) as u64,
                        lmode,
                    ),
                decreases n - k,
            {
                if k >= n {
                    return Ok(());
                }
                match skip_value(data, pos, lmode) {
                    Ok(()) => {},
                    Err(e) => {
                        *pos = start;
                        return Err(e);
                    },
                }
                k = k + 1;
            }
        },
    }
}

} // verus!
