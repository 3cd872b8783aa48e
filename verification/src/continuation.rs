//! Continuation-encoded integers.
//!
//! A value is written in groups of 7 bits, lowest group first, one group per
//! byte. The most significant bit of each byte is a continuation flag: set on
//! every byte but the last. Decoding reads bytes while the flag is set, and
//! fails if the input ends mid-sequence or the accumulated bits would exceed
//! the 64-bit target width.

use vstd::prelude::*;

use crate::error::Error;

verus! {

/// The bytes a value is continuation-encoded to.
pub open spec fn spec_cont_encode(v: u64) -> Seq<u8>
    decreases v,
    via spec_cont_encode_decreases
{
    if v < 0x80 {
        seq![v as u8]
    } else {
        seq![((v & 0x7f) | 0x80) as u8] + spec_cont_encode(v >> 7)
    }
}

#[via_fn]
proof fn spec_cont_encode_decreases(v: u64) {
    assert(v >= 0x80 ==> v >> 7 < v) by (bit_vector);
}

/// The result of continuation-decoding at index `i` of `s`, with `acc`
/// holding the bits already read below `shift`. On success: the value and the
/// index of the first byte after it.
pub open spec fn spec_cont_decode_at(s: Seq<u8>, i: int, shift: u64, acc: u64) -> Result<
    (u64, int),
    Error,
>
    decreases s.len() - i,
{
    if i < 0 || i >= s.len() {
        Err(Error::BufferExhausted)
    } else {
        let b = s[i];
        let low = (b as u64) & 0x7f;
        if shift >= 64 || (low << shift) >> shift != low {
            Err(Error::IntegerOverflow)
        } else {
            let acc2 = acc | (low << shift);
            if b < 0x80 {
                Ok((acc2, i + 1))
            } else {
                spec_cont_decode_at(s, i + 1, (shift + 7) as u64, acc2)
            }
        }
    }
}

/// The result of continuation-decoding a fresh value at index `i` of `s`.
pub open spec fn spec_cont_decode(s: Seq<u8>, i: int) -> Result<(u64, int), Error> {
    spec_cont_decode_at(s, i, 0, 0)
}

/// Append the continuation encoding of `v` to `out`.
pub fn cont_encode(out: &mut Vec<u8>, v: u64)
    ensures
        final(out)@ == old(out)@ + spec_cont_encode(v),
{
    let mut cur: u64 = v;
    while cur >= 0x80
        invariant
            out@ + spec_cont_encode(cur) == old(out)@ + spec_cont_encode(v),
        decreases cur,
    {
        let b: u8 = ((cur & 0x7f) | 0x80) as u8;
        out.push(b);
        proof {
            assert(cur >= 0x80 ==> cur >> 7 < cur) by (bit_vector);
            assert(spec_cont_encode(cur) == seq![b] + spec_cont_encode(cur >> 7));
            assert(out@ + spec_cont_encode(cur >> 7) =~= old(out)@ + spec_cont_encode(v));
        }
        cur = cur >> 7;
    }
    out.push(cur as u8);
    assert(out@ =~= old(out)@ + spec_cont_encode(v));
}

/// Continuation-decode a value from `data` starting at `*pos`.
///
/// On success the value is returned and `*pos` is advanced past it; on
/// failure `*pos` is unchanged and the error says whether the input ended
/// mid-sequence or the value exceeds 64 bits.
pub fn cont_decode(data: &[u8], pos: &mut usize) -> (r: Result<u64, Error>)
    ensures
        match r {
            Ok(v) => spec_cont_decode(data@, *old(pos) as int) == Ok::<(u64, int), Error>(
                (v, *final(pos) as int),
            ) && *old(pos) < *final(pos) <= data@.len(),
            Err(e) => spec_cont_decode(data@, *old(pos) as int) == Err::<(u64, int), Error>(e)
                && *final(pos) == *old(pos),
        },
{
    let mut i: usize = *pos;
    let mut shift: u64 = 0;
    let mut acc: u64 = 0;
    loop
        invariant
            spec_cont_decode(data@, *old(pos) as int) == spec_cont_decode_at(
                data@,
                i as int,
                shift,
                acc,
            ),
            *pos == *old(pos),
            *old(pos) <= i,
        decreases data@.len() - i,
    {
        if i >= data.len() {
            return Err(Error::BufferExhausted);
        }
        let b: u8 = *vstd::slice::slice_index_get(data, i);
        let low: u64 = (b as u64) & 0x7f;
        if shift >= 64 || (low << shift) >> shift != low {
            return Err(Error::IntegerOverflow);
        }
        acc = acc | (low << shift);
        if b < 0x80 {
            *pos = i + 1;
            return Ok(acc);
        }
        i = i + 1;
        shift = shift + 7;
    }
}

/// Decoding a continuation encoding from any position where it appears in a
/// stream, with `shift` bits already consumed into `acc`, yields the encoded
/// value merged into the accumulator.
proof fn lemma_cont_decode_encode_at(v: u64, s: Seq<u8>, i: int, shift: u64, acc: u64)
    requires
        0 <= i,
        i + spec_cont_encode(v).len() <= s.len(),
        s.subrange(i, i + spec_cont_encode(v).len()) == spec_cont_encode(v),
        shift < 64,
        v <= (u64::MAX >> shift),
    ensures
        spec_cont_decode_at(s, i, shift, acc) == Ok::<(u64, int), Error>(
            ((acc | (v << shift)) as u64, i + spec_cont_encode(v).len()),
        ),
    decreases v,
{
    let enc = spec_cont_encode(v);
    let b: u8 = s[i];
    assert(b == enc[0]);
    if v < 0x80 {
        assert(b == v as u8);
        let low: u64 = (b as u64) & 0x7f;
        assert(low == v && (low << shift) >> shift == low) by (bit_vector)
            requires
                b == v as u8,
                v < 0x80,
                low == (b as u64) & 0x7f,
                shift < 64,
                v <= (u64::MAX >> shift),
        ;
    } else {
        assert(b == ((v & 0x7f) | 0x80) as u8);
        let low: u64 = (b as u64) & 0x7f;
        let v2: u64 = v >> 7;
        let shift2: u64 = (shift + 7) as u64;
        assert(low == (v & 0x7f) && b >= 0x80 && (low << shift) >> shift == low && shift <= 56
            && v2 <= (u64::MAX >> shift2)) by (bit_vector)
            requires
                b == ((v & 0x7f) | 0x80) as u8,
                v >= 0x80,
                low == (b as u64) & 0x7f,
                v2 == v >> 7,
                shift2 == (shift + 7) as u64,
                shift < 64,
                v <= (u64::MAX >> shift),
        ;
        let acc2: u64 = (acc | (low << shift)) as u64;
        let enc2 = spec_cont_encode(v2);
        assert(enc == seq![b] + enc2);
        assert(s.subrange(i + 1, i + 1 + enc2.len()) =~= enc2) by {
            assert forall|k: int| 0 <= k < enc2.len() implies s.subrange(
                i + 1,
                i + 1 + enc2.len(),
            )[k] == enc2[k] by {
                assert(s[i + 1 + k] == s.subrange(i, i + enc.len())[1 + k]);
            }
        }
        assert(v2 < v) by (bit_vector)
            requires
                v2 == v >> 7,
                v >= 0x80,
        ;
        lemma_cont_decode_encode_at(v2, s, i + 1, shift2, acc2);
        assert((acc2 | (v2 << shift2)) == (acc | (v << shift))) by (bit_vector)
            requires
                acc2 == (acc | ((v & 0x7f) << shift)) as u64,
                v2 == v >> 7,
                shift2 == (shift + 7) as u64,
                shift <= 56,
        ;
    }
}

/// Continuation round trip: decoding an encoded value from its position in
/// any larger stream yields the value back and stops right after it.
pub proof fn lemma_cont_round_trip(v: u64, s: Seq<u8>, i: int)
    requires
        0 <= i,
        i + spec_cont_encode(v).len() <= s.len(),
        s.subrange(i, i + spec_cont_encode(v).len()) == spec_cont_encode(v),
    ensures
        spec_cont_decode(s, i) == Ok::<(u64, int), Error>((v, i + spec_cont_encode(v).len())),
{
    assert(v <= (u64::MAX >> 0u64)) by (bit_vector);
    lemma_cont_decode_encode_at(v, s, i, 0, 0);
    assert((0u64 | (v << 0u64)) == v) by (bit_vector);
}


/// Decoding from a stream that ends inside a continuation encoding, with
/// `shift` bits already consumed, reports an exhausted buffer.
proof fn lemma_cont_truncated_at(v: u64, s: Seq<u8>, i: int, shift: u64, acc: u64)
    requires
        0 <= i <= s.len(),
        s.len() < i + spec_cont_encode(v).len(),
        s.subrange(i, s.len() as int) == spec_cont_encode(v).subrange(0, s.len() - i),
        shift < 64,
        v <= (u64::MAX >> shift),
    ensures
        spec_cont_decode_at(s, i, shift, acc) == Err::<(u64, int), Error>(Error::BufferExhausted),
    decreases v,
{
    let enc = spec_cont_encode(v);
    if i == s.len() {
    } else {
        let b: u8 = s[i];
        assert(b == enc[0]) by {
            assert(s[i] == s.subrange(i, s.len() as int)[0]);
        }
        assert(v >= 0x80) by {
            if v < 0x80 {
                assert(enc.len() == 1);
            }
        }
        assert(b == ((v & 0x7f) | 0x80) as u8);
        let low: u64 = (b as u64) & 0x7f;
        let v2: u64 = v >> 7;
        let shift2: u64 = (shift + 7) as u64;
        assert(b >= 0x80 && (low << shift) >> shift == low && shift <= 56 && v2 <= (u64::MAX
            >> shift2) && v2 < v) by (bit_vector)
            requires
                b == ((v & 0x7f) | 0x80) as u8,
                v >= 0x80,
                low == (b as u64) & 0x7f,
                v2 == v >> 7,
                shift2 == (shift + 7) as u64,
                shift < 64,
                v <= (u64::MAX >> shift),
        ;
        let enc2 = spec_cont_encode(v2);
        assert(enc == seq![b] + enc2);
        assert(s.subrange(i + 1, s.len() as int) =~= enc2.subrange(0, s.len() - (i + 1))) by {
            assert forall|k: int| 0 <= k < s.len() - (i + 1) implies #[trigger] s.subrange(
                i + 1,
                s.len() as int,
            )[k] == enc2.subrange(0, s.len() - (i + 1))[k] by {
                assert(s[i + 1 + k] == s.subrange(i, s.len() as int)[1 + k]);
                assert(enc[1 + k] == enc2[k]);
            }
        }
        lemma_cont_truncated_at(v2, s, i + 1, shift2, (acc | (low << shift)) as u64);
    }
}

/// Decoding from a stream that ends inside a continuation encoding reports
/// an exhausted buffer: the input ended mid-sequence.
pub proof fn lemma_cont_truncated(v: u64, s: Seq<u8>, i: int)
    requires
        0 <= i <= s.len(),
        s.len() < i + spec_cont_encode(v).len(),
        s.subrange(i, s.len() as int) == spec_cont_encode(v).subrange(0, s.len() - i),
    ensures
        spec_cont_decode(s, i) == Err::<(u64, int), Error>(Error::BufferExhausted),
{
    assert(v <= (u64::MAX >> 0u64)) by (bit_vector);
    lemma_cont_truncated_at(v, s, i, 0, 0);
}
} // verus!
