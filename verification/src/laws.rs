//! Round-trip laws of the wire format.
//!
//! Each lemma states that decoding an encoded value from its position in any
//! larger stream yields the value back and stops exactly after its last
//! byte, whatever bytes follow.

use vstd::prelude::*;

use crate::continuation::{lemma_cont_round_trip, lemma_cont_truncated, spec_cont_encode};
use crate::de::{
    spec_decode_bool, spec_decode_bytes, spec_decode_header, spec_decode_i32, spec_decode_i64,
    spec_decode_pack, spec_decode_sequence_header, spec_decode_u32, spec_decode_u64,
    spec_decode_u8, spec_skip,
};
use crate::en::{
    lemma_pack_exp_ge, lemma_pack_exp_le, spec_encode_bool, spec_encode_bytes, spec_encode_i32,
    spec_encode_i64, spec_encode_pack, spec_encode_u32, spec_encode_u64, spec_encode_u8,
    spec_header, spec_len_encode, spec_pack_exp, spec_pow2, spec_sequence_header, spec_zeros,
    IntMode, LenMode,
};
use crate::error::Error;
use crate::fixed::{
    lemma_fixed32_round_trip, lemma_fixed64_round_trip, spec_fixed32, spec_fixed64, ByteOrder,
};
use crate::tag::{lemma_tag_data_round_trip, Kind, Tag, DATA_MASK};
use crate::zigzag::{
    lemma_zigzag32_round_trip, lemma_zigzag64_round_trip, spec_zigzag32, spec_zigzag64,
};

verus! {

/// A stretch of a stream that equals a concatenation splits into stretches
/// that equal the parts.
pub proof fn lemma_concat_split(s: Seq<u8>, i: int, a: Seq<u8>, b: Seq<u8>)
    requires
        0 <= i,
        i + a.len() + b.len() <= s.len(),
        s.subrange(i, i + a.len() + b.len()) == a + b,
    ensures
        s.subrange(i, i + a.len()) == a,
        s.subrange(i + a.len(), i + a.len() + b.len()) == b,
{
    let ab = s.subrange(i, i + a.len() + b.len());
    assert forall|k: int| 0 <= k < a.len() implies s.subrange(i, i + a.len())[k] == a[k] by {
        assert(s[i + k] == ab[k]);
    }
    assert(s.subrange(i, i + a.len()) =~= a);
    assert forall|k: int| 0 <= k < b.len() implies s.subrange(
        i + a.len(),
        i + a.len() + b.len(),
    )[k] == b[k] by {
        assert(s[i + a.len() + k] == ab[a.len() + k]);
    }
    assert(s.subrange(i + a.len(), i + a.len() + b.len()) =~= b);
}

/// A header decodes back to the value it was written for.
pub proof fn lemma_header_round_trip(kind: Kind, lmode: LenMode, n: u64, s: Seq<u8>, i: int)
    requires
        0 <= i,
        i + spec_header(kind, lmode, n).len() <= s.len(),
        s.subrange(i, i + spec_header(kind, lmode, n).len()) == spec_header(kind, lmode, n),
        lmode is Fixed32 ==> n <= u32::MAX,
    ensures
        spec_decode_header(kind, lmode, s, i) == Ok::<(u64, int), Error>(
            (n, i + spec_header(kind, lmode, n).len()),
        ),
{
    let enc = spec_header(kind, lmode, n);
    if n < DATA_MASK as u64 {
        let t = Tag::spec_new(kind, n as u8);
        assert(s[i] == enc[0]);
        lemma_tag_data_round_trip(kind, n as u8);
    } else {
        let t = Tag::spec_new(kind, DATA_MASK);
        let rest = spec_len_encode(lmode, n);
        lemma_concat_split(s, i, seq![t.spec_byte()], rest);
        assert(s[i] == s.subrange(i, i + 1)[0]);
        lemma_tag_data_round_trip(kind, DATA_MASK);
        let j = i + 1;
        match lmode {
            LenMode::Variable => {
                lemma_cont_round_trip(n, s, j);
            },
            LenMode::Fixed32 => {
                assert(s.subrange(j, j + 4) == spec_fixed32(ByteOrder::Big, n as u32));
                lemma_fixed32_round_trip(ByteOrder::Big, n as u32);
            },
            LenMode::Fixed64 => {
                assert(s.subrange(j, j + 8) == spec_fixed64(ByteOrder::Big, n));
                lemma_fixed64_round_trip(ByteOrder::Big, n);
            },
        }
    }
}

/// An unsigned 64-bit value decodes back to itself.
pub proof fn lemma_u64_round_trip(imode: IntMode, v: u64, s: Seq<u8>, i: int)
    requires
        0 <= i,
        i + spec_encode_u64(imode, v).len() <= s.len(),
        s.subrange(i, i + spec_encode_u64(imode, v).len()) == spec_encode_u64(imode, v),
    ensures
        spec_decode_u64(imode, s, i) == Ok::<(u64, int), Error>(
            (v, i + spec_encode_u64(imode, v).len()),
        ),
{
    match imode {
        IntMode::Variable => {
            lemma_header_round_trip(Kind::Continuation, LenMode::Variable, v, s, i);
        },
        IntMode::Fixed(order) => {
            let t = Tag::spec_new(Kind::Prefix, 8);
            let rest = spec_fixed64(order, v);
            lemma_concat_split(s, i, seq![t.spec_byte()], rest);
            assert(s[i] == s.subrange(i, i + 1)[0]);
            lemma_tag_data_round_trip(Kind::Prefix, 8);
            assert(s.subrange(i + 1, i + 9) == spec_fixed64(order, v));
            lemma_fixed64_round_trip(order, v);
        },
    }
}

/// An unsigned 32-bit value decodes back to itself.
pub proof fn lemma_u32_round_trip(imode: IntMode, v: u32, s: Seq<u8>, i: int)
    requires
        0 <= i,
        i + spec_encode_u32(imode, v).len() <= s.len(),
        s.subrange(i, i + spec_encode_u32(imode, v).len()) == spec_encode_u32(imode, v),
    ensures
        spec_decode_u32(imode, s, i) == Ok::<(u32, int), Error>(
            (v, i + spec_encode_u32(imode, v).len()),
        ),
{
    match imode {
        IntMode::Variable => {
            lemma_header_round_trip(Kind::Continuation, LenMode::Variable, v as u64, s, i);
        },
        IntMode::Fixed(order) => {
            let t = Tag::spec_new(Kind::Prefix, 4);
            let rest = spec_fixed32(order, v);
            lemma_concat_split(s, i, seq![t.spec_byte()], rest);
            assert(s[i] == s.subrange(i, i + 1)[0]);
            lemma_tag_data_round_trip(Kind::Prefix, 4);
            assert(s.subrange(i + 1, i + 5) == spec_fixed32(order, v));
            lemma_fixed32_round_trip(order, v);
        },
    }
}

/// A byte-sized value decodes back to itself.
pub proof fn lemma_u8_round_trip(imode: IntMode, v: u8, s: Seq<u8>, i: int)
    requires
        0 <= i,
        i + spec_encode_u8(imode, v).len() <= s.len(),
        s.subrange(i, i + spec_encode_u8(imode, v).len()) == spec_encode_u8(imode, v),
    ensures
        spec_decode_u8(imode, s, i) == Ok::<(u8, int), Error>(
            (v, i + spec_encode_u8(imode, v).len()),
        ),
{
    match imode {
        IntMode::Variable => {
            lemma_header_round_trip(Kind::Continuation, LenMode::Variable, v as u64, s, i);
        },
        IntMode::Fixed(_) => {
            let t = Tag::spec_new(Kind::Prefix, 1);
            assert(spec_encode_u8(imode, v) =~= seq![t.spec_byte()] + seq![v]);
            lemma_concat_split(s, i, seq![t.spec_byte()], seq![v]);
            assert(s[i] == s.subrange(i, i + 1)[0]);
            assert(s[i + 1] == s.subrange(i + 1, i + 2)[0]);
            lemma_tag_data_round_trip(Kind::Prefix, 1);
        },
    }
}

/// A signed 64-bit value decodes back to itself: the zigzag mapping is
/// undone exactly.
pub proof fn lemma_i64_round_trip(imode: IntMode, v: i64, s: Seq<u8>, i: int)
    requires
        0 <= i,
        i + spec_encode_i64(imode, v).len() <= s.len(),
        s.subrange(i, i + spec_encode_i64(imode, v).len()) == spec_encode_i64(imode, v),
    ensures
        spec_decode_i64(imode, s, i) == Ok::<(i64, int), Error>(
            (v, i + spec_encode_i64(imode, v).len()),
        ),
{
    lemma_u64_round_trip(imode, spec_zigzag64(v), s, i);
    lemma_zigzag64_round_trip(v);
}

/// A signed 32-bit value decodes back to itself: the zigzag mapping is
/// undone exactly.
pub proof fn lemma_i32_round_trip(imode: IntMode, v: i32, s: Seq<u8>, i: int)
    requires
        0 <= i,
        i + spec_encode_i32(imode, v).len() <= s.len(),
        s.subrange(i, i + spec_encode_i32(imode, v).len()) == spec_encode_i32(imode, v),
    ensures
        spec_decode_i32(imode, s, i) == Ok::<(i32, int), Error>(
            (v, i + spec_encode_i32(imode, v).len()),
        ),
{
    lemma_u32_round_trip(imode, spec_zigzag32(v), s, i);
    lemma_zigzag32_round_trip(v);
}

/// A boolean decodes back to itself.
pub proof fn lemma_bool_round_trip(v: bool, s: Seq<u8>, i: int)
    requires
        0 <= i,
        i + spec_encode_bool(v).len() <= s.len(),
        s.subrange(i, i + spec_encode_bool(v).len()) == spec_encode_bool(v),
    ensures
        spec_decode_bool(s, i) == Ok::<(bool, int), Error>((v, i + spec_encode_bool(v).len())),
{
    assert(s[i] == spec_encode_bool(v)[0]);
    lemma_tag_data_round_trip(Kind::Continuation, if v { 1 } else { 0 });
}

/// A length-prefixed blob decodes back to its bytes.
pub proof fn lemma_bytes_round_trip(lmode: LenMode, bytes: Seq<u8>, s: Seq<u8>, i: int)
    requires
        0 <= i,
        i + spec_encode_bytes(lmode, bytes).len() <= s.len(),
        s.subrange(i, i + spec_encode_bytes(lmode, bytes).len()) == spec_encode_bytes(
            lmode,
            bytes,
        ),
        bytes.len() <= u64::MAX,
        lmode is Fixed32 ==> bytes.len() <= u32::MAX,
    ensures
        spec_decode_bytes(lmode, s, i) == Ok::<(Seq<u8>, int), Error>(
            (bytes, i + spec_encode_bytes(lmode, bytes).len()),
        ),
{
    let h = spec_header(Kind::Prefix, lmode, bytes.len() as u64);
    lemma_concat_split(s, i, h, bytes);
    lemma_header_round_trip(Kind::Prefix, lmode, bytes.len() as u64, s, i);
}

/// A sequence header decodes back to its element count.
pub proof fn lemma_sequence_header_round_trip(lmode: LenMode, n: u64, s: Seq<u8>, i: int)
    requires
        0 <= i,
        i + spec_sequence_header(lmode, n).len() <= s.len(),
        s.subrange(i, i + spec_sequence_header(lmode, n).len()) == spec_sequence_header(lmode, n),
        lmode is Fixed32 ==> n <= u32::MAX,
    ensures
        spec_decode_sequence_header(lmode, s, i) == Ok::<(u64, int), Error>(
            (n, i + spec_sequence_header(lmode, n).len()),
        ),
{
    lemma_header_round_trip(Kind::Sequence, lmode, n, s, i);
}

/// A packed blob decodes back to its bytes followed by its zero padding: a
/// short one comes back exactly, a long one padded to the power of two its
/// tag names.
pub proof fn lemma_pack_round_trip(bytes: Seq<u8>, s: Seq<u8>, i: int)
    requires
        0 <= i,
        bytes.len() <= 0x4000000000000000,
        i + spec_encode_pack(bytes).len() <= s.len(),
        s.subrange(i, i + spec_encode_pack(bytes).len()) == spec_encode_pack(bytes),
    ensures
        bytes.len() < DATA_MASK as nat ==> spec_decode_pack(s, i) == Ok::<(Seq<u8>, int), Error>(
            (bytes, i + spec_encode_pack(bytes).len()),
        ),
        bytes.len() >= DATA_MASK as nat ==> spec_decode_pack(s, i) == Ok::<(Seq<u8>, int), Error>(
            (
                bytes + spec_zeros((spec_pow2(spec_pack_exp(bytes.len())) - bytes.len()) as nat),
                i + spec_encode_pack(bytes).len(),
            ),
        ),
{
    if bytes.len() < DATA_MASK as nat {
        let t = Tag::spec_new(Kind::Prefix, bytes.len() as u8);
        lemma_concat_split(s, i, seq![t.spec_byte()], bytes);
        assert(s[i] == s.subrange(i, i + 1)[0]);
        lemma_tag_data_round_trip(Kind::Prefix, bytes.len() as u8);
    } else {
        let p = spec_pack_exp(bytes.len());
        assert(spec_pow2(62) == 0x4000000000000000) by {
            crate::en::lemma_pow2_62_pub();
        }
        lemma_pack_exp_le(bytes.len(), 62);
        lemma_pack_exp_ge(bytes.len());
        let t = Tag::spec_new(Kind::Pack, p as u8);
        let payload = bytes + spec_zeros((spec_pow2(p) - bytes.len()) as nat);
        assert(seq![t.spec_byte()] + bytes + spec_zeros((spec_pow2(p) - bytes.len()) as nat)
            =~= seq![t.spec_byte()] + payload);
        lemma_concat_split(s, i, seq![t.spec_byte()], payload);
        assert(s[i] == s.subrange(i, i + 1)[0]);
        lemma_tag_data_round_trip(Kind::Pack, p as u8);
    }
}

/// Truncated input: a stream that ends before the payload a blob's header
/// claims, or inside the header itself, fails to decode with an exhausted
/// buffer. Nothing is read out of bounds: decoding is total on every input.
pub proof fn lemma_bytes_truncated(lmode: LenMode, bytes: Seq<u8>, s: Seq<u8>, i: int)
    requires
        0 <= i <= s.len(),
        bytes.len() <= u64::MAX,
        lmode is Fixed32 ==> bytes.len() <= u32::MAX,
        s.len() < i + spec_encode_bytes(lmode, bytes).len(),
        s.subrange(i, s.len() as int) == spec_encode_bytes(lmode, bytes).subrange(0, s.len() - i),
    ensures
        (spec_decode_bytes(lmode, s, i) == Err::<(Seq<u8>, int), Error>(Error::BufferExhausted)),
{
    let enc = spec_encode_bytes(lmode, bytes);
    let h = spec_header(Kind::Prefix, lmode, bytes.len() as u64);
    let avail = s.len() - i;
    if avail == 0 {
    } else {
        assert(s[i] == enc[0]) by {
            assert(s[i] == s.subrange(i, s.len() as int)[0]);
        }
        if bytes.len() < DATA_MASK as nat {
            lemma_tag_data_round_trip(Kind::Prefix, bytes.len() as u8);
            assert(spec_decode_header(Kind::Prefix, lmode, s, i) == Ok::<(u64, int), Error>(
                (bytes.len() as u64, i + 1),
            ));
        } else {
            lemma_tag_data_round_trip(Kind::Prefix, DATA_MASK);
            let le = spec_len_encode(lmode, bytes.len() as u64);
            assert(enc[0] == h[0]);
            if avail < 1 + le.len() {
                assert(s.subrange(i + 1, s.len() as int) =~= le.subrange(0, s.len() - (i + 1)))
                    by {
                    assert forall|k: int| 0 <= k < s.len() - (i + 1) implies #[trigger] s.subrange(
                        i + 1,
                        s.len() as int,
                    )[k] == le.subrange(0, s.len() - (i + 1))[k] by {
                        assert(s[i + 1 + k] == s.subrange(i, s.len() as int)[1 + k]);
                        assert(enc[1 + k] == h[1 + k]);
                        assert(h[1 + k] == le[k]);
                    }
                }
                match lmode {
                    LenMode::Variable => {
                        lemma_cont_truncated(bytes.len() as u64, s, i + 1);
                    },
                    LenMode::Fixed32 => {
                    },
                    LenMode::Fixed64 => {
                    },
                }
            } else {
                assert(s.subrange(i, i + h.len()) =~= h) by {
                    assert forall|k: int| 0 <= k < h.len() implies #[trigger] s.subrange(
                        i,
                        i + h.len(),
                    )[k] == h[k] by {
                        assert(s[i + k] == s.subrange(i, s.len() as int)[k]);
                        assert(enc[k] == h[k]);
                    }
                }
                lemma_header_round_trip(Kind::Prefix, lmode, bytes.len() as u64, s, i);
            }
        }
    }
}

/// An unknown numerical field is passed over exactly: skipping at the start
/// of an encoded value ends right after its last byte, so whatever follows
/// it decodes unchanged.
pub proof fn lemma_skip_u64(imode: IntMode, lmode: LenMode, v: u64, s: Seq<u8>, i: int)
    requires
        0 <= i,
        i + spec_encode_u64(imode, v).len() <= s.len(),
        s.subrange(i, i + spec_encode_u64(imode, v).len()) == spec_encode_u64(imode, v),
    ensures
        spec_skip(s, i, lmode) == Ok::<int, Error>(i + spec_encode_u64(imode, v).len()),
{
    match imode {
        IntMode::Variable => {
            let enc = spec_header(Kind::Continuation, LenMode::Variable, v);
            if v < DATA_MASK as u64 {
                assert(s[i] == enc[0]);
                lemma_tag_data_round_trip(Kind::Continuation, v as u8);
            } else {
                let t = Tag::spec_new(Kind::Continuation, DATA_MASK);
                lemma_concat_split(s, i, seq![t.spec_byte()], spec_cont_encode(v));
                assert(s[i] == s.subrange(i, i + 1)[0]);
                lemma_tag_data_round_trip(Kind::Continuation, DATA_MASK);
                lemma_cont_round_trip(v, s, i + 1);
            }
        },
        IntMode::Fixed(order) => {
            let t = Tag::spec_new(Kind::Prefix, 8);
            lemma_concat_split(s, i, seq![t.spec_byte()], spec_fixed64(order, v));
            assert(s[i] == s.subrange(i, i + 1)[0]);
            lemma_tag_data_round_trip(Kind::Prefix, 8);
            assert(spec_decode_header(Kind::Prefix, lmode, s, i) == Ok::<(u64, int), Error>(
                (8, i + 1),
            ));
        },
    }
}

/// An unknown blob field is passed over exactly.
pub proof fn lemma_skip_bytes(lmode: LenMode, bytes: Seq<u8>, s: Seq<u8>, i: int)
    requires
        0 <= i,
        bytes.len() <= u64::MAX,
        lmode is Fixed32 ==> bytes.len() <= u32::MAX,
        i + spec_encode_bytes(lmode, bytes).len() <= s.len(),
        s.subrange(i, i + spec_encode_bytes(lmode, bytes).len()) == spec_encode_bytes(
            lmode,
            bytes,
        ),
    ensures
        spec_skip(s, i, lmode) == Ok::<int, Error>(i + spec_encode_bytes(lmode, bytes).len()),
{
    lemma_bytes_round_trip(lmode, bytes, s, i);
    let h = spec_header(Kind::Prefix, lmode, bytes.len() as u64);
    assert(s[i] == spec_encode_bytes(lmode, bytes)[0]);
    if bytes.len() < DATA_MASK as nat {
        lemma_tag_data_round_trip(Kind::Prefix, bytes.len() as u8);
    } else {
        lemma_tag_data_round_trip(Kind::Prefix, DATA_MASK);
    }
}

/// An unknown packed field is passed over exactly, padding included.
pub proof fn lemma_skip_pack(lmode: LenMode, bytes: Seq<u8>, s: Seq<u8>, i: int)
    requires
        0 <= i,
        bytes.len() <= 0x4000000000000000,
        i + spec_encode_pack(bytes).len() <= s.len(),
        s.subrange(i, i + spec_encode_pack(bytes).len()) == spec_encode_pack(bytes),
    ensures
        spec_skip(s, i, lmode) == Ok::<int, Error>(i + spec_encode_pack(bytes).len()),
{
    lemma_pack_round_trip(bytes, s, i);
    assert(s[i] == spec_encode_pack(bytes)[0]);
    if bytes.len() < DATA_MASK as nat {
        lemma_tag_data_round_trip(Kind::Prefix, bytes.len() as u8);
    } else {
        assert(spec_pow2(62) == 0x4000000000000000) by {
            crate::en::lemma_pow2_62_pub();
        }
        lemma_pack_exp_le(bytes.len(), 62);
        lemma_tag_data_round_trip(Kind::Pack, spec_pack_exp(bytes.len()) as u8);
    }
}

/// Packed framing: a short blob is framed by one prefix tag byte embedding
/// its exact length; a long one by one pack tag byte naming an exponent,
/// with the payload padded to that power of two.
pub proof fn lemma_pack_framing(bytes: Seq<u8>)
    requires
        bytes.len() <= 0x4000000000000000,
    ensures
        bytes.len() < DATA_MASK as nat ==> spec_encode_pack(bytes).len() == 1 + bytes.len()
            && spec_encode_pack(bytes)[0] == Tag::spec_new(
            Kind::Prefix,
            bytes.len() as u8,
        ).spec_byte(),
        bytes.len() >= DATA_MASK as nat ==> spec_encode_pack(bytes).len() == 1 + spec_pow2(
            spec_pack_exp(bytes.len()),
        ) && spec_encode_pack(bytes)[0] == Tag::spec_new(
            Kind::Pack,
            spec_pack_exp(bytes.len()) as u8,
        ).spec_byte() && spec_pow2(spec_pack_exp(bytes.len())) >= bytes.len(),
{
    if bytes.len() >= DATA_MASK as nat {
        lemma_pack_exp_ge(bytes.len());
    }
}

/// The pack exponent is minimal: the next smaller power of two would not
/// hold the payload.
pub proof fn lemma_pack_exp_minimal(len: nat)
    requires
        len >= 2,
    ensures
        spec_pack_exp(len) >= 1,
        spec_pow2((spec_pack_exp(len) - 1) as nat) < len,
    decreases len,
{
    let half = ((len + 1) / 2) as nat;
    if half <= 1 {
    } else {
        lemma_pack_exp_minimal(half);
    }
}

} // verus!
