//! The wire encoder.
//!
//! Every value starts with a [`Tag`] byte. Small values and short lengths are
//! embedded in the tag's data field; anything larger follows the tag, written
//! by the configured integer or length encoding. The functions here append
//! bytes to a `Vec<u8>` sink and state the exact bytes they produce.

use vstd::prelude::*;

use crate::continuation::{cont_encode, spec_cont_encode};
use crate::fixed::{fixed32_encode, fixed64_encode, spec_fixed32, spec_fixed64, ByteOrder};
use crate::tag::{Kind, Tag, DATA_MASK};
use crate::zigzag::{spec_zigzag32, spec_zigzag64, zigzag32, zigzag64};

verus! {

/// How numerical values are written: continuation-encoded, or as raw
/// fixed-width bytes in a chosen byte order.
#[derive(Debug, Clone, Copy, PartialEq, Eq, Structural)]
pub enum IntMode {
    Variable,
    Fixed(ByteOrder),
}

/// How lengths that do not fit a tag's data field are written:
/// continuation-encoded, or as fixed 32-bit or 64-bit network-order bytes.
#[derive(Debug, Clone, Copy, PartialEq, Eq, Structural)]
pub enum LenMode {
    Variable,
    Fixed32,
    Fixed64,
}

/// A sequence of `n` zero bytes.
pub open spec fn spec_zeros(n: nat) -> Seq<u8> {
    Seq::new(n, |i: int| 0u8)
}

/// Two to the power `p`.
pub open spec fn spec_pow2(p: nat) -> nat
    decreases p,
{
    if p == 0 {
        1
    } else {
        2 * spec_pow2((p - 1) as nat)
    }
}

/// The smallest exponent whose power of two is at least `len`.
pub open spec fn spec_pack_exp(len: nat) -> nat
    decreases len,
{
    if len <= 1 {
        0
    } else {
        1 + spec_pack_exp(((len + 1) / 2) as nat)
    }
}

/// The bytes of a length written through the given length encoding.
pub open spec fn spec_len_encode(lmode: LenMode, n: u64) -> Seq<u8> {
    match lmode {
        LenMode::Variable => spec_cont_encode(n),
        LenMode::Fixed32 => spec_fixed32(ByteOrder::Big, n as u32),
        LenMode::Fixed64 => spec_fixed64(ByteOrder::Big, n),
    }
}

/// The bytes of a header: a tag of the given kind whose data field holds `n`
/// when it fits, else the reserved marker followed by `n` in the length
/// encoding.
pub open spec fn spec_header(kind: Kind, lmode: LenMode, n: u64) -> Seq<u8> {
    if n < DATA_MASK as u64 {
        seq![Tag::spec_new(kind, n as u8).spec_byte()]
    } else {
        seq![Tag::spec_new(kind, DATA_MASK).spec_byte()] + spec_len_encode(lmode, n)
    }
}

/// The bytes of an unsigned 64-bit value: a continuation tag with the value
/// embedded or following it, or a prefix tag and eight raw bytes.
pub open spec fn spec_encode_u64(imode: IntMode, v: u64) -> Seq<u8> {
    match imode {
        IntMode::Variable => spec_header(Kind::Continuation, LenMode::Variable, v),
        IntMode::Fixed(order) => seq![Tag::spec_new(Kind::Prefix, 8).spec_byte()] + spec_fixed64(
            order,
            v,
        ),
    }
}

/// The bytes of an unsigned 32-bit value.
pub open spec fn spec_encode_u32(imode: IntMode, v: u32) -> Seq<u8> {
    match imode {
        IntMode::Variable => spec_header(Kind::Continuation, LenMode::Variable, v as u64),
        IntMode::Fixed(order) => seq![Tag::spec_new(Kind::Prefix, 4).spec_byte()] + spec_fixed32(
            order,
            v,
        ),
    }
}

/// The bytes of a byte-sized value: a continuation tag with the value
/// embedded or following it, or a prefix tag and the raw byte.
pub open spec fn spec_encode_u8(imode: IntMode, v: u8) -> Seq<u8> {
    match imode {
        IntMode::Variable => spec_header(Kind::Continuation, LenMode::Variable, v as u64),
        IntMode::Fixed(_) => seq![Tag::spec_new(Kind::Prefix, 1).spec_byte(), v],
    }
}

/// The bytes of a signed 64-bit value: its zigzag image, encoded unsigned.
pub open spec fn spec_encode_i64(imode: IntMode, v: i64) -> Seq<u8> {
    spec_encode_u64(imode, spec_zigzag64(v))
}

/// The bytes of a signed 32-bit value: its zigzag image, encoded unsigned.
pub open spec fn spec_encode_i32(imode: IntMode, v: i32) -> Seq<u8> {
    spec_encode_u32(imode, spec_zigzag32(v))
}

/// The bytes of a boolean: a continuation tag holding zero or one.
pub open spec fn spec_encode_bool(v: bool) -> Seq<u8> {
    seq![Tag::spec_new(Kind::Continuation, if v { 1 } else { 0 }).spec_byte()]
}

/// The bytes of a length-prefixed blob: a prefix header and the raw bytes.
pub open spec fn spec_encode_bytes(lmode: LenMode, bytes: Seq<u8>) -> Seq<u8> {
    spec_header(Kind::Prefix, lmode, bytes.len() as u64) + bytes
}

/// The header of a sequence of `n` typed values.
pub open spec fn spec_sequence_header(lmode: LenMode, n: u64) -> Seq<u8> {
    spec_header(Kind::Sequence, lmode, n)
}

/// The bytes of a packed blob. A short one is framed like a prefix blob with
/// the length inline; a longer one gets a pack tag whose data field holds the
/// exponent of the next power of two, and the payload is zero-padded to that
/// size.
pub open spec fn spec_encode_pack(bytes: Seq<u8>) -> Seq<u8> {
    if bytes.len() < DATA_MASK as nat {
        seq![Tag::spec_new(Kind::Prefix, bytes.len() as u8).spec_byte()] + bytes
    } else {
        let p = spec_pack_exp(bytes.len() as nat);
        seq![Tag::spec_new(Kind::Pack, p as u8).spec_byte()] + bytes + spec_zeros(
            (spec_pow2(p) - bytes.len()) as nat,
        )
    }
}

/// A power of two is at least as large as what it was chosen for.
pub proof fn lemma_pack_exp_ge(len: nat)
    ensures
        spec_pow2(spec_pack_exp(len)) >= len,
    decreases len,
{
    if len > 1 {
        lemma_pack_exp_ge(((len + 1) / 2) as nat);
    }
}

/// A length below a power of two needs at most that exponent.
pub proof fn lemma_pack_exp_le(len: nat, k: nat)
    requires
        len <= spec_pow2(k),
    ensures
        spec_pack_exp(len) <= k,
    decreases len,
{
    if len > 1 {
        assert(k >= 1) by {
            if k == 0 {
                assert(spec_pow2(0) == 1);
            }
        }
        assert(spec_pow2(k) == 2 * spec_pow2((k - 1) as nat));
        lemma_pack_exp_le(((len + 1) / 2) as nat, (k - 1) as nat);
    }
}

/// Powers of two do not decrease with the exponent.
pub proof fn lemma_pow2_mono(a: nat, b: nat)
    requires
        a <= b,
    ensures
        spec_pow2(a) <= spec_pow2(b),
    decreases b,
{
    if a < b {
        lemma_pow2_mono(a, (b - 1) as nat);
    }
}

/// A power of two as a 64-bit shift, for exponents that fit.
proof fn lemma_pow2_u64(k: u64)
    requires
        k <= 62,
    ensures
        spec_pow2(k as nat) == (1u64 << k) as nat,
    decreases k,
{
    if k == 0 {
        assert(1u64 << 0u64 == 1) by (bit_vector);
    } else {
        let k1: u64 = (k - 1) as u64;
        lemma_pow2_u64(k1);
        assert(2 * (1u64 << k1) == 1u64 << k) by (bit_vector)
            requires
                k1 == (k - 1) as u64,
                1 <= k <= 62,
        ;
    }
}

/// The largest power of two the pack framing can name.
pub proof fn lemma_pow2_62_pub()
    ensures
        spec_pow2(62) == 0x4000000000000000,
{
    lemma_pow2_62();
}

proof fn lemma_pow2_62()
    ensures
        spec_pow2(62) == 0x4000000000000000,
{
    lemma_pow2_u64(62);
    assert(1u64 << 62u64 == 0x4000000000000000) by (bit_vector);
}

/// Append the header for `n` of the given kind to `out`.
pub fn encode_header(out: &mut Vec<u8>, kind: Kind, lmode: LenMode, n: u64)
    requires
        lmode is Fixed32 ==> n <= u32::MAX,
    ensures
        final(out)@ == old(out)@ + spec_header(kind, lmode, n),
{
    if n < DATA_MASK as u64 {
        let t = Tag::new(kind, n as u8);
        out.push(t.byte());
        assert(out@ =~= old(out)@ + spec_header(kind, lmode, n));
    } else {
        let t = Tag::new(kind, DATA_MASK);
        out.push(t.byte());
        match lmode {
            LenMode::Variable => cont_encode(out, n),
            LenMode::Fixed32 => fixed32_encode(out, ByteOrder::Big, n as u32),
            LenMode::Fixed64 => fixed64_encode(out, ByteOrder::Big, n),
        }
        assert(out@ =~= old(out)@ + spec_header(kind, lmode, n));
    }
}

/// Append an unsigned 64-bit value to `out`.
pub fn encode_u64(out: &mut Vec<u8>, imode: IntMode, v: u64)
    ensures
        final(out)@ == old(out)@ + spec_encode_u64(imode, v),
{
    match imode {
        IntMode::Variable => encode_header(out, Kind::Continuation, LenMode::Variable, v),
        IntMode::Fixed(order) => {
            let t = Tag::new(Kind::Prefix, 8);
            out.push(t.byte());
            fixed64_encode(out, order, v);
            assert(out@ =~= old(out)@ + spec_encode_u64(imode, v));
        },
    }
}

/// Append an unsigned 32-bit value to `out`.
pub fn encode_u32(out: &mut Vec<u8>, imode: IntMode, v: u32)
    ensures
        final(out)@ == old(out)@ + spec_encode_u32(imode, v),
{
    match imode {
        IntMode::Variable => {
            encode_header(out, Kind::Continuation, LenMode::Variable, v as u64);
            assert(out@ =~= old(out)@ + spec_encode_u32(imode, v));
        },
        IntMode::Fixed(order) => {
            let t = Tag::new(Kind::Prefix, 4);
            out.push(t.byte());
            fixed32_encode(out, order, v);
            assert(out@ =~= old(out)@ + spec_encode_u32(imode, v));
        },
    }
}

/// Append a byte-sized value to `out`.
pub fn encode_u8(out: &mut Vec<u8>, imode: IntMode, v: u8)
    ensures
        final(out)@ == old(out)@ + spec_encode_u8(imode, v),
{
    match imode {
        IntMode::Variable => {
            encode_header(out, Kind::Continuation, LenMode::Variable, v as u64);
            assert(out@ =~= old(out)@ + spec_encode_u8(imode, v));
        },
        IntMode::Fixed(_) => {
            let t = Tag::new(Kind::Prefix, 1);
            out.push(t.byte());
            out.push(v);
            assert(out@ =~= old(out)@ + spec_encode_u8(imode, v));
        },
    }
}

/// Append a signed 64-bit value to `out` through the zigzag mapping.
pub fn encode_i64(out: &mut Vec<u8>, imode: IntMode, v: i64)
    ensures
        final(out)@ == old(out)@ + spec_encode_i64(imode, v),
{
    let z = zigzag64(v);
    encode_u64(out, imode, z);
}

/// Append a signed 32-bit value to `out` through the zigzag mapping.
pub fn encode_i32(out: &mut Vec<u8>, imode: IntMode, v: i32)
    ensures
        final(out)@ == old(out)@ + spec_encode_i32(imode, v),
{
    let z = zigzag32(v);
    encode_u32(out, imode, z);
}

/// Append a boolean to `out`.
pub fn encode_bool(out: &mut Vec<u8>, v: bool)
    ensures
        final(out)@ == old(out)@ + spec_encode_bool(v),
{
    let t = Tag::new(Kind::Continuation, if v { 1 } else { 0 });
    out.push(t.byte());
    assert(out@ =~= old(out)@ + spec_encode_bool(v));
}

/// Append a length-prefixed blob to `out`.
pub fn encode_bytes(out: &mut Vec<u8>, lmode: LenMode, bytes: &[u8])
    requires
        lmode is Fixed32 ==> bytes@.len() <= u32::MAX,
    ensures
        final(out)@ == old(out)@ + spec_encode_bytes(lmode, bytes@),
{
    encode_header(out, Kind::Prefix, lmode, bytes.len() as u64);
    append_slice(out, bytes);
    assert(out@ =~= old(out)@ + spec_encode_bytes(lmode, bytes@));
}

/// Append the header of a sequence of `n` typed values to `out`.
pub fn encode_sequence_header(out: &mut Vec<u8>, lmode: LenMode, n: u64)
    requires
        lmode is Fixed32 ==> n <= u32::MAX,
    ensures
        final(out)@ == old(out)@ + spec_sequence_header(lmode, n),
{
    encode_header(out, Kind::Sequence, lmode, n);
}

/// Append every byte of `bytes` to `out`.
fn append_slice(out: &mut Vec<u8>, bytes: &[u8])
    ensures
        final(out)@ == old(out)@ + bytes@,
{
    let mut k: usize = 0;
    while k < bytes.len()
        invariant
            k <= bytes@.len(),
            out@ == old(out)@ + bytes@.subrange(0, k as int),
        decreases bytes@.len() - k,
    {
        out.push(*vstd::slice::slice_index_get(bytes, k));
        assert(out@ =~= old(out)@ + bytes@.subrange(0, k + 1));
        k = k + 1;
    }
    assert(bytes@.subrange(0, bytes@.len() as int) =~= bytes@);
}

/// The exponent of the smallest power of two at least `len`.
fn pack_exp(len: u64) -> (p: u64)
    requires
        len <= 0x4000000000000000,
    ensures
        p == spec_pack_exp(len as nat),
        p <= 62,
    decreases len,
{
    proof {
        lemma_pow2_62();
        lemma_pack_exp_le(len as nat, 62);
    }
    if len <= 1 {
        0
    } else {
        1 + pack_exp((len + 1) / 2)
    }
}

/// Two to the power `p`, for exponents a 64-bit value can hold.
pub fn pow2_val(p: u64) -> (r: u64)
    requires
        p <= 62,
    ensures
        r == spec_pow2(p as nat),
{
    proof {
        lemma_pow2_62();
    }
    let mut k: u64 = 0;
    let mut r: u64 = 1;
    while k < p
        invariant
            k <= p <= 62,
            r == spec_pow2(k as nat),
        decreases p - k,
    {
        proof {
            lemma_pow2_62();
            lemma_pow2_mono((k + 1) as nat, 62);
        }
        r = 2 * r;
        k = k + 1;
    }
    r
}

/// Append a packed blob to `out`: inline prefix framing when it is short, a
/// power-of-two pack with zero padding when it is long.
pub fn encode_pack(out: &mut Vec<u8>, bytes: &[u8])
    requires
        bytes@.len() <= 0x4000000000000000,
    ensures
        final(out)@ == old(out)@ + spec_encode_pack(bytes@),
{
    let len: usize = bytes.len();
    if len < DATA_MASK as usize {
        let t = Tag::new(Kind::Prefix, len as u8);
        out.push(t.byte());
        append_slice(out, bytes);
        assert(out@ =~= old(out)@ + spec_encode_pack(bytes@));
    } else {
        let p: u64 = pack_exp(len as u64);
        let padded: u64 = pow2_val(p);
        proof {
            lemma_pack_exp_ge(len as nat);
        }
        let t = Tag::new(Kind::Pack, p as u8);
        out.push(t.byte());
        append_slice(out, bytes);
        let mut pad: u64 = padded - (len as u64);
        let ghost total: nat = (spec_pow2(p as nat) - len) as nat;
        while pad > 0
            invariant
                pad <= total,
                out@ == old(out)@ + seq![Tag::spec_new(Kind::Pack, p as u8).spec_byte()] + bytes@
                    + spec_zeros((total - pad) as nat),
            decreases pad,
        {
            out.push(0);
            assert(spec_zeros((total - pad) as nat).push(0u8) =~= spec_zeros(
                (total - pad + 1) as nat,
            ));
            assert(out@ =~= old(out)@ + seq![Tag::spec_new(Kind::Pack, p as u8).spec_byte()]
                + bytes@ + spec_zeros((total - pad + 1) as nat));
            pad = pad - 1;
        }
        assert(out@ =~= old(out)@ + spec_encode_pack(bytes@));
    }
}

} // verus!
