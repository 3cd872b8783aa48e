//! Fixed-width integer bytes in a chosen byte order.

use vstd::prelude::*;

verus! {

/// The byte order fixed-width integers are written in. The network order is
/// big-endian.
#[derive(Debug, Clone, Copy, PartialEq, Eq, Structural)]
pub enum ByteOrder {
    Big,
    Little,
}

/// The four bytes of a 32-bit value in the given byte order.
pub open spec fn spec_fixed32(order: ByteOrder, v: u32) -> Seq<u8> {
    let b0 = ((v / 0x1000000) % 0x100) as u8;
    let b1 = ((v / 0x10000) % 0x100) as u8;
    let b2 = ((v / 0x100) % 0x100) as u8;
    let b3 = (v % 0x100) as u8;
    match order {
        ByteOrder::Big => seq![b0, b1, b2, b3],
        ByteOrder::Little => seq![b3, b2, b1, b0],
    }
}

/// The 32-bit value four bytes stand for in the given byte order.
pub open spec fn spec_fixed32_value(order: ByteOrder, s: Seq<u8>) -> u32 {
    let (b0, b1, b2, b3) = match order {
        ByteOrder::Big => (s[0], s[1], s[2], s[3]),
        ByteOrder::Little => (s[3], s[2], s[1], s[0]),
    };
    (0x1000000 * (b0 as u32) + 0x10000 * (b1 as u32) + 0x100 * (b2 as u32) + (b3 as u32)) as u32
}

/// The eight bytes of a 64-bit value in the given byte order.
pub open spec fn spec_fixed64(order: ByteOrder, v: u64) -> Seq<u8> {
    let hi = (v / 0x100000000) as u32;
    let lo = (v % 0x100000000) as u32;
    match order {
        ByteOrder::Big => spec_fixed32(ByteOrder::Big, hi) + spec_fixed32(ByteOrder::Big, lo),
        ByteOrder::Little => spec_fixed32(ByteOrder::Little, lo) + spec_fixed32(
            ByteOrder::Little,
            hi,
        ),
    }
}

/// The 64-bit value eight bytes stand for in the given byte order.
pub open spec fn spec_fixed64_value(order: ByteOrder, s: Seq<u8>) -> u64 {
    let (hi, lo) = match order {
        ByteOrder::Big => (
            spec_fixed32_value(ByteOrder::Big, s.subrange(0, 4)),
            spec_fixed32_value(ByteOrder::Big, s.subrange(4, 8)),
        ),
        ByteOrder::Little => (
            spec_fixed32_value(ByteOrder::Little, s.subrange(4, 8)),
            spec_fixed32_value(ByteOrder::Little, s.subrange(0, 4)),
        ),
    };
    (0x100000000 * (hi as u64) + (lo as u64)) as u64
}

/// The bytes of a 32-bit value decode back to that value.
pub proof fn lemma_fixed32_round_trip(order: ByteOrder, v: u32)
    ensures
        spec_fixed32_value(order, spec_fixed32(order, v)) == v,
{
}

/// The bytes of a 64-bit value decode back to that value.
pub proof fn lemma_fixed64_round_trip(order: ByteOrder, v: u64)
    ensures
        spec_fixed64_value(order, spec_fixed64(order, v)) == v,
{
    let s = spec_fixed64(order, v);
    let hi = (v / 0x100000000) as u32;
    let lo = (v % 0x100000000) as u32;
    match order {
        ByteOrder::Big => {
            assert(s.subrange(0, 4) =~= spec_fixed32(ByteOrder::Big, hi));
            assert(s.subrange(4, 8) =~= spec_fixed32(ByteOrder::Big, lo));
            lemma_fixed32_round_trip(order, hi);
            lemma_fixed32_round_trip(order, lo);
        },
        ByteOrder::Little => {
            assert(s.subrange(0, 4) =~= spec_fixed32(ByteOrder::Little, lo));
            assert(s.subrange(4, 8) =~= spec_fixed32(ByteOrder::Little, hi));
            lemma_fixed32_round_trip(order, hi);
            lemma_fixed32_round_trip(order, lo);
        },
    }
}

/// Append the four bytes of `v` in the given byte order to `out`.
pub fn fixed32_encode(out: &mut Vec<u8>, order: ByteOrder, v: u32)
    ensures
        final(out)@ == old(out)@ + spec_fixed32(order, v),
{
    let b0: u8 = ((v / 0x1000000) % 0x100) as u8;
    let b1: u8 = ((v / 0x10000) % 0x100) as u8;
    let b2: u8 = ((v / 0x100) % 0x100) as u8;
    let b3: u8 = (v % 0x100) as u8;
    match order {
        ByteOrder::Big => {
            out.push(b0);
            out.push(b1);
            out.push(b2);
            out.push(b3);
        },
        ByteOrder::Little => {
            out.push(b3);
            out.push(b2);
            out.push(b1);
            out.push(b0);
        },
    }
    assert(out@ =~= old(out)@ + spec_fixed32(order, v));
}

/// Append the eight bytes of `v` in the given byte order to `out`.
pub fn fixed64_encode(out: &mut Vec<u8>, order: ByteOrder, v: u64)
    ensures
        final(out)@ == old(out)@ + spec_fixed64(order, v),
{
    let hi: u32 = (v / 0x100000000) as u32;
    let lo: u32 = (v % 0x100000000) as u32;
    match order {
        ByteOrder::Big => {
            fixed32_encode(out, ByteOrder::Big, hi);
            fixed32_encode(out, ByteOrder::Big, lo);
        },
        ByteOrder::Little => {
            fixed32_encode(out, ByteOrder::Little, lo);
            fixed32_encode(out, ByteOrder::Little, hi);
        },
    }
    assert(out@ =~= old(out)@ + spec_fixed64(order, v));
}

} // verus!
