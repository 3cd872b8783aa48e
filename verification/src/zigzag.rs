//! Zigzag mapping between signed and unsigned integers.
//!
//! The mapping is a bijection that keeps small-magnitude values numerically
//! small: 0, -1, 1, -2, 2, ... map to 0, 1, 2, 3, 4, ... so that
//! continuation encoding of a small negative number stays short.

use vstd::prelude::*;

verus! {

/// The zigzag image of a 64-bit signed value.
pub open spec fn spec_zigzag64(v: i64) -> u64 {
    if v >= 0 {
        (2 * v) as u64
    } else {
        (2 * (-(v + 1)) + 1) as u64
    }
}

/// The signed value a zigzag image stands for.
pub open spec fn spec_unzigzag64(u: u64) -> i64 {
    if u % 2 == 0 {
        (u / 2) as i64
    } else {
        (-((u / 2) as i64) - 1) as i64
    }
}

/// The zigzag image of a 32-bit signed value.
pub open spec fn spec_zigzag32(v: i32) -> u32 {
    if v >= 0 {
        (2 * v) as u32
    } else {
        (2 * (-(v + 1)) + 1) as u32
    }
}

/// The signed value a 32-bit zigzag image stands for.
pub open spec fn spec_unzigzag32(u: u32) -> i32 {
    if u % 2 == 0 {
        (u / 2) as i32
    } else {
        (-((u / 2) as i32) - 1) as i32
    }
}

/// Zigzag is undone exactly by unzigzag, for every 64-bit signed value.
pub proof fn lemma_zigzag64_round_trip(v: i64)
    ensures
        spec_unzigzag64(spec_zigzag64(v)) == v,
{
}

/// Zigzag is undone exactly by unzigzag, for every 32-bit signed value.
pub proof fn lemma_zigzag32_round_trip(v: i32)
    ensures
        spec_unzigzag32(spec_zigzag32(v)) == v,
{
}

/// Map a signed value to its zigzag image.
pub fn zigzag64(v: i64) -> (r: u64)
    ensures
        r == spec_zigzag64(v),
{
    if v >= 0 {
        2 * (v as u64)
    } else {
        2 * ((-(v + 1)) as u64) + 1
    }
}

/// Map a zigzag image back to its signed value.
pub fn unzigzag64(u: u64) -> (r: i64)
    ensures
        r == spec_unzigzag64(u),
{
    if u % 2 == 0 {
        (u / 2) as i64
    } else {
        -((u / 2) as i64) - 1
    }
}

/// Map a 32-bit signed value to its zigzag image.
pub fn zigzag32(v: i32) -> (r: u32)
    ensures
        r == spec_zigzag32(v),
{
    if v >= 0 {
        2 * (v as u32)
    } else {
        2 * ((-(v + 1)) as u32) + 1
    }
}

/// Map a 32-bit zigzag image back to its signed value.
pub fn unzigzag32(u: u32) -> (r: i32)
    ensures
        r == spec_unzigzag32(u),
{
    if u % 2 == 0 {
        (u / 2) as i32
    } else {
        -((u / 2) as i32) - 1
    }
}

} // verus!
