//! Typed references into a raw buffer and checked zero-copy loads.
//!
//! A [`Ptr`] is an untyped byte offset into a buffer. A [`Ref`] pairs it
//! with a type, asserting that a validly-stored value of that type begins at
//! the offset. The constructor is safe because nothing is trusted at
//! construction time: validity is established only by [`load`], which checks
//! that the byte range lies within the buffer, that the offset satisfies the
//! type's required alignment, and that the bytes form a valid bit pattern,
//! before assembling the value. Every failed check is a distinct error;
//! nothing is ever reinterpreted unchecked.

use core::marker::PhantomData;

use vstd::prelude::*;

use crate::error::Error;

verus! {

/// An untyped byte offset into a buffer.
#[derive(Debug, Clone, Copy, PartialEq, Eq, Hash, Structural)]
pub struct Ptr {
    offset: usize,
}

impl Ptr {
    /// The offset this pointer stands for.
    pub closed spec fn spec_offset(self) -> usize {
        self.offset
    }

    /// A pointer to the first position in a buffer.
    pub fn zero() -> (r: Ptr)
        ensures
            r.spec_offset() == 0,
    {
        Ptr { offset: 0 }
    }

    /// A pointer to the given byte offset.
    pub fn new(offset: usize) -> (r: Ptr)
        ensures
            r.spec_offset() == offset,
    {
        Ptr { offset }
    }

    /// The offset this pointer stands for.
    pub fn offset(self) -> (r: usize)
        ensures
            r == self.spec_offset(),
    {
        self.offset
    }
}

/// A value that can be stored in and loaded from raw buffer bytes.
///
/// The byte image is little-endian and exactly [`ZeroCopy::spec_size`] bytes
/// long; loading requires the offset to be a multiple of
/// [`ZeroCopy::spec_align`]. A type whose bit patterns are not all valid
/// restricts [`ZeroCopy::spec_valid`], and its loads check it.
pub trait ZeroCopy where Self: Sized {
    /// The number of buffer bytes a value occupies.
    spec fn spec_size() -> nat;

    /// The alignment a stored value's offset must satisfy.
    spec fn spec_align() -> nat;

    /// Whether the given bytes are a valid bit pattern for this type.
    spec fn spec_valid(s: Seq<u8>) -> bool;

    /// The value the given bytes stand for.
    spec fn spec_of_bytes(s: Seq<u8>) -> Self;

    /// The bytes a value is stored as.
    spec fn spec_to_bytes(&self) -> Seq<u8>;

    /// The number of buffer bytes a value occupies.
    fn size() -> (r: usize)
        ensures
            r == Self::spec_size(),
            r >= 1,
    ;

    /// The alignment a stored value's offset must satisfy.
    fn align() -> (r: usize)
        ensures
            r == Self::spec_align(),
            r >= 1,
    ;

    /// Whether the size bytes of `s` starting at `at` are a valid bit
    /// pattern for this type.
    fn valid_at(s: &[u8], at: usize) -> (r: bool)
        requires
            at + Self::spec_size() <= s@.len(),
        ensures
            r == Self::spec_valid(s@.subrange(at as int, at + Self::spec_size())),
    ;

    /// Assemble a value from its bytes in `s` at `at`.
    fn load_at(s: &[u8], at: usize) -> (r: Self)
        requires
            at + Self::spec_size() <= s@.len(),
            Self::spec_valid(s@.subrange(at as int, at + Self::spec_size())),
        ensures
            r == Self::spec_of_bytes(s@.subrange(at as int, at + Self::spec_size())),
    ;

    /// Append a value's bytes to `out`.
    fn store_to(&self, out: &mut Vec<u8>)
        ensures
            final(out)@ == old(out)@ + self.spec_to_bytes(),
    ;

    /// A value's byte image has its size, is valid, and stands for the value
    /// itself: storing and loading are exact inverses.
    proof fn lemma_bytes_round_trip(&self)
        ensures
            self.spec_to_bytes().len() == Self::spec_size(),
            Self::spec_valid(self.spec_to_bytes()),
            Self::spec_of_bytes(self.spec_to_bytes()) == *self,
    ;
}

/// A sized reference: a pointer typed with the [`ZeroCopy`] value that
/// begins at it.
///
/// The constructor is safe, because alignment and validation checks happen
/// whenever a value is loaded from a bare buffer.
#[derive(Debug)]
pub struct Ref<T> {
    ptr: Ptr,
    _marker: PhantomData<T>,
}

impl<T> Ref<T> where T: ZeroCopy {
    /// The offset this reference points at.
    pub closed spec fn spec_ptr(self) -> Ptr {
        self.ptr
    }

    /// Construct a typed reference to the first position in a buffer.
    pub fn zero() -> (r: Self)
        ensures
            r.spec_ptr().spec_offset() == 0,
    {
        Ref { ptr: Ptr::zero(), _marker: PhantomData }
    }

    /// Construct a reference wrapping the given type at the specified
    /// address.
    pub fn new(ptr: Ptr) -> (r: Self)
        ensures
            r.spec_ptr() == ptr,
    {
        Ref { ptr, _marker: PhantomData }
    }

    /// The pointer this reference wraps.
    pub fn ptr(&self) -> (r: Ptr)
        ensures
            r == self.spec_ptr(),
    {
        self.ptr
    }
}

/// Load the value a reference points at, after checking that its byte range
/// lies within the buffer, that its offset satisfies the type's alignment,
/// and that its bytes are a valid bit pattern. Each failed check is its own
/// error; the checks happen in that order.
pub fn load<T: ZeroCopy>(buf: &[u8], r: Ref<T>) -> (out: Result<T, Error>)
    ensures
        match out {
            Ok(v) => {
                &&& r.spec_ptr().spec_offset() + T::spec_size() <= buf@.len()
                &&& r.spec_ptr().spec_offset() as int % T::spec_align() as int == 0
                &&& T::spec_valid(
                    buf@.subrange(
                        r.spec_ptr().spec_offset() as int,
                        r.spec_ptr().spec_offset() + T::spec_size(),
                    ),
                )
                &&& v == T::spec_of_bytes(
                    buf@.subrange(
                        r.spec_ptr().spec_offset() as int,
                        r.spec_ptr().spec_offset() + T::spec_size(),
                    ),
                )
            },
            Err(Error::OutOfBounds) => r.spec_ptr().spec_offset() + T::spec_size() > buf@.len(),
            Err(Error::AlignmentViolation) => r.spec_ptr().spec_offset() + T::spec_size()
                <= buf@.len() && r.spec_ptr().spec_offset() as int % T::spec_align() as int != 0,
            Err(Error::InvalidBitPattern) => r.spec_ptr().spec_offset() + T::spec_size()
                <= buf@.len() && r.spec_ptr().spec_offset() as int % T::spec_align() as int == 0
                && !T::spec_valid(
                buf@.subrange(
                    r.spec_ptr().spec_offset() as int,
                    r.spec_ptr().spec_offset() + T::spec_size(),
                ),
            ),
            Err(_) => false,
        },
{
    let at: usize = r.ptr().offset();
    let size: usize = T::size();
    if size > buf.len() || at > buf.len() - size {
        return Err(Error::OutOfBounds);
    }
    if at % T::align() != 0 {
        return Err(Error::AlignmentViolation);
    }
    if !T::valid_at(buf, at) {
        return Err(Error::InvalidBitPattern);
    }
    Ok(T::load_at(buf, at))
}

impl ZeroCopy for u8 {
    open spec fn spec_size() -> nat {
        1
    }

    open spec fn spec_align() -> nat {
        1
    }

    open spec fn spec_valid(s: Seq<u8>) -> bool {
        true
    }

    open spec fn spec_of_bytes(s: Seq<u8>) -> u8 {
        s[0]
    }

    open spec fn spec_to_bytes(&self) -> Seq<u8> {
        seq![*self]
    }

    fn size() -> usize {
        1
    }

    fn align() -> usize {
        1
    }

    fn valid_at(s: &[u8], at: usize) -> bool {
        true
    }

    fn load_at(s: &[u8], at: usize) -> (r: u8) {
        *vstd::slice::slice_index_get(s, at)
    }

    fn store_to(&self, out: &mut Vec<u8>) {
        out.push(*self);
        assert(out@ =~= old(out)@ + self.spec_to_bytes());
    }

    proof fn lemma_bytes_round_trip(&self) {
    }
}

impl ZeroCopy for bool {
    open spec fn spec_size() -> nat {
        1
    }

    open spec fn spec_align() -> nat {
        1
    }

    open spec fn spec_valid(s: Seq<u8>) -> bool {
        s[0] == 0 || s[0] == 1
    }

    open spec fn spec_of_bytes(s: Seq<u8>) -> bool {
        s[0] == 1
    }

    open spec fn spec_to_bytes(&self) -> Seq<u8> {
        seq![if *self { 1u8 } else { 0u8 }]
    }

    fn size() -> usize {
        1
    }

    fn align() -> usize {
        1
    }

    fn valid_at(s: &[u8], at: usize) -> (r: bool) {
        let b: u8 = *vstd::slice::slice_index_get(s, at);
        b == 0 || b == 1
    }

    fn load_at(s: &[u8], at: usize) -> (r: bool) {
        let b: u8 = *vstd::slice::slice_index_get(s, at);
        b == 1
    }

    fn store_to(&self, out: &mut Vec<u8>) {
        out.push(if *self { 1 } else { 0 });
        assert(out@ =~= old(out)@ + self.spec_to_bytes());
    }

    proof fn lemma_bytes_round_trip(&self) {
    }
}

impl ZeroCopy for u16 {
    open spec fn spec_size() -> nat {
        2
    }

    open spec fn spec_align() -> nat {
        2
    }

    open spec fn spec_valid(s: Seq<u8>) -> bool {
        true
    }

    open spec fn spec_of_bytes(s: Seq<u8>) -> u16 {
        ((s[0] as u16) + 0x100 * (s[1] as u16)) as u16
    }

    open spec fn spec_to_bytes(&self) -> Seq<u8> {
        seq![(*self % 0x100) as u8, (*self / 0x100) as u8]
    }

    fn size() -> usize {
        2
    }

    fn align() -> usize {
        2
    }

    fn valid_at(s: &[u8], at: usize) -> bool {
        true
    }

    fn load_at(s: &[u8], at: usize) -> (r: u16) {
        let n: usize = s.len();
        assert(at + 2 <= n);
        let b0: u8 = *vstd::slice::slice_index_get(s, at);
        let b1: u8 = *vstd::slice::slice_index_get(s, at + 1);
        (b0 as u16) + 0x100 * (b1 as u16)
    }

    fn store_to(&self, out: &mut Vec<u8>) {
        out.push((*self % 0x100) as u8);
        out.push((*self / 0x100) as u8);
        assert(out@ =~= old(out)@ + self.spec_to_bytes());
    }

    proof fn lemma_bytes_round_trip(&self) {
    }
}

impl ZeroCopy for u32 {
    open spec fn spec_size() -> nat {
        4
    }

    open spec fn spec_align() -> nat {
        4
    }

    open spec fn spec_valid(s: Seq<u8>) -> bool {
        true
    }

    open spec fn spec_of_bytes(s: Seq<u8>) -> u32 {
        crate::fixed::spec_fixed32_value(crate::fixed::ByteOrder::Little, s)
    }

    open spec fn spec_to_bytes(&self) -> Seq<u8> {
        crate::fixed::spec_fixed32(crate::fixed::ByteOrder::Little, *self)
    }

    fn size() -> usize {
        4
    }

    fn align() -> usize {
        4
    }

    fn valid_at(s: &[u8], at: usize) -> bool {
        true
    }

    fn load_at(s: &[u8], at: usize) -> (r: u32) {
        let n: usize = s.len();
        assert(at + 4 <= n);
        let b0: u8 = *vstd::slice::slice_index_get(s, at);
        let b1: u8 = *vstd::slice::slice_index_get(s, at + 1);
        let b2: u8 = *vstd::slice::slice_index_get(s, at + 2);
        let b3: u8 = *vstd::slice::slice_index_get(s, at + 3);
        (b0 as u32) + 0x100 * (b1 as u32) + 0x10000 * (b2 as u32) + 0x1000000 * (b3 as u32)
    }

    fn store_to(&self, out: &mut Vec<u8>) {
        crate::fixed::fixed32_encode(out, crate::fixed::ByteOrder::Little, *self);
    }

    proof fn lemma_bytes_round_trip(&self) {
        crate::fixed::lemma_fixed32_round_trip(crate::fixed::ByteOrder::Little, *self);
    }
}

impl ZeroCopy for u64 {
    open spec fn spec_size() -> nat {
        8
    }

    open spec fn spec_align() -> nat {
        8
    }

    open spec fn spec_valid(s: Seq<u8>) -> bool {
        true
    }

    open spec fn spec_of_bytes(s: Seq<u8>) -> u64 {
        crate::fixed::spec_fixed64_value(crate::fixed::ByteOrder::Little, s)
    }

    open spec fn spec_to_bytes(&self) -> Seq<u8> {
        crate::fixed::spec_fixed64(crate::fixed::ByteOrder::Little, *self)
    }

    fn size() -> usize {
        8
    }

    fn align() -> usize {
        8
    }

    fn valid_at(s: &[u8], at: usize) -> bool {
        true
    }

    fn load_at(s: &[u8], at: usize) -> (r: u64) {
        let n: usize = s.len();
        assert(at + 8 <= n);
        let lo: u32 = u32::load_at(s, at);
        let hi: u32 = u32::load_at(s, at + 4);
        proof {
            let img = s@.subrange(at as int, at + 8);
            assert(s@.subrange(at as int, at + 4) =~= img.subrange(0, 4));
            assert(s@.subrange(at + 4, at + 8) =~= img.subrange(4, 8));
        }
        (lo as u64) + 0x100000000 * (hi as u64)
    }

    fn store_to(&self, out: &mut Vec<u8>) {
        crate::fixed::fixed64_encode(out, crate::fixed::ByteOrder::Little, *self);
    }

    proof fn lemma_bytes_round_trip(&self) {
        crate::fixed::lemma_fixed64_round_trip(crate::fixed::ByteOrder::Little, *self);
    }
}

} // verus!
