//! Struct storage with explicit zero padding.
//!
//! A stored struct must occupy a fully-initialized byte range laid out like
//! its in-memory image: each field sits at an offset that satisfies its
//! alignment, and every gap holds zeros. The writer here makes that
//! discipline safe: [`StoreStruct::pad`] zero-fills the gap up to the next
//! field's alignment and then writes the field, in declaration order, and
//! [`StoreStruct::finish`] zero-fills the tail up to the struct's own
//! alignment. The contracts say exactly which bytes end up in the buffer, so
//! skipping or reordering a field is visible in the stated image rather than
//! undefined behavior.

use vstd::prelude::*;

use crate::en::spec_zeros;
use crate::pointer::ZeroCopy;

verus! {

/// The number of zero bytes needed after `len` bytes to reach a multiple of
/// `align`.
pub open spec fn spec_align_gap(len: nat, align: nat) -> nat {
    if align == 0 {
        0
    } else if len % align == 0 {
        0
    } else {
        (align - (len % align)) as nat
    }
}

/// Padding to an alignment reaches a multiple of it.
pub proof fn lemma_align_gap(len: nat, align: nat)
    requires
        align >= 1,
    ensures
        (len + spec_align_gap(len, align)) % align == 0,
        spec_align_gap(len, align) < align,
{
    let q = len as int / align as int;
    let r = len as int % align as int;
    vstd::arithmetic::div_mod::lemma_fundamental_div_mod(len as int, align as int);
    if r != 0 {
        assert(len + spec_align_gap(len, align) == (q + 1) * align) by (nonlinear_arith)
            requires
                len == q * align + r,
                r == len as int % align as int,
                align >= 1,
                spec_align_gap(len, align) == align - r,
        ;
        vstd::arithmetic::div_mod::lemma_mod_multiples_basic(q + 1, align as int);
    }
}

/// Marker restricting who can hand out a struct writer.
pub trait Sealed {

}

/// A writer that stores one struct's fields with their padding.
pub trait StoreStruct<T: ZeroCopy>: Sealed {
    /// The bytes written so far.
    spec fn contents(&self) -> Seq<u8>;

    /// Pad up to the field's alignment with zeros, then write the field.
    ///
    /// Call this for every field, in declaration order, before calling
    /// [`finish`](Self::finish): the contract shows exactly the zero gap and
    /// field bytes that reach the buffer.
    fn pad<F: ZeroCopy>(&mut self, field: F)
        ensures
            final(self).contents() == old(self).contents() + spec_zeros(
                spec_align_gap(old(self).contents().len(), F::spec_align()),
            ) + field.spec_to_bytes(),
    ;

    /// Finish writing the current buffer: pad the tail up to the struct's
    /// own alignment and hand the fully-initialized bytes back.
    fn finish(self) -> (r: Vec<u8>)
        ensures
            r@ == self.contents() + spec_zeros(
                spec_align_gap(self.contents().len(), T::spec_align()),
            ),
            T::spec_align() >= 1 ==> (r@.len() as int) % (T::spec_align() as int) == 0,
    ;
}

/// A struct writer over a growing byte buffer.
pub struct StructWriter {
    buf: Vec<u8>,
}

impl StructWriter {
    /// The bytes written so far.
    pub closed spec fn spec_buf(&self) -> Seq<u8> {
        self.buf@
    }

    /// An empty writer.
    pub fn new() -> (r: StructWriter)
        ensures
            r.spec_buf() == Seq::<u8>::empty(),
    {
        StructWriter { buf: Vec::new() }
    }

    /// Zero-fill up to the given alignment.
    fn pad_to(&mut self, align: usize)
        requires
            align >= 1,
        ensures
            final(self).spec_buf() == old(self).spec_buf() + spec_zeros(
                spec_align_gap(old(self).spec_buf().len(), align as nat),
            ),
    {
        let rem: usize = self.buf.len() % align;
        if rem == 0 {
            assert(self.spec_buf() =~= old(self).spec_buf() + spec_zeros(
                spec_align_gap(old(self).spec_buf().len(), align as nat),
            ));
            return ;
        }
        let mut gap: usize = align - rem;
        let ghost total: nat = spec_align_gap(old(self).spec_buf().len(), align as nat);
        while gap > 0
            invariant
                gap <= total,
                self.spec_buf() == old(self).spec_buf() + spec_zeros((total - gap) as nat),
            decreases gap,
        {
            self.buf.push(0);
            assert(self.spec_buf() =~= old(self).spec_buf() + spec_zeros((total - gap + 1) as nat));
            gap = gap - 1;
        }
        assert(self.spec_buf() =~= old(self).spec_buf() + spec_zeros(total));
    }
}

impl Sealed for StructWriter {

}

impl<T: ZeroCopy> StoreStruct<T> for StructWriter {
    closed spec fn contents(&self) -> Seq<u8> {
        self.spec_buf()
    }

    fn pad<F: ZeroCopy>(&mut self, field: F) {
        self.pad_to(F::align());
        field.store_to(&mut self.buf);
    }

    fn finish(self) -> (r: Vec<u8>) {
        let mut w = self;
        let align: usize = T::align();
        w.pad_to(align);
        proof {
            lemma_align_gap(self.spec_buf().len(), T::spec_align());
        }
        w.buf
    }
}

} // verus!
