//! The [`WireEncoding`] configuration, which allows for customization of the
//! encoding format, and the top-level encode and decode entry points.
//!
//! A configuration pairs an integer encoding with a length encoding. It is
//! chosen at compile time through zero-sized marker types: every `with_*`
//! method consumes the configuration and returns a differently-typed one, so
//! a producer and a consumer agree on the format in their types. The default
//! uses continuation-encoded integers and lengths.

use core::marker::PhantomData;

use vstd::prelude::*;

use crate::en::{IntMode, LenMode};
use crate::error::Error;
use crate::fixed::ByteOrder;
use crate::value::{Decode, Encode};

verus! {

/// Marker for continuation-encoded integers or lengths.
#[derive(Debug, Clone, Copy)]
pub struct Variable;

/// Marker for big-endian byte order.
#[derive(Debug, Clone, Copy)]
pub struct BigEndian;

/// Marker for little-endian byte order.
#[derive(Debug, Clone, Copy)]
pub struct LittleEndian;

/// Marker for network byte order, which is big-endian.
#[derive(Debug, Clone, Copy)]
pub struct NetworkEndian;

/// Marker for fixed-width integers in the byte order `E`.
#[derive(Debug)]
pub struct Fixed<E = NetworkEndian> {
    _marker: PhantomData<E>,
}

/// Marker for fixed-width lengths of width `W`.
#[derive(Debug)]
pub struct FixedLength<W = u32> {
    _marker: PhantomData<W>,
}

/// A marker that names a byte order.
pub trait Endianness {
    /// The byte order this marker stands for.
    spec fn spec_order() -> ByteOrder;

    /// The byte order this marker stands for.
    fn order() -> (r: ByteOrder)
        ensures
            r == Self::spec_order(),
    ;
}

impl Endianness for BigEndian {
    open spec fn spec_order() -> ByteOrder {
        ByteOrder::Big
    }

    fn order() -> ByteOrder {
        ByteOrder::Big
    }
}

impl Endianness for LittleEndian {
    open spec fn spec_order() -> ByteOrder {
        ByteOrder::Little
    }

    fn order() -> ByteOrder {
        ByteOrder::Little
    }
}

impl Endianness for NetworkEndian {
    open spec fn spec_order() -> ByteOrder {
        ByteOrder::Big
    }

    fn order() -> ByteOrder {
        ByteOrder::Big
    }
}

/// A marker that names an integer encoding.
pub trait IntegerEncoding {
    /// The integer encoding this marker stands for.
    spec fn spec_int_mode() -> IntMode;

    /// The integer encoding this marker stands for.
    fn int_mode() -> (r: IntMode)
        ensures
            r == Self::spec_int_mode(),
    ;
}

impl IntegerEncoding for Variable {
    open spec fn spec_int_mode() -> IntMode {
        IntMode::Variable
    }

    fn int_mode() -> IntMode {
        IntMode::Variable
    }
}

impl<E: Endianness> IntegerEncoding for Fixed<E> {
    open spec fn spec_int_mode() -> IntMode {
        IntMode::Fixed(E::spec_order())
    }

    fn int_mode() -> IntMode {
        IntMode::Fixed(E::order())
    }
}

/// A marker that names a length encoding.
pub trait UsizeEncoding {
    /// The length encoding this marker stands for.
    spec fn spec_len_mode() -> LenMode;

    /// The length encoding this marker stands for.
    fn len_mode() -> (r: LenMode)
        ensures
            r == Self::spec_len_mode(),
    ;
}

impl UsizeEncoding for Variable {
    open spec fn spec_len_mode() -> LenMode {
        LenMode::Variable
    }

    fn len_mode() -> LenMode {
        LenMode::Variable
    }
}

impl UsizeEncoding for FixedLength<u32> {
    open spec fn spec_len_mode() -> LenMode {
        LenMode::Fixed32
    }

    fn len_mode() -> LenMode {
        LenMode::Fixed32
    }
}

impl UsizeEncoding for FixedLength<u64> {
    open spec fn spec_len_mode() -> LenMode {
        LenMode::Fixed64
    }

    fn len_mode() -> LenMode {
        LenMode::Fixed64
    }
}

/// Setting up encoding with parameters.
pub struct WireEncoding<I, L> where I: IntegerEncoding, L: UsizeEncoding {
    _marker: PhantomData<(I, L)>,
}

impl<I, L> Clone for WireEncoding<I, L> where I: IntegerEncoding, L: UsizeEncoding {
    fn clone(&self) -> (r: Self) {
        WireEncoding { _marker: PhantomData }
    }
}

impl<I, L> Copy for WireEncoding<I, L> where I: IntegerEncoding, L: UsizeEncoding {

}

impl WireEncoding<Variable, Variable> {
    /// Construct a new [`WireEncoding`] instance which uses continuation
    /// encoding for both integers and lengths. The factory methods change
    /// either choice.
    pub fn new() -> (r: Self) {
        WireEncoding { _marker: PhantomData }
    }
}

impl<I, L> WireEncoding<I, L> where I: IntegerEncoding, L: UsizeEncoding {
    /// Configure the encoding to use variable integer encoding.
    pub fn with_variable_integers(self) -> (r: WireEncoding<Variable, L>) {
        WireEncoding { _marker: PhantomData }
    }

    /// Configure the encoding to use fixed integer encoding.
    pub fn with_fixed_integers(self) -> (r: WireEncoding<Fixed<NetworkEndian>, L>) {
        WireEncoding { _marker: PhantomData }
    }

    /// Configure the encoding to use fixed integer little-endian encoding.
    pub fn with_fixed_integers_le(self) -> (r: WireEncoding<Fixed<LittleEndian>, L>) {
        WireEncoding { _marker: PhantomData }
    }

    /// Configure the encoding to use fixed integer big-endian encoding.
    pub fn with_fixed_integers_be(self) -> (r: WireEncoding<Fixed<BigEndian>, L>) {
        WireEncoding { _marker: PhantomData }
    }

    /// Configure the encoding to use fixed integer network-endian encoding
    /// (the default byte order).
    pub fn with_fixed_integers_ne(self) -> (r: WireEncoding<Fixed<NetworkEndian>, L>) {
        WireEncoding { _marker: PhantomData }
    }

    /// Configure the encoding to use variable length encoding.
    pub fn with_variable_lengths(self) -> (r: WireEncoding<I, Variable>) {
        WireEncoding { _marker: PhantomData }
    }

    /// Configure the encoding to use fixed length 32-bit encoding when
    /// encoding lengths.
    pub fn with_fixed_lengths(self) -> (r: WireEncoding<I, FixedLength<u32>>) {
        WireEncoding { _marker: PhantomData }
    }

    /// Configure the encoding to use fixed length 64-bit encoding when
    /// encoding lengths.
    pub fn with_fixed_lengths64(self) -> (r: WireEncoding<I, FixedLength<u64>>) {
        WireEncoding { _marker: PhantomData }
    }

    /// Encode the given value to the given writer using this configuration.
    pub fn encode<T: Encode>(self, writer: &mut Vec<u8>, value: &T)
        requires
            value.wf(I::spec_int_mode(), L::spec_len_mode()),
        ensures
            final(writer)@ == old(writer)@ + value.wire(I::spec_int_mode(), L::spec_len_mode()),
    {
        value.encode(writer, I::int_mode(), L::len_mode());
    }

    /// Encode the given value to a byte vector using this configuration.
    pub fn to_vec<T: Encode>(self, value: &T) -> (r: Vec<u8>)
        requires
            value.wf(I::spec_int_mode(), L::spec_len_mode()),
        ensures
            r@ == value.wire(I::spec_int_mode(), L::spec_len_mode()),
    {
        let mut data: Vec<u8> = Vec::new();
        value.encode(&mut data, I::int_mode(), L::len_mode());
        data
    }

    /// Decode the given type from the start of the given reader using this
    /// configuration. Bytes after the value are ignored.
    pub fn decode<T: Decode>(self, reader: &[u8]) -> (r: Result<T, Error>)
        ensures
            match r {
                Ok(v) => exists|j: int|
                    T::dec(I::spec_int_mode(), L::spec_len_mode(), reader@, 0) == Ok::<
                        (T, int),
                        Error,
                    >((v, j)),
                Err(e) => T::dec(I::spec_int_mode(), L::spec_len_mode(), reader@, 0) == Err::<
                    (T, int),
                    Error,
                >(e),
            },
    {
        let mut pos: usize = 0;
        T::decode(reader, &mut pos, I::int_mode(), L::len_mode())
    }

    /// Decode the given type from the start of the given slice using this
    /// configuration. Bytes after the value are ignored.
    pub fn from_slice<T: Decode>(self, bytes: &[u8]) -> (r: Result<T, Error>)
        ensures
            match r {
                Ok(v) => exists|j: int|
                    T::dec(I::spec_int_mode(), L::spec_len_mode(), bytes@, 0) == Ok::<
                        (T, int),
                        Error,
                    >((v, j)),
                Err(e) => T::dec(I::spec_int_mode(), L::spec_len_mode(), bytes@, 0) == Err::<
                    (T, int),
                    Error,
                >(e),
            },
    {
        let mut pos: usize = 0;
        T::decode(bytes, &mut pos, I::int_mode(), L::len_mode())
    }
}

/// Encode the given value to the given writer using the default
/// configuration.
pub fn encode<T: Encode>(writer: &mut Vec<u8>, value: &T)
    requires
        value.wf(IntMode::Variable, LenMode::Variable),
    ensures
        final(writer)@ == old(writer)@ + value.wire(IntMode::Variable, LenMode::Variable),
{
    WireEncoding::new().encode(writer, value);
}

/// Encode the given value to the given writer using the default
/// configuration.
pub fn to_writer<T: Encode>(writer: &mut Vec<u8>, value: &T)
    requires
        value.wf(IntMode::Variable, LenMode::Variable),
    ensures
        final(writer)@ == old(writer)@ + value.wire(IntMode::Variable, LenMode::Variable),
{
    WireEncoding::new().encode(writer, value);
}

/// Encode the given value to a byte vector using the default configuration.
pub fn to_vec<T: Encode>(value: &T) -> (r: Vec<u8>)
    requires
        value.wf(IntMode::Variable, LenMode::Variable),
    ensures
        r@ == value.wire(IntMode::Variable, LenMode::Variable),
{
    WireEncoding::new().to_vec(value)
}

/// Decode the given type from the start of the given reader using the
/// default configuration.
pub fn decode<T: Decode>(reader: &[u8]) -> (r: Result<T, Error>)
    ensures
        match r {
            Ok(v) => exists|j: int|
                T::dec(IntMode::Variable, LenMode::Variable, reader@, 0) == Ok::<(T, int), Error>(
                    (v, j),
                ),
            Err(e) => T::dec(IntMode::Variable, LenMode::Variable, reader@, 0) == Err::<
                (T, int),
                Error,
            >(e),
        },
{
    WireEncoding::new().decode(reader)
}

/// Decode the given type from the start of the given slice using the
/// default configuration.
pub fn from_slice<T: Decode>(bytes: &[u8]) -> (r: Result<T, Error>)
    ensures
        match r {
            Ok(v) => exists|j: int|
                T::dec(IntMode::Variable, LenMode::Variable, bytes@, 0) == Ok::<(T, int), Error>(
                    (v, j),
                ),
            Err(e) => T::dec(IntMode::Variable, LenMode::Variable, bytes@, 0) == Err::<
                (T, int),
                Error,
            >(e),
        },
{
    WireEncoding::new().from_slice(bytes)
}

} // verus!
