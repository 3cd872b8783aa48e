//! A compact, self-describing binary wire encoding together with a zero-copy
//! buffer layer.
//!
//! The wire format is built from single-byte type tags ([`tag::Tag`]) that
//! pack a [`tag::Kind`] with a small inline data field, continuation-encoded
//! integers with zigzag mapping for signed values, and length-prefixed byte
//! blobs and sequences. Decoding validates untrusted input: it never panics,
//! never reads out of bounds, and reports a typed [`error::Error`] for every
//! failure.
//!
//! The zero-copy layer ([`pointer`], [`store`]) describes typed offsets into a
//! raw buffer and the padding discipline that keeps every byte of a stored
//! struct initialized, so that loads can be checked for bounds, alignment and
//! bit patterns.

pub mod tag;
pub mod error;
pub mod continuation;
pub mod zigzag;
pub mod fixed;
pub mod en;
pub mod de;
pub mod laws;
pub mod value;
pub mod encoding;
pub mod pointer;
pub mod store;

