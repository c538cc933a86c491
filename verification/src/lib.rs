//! A strict decoder for the Distinguished Encoding Rules (DER) of ASN.1.
//!
//! The [`Parser`] turns a byte buffer into a flat, pre-order stream of
//! [`Token`]s, and the decoders in [`types`] reinterpret a token's body as a
//! value of one of the universal types.  Every function is total: malformed
//! input is reported through [`Error`], never by a panic.

use vstd::prelude::*;

pub mod bigendian;
pub mod dsl;
pub mod parser;
pub mod prelude;
pub mod text;
pub mod types;

pub use crate::parser::{Class, Encoding, Parser, Tag, Token};

verus! {

/// Everything that can go wrong while decoding.
#[derive(Debug, Copy, Clone, PartialEq)]
pub enum Error {
    /// The input ends before the bytes that a tag or a length announces.
    BufferTooShort,
    /// A multi-byte tag number that is padded, or that fits the short form.
    InvalidMultipartTag,
    /// A multi-byte tag number that does not fit the machine word.
    MultipartTagOverflow,
    /// A structural or canonical-form violation.
    MalformedToken,
    /// A length field wider than the machine word.
    TokenTooLong,
    /// Constructed tokens are nested deeper than the stack allows.
    NestedTooDeep,
    /// A token that is not the one a matcher asked for.
    TokenMismatch { file: &'static str, line: u32, col: u32 },
    /// A value that does not fit the type it is decoded into.
    OutOfMemory,
    /// String contents that would need code-page switching.
    UnsupportedString,
    /// An object identifier with more arcs than can be stored.
    UnsupportedOid,
    /// The token stream ended where another token was expected.
    PrematureEof,
}

} // verus!
