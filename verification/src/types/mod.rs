//! Decoders that read the body of a token as a value of a universal type.

use crate::parser::{Encoding, Tag, Token, TokenView};
use crate::Error;
use vstd::prelude::*;

pub mod bitstring;
pub mod bool;
pub mod integer;
pub mod null;
pub mod octetstring;
pub mod oid;
pub mod string;
pub mod time;

pub use crate::types::bitstring::{Bitstring, BitstringView};
pub use crate::types::bool::Bool;
pub use crate::types::integer::{Int, SignedInt, UnsignedInt};
pub use crate::types::null::Null;
pub use crate::types::octetstring::Octetstring;
pub use crate::types::oid::{ConstOid, Oid};
pub use crate::types::string::String;
pub use crate::types::time::{Time, TimeView};

verus! {

/// A type that can be decoded from one token.
///
/// The view of a decoded item is the plain value that it stands for, and
/// `decode` says for every token what decoding it gives: that value, or the
/// error.
pub trait TokenType<'a>: Sized + View {
    /// What decoding `token` gives.
    spec fn decode(token: TokenView) -> Result<Self::V, Error>;

    /// The tags that this type is written under.
    spec fn matches_tag(tag: Tag) -> bool;

    /// The encoding that this type is written in.
    spec fn expected_encoding() -> Encoding;

    /// Decodes `token`.
    fn from_token(token: &Token<'a>) -> (value: Result<Self, Error>)
        ensures
            match value {
                Ok(v) => Self::decode(token@) == Ok::<Self::V, Error>(v@),
                Err(e) => Self::decode(token@) == Err::<Self::V, Error>(e),
            },
    ;

    /// Whether this type is written under `tag`.
    fn matches(tag: Tag) -> (matches: bool)
        ensures
            matches == Self::matches_tag(tag),
    ;

    /// The encoding that this type is written in.
    fn encoding() -> (encoding: Encoding)
        ensures
            encoding == Self::expected_encoding(),
    ;
}

/// An ordered collection of values.  Its members are the tokens that
/// follow, one level deeper.
#[derive(Debug)]
pub struct Sequence;

impl View for Sequence {
    type V = ();

    open spec fn view(&self) -> () {
        ()
    }
}

impl<'a> TokenType<'a> for Sequence {
    open spec fn decode(token: TokenView) -> Result<(), Error> {
        Ok(())
    }

    open spec fn matches_tag(tag: Tag) -> bool {
        tag == Tag::Sequence
    }

    open spec fn expected_encoding() -> Encoding {
        Encoding::Constructed
    }

    fn matches(tag: Tag) -> (matches: bool) {
        tag == Tag::Sequence
    }

    fn encoding() -> (encoding: Encoding) {
        Encoding::Constructed
    }

    fn from_token(token: &Token<'a>) -> (value: Result<Self, Error>) {
        Ok(Sequence)
    }
}

/// An unordered collection of values.  Its members are the tokens that
/// follow, one level deeper.
#[derive(Debug)]
pub struct SetOf;

impl View for SetOf {
    type V = ();

    open spec fn view(&self) -> () {
        ()
    }
}

impl<'a> TokenType<'a> for SetOf {
    open spec fn decode(token: TokenView) -> Result<(), Error> {
        Ok(())
    }

    open spec fn matches_tag(tag: Tag) -> bool {
        tag == Tag::SetOf
    }

    open spec fn expected_encoding() -> Encoding {
        Encoding::Constructed
    }

    fn matches(tag: Tag) -> (matches: bool) {
        tag == Tag::SetOf
    }

    fn encoding() -> (encoding: Encoding) {
        Encoding::Constructed
    }

    fn from_token(token: &Token<'a>) -> (value: Result<Self, Error>) {
        Ok(SetOf)
    }
}

} // verus!
