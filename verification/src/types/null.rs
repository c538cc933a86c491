//! The null value.

use crate::parser::{Encoding, Tag, Token, TokenView};
use crate::types::TokenType;
use crate::Error;
use vstd::prelude::*;

verus! {

/// The value that carries no information.
#[derive(Debug)]
pub struct Null;

impl View for Null {
    type V = ();

    open spec fn view(&self) -> () {
        ()
    }
}

impl<'a> TokenType<'a> for Null {
    /// A null has an empty body.
    open spec fn decode(token: TokenView) -> Result<(), Error> {
        if token.enc != Encoding::Primitive || token.body.len() != 0 {
            Err(Error::MalformedToken)
        } else {
            Ok(())
        }
    }

    open spec fn matches_tag(tag: Tag) -> bool {
        tag == Tag::Null
    }

    open spec fn expected_encoding() -> Encoding {
        Encoding::Primitive
    }

    fn matches(tag: Tag) -> (matches: bool) {
        tag == Tag::Null
    }

    fn encoding() -> (encoding: Encoding) {
        Encoding::Primitive
    }

    fn from_token(token: &Token<'a>) -> (value: Result<Null, Error>) {
        if token.enc != Encoding::Primitive {
            return Err(Error::MalformedToken);
        }
        if token.body.len() != 0 {
            return Err(Error::MalformedToken);
        }
        Ok(Null)
    }
}

} // verus!
