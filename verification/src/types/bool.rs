//! Booleans.

use crate::parser::{Encoding, Tag, Token, TokenView};
use crate::types::TokenType;
use crate::Error;
use vstd::prelude::*;

verus! {

/// A boolean.
#[derive(Debug)]
pub struct Bool(pub bool);

impl View for Bool {
    type V = bool;

    open spec fn view(&self) -> bool {
        self.0
    }
}

impl<'a> TokenType<'a> for Bool {
    /// A boolean is one byte: `0x00` for false, `0xFF` for true.
    open spec fn decode(token: TokenView) -> Result<bool, Error> {
        if token.enc != Encoding::Primitive || token.body.len() != 1 {
            Err(Error::MalformedToken)
        } else if token.body[0] == 0x00 {
            Ok(false)
        } else if token.body[0] == 0xFF {
            Ok(true)
        } else {
            Err(Error::MalformedToken)
        }
    }

    open spec fn matches_tag(tag: Tag) -> bool {
        tag == Tag::Bool
    }

    open spec fn expected_encoding() -> Encoding {
        Encoding::Primitive
    }

    fn matches(tag: Tag) -> (matches: bool) {
        tag == Tag::Bool
    }

    fn encoding() -> (encoding: Encoding) {
        Encoding::Primitive
    }

    fn from_token(token: &Token<'a>) -> (value: Result<Bool, Error>) {
        if token.enc != Encoding::Primitive {
            return Err(Error::MalformedToken);
        }
        if token.body.len() != 1 {
            return Err(Error::MalformedToken);
        }
        match token.body[0] {
            0x00 => Ok(Bool(false)),
            0xFF => Ok(Bool(true)),
            _ => Err(Error::MalformedToken),
        }
    }
}

} // verus!
