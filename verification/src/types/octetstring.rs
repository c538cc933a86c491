//! Octet strings.

use crate::parser::{Encoding, Parser, ParserView, Tag, Token, TokenView};
use crate::types::TokenType;
use crate::Error;
use vstd::prelude::*;

verus! {

/// A string of bytes, borrowed from the token that it was decoded from.
#[derive(Debug)]
pub struct Octetstring<'a>(pub &'a [u8]);

impl<'a> View for Octetstring<'a> {
    type V = Seq<u8>;

    open spec fn view(&self) -> Seq<u8> {
        self.0@
    }
}

impl<'a> Octetstring<'a> {
    /// A parser over the bytes, for an octet string that wraps further
    /// tokens.
    pub fn parser(&self) -> (parser: Parser<'a>)
        ensures
            parser@ == ParserView::start(self@),
    {
        Parser::new(self.0)
    }
}

impl<'a> TokenType<'a> for Octetstring<'a> {
    /// An octet string is its body, whatever that holds.
    open spec fn decode(token: TokenView) -> Result<Seq<u8>, Error> {
        if token.enc != Encoding::Primitive {
            Err(Error::MalformedToken)
        } else {
            Ok(token.body)
        }
    }

    open spec fn matches_tag(tag: Tag) -> bool {
        tag == Tag::Octetstring
    }

    open spec fn expected_encoding() -> Encoding {
        Encoding::Primitive
    }

    fn matches(tag: Tag) -> (matches: bool) {
        tag == Tag::Octetstring
    }

    fn encoding() -> (encoding: Encoding) {
        Encoding::Primitive
    }

    fn from_token(token: &Token<'a>) -> (value: Result<Self, Error>) {
        if token.enc != Encoding::Primitive {
            return Err(Error::MalformedToken);
        }
        Ok(Octetstring(token.body))
    }
}

} // verus!
