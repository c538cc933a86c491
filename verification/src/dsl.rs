//! Expectations on the next token of a stream.

use crate::parser::{next_step, Encoding, Parser, Tag, Token, TokenView};
use crate::Error;
use vstd::prelude::*;

verus! {

/// What the next token is expected to be: its tag, its depth and its
/// encoding.
#[derive(Debug, Clone, Copy)]
pub struct Matcher {
    tag: Tag,
    depth: u8,
    enc: Encoding,
}

/// A matcher as a plain value.
pub struct MatcherView {
    pub tag: Tag,
    pub depth: u8,
    pub enc: Encoding,
}

impl MatcherView {
    /// Whether `token` is what the matcher expects.  The tags `String` and
    /// `Time` each stand for a family of tags; every other tag stands for
    /// itself.
    pub open spec fn accepts(self, token: TokenView) -> bool {
        &&& token.enc == self.enc
        &&& token.depth == self.depth
        &&& match self.tag {
            Tag::String => token.tag == Tag::Ia5String || token.tag == Tag::VisibleString
                || token.tag == Tag::Utf8String || token.tag == Tag::PrintableString,
            Tag::Time => token.tag == Tag::GeneralizedTime || token.tag == Tag::UtcTime,
            other => other == token.tag,
        }
    }
}

impl View for Matcher {
    type V = MatcherView;

    closed spec fn view(&self) -> MatcherView {
        MatcherView { tag: self.tag, depth: self.depth, enc: self.enc }
    }
}

impl Matcher {
    /// A matcher for `tag` at `depth`.  It expects the constructed encoding
    /// for sequences and sets and the primitive one for everything else.
    pub fn new(depth: u8, tag: Tag) -> (matcher: Matcher)
        ensures
            matcher@ == (MatcherView {
                tag,
                depth,
                enc: if tag == Tag::Sequence || tag == Tag::SetOf {
                    Encoding::Constructed
                } else {
                    Encoding::Primitive
                },
            }),
    {
        Matcher {
            depth: depth,
            enc: match tag {
                Tag::Sequence | Tag::SetOf => Encoding::Constructed,
                _ => Encoding::Primitive,
            },
            tag: tag,
        }
    }

    /// The same matcher, expecting the encoding `enc`.
    pub fn encoding(self, enc: Encoding) -> (matcher: Matcher)
        ensures
            matcher@ == (MatcherView { tag: self@.tag, depth: self@.depth, enc }),
    {
        let mut matcher = self;
        matcher.enc = enc;
        matcher
    }

    /// Pulls the next token, which must be the expected one.
    pub fn required<'a>(self, parser: &mut Parser<'a>) -> (token: Result<Token<'a>, Error>)
        ensures
            final(parser)@ == next_step(old(parser)@).1,
            match next_step(old(parser)@).0 {
                Some(Ok(t)) => if self@.accepts(t) {
                    token is Ok && token->Ok_0@ == t
                } else {
                    token is Err && token->Err_0 == (Error::TokenMismatch {
                        file: "<unknown>",
                        line: 0,
                        col: 0,
                    })
                },
                Some(Err(e)) => token is Err && token->Err_0 == e,
                None => token is Err && token->Err_0 == Error::PrematureEof,
            },
    {
        self.required_at(parser, "<unknown>", 0, 0)
    }

    /// Pulls the next token, which must be the expected one.  A token that
    /// is not is reported with the place `file`, `line` and `col`.  The end
    /// of the stream is an error too.
    pub fn required_at<'a>(
        self,
        parser: &mut Parser<'a>,
        file: &'static str,
        line: u32,
        col: u32,
    ) -> (token: Result<Token<'a>, Error>)
        ensures
            final(parser)@ == next_step(old(parser)@).1,
            match next_step(old(parser)@).0 {
                Some(Ok(t)) => if self@.accepts(t) {
                    token is Ok && token->Ok_0@ == t
                } else {
                    token is Err && token->Err_0 == (Error::TokenMismatch { file, line, col })
                },
                Some(Err(e)) => token is Err && token->Err_0 == e,
                None => token is Err && token->Err_0 == Error::PrematureEof,
            },
    {
        match parser.next() {
            Some(Ok(token)) => {
                match self.matches(&token) {
                    true => Ok(token),
                    false => Err(Error::TokenMismatch { file: file, line: line, col: col }),
                }
            },
            Some(Err(why)) => Err(why),
            None => Err(Error::PrematureEof),
        }
    }

    /// Pulls the next token if it is the expected one.  Where it is not,
    /// or where the stream gives an error or nothing, the parser stays as
    /// it is.
    pub fn optional<'a>(self, parser: &mut Parser<'a>) -> (token: Option<Token<'a>>)
        ensures
            match next_step(old(parser)@).0 {
                Some(Ok(t)) if self@.accepts(t) => token is Some && token->Some_0@ == t
                    && final(parser)@ == next_step(old(parser)@).1,
                _ => token is None && final(parser)@ == old(parser)@,
            },
    {
        let mut ahead = *parser;
        match ahead.next() {
            Some(Ok(token)) => {
                if self.matches(&token) {
                    *parser = ahead;
                    Some(token)
                } else {
                    None
                }
            },
            _ => None,
        }
    }

    /// Whether `token` is the expected one.
    pub fn matches(&self, token: &Token) -> (matches: bool)
        ensures
            matches == self@.accepts(token@),
    {
        token.enc == self.enc && token.depth == self.depth && match self.tag {
            Tag::String => match token.tag {
                Tag::Ia5String => true,
                Tag::VisibleString => true,
                Tag::Utf8String => true,
                Tag::PrintableString => true,
                _ => false,
            },
            Tag::Time => match token.tag {
                Tag::GeneralizedTime => true,
                Tag::UtcTime => true,
                _ => false,
            },
            other => other == token.tag,
        }
    }
}

} // verus!
