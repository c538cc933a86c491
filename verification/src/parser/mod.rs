//! The tokenizer: tags, lengths and the bounded-depth token stream.

use crate::Error;
use vstd::prelude::*;

pub mod iter;
pub mod stack;
pub mod stream;
pub mod tag;
pub mod token;

pub use crate::parser::tag::{Class, Encoding, Tag};
pub use crate::parser::token::{Token, TokenView};

use crate::parser::iter::Iter;
use crate::parser::stack::{FixedStack, MAX_DEPTH};
use crate::parser::tag::multipart_tag_at;
use crate::parser::token::token_at;

verus! {

/// A pull parser over a byte buffer.  Each pull gives the next token in
/// byte order, a container before its contents.  The first error is final:
/// after it the parser gives nothing more.
#[derive(Debug, Clone, Copy)]
pub struct Parser<'a> {
    iter: Iter<'a>,
    err: bool,
    stack: FixedStack,
}

/// The state of a parser as a plain value.
pub struct ParserView {
    /// The whole buffer.
    pub bytes: Seq<u8>,
    /// The position of the next token.
    pub pos: int,
    /// Whether an error has been given.
    pub err: bool,
    /// The end offsets of the open containers, outermost first.
    pub stack: Seq<usize>,
}

impl ParserView {
    /// The state that a fresh parser over `bytes` is in.
    pub open spec fn start(bytes: Seq<u8>) -> ParserView {
        ParserView { bytes, pos: 0, err: false, stack: Seq::empty() }
    }

    /// What every reachable state has: the position is inside the buffer,
    /// at most [`MAX_DEPTH`] containers are open, each of them ends behind
    /// the position and inside the buffer, and none ends behind the one
    /// that encloses it.
    pub open spec fn wf(self) -> bool {
        &&& 0 <= self.pos <= self.bytes.len() <= usize::MAX
        &&& self.stack.len() <= MAX_DEPTH
        &&& forall|i: int|
            0 <= i < self.stack.len() ==> self.pos < #[trigger] self.stack[i] <= self.bytes.len()
        &&& forall|i: int, j: int|
            0 <= i <= j < self.stack.len() ==> self.stack[j] <= self.stack[i]
    }
}

/// The stack without the innermost frames that end at `pos`.
pub open spec fn close_at(stack: Seq<usize>, pos: int) -> Seq<usize>
    decreases stack.len(),
{
    if stack.len() > 0 && stack.last() == pos {
        close_at(stack.drop_last(), pos)
    } else {
        stack
    }
}

/// One step of the tokenizer: the token at the position and the state
/// behind it, or the error and the state unchanged.
///
/// The token must end inside the innermost open container.  A primitive
/// token is stepped over as a whole.  A constructed token opens a frame,
/// which needs room on the stack, and the position moves to its first
/// child.  Then every container that ends at the new position is closed.
pub open spec fn parse_step(s: ParserView) -> (Result<TokenView, Error>, ParserView) {
    let (token, body_start) = token_at(s.bytes, s.pos, s.stack.len() as u8);
    match token {
        Err(e) => (Err(e), s),
        Ok(t) => {
            let end = body_start + t.body.len();
            if s.stack.len() > 0 && end > s.stack.last() {
                (Err(Error::MalformedToken), s)
            } else {
                match t.enc {
                    Encoding::Primitive => (
                        Ok(t),
                        ParserView {
                            bytes: s.bytes,
                            pos: end,
                            err: s.err,
                            stack: close_at(s.stack, end),
                        },
                    ),
                    Encoding::Constructed => if s.stack.len() >= MAX_DEPTH {
                        (Err(Error::NestedTooDeep), s)
                    } else {
                        (
                            Ok(t),
                            ParserView {
                                bytes: s.bytes,
                                pos: body_start,
                                err: s.err,
                                stack: close_at(s.stack.push(end as usize), body_start),
                            },
                        )
                    },
                }
            }
        },
    }
}

/// One pull: nothing once an error was given or the buffer is used up,
/// else the outcome of one step.  An error marks the state.
pub open spec fn next_step(s: ParserView) -> (Option<Result<TokenView, Error>>, ParserView) {
    if s.err || s.pos >= s.bytes.len() {
        (None, s)
    } else {
        let (outcome, after) = parse_step(s);
        match outcome {
            Ok(t) => (Some(Ok(t)), after),
            Err(e) => (
                Some(Err(e)),
                ParserView { bytes: s.bytes, pos: s.pos, err: true, stack: s.stack },
            ),
        }
    }
}

/// What a pull gave, with the token as a plain value.
pub open spec fn item_view(item: Option<Result<Token<'_>, Error>>) -> Option<
    Result<TokenView, Error>,
> {
    match item {
        None => None,
        Some(Ok(t)) => Some(Ok(t@)),
        Some(Err(e)) => Some(Err(e)),
    }
}

/// A multi-byte tag number ends behind where it starts and inside the
/// buffer.
pub proof fn lemma_multipart_tag_bounds(bytes: Seq<u8>, pos: int, acc: nat)
    requires
        0 <= pos <= bytes.len(),
    ensures
        pos <= multipart_tag_at(bytes, pos, acc).1 <= bytes.len(),
        multipart_tag_at(bytes, pos, acc).0 is Ok ==> pos < multipart_tag_at(bytes, pos, acc).1,
    decreases bytes.len() - pos,
{
    if pos < bytes.len() && !(acc == 0 && bytes[pos] == 0x80) && acc * 128 <= usize::MAX
        && bytes[pos] >= 128 {
        lemma_multipart_tag_bounds(bytes, pos + 1, (acc * 128 + bytes[pos] % 128) as nat);
    }
}

/// A token's header is at least two bytes long, and header and body lie
/// inside the buffer.
pub proof fn lemma_token_at_bounds(bytes: Seq<u8>, pos: int, depth: u8)
    requires
        0 <= pos <= bytes.len(),
    ensures
        pos <= token_at(bytes, pos, depth).1 <= bytes.len(),
        match token_at(bytes, pos, depth).0 {
            Ok(t) => {
                &&& pos + 2 <= token_at(bytes, pos, depth).1
                &&& token_at(bytes, pos, depth).1 + t.body.len() <= bytes.len()
                &&& t.depth == depth
                &&& t.header.len() == token_at(bytes, pos, depth).1 - pos
            },
            Err(_) => true,
        },
{
    if pos < bytes.len() {
        lemma_multipart_tag_bounds(bytes, pos + 1, 0);
    }
}

/// Closing the frames at `pos` leaves the outer frames as they were, and
/// where no frame ends before `pos`, every frame that is left ends behind it.
pub proof fn lemma_close_at(stack: Seq<usize>, pos: int)
    requires
        forall|i: int| 0 <= i < stack.len() ==> pos <= #[trigger] stack[i],
        forall|i: int, j: int| 0 <= i <= j < stack.len() ==> stack[j] <= stack[i],
    ensures
        close_at(stack, pos).len() <= stack.len(),
        close_at(stack, pos) == stack.take(close_at(stack, pos).len() as int),
        forall|i: int| 0 <= i < close_at(stack, pos).len() ==> pos < #[trigger] close_at(stack, pos)[i],
    decreases stack.len(),
{
    if stack.len() > 0 && stack.last() == pos {
        let rest = stack.drop_last();
        lemma_close_at(rest, pos);
        assert(rest.take(close_at(rest, pos).len() as int) =~= stack.take(
            close_at(rest, pos).len() as int,
        ));
    } else {
        assert(stack.take(stack.len() as int) =~= stack);
        assert forall|i: int| 0 <= i < stack.len() implies pos < #[trigger] stack[i] by {
            assert(stack[stack.len() - 1] <= stack[i]);
        }
    }
}

/// A step keeps the buffer, never moves back, and leads from a well-formed
/// state to a well-formed state.  After a token it has moved on by at least
/// the two bytes of the shortest header.
pub proof fn lemma_parse_step_wf(s: ParserView)
    requires
        s.wf(),
    ensures
        parse_step(s).1.wf(),
        parse_step(s).1.bytes == s.bytes,
        parse_step(s).1.err == s.err,
        parse_step(s).0 is Ok ==> s.pos + 2 <= parse_step(s).1.pos,
        parse_step(s).0 is Err ==> parse_step(s).1 == s,
{
    let depth = s.stack.len() as u8;
    lemma_token_at_bounds(s.bytes, s.pos, depth);
    let (token, body_start) = token_at(s.bytes, s.pos, depth);
    if let Ok(t) = token {
        let end = body_start + t.body.len();
        if !(s.stack.len() > 0 && end > s.stack.last()) {
            assert forall|i: int| 0 <= i < s.stack.len() implies end <= #[trigger] s.stack[i] by {
                assert(s.stack[s.stack.len() - 1] <= s.stack[i]);
            }
            match t.enc {
                Encoding::Primitive => {
                    lemma_close_at(s.stack, end);
                },
                Encoding::Constructed => {
                    if s.stack.len() < MAX_DEPTH {
                        let pushed = s.stack.push(end as usize);
                        lemma_close_at(pushed, body_start);
                    }
                },
            }
        }
    }
}

impl<'a> View for Parser<'a> {
    type V = ParserView;

    closed spec fn view(&self) -> ParserView {
        ParserView {
            bytes: self.iter.bytes(),
            pos: self.iter.offset() as int,
            err: self.err,
            stack: self.stack@,
        }
    }
}

impl<'a> Parser<'a> {
    /// Every parser is in a well-formed state.
    #[verifier::type_invariant]
    pub open spec fn inv(&self) -> bool {
        self@.wf()
    }

    /// A parser at the start of `bytes`.
    pub fn new(bytes: &'a [u8]) -> (parser: Parser<'a>)
        ensures
            parser@ == ParserView::start(bytes@),
    {
        let iter = Iter::new(bytes);
        proof {
            use_type_invariant(&iter);
        }
        Parser { iter: iter, err: false, stack: FixedStack::new() }
    }

    /// Reads one token, whether or not an error was given before.  On an
    /// error the parser stays where it was.
    pub fn parse(&mut self) -> (token: Result<Token<'a>, Error>)
        ensures
            match token {
                Ok(t) => (Ok::<TokenView, Error>(t@), final(self)@),
                Err(e) => (Err(e), final(self)@),
            } == parse_step(old(self)@),
    {
        proof {
            use_type_invariant(&*self);
            lemma_parse_step_wf(self@);
            lemma_token_at_bounds(self@.bytes, self@.pos, self@.stack.len() as u8);
        }
        let mut iter = self.iter;
        let mut stack = self.stack;

        let token = match Token::from_bytes(&mut iter, stack.depth()) {
            Ok(token) => token,
            Err(e) => return Err(e),
        };
        let token_end = iter.pos() + token.body.len();

        // A token inside a container must end inside it.
        if let Some(parent_end) = stack.peek() {
            if token_end > parent_end {
                return Err(Error::MalformedToken);
            }
        }
        match token.enc {
            Encoding::Primitive => {
                // Step over the contents.
                let mut skipped: usize = 0;
                while skipped < token.body.len()
                    invariant
                        skipped <= token.body@.len(),
                        iter.bytes() == old(self)@.bytes,
                        iter.offset() + token.body@.len() - skipped == token_end,
                        token_end <= iter.bytes().len(),
                    decreases token.body@.len() - skipped,
                {
                    if let None = iter.next() {
                        return Err(Error::BufferTooShort);
                    }
                    skipped += 1;
                }
            },
            Encoding::Constructed => {
                if let Err(_) = stack.push(token_end) {
                    return Err(Error::NestedTooDeep);
                }
            },
        }

        let pos = iter.pos();
        let ghost opened = stack@;

        // Close the containers that end here.
        loop
            invariant
                close_at(stack@, pos as int) == close_at(opened, pos as int),
            ensures
                stack@ == close_at(opened, pos as int),
            decreases stack@.len(),
        {
            match stack.peek() {
                Some(parent_end) if pos == parent_end => {
                    stack.discard();
                },
                _ => {
                    break ;
                },
            }
        }

        *self = Parser { iter: iter, err: self.err, stack: stack };
        Ok(token)
    }

    /// Pulls the next token: nothing once an error was given or the buffer
    /// is used up, else the token or the error that ends the stream.
    pub fn next(&mut self) -> (item: Option<Result<Token<'a>, Error>>)
        ensures
            (item_view(item), final(self)@) == next_step(old(self)@),
    {
        proof {
            use_type_invariant(&*self);
        }
        if self.err || self.iter.peek().is_none() {
            return None;
        }
        let result = self.parse();
        proof {
            use_type_invariant(&*self);
        }
        self.err = result.is_err();
        Some(result)
    }
}

impl<'a> Token<'a> {
    /// A parser over the body of the token.
    pub fn parser(&self) -> (parser: Parser<'a>)
        ensures
            parser@ == ParserView::start(self.body@),
    {
        Parser::new(self.body)
    }
}

} // verus!
