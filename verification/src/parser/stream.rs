//! The token stream as a whole: what pulling until the end gives, and what
//! holds of every stream.

use crate::parser::stack::MAX_DEPTH;
use crate::parser::tag::{multipart_tag_at, Encoding};
use crate::parser::token::{token_at, Token, TokenView};
use crate::parser::{lemma_parse_step_wf, lemma_token_at_bounds, next_step, parse_step, Parser, ParserView};
use crate::Error;
use vstd::prelude::*;

verus! {

/// A token or an error, with the token as a plain value.
pub open spec fn outcome_view(outcome: Result<Token<'_>, Error>) -> Result<TokenView, Error> {
    match outcome {
        Ok(t) => Ok(t@),
        Err(e) => Err(e),
    }
}

/// Everything that pulling from the state `s` gives until nothing comes, in
/// the order in which it comes.
pub open spec fn tokens_from(s: ParserView) -> Seq<Result<TokenView, Error>>
    decreases s.bytes.len() - s.pos, (if s.err { 0nat } else { 1nat }),
    when s.wf()
{
    let (item, after) = next_step(s);
    match item {
        None => Seq::empty(),
        Some(outcome) => {
            proof {
                lemma_parse_step_wf(s);
            }
            seq![outcome] + tokens_from(after)
        },
    }
}

/// Once an error was given, or at the end of the buffer, a pull gives
/// nothing and changes nothing; and the pull behind an error gives nothing.
pub proof fn lemma_error_is_final(s: ParserView)
    ensures
        s.err ==> next_step(s) == (None::<Result<TokenView, Error>>, s),
        next_step(s).0 is Some && next_step(s).0->Some_0 is Err ==> next_step(next_step(s).1).0
            is None,
{
}

/// A pull leads from a well-formed state to a well-formed state over the
/// same buffer, and a pull that gives a token moves on by at least two bytes.
pub proof fn lemma_next_step_wf(s: ParserView)
    requires
        s.wf(),
    ensures
        next_step(s).1.wf(),
        next_step(s).1.bytes == s.bytes,
        next_step(s).0 is Some && next_step(s).0->Some_0 is Ok ==> s.pos + 2 <= next_step(s).1.pos,
{
    lemma_parse_step_wf(s);
}

/// Every stream is finite and holds at most one error, which is its last
/// item: from a well-formed state, pulling gives at most one item for each
/// two bytes that are left and one more, and every item but the last is a
/// token.
pub proof fn lemma_stream_shape(s: ParserView)
    requires
        s.wf(),
    ensures
        2 * tokens_from(s).len() <= s.bytes.len() - s.pos + 2,
        forall|i: int| 0 <= i < tokens_from(s).len() - 1 ==> (#[trigger] tokens_from(s)[i]) is Ok,
        s.err ==> tokens_from(s).len() == 0,
    decreases s.bytes.len() - s.pos, (if s.err { 0nat } else { 1nat }),
{
    let (item, after) = next_step(s);
    lemma_next_step_wf(s);
    match item {
        None => {},
        Some(outcome) => {
            lemma_parse_step_wf(s);
            lemma_stream_shape(after);
            let rest = tokens_from(after);
            assert(tokens_from(s) == seq![outcome] + rest);
            assert forall|i: int| 0 <= i < tokens_from(s).len() - 1 implies (
            #[trigger] tokens_from(s)[i]) is Ok by {
                if i > 0 {
                    assert(tokens_from(s)[i] == rest[i - 1]);
                }
            }
        },
    }
}

/// Where the buffer is used up, no container is open: the stream ends at
/// the top level.
pub proof fn lemma_end_is_top_level(s: ParserView)
    requires
        s.wf(),
        s.pos >= s.bytes.len(),
    ensures
        s.stack.len() == 0,
{
    if s.stack.len() > 0 {
        assert(s.pos < s.stack[0]);
    }
}

/// Reading a multi-byte tag number never fails for want of stack.
pub proof fn lemma_multipart_tag_errors(bytes: Seq<u8>, pos: int, acc: nat)
    ensures
        multipart_tag_at(bytes, pos, acc).0 != Err::<usize, Error>(Error::NestedTooDeep),
    decreases bytes.len() - pos,
{
    if 0 <= pos < bytes.len() && !(acc == 0 && bytes[pos] == 0x80) && acc * 128 <= usize::MAX
        && bytes[pos] >= 128 {
        lemma_multipart_tag_errors(bytes, pos + 1, (acc * 128 + bytes[pos] % 128) as nat);
    }
}

/// No more than [`MAX_DEPTH`] containers are ever open, and the stack runs
/// out exactly where one more would be: a step fails with `NestedTooDeep`
/// if and only if `MAX_DEPTH` containers are open and the next token is a
/// constructed one that is well-formed and ends inside the innermost of
/// them.  A token that is given lies no deeper than `MAX_DEPTH`.
pub proof fn lemma_depth_ceiling(s: ParserView)
    requires
        s.wf(),
    ensures
        parse_step(s).1.stack.len() <= MAX_DEPTH,
        match parse_step(s).0 {
            Ok(t) => t.depth == s.stack.len() && t.depth <= MAX_DEPTH,
            Err(_) => true,
        },
        parse_step(s).0 == Err::<TokenView, Error>(Error::NestedTooDeep) <==> s.stack.len()
            == MAX_DEPTH && match token_at(s.bytes, s.pos, s.stack.len() as u8) {
            (Ok(t), body_start) => t.enc == Encoding::Constructed && body_start + t.body.len()
                <= s.stack.last(),
            (Err(_), _) => false,
        },
{
    lemma_parse_step_wf(s);
    lemma_token_at_bounds(s.bytes, s.pos, s.stack.len() as u8);
    if 0 <= s.pos < s.bytes.len() {
        lemma_multipart_tag_errors(s.bytes, s.pos + 1, 0);
    }
}

impl<'a> Parser<'a> {
    /// Pulls until nothing comes and gives everything that came, in order.
    pub fn tokens(&mut self) -> (items: Vec<Result<Token<'a>, Error>>)
        ensures
            items@.len() == tokens_from(old(self)@).len(),
            forall|i: int|
                0 <= i < items@.len() ==> outcome_view(#[trigger] items@[i]) == tokens_from(
                    old(self)@,
                )[i],
            next_step(final(self)@).0 is None,
    {
        proof {
            use_type_invariant(&*self);
        }
        let mut items: Vec<Result<Token<'a>, Error>> = Vec::new();
        loop
            invariant
                self@.wf(),
                self@.bytes == old(self)@.bytes,
                old(self)@.wf(),
                tokens_from(old(self)@).len() == items@.len() + tokens_from(self@).len(),
                forall|i: int|
                    0 <= i < items@.len() ==> outcome_view(#[trigger] items@[i]) == tokens_from(
                        old(self)@,
                    )[i],
                forall|i: int|
                    0 <= i < tokens_from(self@).len() ==> tokens_from(self@)[i] == tokens_from(
                        old(self)@,
                    )[items@.len() + i],
            ensures
                items@.len() == tokens_from(old(self)@).len(),
                forall|i: int|
                    0 <= i < items@.len() ==> outcome_view(#[trigger] items@[i]) == tokens_from(
                        old(self)@,
                    )[i],
                next_step(self@).0 is None,
            decreases self@.bytes.len() - self@.pos, (if self@.err { 0nat } else { 1nat }),
        {
            let ghost before = self@;
            proof {
                lemma_next_step_wf(before);
            }
            match self.next() {
                None => {
                    break ;
                },
                Some(outcome) => {
                    proof {
                        use_type_invariant(&*self);
                        let rest = tokens_from(self@);
                        assert(tokens_from(before) == seq![outcome_view(outcome)] + rest);
                        assert forall|i: int| 0 <= i < rest.len() implies rest[i] == tokens_from(
                            old(self)@,
                        )[items@.len() + 1 + i] by {
                            assert(tokens_from(before)[i + 1] == rest[i]);
                        }
                        assert(tokens_from(before)[0] == outcome_view(outcome));
                    }
                    items.push(outcome);
                },
            }
        }
        items
    }
}

} // verus!
