//! Tokens: a tag, a length and the bytes that the length announces.

use crate::bigendian::{
    be_value, lemma_be_value_bound, lemma_be_value_push, lemma_pow256_monotonic,
    lemma_pow256_values,
};
use crate::parser::iter::Iter;
use crate::parser::tag::{tag_at, Encoding, Tag};
use crate::Error;
use vstd::prelude::*;

verus! {

/// One tag-length-value triple of the input.  `header` and `body` borrow
/// from the buffer that was tokenized.
#[derive(Debug, Clone, Copy)]
pub struct Token<'a> {
    pub enc: Encoding,
    pub tag: Tag,
    /// The number of constructed tokens that enclose this one.
    pub depth: u8,
    /// The bytes of the tag and of the length.
    pub header: &'a [u8],
    /// The bytes that the length announces.
    pub body: &'a [u8],
}

/// A token as a plain value.
pub struct TokenView {
    pub enc: Encoding,
    pub tag: Tag,
    pub depth: u8,
    pub header: Seq<u8>,
    pub body: Seq<u8>,
}

impl<'a> View for Token<'a> {
    type V = TokenView;

    open spec fn view(&self) -> TokenView {
        TokenView {
            enc: self.enc,
            tag: self.tag,
            depth: self.depth,
            header: self.header@,
            body: self.body@,
        }
    }
}

/// The smallest length that may be written in the long form.
pub const MIN_LONG_LENGTH: usize = 128;

const LENGTH_MASK: u8 = 0b01111111;

/// The number of bytes in a machine word.
pub open spec fn word_bytes() -> nat {
    (usize::BITS / 8) as nat
}

/// What reading a long-form length of `count` bytes at `pos` gives: the
/// length or the error, and the position behind the last byte that was read.
pub open spec fn long_length_at(bytes: Seq<u8>, pos: int, count: u8) -> (Result<usize, Error>, int) {
    if count == 0 || count == 127 {
        (Err(Error::MalformedToken), pos)
    } else if count > word_bytes() {
        (Err(Error::TokenTooLong), pos)
    } else if pos < 0 || pos + count > bytes.len() {
        (Err(Error::BufferTooShort), bytes.len() as int)
    } else {
        let length = be_value(bytes.subrange(pos, pos + count));
        if length < MIN_LONG_LENGTH {
            (Err(Error::MalformedToken), pos + count)
        } else {
            (Ok(length as usize), pos + count)
        }
    }
}

/// What reading a length at `pos` gives: the length or the error, and the
/// position behind the last byte that was read.
pub open spec fn length_at(bytes: Seq<u8>, pos: int) -> (Result<usize, Error>, int) {
    if pos < 0 || pos >= bytes.len() {
        (Err(Error::BufferTooShort), pos)
    } else if bytes[pos] < 128 {
        (Ok(bytes[pos] as usize), pos + 1)
    } else {
        long_length_at(bytes, pos + 1, (bytes[pos] - 128) as u8)
    }
}

/// What reading a token at `pos` gives: the token or the error, and the
/// position behind its header, or behind the last byte that was read where
/// the header is in error.  The body is not read over.
pub open spec fn token_at(bytes: Seq<u8>, pos: int, depth: u8) -> (Result<TokenView, Error>, int) {
    let (tag, tag_end) = tag_at(bytes, pos);
    match tag {
        Err(e) => (Err(e), tag_end),
        Ok((enc, tag)) => {
            let (length, body_start) = length_at(bytes, tag_end);
            match length {
                Err(e) => (Err(e), body_start),
                Ok(length) => if bytes.len() - body_start < length {
                    (Err(Error::BufferTooShort), body_start)
                } else {
                    (
                        Ok(
                            TokenView {
                                enc,
                                tag,
                                depth,
                                header: bytes.subrange(pos, body_start),
                                body: bytes.subrange(body_start, body_start + length),
                            },
                        ),
                        body_start,
                    )
                },
            }
        },
    }
}

impl<'a> Token<'a> {
    /// Reads the header of a token at the cursor and borrows its body from
    /// the buffer.  The cursor stops behind the header.
    pub fn from_bytes<'b>(iter: &mut Iter<'b>, depth: u8) -> (token: Result<Token<'b>, Error>)
        ensures
            final(iter).bytes() == old(iter).bytes(),
            old(iter).offset() <= final(iter).offset() <= final(iter).bytes().len(),
            match token {
                Ok(t) => (Ok::<TokenView, Error>(t@), final(iter).offset() as int),
                Err(e) => (Err(e), final(iter).offset() as int),
            } == token_at(old(iter).bytes(), old(iter).offset() as int, depth),
    {
        let hdr_start = iter.pos();

        let (encoding, tag) = match Tag::from_bytes(iter) {
            Ok(pair) => pair,
            Err(e) => return Err(e),
        };

        let length = {
            let byte = match iter.next() {
                Some(byte) => *byte,
                None => return Err(Error::BufferTooShort),
            };
            let length = byte & LENGTH_MASK;
            assert(byte & 0b01111111 == byte % 128) by (bit_vector);
            assert((byte >> 7 == 1) == (byte >= 128)) by (bit_vector);

            if (byte >> 7) == 1u8 {
                match Self::read_longform_length(length, iter) {
                    Ok(length) => length,
                    Err(e) => return Err(e),
                }
            } else {
                length as usize
            }
        };

        proof {
            use_type_invariant(&*iter);
        }
        let (min_remaining, _) = iter.size_hint();

        if min_remaining < length {
            return Err(Error::BufferTooShort);
        }
        let pos = iter.pos();
        let header = iter.subslice(hdr_start, pos);
        let body = iter.subslice(pos, pos + length);

        Ok(Token { enc: encoding, tag: tag, depth: depth, header: header, body: body })
    }

    /// Reads the `num_bytes` bytes of a long-form length at the cursor.
    pub fn read_longform_length<'b>(num_bytes: u8, iter: &mut Iter<'b>) -> (length: Result<
        usize,
        Error,
    >)
        ensures
            final(iter).bytes() == old(iter).bytes(),
            old(iter).offset() <= final(iter).offset() <= final(iter).bytes().len(),
            (length, final(iter).offset() as int) == long_length_at(
                old(iter).bytes(),
                old(iter).offset() as int,
                num_bytes,
            ),
    {
        proof {
            use_type_invariant(&*iter);
        }
        if num_bytes == 0 {
            // The indefinite form.
            return Err(Error::MalformedToken);
        } else if num_bytes == 127 {
            // Reserved.
            return Err(Error::MalformedToken);
        } else if num_bytes as u32 > usize::BITS / 8 {
            return Err(Error::TokenTooLong);
        }
        let ghost start = iter.offset() as int;
        let ghost bytes = iter.bytes();
        let mut length: usize = 0;
        let mut read: u8 = 0;
        while read < num_bytes
            invariant
                read <= num_bytes <= word_bytes(),
                iter.bytes() == bytes,
                bytes == old(iter).bytes(),
                0 <= start == old(iter).offset(),
                iter.offset() == start + read,
                start + read <= bytes.len(),
                length == be_value(bytes.subrange(start, start + read)),
            decreases num_bytes - read,
        {
            let byte = match iter.next() {
                Some(byte) => *byte as usize,
                None => return Err(Error::BufferTooShort),
            };
            proof {
                let so_far = bytes.subrange(start, start + read);
                lemma_be_value_bound(so_far);
                lemma_be_value_push(so_far, byte as u8);
                assert(so_far.push(byte as u8) =~= bytes.subrange(start, start + read + 1));
                lemma_pow256_monotonic(read as nat, (word_bytes() - 1) as nat);
                lemma_pow256_values();
            }
            length = length * 256 + byte;
            read += 1;
        }

        if length < MIN_LONG_LENGTH {
            // The short form would have held this length.
            return Err(Error::MalformedToken);
        }
        Ok(length)
    }
}

} // verus!
