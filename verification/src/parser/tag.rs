//! Tags: the class, the encoding and the number of a token.

use crate::parser::iter::Iter;
use crate::Error;
use vstd::prelude::*;

verus! {

/// The class of a tag, taken from the two highest bits of its first byte.
#[derive(Debug, Copy, Clone, PartialEq, Eq, Structural)]
pub enum Class {
    Universal,
    Application,
    Context,
    Private,
}

/// Whether a token holds raw value bytes or further tokens.
#[derive(Debug, Copy, Clone, PartialEq, Eq, Structural)]
pub enum Encoding {
    Primitive,
    Constructed,
}

/// The type of a token: one of the universal types that the decoders know,
/// or a class and a number for everything else.
///
/// `String` and `Time` never come out of the tokenizer.  They stand for a
/// family of tags where a token is matched against an expectation.
#[derive(Debug, Copy, Clone, PartialEq, Eq, Structural)]
pub enum Tag {
    Bool,
    Int,
    Bitstring,
    Octetstring,
    Null,
    Oid,
    Utf8String,
    Sequence,
    SetOf,
    PrintableString,
    T61String,
    Ia5String,
    UtcTime,
    GeneralizedTime,
    VisibleString,
    Composed(Class, usize),
    String,
    Time,
}

/// The value of the number field that announces a multi-byte tag number.
pub const MULTIPART_ID: usize = 31;

const CLASS_MASK: u8 = 0b11000000;

const ENCODING_MASK: u8 = 0b00100000;

const ID_MASK: u8 = 0b00011111;

const MULTIPART_MASK: u8 = 0b01111111;

const MULTIPART_SHIFT: usize = 128;

/// The class that the first byte of a tag names.
pub open spec fn class_of(byte: u8) -> Class {
    if byte / 64 == 0 {
        Class::Universal
    } else if byte / 64 == 1 {
        Class::Application
    } else if byte / 64 == 2 {
        Class::Context
    } else {
        Class::Private
    }
}

/// The encoding that the first byte of a tag names.
pub open spec fn encoding_of(byte: u8) -> Encoding {
    if (byte / 32) % 2 == 0 {
        Encoding::Primitive
    } else {
        Encoding::Constructed
    }
}

/// The tag that a class and a number stand for.
pub open spec fn tag_of(class: Class, number: usize) -> Tag {
    if class != Class::Universal {
        Tag::Composed(class, number)
    } else if number == 1 {
        Tag::Bool
    } else if number == 2 {
        Tag::Int
    } else if number == 3 {
        Tag::Bitstring
    } else if number == 4 {
        Tag::Octetstring
    } else if number == 5 {
        Tag::Null
    } else if number == 6 {
        Tag::Oid
    } else if number == 12 {
        Tag::Utf8String
    } else if number == 16 {
        Tag::Sequence
    } else if number == 17 {
        Tag::SetOf
    } else if number == 19 {
        Tag::PrintableString
    } else if number == 20 {
        Tag::T61String
    } else if number == 22 {
        Tag::Ia5String
    } else if number == 23 {
        Tag::UtcTime
    } else if number == 24 {
        Tag::GeneralizedTime
    } else if number == 26 {
        Tag::VisibleString
    } else {
        Tag::Composed(Class::Universal, number)
    }
}

/// What reading a multi-byte tag number from `pos` on gives, when the bytes
/// before `pos` have added up to `acc`: the number or the error, and the
/// position behind the last byte that was read.
///
/// Each byte carries seven bits, the most significant first, and the last
/// byte is the first one whose high bit is clear.
pub open spec fn multipart_tag_at(bytes: Seq<u8>, pos: int, acc: nat) -> (Result<usize, Error>, int)
    decreases bytes.len() - pos,
{
    if pos < 0 || pos >= bytes.len() {
        (Err(Error::BufferTooShort), pos)
    } else if acc == 0 && bytes[pos] == 0x80 {
        (Err(Error::InvalidMultipartTag), pos + 1)
    } else if acc * 128 > usize::MAX {
        (Err(Error::MultipartTagOverflow), pos + 1)
    } else {
        let number = (acc * 128 + bytes[pos] % 128) as nat;
        if bytes[pos] >= 128 {
            multipart_tag_at(bytes, pos + 1, number)
        } else if number < MULTIPART_ID {
            (Err(Error::InvalidMultipartTag), pos + 1)
        } else {
            (Ok(number as usize), pos + 1)
        }
    }
}

/// What reading a tag at `pos` gives: the encoding and the tag or the error,
/// and the position behind the last byte that was read.
pub open spec fn tag_at(bytes: Seq<u8>, pos: int) -> (Result<(Encoding, Tag), Error>, int) {
    if pos < 0 || pos >= bytes.len() {
        (Err(Error::BufferTooShort), pos)
    } else {
        let first = bytes[pos];
        if first % 32 == MULTIPART_ID {
            let (number, end) = multipart_tag_at(bytes, pos + 1, 0);
            match number {
                Ok(n) => (Ok((encoding_of(first), tag_of(class_of(first), n))), end),
                Err(e) => (Err(e), end),
            }
        } else {
            (Ok((encoding_of(first), tag_of(class_of(first), (first % 32) as usize))), pos + 1)
        }
    }
}

impl Tag {
    /// Reads a tag at the cursor.
    pub fn from_bytes<'a>(iter: &mut Iter<'a>) -> (tag: Result<(Encoding, Tag), Error>)
        ensures
            final(iter).bytes() == old(iter).bytes(),
            old(iter).offset() <= final(iter).offset() <= final(iter).bytes().len(),
            (tag, final(iter).offset() as int) == tag_at(old(iter).bytes(), old(iter).offset() as int),
    {
        let byte = match iter.next() {
            Some(byte) => *byte,
            None => return Err(Error::BufferTooShort),
        };

        assert((byte & 0b11000000) >> 6 == byte / 64) by (bit_vector);
        assert((byte & 0b00100000) >> 5 == (byte / 32) % 2) by (bit_vector);
        assert(byte & 0b00011111 == byte % 32) by (bit_vector);

        let class = match (byte & CLASS_MASK) >> 6 {
            0 => Class::Universal,
            1 => Class::Application,
            2 => Class::Context,
            _ => Class::Private,
        };

        let encoding = match (byte & ENCODING_MASK) >> 5 {
            0 => Encoding::Primitive,
            _ => Encoding::Constructed,
        };

        let low = (byte & ID_MASK) as usize;
        let id = if low == MULTIPART_ID {
            match Self::read_multipart_tag(iter) {
                Ok(id) => id,
                Err(e) => return Err(e),
            }
        } else {
            low
        };

        Ok(
            (
                encoding,
                match class {
                    Class::Universal => match id {
                        1 => Tag::Bool,
                        2 => Tag::Int,
                        3 => Tag::Bitstring,
                        4 => Tag::Octetstring,
                        5 => Tag::Null,
                        6 => Tag::Oid,
                        12 => Tag::Utf8String,
                        16 => Tag::Sequence,
                        17 => Tag::SetOf,
                        19 => Tag::PrintableString,
                        20 => Tag::T61String,
                        22 => Tag::Ia5String,
                        23 => Tag::UtcTime,
                        24 => Tag::GeneralizedTime,
                        26 => Tag::VisibleString,
                        _ => Tag::Composed(Class::Universal, id),
                    },
                    _ => Tag::Composed(class, id),
                },
            ),
        )
    }

    /// Reads the bytes of a multi-byte tag number at the cursor.
    pub fn read_multipart_tag<'a>(iter: &mut Iter<'a>) -> (number: Result<usize, Error>)
        ensures
            final(iter).bytes() == old(iter).bytes(),
            old(iter).offset() <= final(iter).offset() <= final(iter).bytes().len(),
            (number, final(iter).offset() as int) == multipart_tag_at(
                old(iter).bytes(),
                old(iter).offset() as int,
                0,
            ),
    {
        proof {
            use_type_invariant(&*iter);
        }
        let mut tag: usize = 0;
        loop
            invariant
                iter.bytes() == old(iter).bytes(),
                old(iter).offset() <= iter.offset() <= iter.bytes().len(),
                multipart_tag_at(iter.bytes(), iter.offset() as int, tag as nat)
                    == multipart_tag_at(old(iter).bytes(), old(iter).offset() as int, 0),
            decreases iter.bytes().len() - iter.offset(),
        {
            let ghost here = iter.offset() as int;
            let byte = match iter.next() {
                Some(byte) => *byte,
                None => return Err(Error::BufferTooShort),
            };
            assert(byte == iter.bytes()[here]);
            assert(!0b01111111u8 == 0x80) by (bit_vector);

            // The first byte of the number must carry some of its bits.
            if tag == 0 && byte == !MULTIPART_MASK {
                return Err(Error::InvalidMultipartTag);
            }

            let shifted = match tag.checked_mul(MULTIPART_SHIFT) {
                Some(t) => t,
                None => return Err(Error::MultipartTagOverflow),
            };
            let low = (byte & MULTIPART_MASK) as usize;
            assert(byte & 0b01111111 == byte % 128) by (bit_vector);
            assert(shifted | low == shifted + low) by (bit_vector)
                requires
                    shifted % 128 == 0,
                    low < 128,
            ;
            tag = shifted | low;

            assert((byte & !0b01111111u8 == 0) == (byte < 128)) by (bit_vector);
            if byte & !MULTIPART_MASK == 0 {
                if tag < MULTIPART_ID {
                    // The short form would have held this number.
                    return Err(Error::InvalidMultipartTag);
                } else {
                    return Ok(tag);
                }
            }
        }
    }
}

} // verus!
