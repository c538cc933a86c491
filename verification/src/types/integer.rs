//! Integers, and the machine integers that they are decoded into.

use crate::bigendian::{
    be_value, lemma_be_value_bound, lemma_be_value_push, lemma_pow256_monotonic,
    lemma_pow256_values, pow256,
};
use crate::parser::{Encoding, Tag, Token, TokenView};
use crate::types::TokenType;
use crate::Error;
use vstd::prelude::*;

verus! {

/// Whether `value` is in the range of a signed integer of `width` bytes.
pub open spec fn fits_signed(value: int, width: nat) -> bool {
    -(pow256(width) / 2) <= value < pow256(width) / 2
}

/// Whether `value` is in the range of an unsigned integer of `width` bytes.
pub open spec fn fits_unsigned(value: int, width: nat) -> bool {
    0 <= value < pow256(width)
}

/// A signed machine integer that an [`Int`] can be decoded into.
pub trait SignedInt: Copy {
    /// The size of the type in bytes.
    spec fn width() -> nat;

    /// The number that a value of the type stands for.
    spec fn as_int(self) -> int;

    /// The size of the type in bytes, from 1 to 16.
    fn size() -> (size: usize)
        ensures
            size == Self::width(),
            1 <= size <= 16,
    ;

    /// The value of the type that stands for `value`.
    fn from_wide(value: i128) -> (narrow: Self)
        requires
            fits_signed(value as int, Self::width()),
        ensures
            narrow.as_int() == value,
    ;
}

/// An unsigned machine integer that a bit string can be read as.
pub trait UnsignedInt: Copy {
    /// The size of the type in bytes.
    spec fn width() -> nat;

    /// The number that a value of the type stands for.
    spec fn as_int(self) -> int;

    /// The size of the type in bytes, from 1 to 16.
    fn size() -> (size: usize)
        ensures
            size == Self::width(),
            1 <= size <= 16,
    ;

    /// The value of the type that stands for `value`.
    fn from_wide(value: u128) -> (narrow: Self)
        requires
            fits_unsigned(value as int, Self::width()),
        ensures
            narrow.as_int() == value,
    ;
}

impl SignedInt for i8 {
    open spec fn width() -> nat {
        1
    }

    open spec fn as_int(self) -> int {
        self as int
    }

    fn size() -> (size: usize) {
        1
    }

    fn from_wide(value: i128) -> (narrow: i8) {
        proof {
            lemma_pow256_values();
        }
        value as i8
    }
}

impl SignedInt for i16 {
    open spec fn width() -> nat {
        2
    }

    open spec fn as_int(self) -> int {
        self as int
    }

    fn size() -> (size: usize) {
        2
    }

    fn from_wide(value: i128) -> (narrow: i16) {
        proof {
            lemma_pow256_values();
        }
        value as i16
    }
}

impl SignedInt for i32 {
    open spec fn width() -> nat {
        4
    }

    open spec fn as_int(self) -> int {
        self as int
    }

    fn size() -> (size: usize) {
        4
    }

    fn from_wide(value: i128) -> (narrow: i32) {
        proof {
            lemma_pow256_values();
        }
        value as i32
    }
}

impl SignedInt for i64 {
    open spec fn width() -> nat {
        8
    }

    open spec fn as_int(self) -> int {
        self as int
    }

    fn size() -> (size: usize) {
        8
    }

    fn from_wide(value: i128) -> (narrow: i64) {
        proof {
            lemma_pow256_values();
        }
        value as i64
    }
}

impl SignedInt for i128 {
    open spec fn width() -> nat {
        16
    }

    open spec fn as_int(self) -> int {
        self as int
    }

    fn size() -> (size: usize) {
        16
    }

    fn from_wide(value: i128) -> (narrow: i128) {
        value
    }
}

impl UnsignedInt for u8 {
    open spec fn width() -> nat {
        1
    }

    open spec fn as_int(self) -> int {
        self as int
    }

    fn size() -> (size: usize) {
        1
    }

    fn from_wide(value: u128) -> (narrow: u8) {
        proof {
            lemma_pow256_values();
        }
        value as u8
    }
}

impl UnsignedInt for u16 {
    open spec fn width() -> nat {
        2
    }

    open spec fn as_int(self) -> int {
        self as int
    }

    fn size() -> (size: usize) {
        2
    }

    fn from_wide(value: u128) -> (narrow: u16) {
        proof {
            lemma_pow256_values();
        }
        value as u16
    }
}

impl UnsignedInt for u32 {
    open spec fn width() -> nat {
        4
    }

    open spec fn as_int(self) -> int {
        self as int
    }

    fn size() -> (size: usize) {
        4
    }

    fn from_wide(value: u128) -> (narrow: u32) {
        proof {
            lemma_pow256_values();
        }
        value as u32
    }
}

impl UnsignedInt for u64 {
    open spec fn width() -> nat {
        8
    }

    open spec fn as_int(self) -> int {
        self as int
    }

    fn size() -> (size: usize) {
        8
    }

    fn from_wide(value: u128) -> (narrow: u64) {
        proof {
            lemma_pow256_values();
        }
        value as u64
    }
}

impl UnsignedInt for u128 {
    open spec fn width() -> nat {
        16
    }

    open spec fn as_int(self) -> int {
        self as int
    }

    fn size() -> (size: usize) {
        16
    }

    fn from_wide(value: u128) -> (narrow: u128) {
        value
    }
}

/// The number that `bytes` spell in two's complement, most significant
/// byte first.
pub open spec fn twos_complement(bytes: Seq<u8>) -> int {
    if bytes.len() > 0 && bytes[0] >= 128 {
        be_value(bytes) - pow256(bytes.len())
    } else {
        be_value(bytes) as int
    }
}

/// Whether the first byte of `bytes` only repeats the sign that the second
/// byte already carries: the number has a shorter encoding.
pub open spec fn padded(bytes: Seq<u8>) -> bool {
    bytes.len() > 1 && ((bytes[0] == 0x00 && bytes[1] < 128) || (bytes[0] == 0xFF && bytes[1]
        >= 128))
}

/// A byte string of length `n` spells a two's complement number of `n`
/// bytes, and one more byte multiplies it by 256 and adds the byte.
pub proof fn lemma_twos_complement_push(bytes: Seq<u8>, byte: u8)
    requires
        bytes.len() > 0,
    ensures
        fits_signed(twos_complement(bytes), bytes.len()),
        twos_complement(bytes.push(byte)) == twos_complement(bytes) * 256 + byte,
        fits_signed(twos_complement(bytes.push(byte)), bytes.len() + 1),
{
    lemma_twos_complement_bound(bytes);
    lemma_be_value_push(bytes, byte);
    assert(bytes.push(byte)[0] == bytes[0]);
    lemma_twos_complement_bound(bytes.push(byte));
}

/// A byte string of length `n` spells a two's complement number of `n` bytes.
pub proof fn lemma_twos_complement_bound(bytes: Seq<u8>)
    requires
        bytes.len() > 0,
    ensures
        fits_signed(twos_complement(bytes), bytes.len()),
    decreases bytes.len(),
{
    lemma_be_value_bound(bytes);
    if bytes.len() == 1 {
        assert(bytes.drop_last().len() == 0);
        assert(be_value(bytes.drop_last()) == 0);
        lemma_pow256_values();
    } else {
        let front = bytes.drop_last();
        assert(front[0] == bytes[0]);
        lemma_twos_complement_bound(front);
        lemma_be_value_bound(front);
        lemma_pow256_monotonic(1, front.len());
        assert(pow256(bytes.len()) == 256 * pow256(front.len()));
        assert(pow256(front.len()) == 256 * pow256((front.len() - 1) as nat));
    }
}

/// An integer, decoded into the machine integer `T`.
#[derive(Debug)]
pub struct Int<T: SignedInt>(pub T);

impl<T: SignedInt> View for Int<T> {
    type V = int;

    open spec fn view(&self) -> int {
        self.0.as_int()
    }
}

impl<'a, T: SignedInt> TokenType<'a> for Int<T> {
    /// An integer is a two's complement number of at least one byte, in the
    /// fewest bytes that hold it, and must fit the type it is decoded into.
    open spec fn decode(token: TokenView) -> Result<int, Error> {
        if token.enc != Encoding::Primitive || token.body.len() == 0 {
            Err(Error::MalformedToken)
        } else if token.body.len() > T::width() {
            Err(Error::OutOfMemory)
        } else if padded(token.body) {
            Err(Error::MalformedToken)
        } else {
            Ok(twos_complement(token.body))
        }
    }

    open spec fn matches_tag(tag: Tag) -> bool {
        tag == Tag::Int
    }

    open spec fn expected_encoding() -> Encoding {
        Encoding::Primitive
    }

    fn matches(tag: Tag) -> (matches: bool) {
        tag == Tag::Int
    }

    fn encoding() -> (encoding: Encoding) {
        Encoding::Primitive
    }

    fn from_token(token: &Token<'a>) -> (value: Result<Int<T>, Error>) {
        if token.enc != Encoding::Primitive {
            return Err(Error::MalformedToken);
        }
        if token.body.len() == 0 {
            return Err(Error::MalformedToken);
        }
        if token.body.len() > T::size() {
            return Err(Error::OutOfMemory);
        }
        if token.body.len() > 1 {
            // The nine leading bits must not all be equal.
            let high = token.body[0];
            let low = token.body[1];
            let leading = ((high as u16) << 1) | ((low as u16) >> 7);
            assert(((high as u16) << 1) | ((low as u16) >> 7) == 0 <==> high == 0 && low < 128)
                by (bit_vector);
            assert(((high as u16) << 1) | ((low as u16) >> 7) == 0x1ff <==> high == 0xff && low
                >= 128) by (bit_vector);
            if leading == 0b0000_0000_0 || leading == 0b1111_1111_1 {
                return Err(Error::MalformedToken);
            }
        }
        let first = token.body[0];
        let mut result: i128 = if first >= 128 {
            first as i128 - 256
        } else {
            first as i128
        };
        proof {
            let head = token.body@.take(1);
            assert(head.drop_last().len() == 0);
            assert(be_value(head.drop_last()) == 0);
            lemma_pow256_values();
            assert(twos_complement(head) == result);
        }
        let mut i: usize = 1;
        while i < token.body.len()
            invariant
                1 <= i <= token.body@.len() <= 16,
                result == twos_complement(token.body@.take(i as int)),
            decreases token.body@.len() - i,
        {
            let byte = token.body[i];
            proof {
                let front = token.body@.take(i as int);
                lemma_twos_complement_push(front, byte);
                assert(front.push(byte) =~= token.body@.take(i + 1));
                lemma_pow256_monotonic(i as nat, 15);
                lemma_pow256_values();
            }
            result = result * 256 + byte as i128;
            i += 1;
        }
        proof {
            assert(token.body@.take(i as int) =~= token.body@);
            lemma_twos_complement_bound(token.body@);
            lemma_pow256_monotonic(token.body@.len(), T::width());
        }
        Ok(Int(T::from_wide(result)))
    }
}

} // verus!
