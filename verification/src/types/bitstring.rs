//! Bit strings.

use crate::bigendian::{
    be_value, lemma_be_value_bound, lemma_be_value_push, lemma_pow256_monotonic,
    lemma_pow256_values,
};
use crate::parser::{Encoding, Tag, Token, TokenView};
use crate::types::integer::UnsignedInt;
use crate::types::TokenType;
use crate::Error;
use vstd::arithmetic::power2::{lemma2_to64, lemma_pow2_pos, pow2};
use vstd::bits::lemma_u128_shr_is_div;
use vstd::prelude::*;
use vstd::slice::slice_subrange;

verus! {

/// A string of bits, borrowed from the token that it was decoded from.  The
/// bits fill whole bytes from the most significant bit on; the last byte may
/// end in up to seven bits that do not belong to the string.
#[derive(Debug)]
pub struct Bitstring<'a>(&'a [u8], u8);

/// A bit string as a plain value.
pub struct BitstringView {
    /// The bytes that hold the bits.
    pub bytes: Seq<u8>,
    /// The number of bits at the end of the last byte that are not part of
    /// the string.
    pub unused: u8,
}

impl BitstringView {
    /// The number of bits in the string.
    pub open spec fn bits(self) -> int {
        self.bytes.len() * 8 - self.unused
    }

    /// The bit at `pos`, counted from the most significant bit of the first
    /// byte.  Behind the end of the string every bit is clear.
    pub open spec fn bit(self, pos: int) -> bool {
        0 <= pos < self.bits() && self.bytes[pos / 8] & (1u8 << ((7 - pos % 8) as u8)) != 0
    }

    /// The number that the bits spell, the first bit being the most
    /// significant.
    pub open spec fn unsigned(self) -> nat {
        be_value(self.bytes) / pow2(self.unused as nat)
    }
}

impl<'a> View for Bitstring<'a> {
    type V = BitstringView;

    closed spec fn view(&self) -> BitstringView {
        BitstringView { bytes: self.0@, unused: self.1 }
    }
}

impl<'a> TokenType<'a> for Bitstring<'a> {
    /// The first byte of a bit string counts the unused bits of its last
    /// byte, from 0 to 7.  The unused bits are clear, the last byte is not
    /// zero, and the empty string is the single byte 0.
    open spec fn decode(token: TokenView) -> Result<BitstringView, Error> {
        if token.enc != Encoding::Primitive || token.body.len() < 1 {
            Err(Error::MalformedToken)
        } else if token.body[0] > 7 {
            Err(Error::MalformedToken)
        } else if token.body.len() == 1 {
            if token.body[0] == 0 {
                Ok(BitstringView { bytes: Seq::empty(), unused: 0 })
            } else {
                Err(Error::MalformedToken)
            }
        } else if token.body.last() % (pow2(token.body[0] as nat) as u8) != 0 {
            Err(Error::MalformedToken)
        } else if token.body.last() == 0 {
            Err(Error::MalformedToken)
        } else {
            Ok(BitstringView { bytes: token.body.skip(1), unused: token.body[0] })
        }
    }

    open spec fn matches_tag(tag: Tag) -> bool {
        tag == Tag::Bitstring
    }

    open spec fn expected_encoding() -> Encoding {
        Encoding::Primitive
    }

    fn matches(tag: Tag) -> (matches: bool) {
        tag == Tag::Bitstring
    }

    fn encoding() -> (encoding: Encoding) {
        Encoding::Primitive
    }

    fn from_token(token: &Token<'a>) -> (value: Result<Bitstring<'a>, Error>) {
        if token.enc != Encoding::Primitive {
            return Err(Error::MalformedToken);
        }
        // The first byte counts the unused bits of the last one.
        if token.body.len() < 1 {
            return Err(Error::MalformedToken);
        }
        let unused = token.body[0];

        // Eight unused bits or more would be a byte too many.
        if unused > 7 {
            return Err(Error::MalformedToken);
        }
        proof {
            lemma2_to64();
        }
        // The empty string has no unused bits.
        if token.body.len() == 1 {
            return match unused {
                0 => {
                    let empty = slice_subrange(token.body, 1, 1);
                    assert(empty@ =~= Seq::<u8>::empty());
                    Ok(Bitstring(empty, 0))
                },
                _ => Err(Error::MalformedToken),
            };
        }
        let last = token.body[token.body.len() - 1];

        // The unused bits must be clear.
        if unused > 0 {
            assert((last & (((1u8 << unused) - 1) as u8) != 0) == ((unused == 1 && last % 2 != 0)
                || (unused == 2 && last % 4 != 0) || (unused == 3 && last % 8 != 0) || (unused == 4
                && last % 16 != 0) || (unused == 5 && last % 32 != 0) || (unused == 6 && last % 64
                != 0) || (unused == 7 && last % 128 != 0))) by (bit_vector)
                requires
                    0 < unused < 8,
            ;
            assert(1u8 << unused >= 1) by (bit_vector)
                requires
                    unused < 8,
            ;
            let mask = (1u8 << unused) - 1;

            if last & mask != 0 {
                return Err(Error::MalformedToken);
            }
        }
        // A last byte without a set bit could have been left out.

        if last == 0 {
            return Err(Error::MalformedToken);
        }
        Ok(Bitstring(slice_subrange(token.body, 1, token.body.len()), unused))
    }
}

impl<'a> Bitstring<'a> {
    #[verifier::type_invariant]
    spec fn well_formed(&self) -> bool {
        self.1 <= 7 && (self.0@.len() == 0 ==> self.1 == 0)
    }

    /// The number of bits in the string.
    pub fn len_bits(&self) -> (bits: usize)
        requires
            self@.bytes.len() * 8 <= usize::MAX,
        ensures
            bits == self@.bits(),
    {
        proof {
            use_type_invariant(self);
        }
        self.0.len() * 8 - (self.1 as usize)
    }

    /// Whether the bit at `pos` is set.  The bits behind the end of the
    /// string count as clear.
    pub fn is_set(&self, pos: usize) -> (set: bool)
        ensures
            set == self@.bit(pos as int),
    {
        proof {
            use_type_invariant(self);
        }
        let i = pos / 8;
        let bit = (pos % 8) as u8;
        if i >= self.0.len() || (i == self.0.len() - 1 && bit >= 8 - self.1) {
            return false;
        }
        let mask = 1u8 << (7 - bit);

        self.0[i] & mask != 0
    }

    /// The bits as an unsigned number, the first bit being the most
    /// significant.  A string of more bytes than `T` has does not fit.
    pub fn as_unsigned<T: UnsignedInt>(&self) -> (number: Result<T, Error>)
        ensures
            match number {
                Ok(n) => self@.bytes.len() <= T::width() && n.as_int() == self@.unsigned(),
                Err(e) => self@.bytes.len() > T::width() && e == Error::OutOfMemory,
            },
    {
        proof {
            use_type_invariant(self);
        }
        if self.0.len() > T::size() {
            return Err(Error::OutOfMemory);
        }
        let mut result: u128 = 0;
        let mut i: usize = 0;
        while i < self.0.len()
            invariant
                i <= self.0@.len() <= 16,
                result == be_value(self.0@.take(i as int)),
            decreases self.0@.len() - i,
        {
            let byte = self.0[i];
            proof {
                let front = self.0@.take(i as int);
                lemma_be_value_bound(front);
                lemma_be_value_push(front, byte);
                assert(front.push(byte) =~= self.0@.take(i + 1));
                lemma_pow256_monotonic(i as nat, 15);
                lemma_pow256_values();
            }
            result = result * 256 + byte as u128;
            i += 1;
        }
        proof {
            assert(self.0@.take(i as int) =~= self.0@);
            lemma_be_value_bound(self.0@);
            lemma_pow256_monotonic(self.0@.len(), T::width());
            lemma_u128_shr_is_div(result, self.1 as u128);
            lemma_pow2_pos(self.1 as nat);
            assert(result as nat / pow2(self.1 as nat) <= result) by (nonlinear_arith)
                requires
                    pow2(self.1 as nat) > 0,
            ;
        }
        Ok(T::from_wide(result >> (self.1 as u128)))
    }
}

} // verus!
