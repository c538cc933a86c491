//! Character strings.

use crate::parser::{Encoding, Tag, Token, TokenView};
use crate::Error;
use vstd::prelude::*;
use vstd::string::StringSliceAdditionalSpecFns;
use vstd::utf8::{
    decode_utf8, encode_utf8_decode_utf8, is_leading_byte_width_1, partial_valid_utf8,
    partial_valid_utf8_extend_ascii_block, valid_utf8,
};

verus! {

/// The error of `core::str::from_utf8`.  Nothing is read from it.
#[verifier::external_type_specification]
#[verifier::external_body]
pub struct ExUtf8Error(core::str::Utf8Error);

/// `core::str::from_utf8` succeeds on exactly the byte strings that are
/// valid UTF-8, and the string slice that it gives has the bytes that it
/// was given.
pub assume_specification[ core::str::from_utf8 ](v: &[u8]) -> (text: Result<
    &str,
    core::str::Utf8Error,
>)
    ensures
        text is Ok <==> valid_utf8(v@),
        match text {
            Ok(s) => s.spec_bytes() == v@,
            Err(_) => true,
        },
;

/// A character string, borrowed from the token that it was decoded from.
#[derive(Debug)]
pub struct String<'a>(pub &'a str);

impl<'a> View for String<'a> {
    type V = Seq<char>;

    open spec fn view(&self) -> Seq<char> {
        self.0@
    }
}

/// The bytes of a printable string: the space and the characters from `(`
/// to `z`, without `*`, `;`, `<`, `>` and `@`.
pub open spec fn is_printable(byte: u8) -> bool {
    (byte == 0x20 || 0x28 <= byte <= 0x7a) && byte != 0x2a && byte != 0x3b && byte != 0x3c && byte
        != 0x3e && byte != 0x40
}

/// The bytes of the strings that are read as plain ASCII: from the space
/// to the end of the seven-bit range.
pub open spec fn is_plain_ascii(byte: u8) -> bool {
    0x20 <= byte <= 0x7f
}

/// What decoding `token` as a character string gives.
///
/// The tag says which characters the body may hold.  UTF-8 strings hold any
/// valid UTF-8.  Printable strings hold printable bytes.  IA5, visible and
/// T61 strings are read as plain ASCII; one that holds any other byte would
/// need a change of code page, which is not supported.
pub open spec fn decode_string(token: TokenView) -> Result<Seq<char>, Error> {
    if token.enc != Encoding::Primitive {
        Err(Error::MalformedToken)
    } else {
        match token.tag {
            Tag::Utf8String => if valid_utf8(token.body) {
                Ok(decode_utf8(token.body))
            } else {
                Err(Error::MalformedToken)
            },
            Tag::PrintableString => if forall|i: int|
                0 <= i < token.body.len() ==> is_printable(#[trigger] token.body[i]) {
                Ok(decode_utf8(token.body))
            } else {
                Err(Error::MalformedToken)
            },
            Tag::Ia5String | Tag::VisibleString | Tag::T61String => if forall|i: int|
                0 <= i < token.body.len() ==> is_plain_ascii(#[trigger] token.body[i]) {
                Ok(decode_utf8(token.body))
            } else {
                Err(Error::UnsupportedString)
            },
            _ => Err(Error::UnsupportedString),
        }
    }
}

/// A byte string without a byte above the seven-bit range is valid UTF-8.
pub proof fn lemma_ascii_is_utf8(bytes: Seq<u8>)
    requires
        forall|i: int| 0 <= i < bytes.len() ==> #[trigger] bytes[i] <= 0x7f,
    ensures
        valid_utf8(bytes),
{
    assert(bytes.subrange(0, 0) =~= Seq::<u8>::empty());
    assert(partial_valid_utf8(bytes, 0));
    assert forall|i: int| 0 <= i < bytes.len() implies #[trigger] is_leading_byte_width_1(
        bytes[i],
    ) by {}
    partial_valid_utf8_extend_ascii_block(bytes, 0, bytes.len() as int);
    assert(bytes.subrange(0, bytes.len() as int) =~= bytes);
}

/// The text of `body`, or a malformed token where `body` is not UTF-8.
fn text_of<'a>(body: &'a [u8]) -> (text: Result<String<'a>, Error>)
    ensures
        match text {
            Ok(s) => valid_utf8(body@) && s@ == decode_utf8(body@),
            Err(e) => !valid_utf8(body@) && e == Error::MalformedToken,
        },
{
    match core::str::from_utf8(body) {
        Ok(s) => {
            proof {
                encode_utf8_decode_utf8(s@);
            }
            Ok(String(s))
        },
        Err(_) => Err(Error::MalformedToken),
    }
}

impl<'a> String<'a> {
    /// Decodes `token` as a character string.
    pub fn from_token(token: &Token<'a>) -> (text: Result<String<'a>, Error>)
        ensures
            match text {
                Ok(s) => decode_string(token@) == Ok::<Seq<char>, Error>(s@),
                Err(e) => decode_string(token@) == Err::<Seq<char>, Error>(e),
            },
    {
        if token.enc != Encoding::Primitive {
            return Err(Error::MalformedToken);
        }
        match token.tag {
            Tag::Utf8String => text_of(token.body),
            Tag::PrintableString => Self::printable_string(token.body),
            Tag::Ia5String => Self::ascii_string(token.body),
            Tag::VisibleString => Self::ascii_string(token.body),
            Tag::T61String => Self::ascii_string(token.body),
            _ => Err(Error::UnsupportedString),
        }
    }

    /// Reads `body` as a printable string.
    pub fn printable_string(body: &'a [u8]) -> (text: Result<String<'a>, Error>)
        ensures
            match text {
                Ok(s) => (forall|i: int| 0 <= i < body@.len() ==> is_printable(#[trigger] body@[i]))
                    && s@ == decode_utf8(body@),
                Err(e) => !(forall|i: int|
                    0 <= i < body@.len() ==> is_printable(#[trigger] body@[i])) && e
                    == Error::MalformedToken,
            },
    {
        let mut i: usize = 0;
        while i < body.len()
            invariant
                i <= body@.len(),
                forall|k: int| 0 <= k < i ==> is_printable(#[trigger] body@[k]),
            decreases body@.len() - i,
        {
            match body[i] {
                // * ; < > @
                0x2a | 0x3b | 0x3c | 0x3e | 0x40 => {
                    assert(!is_printable(body@[i as int]));
                    return Err(Error::MalformedToken);
                },
                // ( to z, and the space
                0x28..=0x7a | 0x20 => {},
                _ => {
                    assert(!is_printable(body@[i as int]));
                    return Err(Error::MalformedToken);
                },
            }
            i += 1;
        }
        proof {
            lemma_ascii_is_utf8(body@);
        }
        text_of(body)
    }

    /// Reads `body` as plain ASCII.
    pub fn ascii_string(body: &'a [u8]) -> (text: Result<String<'a>, Error>)
        ensures
            match text {
                Ok(s) => (forall|i: int|
                    0 <= i < body@.len() ==> is_plain_ascii(#[trigger] body@[i])) && s@
                    == decode_utf8(body@),
                Err(e) => !(forall|i: int|
                    0 <= i < body@.len() ==> is_plain_ascii(#[trigger] body@[i])) && e
                    == Error::UnsupportedString,
            },
    {
        // Control codes and the characters of other code pages are left
        // out: reading them right would take code-page switching.
        let mut i: usize = 0;
        while i < body.len()
            invariant
                i <= body@.len(),
                forall|k: int| 0 <= k < i ==> is_plain_ascii(#[trigger] body@[k]),
            decreases body@.len() - i,
        {
            match body[i] {
                0x20..=0x7f => {},
                _ => {
                    assert(!is_plain_ascii(body@[i as int]));
                    return Err(Error::UnsupportedString);
                },
            }
            i += 1;
        }
        proof {
            lemma_ascii_is_utf8(body@);
        }
        text_of(body)
    }
}

impl<'a> PartialEq<&'static str> for String<'a> {
    /// A decoded string equals a written one that has the same characters.
    fn eq(&self, other: &&'static str) -> (equal: bool) {
        let mine = self.0.as_bytes();
        let theirs = other.as_bytes();
        proof {
            encode_utf8_decode_utf8(self.0@);
            encode_utf8_decode_utf8(other@);
        }
        if mine.len() != theirs.len() {
            return false;
        }
        let mut i: usize = 0;
        while i < mine.len()
            invariant
                i <= mine@.len(),
                mine@.len() == theirs@.len(),
                mine@ == self.0.spec_bytes(),
                theirs@ == other.spec_bytes(),
                forall|k: int| 0 <= k < i ==> mine@[k] == theirs@[k],
            decreases mine@.len() - i,
        {
            if mine[i] != theirs[i] {
                assert(mine@[i as int] != theirs@[i as int]);
                return false;
            }
            i += 1;
        }
        assert(mine@ =~= theirs@);
        true
    }
}

impl<'a> vstd::std_specs::cmp::PartialEqSpecImpl<&'static str> for String<'a> {
    open spec fn obeys_eq_spec() -> bool {
        true
    }

    open spec fn eq_spec(&self, other: &&'static str) -> bool {
        self@ == other@
    }
}

} // verus!
