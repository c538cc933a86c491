//! Object identifiers.

use crate::parser::iter::Iter;
use crate::parser::{Encoding, Token, TokenView};
use crate::text::{dotted, push_dotted};
use crate::Error;
use vstd::prelude::*;
use vstd::slice::slice_subrange;
use vstd::string::StringExecFns;

verus! {

/// The number of arcs that an [`Oid`] can hold.
pub const MAX_ARCS: usize = 12;

const ARC_SHIFT: u8 = 0b10000000;

const ARC_MASK: u8 = 0b01111111;

/// An object identifier that is written down in the program.
#[derive(PartialEq, Eq, Debug)]
pub struct ConstOid(pub &'static [u32]);

impl View for ConstOid {
    type V = Seq<u32>;

    open spec fn view(&self) -> Seq<u32> {
        self.0@
    }
}

/// An object identifier of at most [`MAX_ARCS`] arcs.
#[derive(Debug)]
pub struct Oid {
    arcs: [u32; 12],
    n: u8,
}

impl ConstOid {
    /// The identifier as text: `ConstOid(` and `)` around the arcs in
    /// decimal, with a dot between each two.
    pub fn to_string(&self) -> (text: std::string::String)
        ensures
            text@ == "ConstOid("@ + dotted(self@) + ")"@,
    {
        let mut text = std::string::String::from_str("ConstOid(");
        push_dotted(&mut text, self.0);
        text.append(")");
        text
    }
}

impl View for Oid {
    type V = Seq<u32>;

    /// The arcs, the first one first.
    closed spec fn view(&self) -> Seq<u32> {
        self.arcs@.take(self.n as int)
    }
}

/// What reading an arc from `pos` on gives, when the bytes before `pos`
/// have added up to `acc`: the arc or the error, and the position behind
/// the last byte that was read.
///
/// Each byte carries seven bits, the most significant first, and the last
/// byte is the first one whose high bit is clear.
pub open spec fn arc_at(bytes: Seq<u8>, pos: int, acc: nat) -> (Result<u32, Error>, int)
    decreases bytes.len() - pos,
{
    if pos < 0 || pos >= bytes.len() {
        (Err(Error::MalformedToken), pos)
    } else if acc == 0 && bytes[pos] == 0x80 {
        (Err(Error::MalformedToken), pos + 1)
    } else if acc * 128 > u32::MAX {
        (Err(Error::OutOfMemory), pos + 1)
    } else {
        let arc = (acc * 128 + bytes[pos] % 128) as nat;
        if bytes[pos] >= 128 {
            arc_at(bytes, pos + 1, arc)
        } else {
            (Ok(arc as u32), pos + 1)
        }
    }
}

/// What reading the arcs from `pos` up to the end of `bytes` adds to the
/// arcs in `sofar`: all the arcs, or the first error.
pub open spec fn arcs_from(bytes: Seq<u8>, pos: int, sofar: Seq<u32>) -> Result<Seq<u32>, Error>
    decreases bytes.len() - pos,
{
    if pos < 0 || pos >= bytes.len() {
        Ok(sofar)
    } else {
        let (arc, end) = arc_at(bytes, pos, 0);
        match arc {
            Err(e) => Err(e),
            Ok(arc) => if sofar.len() >= MAX_ARCS {
                Err(Error::OutOfMemory)
            } else {
                proof {
                    lemma_arc_at_bounds(bytes, pos, 0);
                }
                arcs_from(bytes, end, sofar.push(arc))
            },
        }
    }
}

/// The two arcs that the first number of an object identifier stands for:
/// the first arc is 0, 1 or 2, and under 0 and 1 the second stays below 40.
pub open spec fn leading_arcs(number: u32) -> Seq<u32> {
    let first = if number < 80 {
        number / 40
    } else {
        2
    };
    seq![first as u32, (number - first * 40) as u32]
}

/// What decoding `token` as an object identifier gives.
pub open spec fn decode_oid(token: TokenView) -> Result<Seq<u32>, Error> {
    if token.enc != Encoding::Primitive || token.body.len() == 0 {
        Err(Error::MalformedToken)
    } else {
        let (number, end) = arc_at(token.body, 0, 0);
        match number {
            Err(e) => Err(e),
            Ok(number) => arcs_from(token.body, end, leading_arcs(number)),
        }
    }
}

/// An arc ends behind where it starts and inside the buffer.
pub proof fn lemma_arc_at_bounds(bytes: Seq<u8>, pos: int, acc: nat)
    requires
        0 <= pos <= bytes.len(),
    ensures
        pos <= arc_at(bytes, pos, acc).1 <= bytes.len(),
        arc_at(bytes, pos, acc).0 is Ok ==> pos < arc_at(bytes, pos, acc).1,
    decreases bytes.len() - pos,
{
    if pos < bytes.len() && !(acc == 0 && bytes[pos] == 0x80) && acc * 128 <= u32::MAX
        && bytes[pos] >= 128 {
        lemma_arc_at_bounds(bytes, pos + 1, (acc * 128 + bytes[pos] % 128) as nat);
    }
}

impl Oid {
    #[verifier::type_invariant]
    spec fn in_bounds(&self) -> bool {
        self.n <= MAX_ARCS
    }

    /// Decodes `token` as an object identifier.
    pub fn from_token(token: &Token) -> (oid: Result<Oid, Error>)
        ensures
            match oid {
                Ok(oid) => decode_oid(token@) == Ok::<Seq<u32>, Error>(oid@),
                Err(e) => decode_oid(token@) == Err::<Seq<u32>, Error>(e),
            },
    {
        if token.enc != Encoding::Primitive {
            return Err(Error::MalformedToken);
        }
        if token.body.len() == 0 {
            return Err(Error::MalformedToken);
        }
        let mut oid = Oid { arcs: [0u32; 12], n: 0 };
        let mut iter = Iter::new(token.body);

        // The first number holds the first two arcs.  Under the first arc
        // 2 the second one may be 40 or more.
        let arc = match Self::parse_arc(&mut iter) {
            Ok(arc) => arc,
            Err(e) => return Err(e),
        };
        let first = if arc < 80 {
            arc / 40
        } else {
            2
        };
        match oid.append(first) {
            Ok(()) => {},
            Err(e) => return Err(e),
        }
        let second = arc - (first * 40);
        match oid.append(second) {
            Ok(()) => {},
            Err(e) => return Err(e),
        }
        assert(oid@ =~= leading_arcs(arc));

        while iter.peek().is_some()
            invariant
                iter.bytes() == token.body@,
                arcs_from(iter.bytes(), iter.offset() as int, oid@) == decode_oid(token@),
            decreases iter.bytes().len() - iter.offset(),
        {
            proof {
                use_type_invariant(&iter);
                lemma_arc_at_bounds(iter.bytes(), iter.offset() as int, 0);
            }
            let arc = match Self::parse_arc(&mut iter) {
                Ok(arc) => arc,
                Err(e) => return Err(e),
            };
            match oid.append(arc) {
                Ok(()) => {},
                Err(e) => return Err(e),
            }
        }

        Ok(oid)
    }

    /// Reads one arc at the cursor.
    pub fn parse_arc<'a>(iter: &mut Iter<'a>) -> (arc: Result<u32, Error>)
        ensures
            final(iter).bytes() == old(iter).bytes(),
            (arc, final(iter).offset() as int) == arc_at(
                old(iter).bytes(),
                old(iter).offset() as int,
                0,
            ),
    {
        let mut arc: u32 = 0;
        loop
            invariant
                iter.bytes() == old(iter).bytes(),
                arc_at(iter.bytes(), iter.offset() as int, arc as nat) == arc_at(
                    old(iter).bytes(),
                    old(iter).offset() as int,
                    0,
                ),
            decreases iter.bytes().len() - iter.offset(),
        {
            let ghost here = iter.offset() as int;
            let byte = match iter.next() {
                Some(byte) => *byte,
                None => return Err(Error::MalformedToken),
            };
            assert(byte == iter.bytes()[here]);

            // An arc does not start with a byte that carries none of its
            // bits.
            if arc == 0 && byte == 0x80 {
                return Err(Error::MalformedToken);
            }
            let shifted = match arc.checked_mul(ARC_SHIFT as u32) {
                Some(v) => v,
                None => return Err(Error::OutOfMemory),
            };
            let low = (byte & ARC_MASK) as u32;
            assert(byte & 0b01111111 == byte % 128) by (bit_vector);
            assert(shifted | low == shifted + low) by (bit_vector)
                requires
                    shifted % 128 == 0,
                    low < 128,
            ;
            arc = shifted | low;

            // The last byte of an arc has its high bit clear.
            assert((byte & 0x80 == 0) == (byte < 128)) by (bit_vector);
            if byte & 0x80 == 0 {
                return Ok(arc);
            }
        }
    }

    /// Adds an arc at the end, unless [`MAX_ARCS`] arcs are there already.
    pub fn append(&mut self, arc: u32) -> (added: Result<(), Error>)
        ensures
            old(self)@.len() < MAX_ARCS ==> added is Ok && final(self)@ == old(self)@.push(arc),
            old(self)@.len() >= MAX_ARCS ==> added == Err::<(), Error>(Error::OutOfMemory)
                && final(self)@ == old(self)@,
    {
        proof {
            use_type_invariant(&*self);
        }
        if self.n as usize >= self.arcs.len() {
            return Err(Error::OutOfMemory);
        }
        let n = self.n;
        let mut arcs = self.arcs;
        arcs[n as usize] = arc;
        *self = Oid { arcs: arcs, n: n + 1 };
        assert(final(self)@ =~= old(self)@.push(arc));
        Ok(())
    }

    /// The identifier as text: `Oid(` and `)` around the arcs in decimal,
    /// with a dot between each two.
    pub fn to_string(&self) -> (text: std::string::String)
        ensures
            text@ == "Oid("@ + dotted(self@) + ")"@,
    {
        proof {
            use_type_invariant(self);
        }
        let mut text = std::string::String::from_str("Oid(");
        let arcs = slice_subrange(self.arcs.as_slice(), 0, self.n as usize);
        assert(arcs@ =~= self@);
        push_dotted(&mut text, arcs);
        text.append(")");
        text
    }

    /// The number of arcs.
    pub fn len(&self) -> (len: usize)
        ensures
            len == self@.len(),
    {
        proof {
            use_type_invariant(self);
        }
        self.n as usize
    }

    /// The arc at `index`, the first arc being at 0.
    pub fn arc(&self, index: usize) -> (arc: Option<u32>)
        ensures
            arc == if index < self@.len() {
                Some(self@[index as int])
            } else {
                None
            },
    {
        proof {
            use_type_invariant(self);
        }
        if index < self.n as usize {
            Some(self.arcs[index])
        } else {
            None
        }
    }
}

impl PartialEq for Oid {
    /// Two object identifiers are equal if they have the same arcs.
    fn eq(&self, other: &Oid) -> (equal: bool) {
        proof {
            use_type_invariant(self);
            use_type_invariant(other);
        }
        if self.n != other.n {
            assert(self@.len() == self.n && other@.len() == other.n);
            return false;
        }
        let mut i: usize = 0;
        while i < self.n as usize
            invariant
                i <= self.n <= MAX_ARCS,
                self.n == other.n,
                forall|k: int| 0 <= k < i ==> self.arcs@[k] == other.arcs@[k],
            decreases self.n - i,
        {
            if self.arcs[i] != other.arcs[i] {
                assert(self@[i as int] != other@[i as int]);
                return false;
            }
            i += 1;
        }
        assert(self@ =~= other@);
        true
    }
}

impl vstd::std_specs::cmp::PartialEqSpecImpl for Oid {
    open spec fn obeys_eq_spec() -> bool {
        true
    }

    open spec fn eq_spec(&self, other: &Oid) -> bool {
        self@ == other@
    }
}

impl Eq for Oid {

}

impl PartialEq<ConstOid> for Oid {
    /// An object identifier equals a written one that has the same arcs.
    fn eq(&self, other: &ConstOid) -> (equal: bool) {
        proof {
            use_type_invariant(self);
        }
        if self.n as usize != other.0.len() {
            return false;
        }
        let mut i: usize = 0;
        while i < self.n as usize
            invariant
                i <= self.n <= MAX_ARCS,
                self.n == other.0@.len(),
                forall|k: int| 0 <= k < i ==> self.arcs@[k] == other.0@[k],
            decreases self.n - i,
        {
            if self.arcs[i] != other.0[i] {
                assert(self@[i as int] != other@[i as int]);
                return false;
            }
            i += 1;
        }
        assert(self@ =~= other@);
        true
    }
}

impl vstd::std_specs::cmp::PartialEqSpecImpl<ConstOid> for Oid {
    open spec fn obeys_eq_spec() -> bool {
        true
    }

    open spec fn eq_spec(&self, other: &ConstOid) -> bool {
        self@ == other@
    }
}

} // verus!
