//! Numbers written out in decimal digits.

use vstd::prelude::*;
use vstd::string::StringExecFns;

verus! {

/// The character of the last decimal digit of `n`.
pub open spec fn digit_char(n: int) -> char {
    ((0x30 + n % 10) as u8) as char
}

/// The last two decimal digits of `n`.
pub open spec fn two_digits(n: int) -> Seq<char> {
    seq![digit_char(n / 10), digit_char(n)]
}

/// `n` in decimal digits, without leading zeros.
pub open spec fn decimal(n: nat) -> Seq<char>
    decreases n,
{
    if n < 10 {
        seq![digit_char(n as int)]
    } else {
        decimal(n / 10).push(digit_char(n as int))
    }
}

/// The numbers of `arcs` in decimal, with a dot between each two.
pub open spec fn dotted(arcs: Seq<u32>) -> Seq<char>
    decreases arcs.len(),
{
    if arcs.len() == 0 {
        Seq::empty()
    } else if arcs.len() == 1 {
        decimal(arcs[0] as nat)
    } else {
        dotted(arcs.drop_last()) + seq!['.'] + decimal(arcs.last() as nat)
    }
}

/// The digit `d` as a string.
fn digit_str(d: u8) -> (s: &'static str)
    requires
        d < 10,
    ensures
        s@ == seq![digit_char(d as int)],
{
    proof {
        reveal_strlit("0");
        reveal_strlit("1");
        reveal_strlit("2");
        reveal_strlit("3");
        reveal_strlit("4");
        reveal_strlit("5");
        reveal_strlit("6");
        reveal_strlit("7");
        reveal_strlit("8");
        reveal_strlit("9");
    }
    let s = match d {
        0 => "0",
        1 => "1",
        2 => "2",
        3 => "3",
        4 => "4",
        5 => "5",
        6 => "6",
        7 => "7",
        8 => "8",
        _ => "9",
    };
    assert(s@ =~= seq![digit_char(d as int)]);
    s
}

/// Writes `n` in decimal at the end of `out`.
pub fn push_decimal(out: &mut std::string::String, n: u32)
    ensures
        final(out)@ == old(out)@ + decimal(n as nat),
    decreases n,
{
    if n >= 10 {
        push_decimal(out, n / 10);
    }
    out.append(digit_str((n % 10) as u8));
    assert(final(out)@ =~= old(out)@ + decimal(n as nat));
}

/// Writes the numbers of `arcs` at the end of `out`, with a dot between
/// each two.
pub fn push_dotted(out: &mut std::string::String, arcs: &[u32])
    ensures
        final(out)@ == old(out)@ + dotted(arcs@),
{
    proof {
        reveal_strlit(".");
    }
    let mut i: usize = 0;
    while i < arcs.len()
        invariant
            i <= arcs@.len(),
            out@ == old(out)@ + dotted(arcs@.take(i as int)),
            "."@ == seq!['.'],
        decreases arcs@.len() - i,
    {
        if i != 0 {
            out.append(".");
        }
        push_decimal(out, arcs[i]);
        proof {
            let next = arcs@.take(i + 1);
            assert(next.drop_last() =~= arcs@.take(i as int));
            assert(next.last() == arcs@[i as int]);
            if i == 0 {
                assert(dotted(arcs@.take(0)) =~= Seq::<char>::empty());
            }
            assert(out@ =~= old(out)@ + dotted(next));
        }
        i += 1;
    }
    assert(arcs@.take(i as int) =~= arcs@);
}

} // verus!
