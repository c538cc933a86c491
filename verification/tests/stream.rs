use moccasin::dsl::Matcher;
use moccasin::parser::iter::Iter;
use moccasin::parser::stack::{FixedStack, MAX_DEPTH};
use moccasin::types::{Octetstring, TokenType};
use moccasin::Class::{Application, Context, Private, Universal};
use moccasin::Encoding::{Constructed, Primitive};
use moccasin::Error::{
    BufferTooShort, InvalidMultipartTag, MalformedToken, MultipartTagOverflow, NestedTooDeep,
    PrematureEof, TokenMismatch, TokenTooLong,
};
use moccasin::{Parser, Tag, Token};

/// `depth` sequences, each the only member of the one before, around a
/// null.
fn nested_sequences(depth: usize) -> Vec<u8> {
    let mut bytes = vec![0x05, 0x00];
    for _ in 0..depth {
        let mut outer = vec![0x30, bytes.len() as u8];
        outer.extend(bytes);
        bytes = outer;
    }
    bytes
}

#[test]
fn nesting_up_to_the_ceiling() {
    let data = nested_sequences(MAX_DEPTH);
    let mut p = Parser::new(&data);

    for depth in 0..MAX_DEPTH {
        let token = p.next().unwrap().unwrap();
        assert_eq!(token.enc, Constructed);
        assert_eq!(token.tag, Tag::Sequence);
        assert_eq!(token.depth as usize, depth);
    }
    let null = p.next().unwrap().unwrap();
    assert_eq!(null.tag, Tag::Null);
    assert_eq!(null.depth as usize, MAX_DEPTH);
    assert!(p.next().is_none());
}

#[test]
fn nesting_over_the_ceiling() {
    let data = nested_sequences(MAX_DEPTH + 1);
    let mut p = Parser::new(&data);

    for depth in 0..MAX_DEPTH {
        let token = p.next().unwrap().unwrap();
        assert_eq!(token.depth as usize, depth);
    }
    // The eleventh sequence is the one that does not fit.
    assert_eq!(p.next().unwrap().unwrap_err(), NestedTooDeep);
    assert!(p.next().is_none());
    assert!(p.next().is_none());
}

#[test]
fn nesting_far_over_the_ceiling() {
    let data = nested_sequences(40);
    let all = Parser::new(&data).tokens();

    assert_eq!(all.len(), MAX_DEPTH + 1);
    assert!(all[..MAX_DEPTH].iter().all(|item| item.is_ok()));
    assert_eq!(*all[MAX_DEPTH].as_ref().unwrap_err(), NestedTooDeep);
}

#[test]
fn empty_container_at_the_ceiling() {
    // Ten open sequences, and an empty one inside: it needs a frame too.
    let mut bytes = vec![0x30, 0x00];
    for _ in 0..MAX_DEPTH {
        let mut outer = vec![0x30, bytes.len() as u8];
        outer.extend(bytes);
        bytes = outer;
    }
    let all = Parser::new(&bytes).tokens();
    assert_eq!(all.len(), MAX_DEPTH + 1);
    assert_eq!(*all[MAX_DEPTH].as_ref().unwrap_err(), NestedTooDeep);
}

#[test]
fn empty_input_gives_nothing() {
    let mut p = Parser::new(&[]);
    assert!(p.next().is_none());
    assert!(Parser::new(&[]).tokens().is_empty());
}

#[test]
fn single_trailing_byte_is_an_error() {
    // A null, and one byte that is the start of a header without a length.
    let data = [0x05, 0x00, 0x05];
    let mut p = Parser::new(&data);

    assert_eq!(p.next().unwrap().unwrap().tag, Tag::Null);
    assert_eq!(p.next().unwrap().unwrap_err(), BufferTooShort);
    assert!(p.next().is_none());
}

#[test]
fn error_is_final() {
    // A malformed token, and a well-formed one behind it.
    let data = [0x05, 0x80, 0x05, 0x00];
    let mut p = Parser::new(&data);

    assert_eq!(p.next().unwrap().unwrap_err(), MalformedToken);
    for _ in 0..5 {
        assert!(p.next().is_none());
    }
}

#[test]
fn parse_leaves_the_parser_on_an_error() {
    let data = [0x30, 0x01, 0x04, 0x01, 0xF0];
    let mut p = Parser::new(&data);

    p.parse().unwrap();
    assert_eq!(p.parse().unwrap_err(), MalformedToken);
    // The same token is read again, with the same outcome.
    assert_eq!(p.parse().unwrap_err(), MalformedToken);
}

#[test]
fn siblings_and_closing_of_several_containers() {
    // SEQUENCE { SEQUENCE { SET { NULL } } } BOOLEAN
    let data = [
        0x30, 0x06, 0x30, 0x04, 0x31, 0x02, 0x05, 0x00, 0x01, 0x01, 0xFF,
    ];
    let all: Vec<Token> = Parser::new(&data)
        .tokens()
        .into_iter()
        .map(|item| item.unwrap())
        .collect();

    let shape: Vec<_> = all.iter().map(|t| (t.enc, t.tag, t.depth)).collect();
    assert_eq!(
        shape,
        vec![
            (Constructed, Tag::Sequence, 0),
            (Constructed, Tag::Sequence, 1),
            (Constructed, Tag::SetOf, 2),
            (Primitive, Tag::Null, 3),
            (Primitive, Tag::Bool, 0),
        ]
    );
    assert_eq!(all[0].header, &[0x30, 0x06]);
    assert_eq!(all[0].body, &data[2..8]);
    assert_eq!(all[4].header, &[0x01, 0x01]);
    assert_eq!(all[4].body, &[0xFF]);
}

#[test]
fn child_may_end_with_its_parent_but_not_behind_it() {
    let fits = [0x30, 0x03, 0x04, 0x01, 0xAA];
    assert!(Parser::new(&fits).tokens().iter().all(|item| item.is_ok()));

    // The child says two bytes, the parent has room for one, and the
    // buffer has room for both.
    let overruns = [0x30, 0x03, 0x04, 0x02, 0xAA, 0xBB];
    let all = Parser::new(&overruns).tokens();
    assert_eq!(all.len(), 2);
    assert_eq!(*all[1].as_ref().unwrap_err(), MalformedToken);
}

#[test]
fn short_and_long_lengths() {
    // 127 bytes in the short form.
    let mut data = vec![0x04, 0x7F];
    data.extend(vec![0u8; 127]);
    let token = Parser::new(&data).next().unwrap().unwrap();
    assert_eq!(token.header.len(), 2);
    assert_eq!(token.body.len(), 127);

    // 128 bytes need the long form.
    let mut data = vec![0x04, 0x81, 0x80];
    data.extend(vec![0u8; 128]);
    let token = Parser::new(&data).next().unwrap().unwrap();
    assert_eq!(token.header, &[0x04, 0x81, 0x80]);
    assert_eq!(token.body.len(), 128);

    // 0x0102 = 258 bytes in two length bytes.
    let mut data = vec![0x04, 0x82, 0x01, 0x02];
    data.extend(vec![0u8; 258]);
    let token = Parser::new(&data).next().unwrap().unwrap();
    assert_eq!(token.header.len(), 4);
    assert_eq!(token.body.len(), 258);
}

#[test]
fn lengths_that_are_refused() {
    // The indefinite form.
    let indefinite = [0x30, 0x80, 0x00, 0x00];
    assert_eq!(
        Parser::new(&indefinite).next().unwrap().unwrap_err(),
        MalformedToken
    );

    // The reserved form.
    let reserved = [0x04, 0xFF, 0x00];
    assert_eq!(
        Parser::new(&reserved).next().unwrap().unwrap_err(),
        MalformedToken
    );

    // More length bytes than a word has.
    let mut wide = vec![0x04, 0x80 | (std::mem::size_of::<usize>() as u8 + 1)];
    wide.extend(vec![0x01; 20]);
    assert_eq!(Parser::new(&wide).next().unwrap().unwrap_err(), TokenTooLong);

    // The long form for a length that fits the short one.
    let mut padded = vec![0x04, 0x81, 0x7F];
    padded.extend(vec![0u8; 127]);
    assert_eq!(
        Parser::new(&padded).next().unwrap().unwrap_err(),
        MalformedToken
    );
    let mut zero_led = vec![0x04, 0x82, 0x00, 0x05];
    zero_led.extend(vec![0u8; 5]);
    assert_eq!(
        Parser::new(&zero_led).next().unwrap().unwrap_err(),
        MalformedToken
    );

    // Length bytes that are not there.
    let cut = [0x04, 0x82, 0x01];
    assert_eq!(Parser::new(&cut).next().unwrap().unwrap_err(), BufferTooShort);

    // A word full of length bytes, for a body that cannot be there.
    let mut full = vec![0x04, 0x80 | std::mem::size_of::<usize>() as u8];
    full.extend(vec![0xFF; std::mem::size_of::<usize>()]);
    assert_eq!(Parser::new(&full).next().unwrap().unwrap_err(), BufferTooShort);
}

#[test]
fn tag_classes_and_numbers() {
    let cases: [(&[u8], _); 6] = [
        (&[0x0C], (Primitive, Tag::Utf8String)),
        (&[0x31], (Constructed, Tag::SetOf)),
        (&[0x07], (Primitive, Tag::Composed(Universal, 7))),
        (&[0x41], (Primitive, Tag::Composed(Application, 1))),
        (&[0xA3], (Constructed, Tag::Composed(Context, 3))),
        (&[0xDE], (Primitive, Tag::Composed(Private, 30))),
    ];
    for (bytes, expected) in cases {
        assert_eq!(Tag::from_bytes(&mut Iter::new(bytes)), Ok(expected));
    }
}

#[test]
fn multipart_tag_numbers() {
    // 31 is the smallest number that needs the long form.
    assert_eq!(
        Tag::from_bytes(&mut Iter::new(&[0x5F, 0x1F])),
        Ok((Primitive, Tag::Composed(Application, 31)))
    );
    // 30 does not need it.
    assert_eq!(
        Tag::from_bytes(&mut Iter::new(&[0x5F, 0x1E])),
        Err(InvalidMultipartTag)
    );
    // 0x81 0x00 is 128.
    assert_eq!(
        Tag::from_bytes(&mut Iter::new(&[0xBF, 0x81, 0x00])),
        Ok((Constructed, Tag::Composed(Context, 128)))
    );
    // A universal number from the long form names the known tag.
    assert_eq!(
        Tag::from_bytes(&mut Iter::new(&[0x1F, 0x81, 0x00])),
        Ok((Primitive, Tag::Composed(Universal, 128)))
    );
    // The largest number of a word.
    let mut widest = vec![0xDF];
    let bits = usize::BITS as usize;
    let groups = (bits + 6) / 7;
    let top = (usize::MAX >> (7 * (groups - 1))) as u8;
    widest.push(0x80 | top);
    widest.extend(vec![0xFF; groups - 2]);
    widest.push(0x7F);
    assert_eq!(
        Tag::from_bytes(&mut Iter::new(&widest)),
        Ok((Primitive, Tag::Composed(Private, usize::MAX)))
    );
    // One more than that.
    widest[1] = 0x80 | (top + 1);
    assert_eq!(
        Tag::from_bytes(&mut Iter::new(&widest)),
        Err(MultipartTagOverflow)
    );
}

#[test]
fn cursor_stops_where_reading_stopped() {
    let data = [0xDF, 0x80, 0x7F, 0x00];
    let mut it = Iter::new(&data);
    assert_eq!(Tag::from_bytes(&mut it), Err(InvalidMultipartTag));
    assert_eq!(it.pos(), 2);

    let data = [0x04, 0x02, 0xAA, 0xBB];
    let mut it = Iter::new(&data);
    let token = Token::from_bytes(&mut it, 7).unwrap();
    assert_eq!(token.depth, 7);
    assert_eq!(token.body, &[0xAA, 0xBB]);
    // The body is borrowed, not read over.
    assert_eq!(it.pos(), 2);

    let mut it = Iter::new(&data);
    it.next();
    it.next();
    assert_eq!(Token::read_longform_length(2, &mut it), Ok(0xAABB));
    assert_eq!(it.pos(), 4);
}

#[test]
fn cursor_walks_and_stays_at_the_end() {
    let data = [10u8, 20, 30];
    let mut it = Iter::new(&data);

    assert_eq!(it.peek(), Some(&10));
    assert_eq!(it.next(), Some(&10));
    assert_eq!(it.peek(), Some(&20));
    assert_eq!(it.subslice(1, 3), &[20, 30]);
    assert_eq!(it.subslice(2, 2), &[] as &[u8]);
    assert_eq!(it.next(), Some(&20));
    assert_eq!(it.next(), Some(&30));
    assert_eq!(it.peek(), None);
    assert_eq!(it.next(), None);
    assert_eq!(it.next(), None);
    assert_eq!(it.pos(), 3);
    assert_eq!(it.size_hint(), (0, Some(0)));
    assert_eq!(it.len(), 3);
}

#[test]
fn stack_holds_ten_frames() {
    let mut stack = FixedStack::new();
    assert_eq!(stack.depth(), 0);
    assert_eq!(stack.peek(), None);
    stack.discard();
    assert_eq!(stack.depth(), 0);

    for i in 0..MAX_DEPTH {
        assert_eq!(stack.push(100 - i), Ok(()));
        assert_eq!(stack.depth() as usize, i + 1);
        assert_eq!(stack.peek(), Some(100 - i));
    }
    assert_eq!(stack.push(1), Err(()));
    assert_eq!(stack.depth() as usize, MAX_DEPTH);
    assert_eq!(stack.peek(), Some(100 - (MAX_DEPTH - 1)));

    stack.discard();
    assert_eq!(stack.depth() as usize, MAX_DEPTH - 1);
    assert_eq!(stack.peek(), Some(100 - (MAX_DEPTH - 2)));
    assert_eq!(stack.push(7), Ok(()));
    assert_eq!(stack.peek(), Some(7));
}

#[test]
fn nested_parsers() {
    // An octet string that wraps a sequence of a boolean.
    let data = [0x04, 0x05, 0x30, 0x03, 0x01, 0x01, 0x00];
    let outer = Parser::new(&data).next().unwrap().unwrap();
    let octets = Octetstring::from_token(&outer).unwrap();
    assert_eq!(octets.0, &data[2..]);

    let inner = octets.parser().tokens();
    assert_eq!(inner.len(), 2);
    assert_eq!(inner[0].as_ref().unwrap().tag, Tag::Sequence);
    assert_eq!(inner[1].as_ref().unwrap().tag, Tag::Bool);
    assert_eq!(inner[1].as_ref().unwrap().depth, 1);

    // The body of a token can be tokenized in the same way.
    let seq = inner[0].as_ref().unwrap();
    let members = seq.parser().tokens();
    assert_eq!(members.len(), 1);
    assert_eq!(members[0].as_ref().unwrap().depth, 0);
}

#[test]
fn matcher_required() {
    let data = [0x30, 0x03, 0x01, 0x01, 0xFF];
    let mut p = Parser::new(&data);

    let seq = Matcher::new(0, Tag::Sequence).required(&mut p).unwrap();
    assert_eq!(seq.tag, Tag::Sequence);

    // The boolean is at depth 1, not 0.
    let mut q = p;
    assert_eq!(
        Matcher::new(0, Tag::Bool).required(&mut q).unwrap_err(),
        TokenMismatch {
            file: "<unknown>",
            line: 0,
            col: 0
        }
    );
    let mut q = p;
    assert_eq!(
        Matcher::new(1, Tag::Int)
            .required_at(&mut q, "here.rs", 12, 34)
            .unwrap_err(),
        TokenMismatch {
            file: "here.rs",
            line: 12,
            col: 34
        }
    );

    let b = Matcher::new(1, Tag::Bool).required(&mut p).unwrap();
    assert_eq!(b.body, &[0xFF]);
    assert_eq!(
        Matcher::new(0, Tag::Bool).required(&mut p).unwrap_err(),
        PrematureEof
    );

    let broken = [0x30, 0x80];
    let mut p = Parser::new(&broken);
    assert_eq!(
        Matcher::new(0, Tag::Sequence).required(&mut p).unwrap_err(),
        MalformedToken
    );
    assert_eq!(
        Matcher::new(0, Tag::Sequence).required(&mut p).unwrap_err(),
        PrematureEof
    );
}

#[test]
fn matcher_optional() {
    let data = [0x13, 0x01, 0x41, 0x17, 0x00];
    let mut p = Parser::new(&data);

    // Not an integer: nothing is pulled.
    assert!(Matcher::new(0, Tag::Int).optional(&mut p).is_none());
    // A printable string is one of the strings.
    let s = Matcher::new(0, Tag::String).optional(&mut p).unwrap();
    assert_eq!(s.tag, Tag::PrintableString);
    // A UTCTime is one of the times, at the right depth only.
    assert!(Matcher::new(1, Tag::Time).optional(&mut p).is_none());
    let t = Matcher::new(0, Tag::Time).optional(&mut p).unwrap();
    assert_eq!(t.tag, Tag::UtcTime);
    assert!(Matcher::new(0, Tag::Time).optional(&mut p).is_none());

    // An error is not pulled either: it comes with the next pull.
    let broken = [0x05, 0x81];
    let mut p = Parser::new(&broken);
    assert!(Matcher::new(0, Tag::Null).optional(&mut p).is_none());
    assert_eq!(p.next().unwrap().unwrap_err(), BufferTooShort);
}

#[test]
fn matcher_encoding() {
    let token = Token {
        enc: Constructed,
        tag: Tag::Composed(Context, 0),
        depth: 2,
        header: &[],
        body: &[],
    };
    let matcher = Matcher::new(2, Tag::Composed(Context, 0));
    assert!(!matcher.matches(&token));
    assert!(matcher.encoding(Constructed).matches(&token));
    assert!(!matcher.encoding(Primitive).matches(&token));

    // T61 strings are not among the strings that are matched.
    let t61 = Token {
        enc: Primitive,
        tag: Tag::T61String,
        depth: 0,
        header: &[],
        body: &[],
    };
    assert!(!Matcher::new(0, Tag::String).matches(&t61));
    assert!(Matcher::new(0, Tag::T61String).matches(&t61));
}
