use moccasin::types::{
    Bitstring, Bool, ConstOid, Int, Null, Octetstring, Oid, Sequence, SetOf, String, Time,
    TokenType,
};
use moccasin::Encoding::{Constructed, Primitive};
use moccasin::Error::{MalformedToken, OutOfMemory, UnsupportedString};
use moccasin::{Encoding, Tag, Token};

fn token<'a>(enc: Encoding, tag: Tag, body: &'a [u8]) -> Token<'a> {
    Token {
        enc: enc,
        tag: tag,
        depth: 0,
        header: &[],
        body: body,
    }
}

#[test]
fn int_widths() {
    let Int(v) = Int::<i8>::from_token(&token(Primitive, Tag::Int, &[0x80])).unwrap();
    assert_eq!(v, i8::MIN);
    let Int(v) = Int::<i8>::from_token(&token(Primitive, Tag::Int, &[0x7F])).unwrap();
    assert_eq!(v, i8::MAX);
    let Int(v) = Int::<i16>::from_token(&token(Primitive, Tag::Int, &[0x00, 0x80])).unwrap();
    assert_eq!(v, 128);
    let Int(v) = Int::<i16>::from_token(&token(Primitive, Tag::Int, &[0xFF, 0x7F])).unwrap();
    assert_eq!(v, -129);
    let Int(v) =
        Int::<i32>::from_token(&token(Primitive, Tag::Int, &[0x80, 0x00, 0x00, 0x00])).unwrap();
    assert_eq!(v, i32::MIN);
    let Int(v) =
        Int::<i32>::from_token(&token(Primitive, Tag::Int, &[0x7F, 0xFF, 0xFF, 0xFF])).unwrap();
    assert_eq!(v, i32::MAX);
    let Int(v) = Int::<i64>::from_token(&token(Primitive, Tag::Int, &[0x01, 0x02, 0x03])).unwrap();
    assert_eq!(v, 0x010203);
    let Int(v) = Int::<i64>::from_token(&token(Primitive, Tag::Int, &[0x80; 8])).unwrap();
    assert_eq!(v, i64::from_be_bytes([0x80; 8]));
    let mut widest = [0u8; 16];
    widest[0] = 0x80;
    let Int(v) = Int::<i128>::from_token(&token(Primitive, Tag::Int, &widest)).unwrap();
    assert_eq!(v, i128::MIN);
    let Int(v) = Int::<i128>::from_token(&token(Primitive, Tag::Int, &[0x7F; 16])).unwrap();
    assert_eq!(v, i128::from_be_bytes([0x7F; 16]));

    assert_eq!(
        Int::<i32>::from_token(&token(Primitive, Tag::Int, &[1, 2, 3, 4, 5])).unwrap_err(),
        OutOfMemory
    );
    assert_eq!(
        Int::<i128>::from_token(&token(Primitive, Tag::Int, &[1; 17])).unwrap_err(),
        OutOfMemory
    );
    // Too long comes before padded.
    assert_eq!(
        Int::<i8>::from_token(&token(Primitive, Tag::Int, &[0x00, 0x01])).unwrap_err(),
        OutOfMemory
    );
    // A zero byte before a set high bit is no padding.
    let Int(v) = Int::<i32>::from_token(&token(Primitive, Tag::Int, &[0x00, 0xFF])).unwrap();
    assert_eq!(v, 255);
    let Int(v) = Int::<i32>::from_token(&token(Primitive, Tag::Int, &[0x00])).unwrap();
    assert_eq!(v, 0);
}

#[test]
fn type_tags_and_encodings() {
    assert!(Bool::matches(Tag::Bool) && !Bool::matches(Tag::Int));
    assert!(Null::matches(Tag::Null) && !Null::matches(Tag::Bool));
    assert!(Int::<i64>::matches(Tag::Int) && !Int::<i64>::matches(Tag::Bitstring));
    assert!(Bitstring::matches(Tag::Bitstring) && !Bitstring::matches(Tag::Octetstring));
    assert!(Octetstring::matches(Tag::Octetstring) && !Octetstring::matches(Tag::Bitstring));
    assert!(Sequence::matches(Tag::Sequence) && !Sequence::matches(Tag::SetOf));
    assert!(SetOf::matches(Tag::SetOf) && !SetOf::matches(Tag::Sequence));
    assert!(Time::matches(Tag::UtcTime) && Time::matches(Tag::GeneralizedTime));
    assert!(!Time::matches(Tag::Time) && !Time::matches(Tag::Int));

    assert_eq!(Bool::encoding(), Primitive);
    assert_eq!(Null::encoding(), Primitive);
    assert_eq!(Int::<i8>::encoding(), Primitive);
    assert_eq!(Bitstring::encoding(), Primitive);
    assert_eq!(Octetstring::encoding(), Primitive);
    assert_eq!(Time::encoding(), Primitive);
    assert_eq!(Sequence::encoding(), Constructed);
    assert_eq!(SetOf::encoding(), Constructed);

    assert!(Sequence::from_token(&token(Constructed, Tag::Sequence, &[])).is_ok());
    assert!(SetOf::from_token(&token(Constructed, Tag::SetOf, &[])).is_ok());
    assert_eq!(
        Octetstring::from_token(&token(Constructed, Tag::Octetstring, &[1]))
            .unwrap_err(),
        MalformedToken
    );
    assert_eq!(
        Octetstring::from_token(&token(Primitive, Tag::Octetstring, &[1, 2]))
            .unwrap()
            .0,
        &[1, 2]
    );
}

#[test]
fn bitstring_bits() {
    let bits = Bitstring::from_token(&token(
        Primitive,
        Tag::Bitstring,
        &[0x4, 0xA3, 0xB4, 0xF0],
    ))
    .unwrap();

    assert_eq!(bits.len_bits(), 20);
    // 0xA3 = 1010 0011
    let first: Vec<bool> = (0..8).map(|i| bits.is_set(i)).collect();
    assert_eq!(
        first,
        vec![true, false, true, false, false, false, true, true]
    );
    // 0xF0: the four bits that count are set.
    assert!(bits.is_set(16) && bits.is_set(19));
    // Behind the end every bit is clear.
    assert!(!bits.is_set(20));
    assert!(!bits.is_set(23));
    assert!(!bits.is_set(24));
    assert!(!bits.is_set(usize::MAX));

    assert_eq!(bits.as_unsigned::<u64>(), Ok(0xA3B4F));
    assert_eq!(bits.as_unsigned::<u128>(), Ok(0xA3B4F));
    assert_eq!(bits.as_unsigned::<u16>(), Err(OutOfMemory));
    assert_eq!(bits.as_unsigned::<u8>(), Err(OutOfMemory));

    let empty = Bitstring::from_token(&token(Primitive, Tag::Bitstring, &[0x0])).unwrap();
    assert_eq!(empty.len_bits(), 0);
    assert!(!empty.is_set(0));
    assert_eq!(empty.as_unsigned::<u8>(), Ok(0));

    let whole = Bitstring::from_token(&token(Primitive, Tag::Bitstring, &[0x0, 0x80, 0x01]))
        .unwrap();
    assert_eq!(whole.len_bits(), 16);
    assert!(whole.is_set(0) && whole.is_set(15) && !whole.is_set(14));
    assert_eq!(whole.as_unsigned::<u16>(), Ok(0x8001));

    let seven = Bitstring::from_token(&token(Primitive, Tag::Bitstring, &[0x7, 0x80])).unwrap();
    assert_eq!(seven.len_bits(), 1);
    assert!(seven.is_set(0) && !seven.is_set(1));
    assert_eq!(seven.as_unsigned::<u8>(), Ok(1));

    let mut wide = vec![0u8];
    wide.extend([0xFF; 16]);
    let wide = Bitstring::from_token(&token(Primitive, Tag::Bitstring, &wide)).unwrap();
    assert_eq!(wide.as_unsigned::<u128>(), Ok(u128::MAX));
    assert_eq!(wide.as_unsigned::<u64>(), Err(OutOfMemory));
}

#[test]
fn bitstring_ending_in_a_zero_byte() {
    // Refused even with no unused bits and set bits before it.
    assert_eq!(
        Bitstring::from_token(&token(Primitive, Tag::Bitstring, &[0x0, 0xFF, 0x00]))
            .unwrap_err(),
        MalformedToken
    );
    assert_eq!(
        Bitstring::from_token(&token(Primitive, Tag::Bitstring, &[0x8, 0xFF]))
            .unwrap_err(),
        MalformedToken
    );
    for unused in 1..8u8 {
        // The lowest of the unused bits is set.
        let body = [unused, 0xFF, 0x01 << (unused - 1)];
        assert_eq!(
            Bitstring::from_token(&token(Primitive, Tag::Bitstring, &body)).unwrap_err(),
            MalformedToken
        );
        // The lowest of the used bits is set.
        let body = [unused, 0xFF, 0x01 << unused];
        let bits = Bitstring::from_token(&token(Primitive, Tag::Bitstring, &body)).unwrap();
        assert_eq!(bits.len_bits(), 16 - unused as usize);
        assert_eq!(
            bits.as_unsigned::<u32>(),
            Ok((0xFF00u32 | (0x01 << unused)) >> unused)
        );
    }
    let one = Bitstring::from_token(&token(Primitive, Tag::Bitstring, &[1, 0xFF, 0x02])).unwrap();
    assert_eq!(one.as_unsigned::<u32>(), Ok(0x7F81));
    let seven =
        Bitstring::from_token(&token(Primitive, Tag::Bitstring, &[7, 0xFF, 0x80])).unwrap();
    assert_eq!(seven.as_unsigned::<u32>(), Ok(0x1FF));
}

#[test]
fn oid_arcs() {
    // 1.2.840.113549
    let rsa = Oid::from_token(&token(
        Primitive,
        Tag::Oid,
        &[0x2A, 0x86, 0x48, 0x86, 0xF7, 0x0D],
    ))
    .unwrap();
    assert_eq!(rsa, ConstOid(&[1, 2, 840, 113549]));
    assert!(rsa != ConstOid(&[1, 2, 840]));
    assert!(rsa != ConstOid(&[1, 2, 840, 113550]));
    assert!(rsa != ConstOid(&[1, 2, 840, 113549, 0]));
    assert_eq!(rsa.len(), 4);
    assert_eq!(rsa.arc(0), Some(1));
    assert_eq!(rsa.arc(3), Some(113549));
    assert_eq!(rsa.arc(4), None);

    // The first number is split by forties up to 80.
    let cases: [(u8, [u32; 2]); 7] = [
        (0, [0, 0]),
        (39, [0, 39]),
        (40, [1, 0]),
        (79, [1, 39]),
        (80, [2, 0]),
        (82, [2, 2]),
        (127, [2, 47]),
    ];
    for (byte, arcs) in cases {
        let oid = Oid::from_token(&token(Primitive, Tag::Oid, &[byte])).unwrap();
        assert_eq!(oid.len(), 2);
        assert_eq!([oid.arc(0).unwrap(), oid.arc(1).unwrap()], arcs);
    }
    // 0x88 0x37 = 1079 = 2.999
    let oid = Oid::from_token(&token(Primitive, Tag::Oid, &[0x88, 0x37])).unwrap();
    assert_eq!(oid, ConstOid(&[2, 999]));
}

#[test]
fn oid_limits() {
    // Twelve arcs fit: the first byte gives two of them.
    let oid = Oid::from_token(&token(Primitive, Tag::Oid, &[1; 11])).unwrap();
    assert_eq!(oid.len(), 12);
    assert_eq!(oid, ConstOid(&[0, 1, 1, 1, 1, 1, 1, 1, 1, 1, 1, 1]));
    // Thirteen do not.
    assert_eq!(
        Oid::from_token(&token(Primitive, Tag::Oid, &[1; 12])).unwrap_err(),
        OutOfMemory
    );
    // A malformed arc behind the twelfth is found before the room runs out.
    let mut body = vec![1u8; 11];
    body.push(0x80);
    body.push(0x01);
    assert_eq!(
        Oid::from_token(&token(Primitive, Tag::Oid, &body)).unwrap_err(),
        MalformedToken
    );

    // The largest arc.
    let oid = Oid::from_token(&token(
        Primitive,
        Tag::Oid,
        &[0x01, 0x8F, 0xFF, 0xFF, 0xFF, 0x7F],
    ))
    .unwrap();
    assert_eq!(oid, ConstOid(&[0, 1, u32::MAX]));
    // One bit more.
    assert_eq!(
        Oid::from_token(&token(
            Primitive,
            Tag::Oid,
            &[0x01, 0x9F, 0xFF, 0xFF, 0xFF, 0x7F]
        ))
        .unwrap_err(),
        OutOfMemory
    );
    // An arc that starts with a byte without bits.
    assert_eq!(
        Oid::from_token(&token(Primitive, Tag::Oid, &[0x01, 0x80, 0x01])).unwrap_err(),
        MalformedToken
    );
    assert_eq!(
        Oid::from_token(&token(Primitive, Tag::Oid, &[0x80, 0x01])).unwrap_err(),
        MalformedToken
    );
}

#[test]
fn strings_by_tag() {
    for tag in [Tag::Ia5String, Tag::VisibleString, Tag::T61String] {
        assert_eq!(
            String::from_token(&token(Primitive, tag, b"plain ~ text\x7f")).unwrap(),
            "plain ~ text\x7f"
        );
        assert_eq!(
            String::from_token(&token(Primitive, tag, b"line\n")).unwrap_err(),
            UnsupportedString
        );
        assert_eq!(
            String::from_token(&token(Primitive, tag, &[0x41, 0x80])).unwrap_err(),
            UnsupportedString
        );
        assert_eq!(String::from_token(&token(Primitive, tag, b"")).unwrap(), "");
    }
    // The tags that are no strings.
    for tag in [Tag::Octetstring, Tag::String, Tag::Int] {
        assert_eq!(
            String::from_token(&token(Primitive, tag, b"text")).unwrap_err(),
            UnsupportedString
        );
    }
    // The encoding is looked at first.
    assert_eq!(
        String::from_token(&token(Constructed, Tag::Int, b"text")).unwrap_err(),
        MalformedToken
    );
    // Bytes that are no UTF-8.
    assert_eq!(
        String::from_token(&token(Primitive, Tag::Utf8String, &[0xC3])).unwrap_err(),
        MalformedToken
    );
    assert_eq!(
        String::from_token(&token(Primitive, Tag::Utf8String, &[0xFF, 0x41])).unwrap_err(),
        MalformedToken
    );
    let text = String::from_token(&token(Primitive, Tag::Utf8String, "日本語".as_bytes()))
        .unwrap();
    assert_eq!(text.0, "日本語");
    assert!(text != "日本");
}

#[test]
fn printable_characters() {
    for byte in 0u8..=255 {
        let body = [byte];
        let excluded = [b'*', b';', b'<', b'>', b'@'].contains(&byte);
        let allowed = (byte == b' ' || (b'('..=b'z').contains(&byte)) && !excluded;
        let result = String::from_token(&token(Primitive, Tag::PrintableString, &body));
        if allowed {
            assert_eq!(result.unwrap().0.as_bytes(), &body);
        } else {
            assert_eq!(result.unwrap_err(), MalformedToken);
        }
        let result = String::printable_string(&body);
        assert_eq!(result.is_ok(), allowed);

        let plain = (0x20..=0x7f).contains(&byte);
        let result = String::ascii_string(&body);
        if plain {
            assert_eq!(result.unwrap().0.as_bytes(), &body);
        } else {
            assert_eq!(result.unwrap_err(), UnsupportedString);
        }
    }
}

fn time_of(tag: Tag, text: &str) -> Result<std::string::String, moccasin::Error> {
    Time::from_token(&token(Primitive, tag, text.as_bytes())).map(|t| t.to_rfc3339())
}

#[test]
fn time_windows_and_fields() {
    // The two-digit years run from 1950 to 2049.
    assert_eq!(
        time_of(Tag::UtcTime, "500101000000Z").unwrap(),
        "1950-01-01T00:00:00+00:00"
    );
    assert_eq!(
        time_of(Tag::UtcTime, "000229235959Z").unwrap(),
        "2000-02-29T23:59:59+00:00"
    );
    assert_eq!(
        time_of(Tag::GeneralizedTime, "00010203040506Z").unwrap(),
        "0001-02-03T04:05:06+00:00"
    );
    assert_eq!(
        time_of(Tag::GeneralizedTime, "99991231235959Z").unwrap(),
        "9999-12-31T23:59:59+00:00"
    );
    assert_eq!(
        time_of(Tag::GeneralizedTime, "00000101000000Z").unwrap(),
        "0000-01-01T00:00:00+00:00"
    );

    let t = Time::from_token(&token(Primitive, Tag::UtcTime, b"491020181001Z")).unwrap();
    assert_eq!(
        (t.year(), t.month(), t.day(), t.hour(), t.minute(), t.second()),
        (2049, 10, 20, 18, 10, 1)
    );
}

#[test]
fn time_calendar() {
    // Leap years: every fourth, but of the centuries only every fourth.
    assert!(time_of(Tag::GeneralizedTime, "20240229000000Z").is_ok());
    assert!(time_of(Tag::GeneralizedTime, "20000229000000Z").is_ok());
    assert!(time_of(Tag::GeneralizedTime, "24000229000000Z").is_ok());
    assert!(time_of(Tag::GeneralizedTime, "00000229000000Z").is_ok());
    for text in [
        "19000229000000Z",
        "21000229000000Z",
        "20230229000000Z",
        "20240230000000Z",
    ] {
        assert_eq!(time_of(Tag::GeneralizedTime, text).unwrap_err(), MalformedToken);
    }
    // The lengths of the months.
    let days = [31, 28, 31, 30, 31, 30, 31, 31, 30, 31, 30, 31];
    for (month, days) in days.iter().enumerate() {
        let last = format!("2023{:02}{:02}120000Z", month + 1, days);
        let behind = format!("2023{:02}{:02}120000Z", month + 1, days + 1);
        assert!(time_of(Tag::GeneralizedTime, &last).is_ok(), "{}", last);
        assert_eq!(
            time_of(Tag::GeneralizedTime, &behind).unwrap_err(),
            MalformedToken
        );
    }
    for text in [
        "20230001000000Z",
        "20231301000000Z",
        "20230100000000Z",
        "20230101240000Z",
        "20230101006000Z",
        "20230101000060Z",
    ] {
        assert_eq!(time_of(Tag::GeneralizedTime, text).unwrap_err(), MalformedToken);
    }
}

#[test]
fn time_that_is_malformed() {
    for (tag, text) in [
        (Tag::UtcTime, ""),
        (Tag::UtcTime, "Z"),
        (Tag::UtcTime, "491020181001"),
        (Tag::UtcTime, "491020181001z"),
        (Tag::UtcTime, "4910201810010"),
        (Tag::UtcTime, "20491020181001Z"),
        (Tag::UtcTime, "+91020181001Z"),
        (Tag::UtcTime, "49102018 001Z"),
        (Tag::UtcTime, "4910201810-1Z"),
        (Tag::GeneralizedTime, "491020181001Z"),
        (Tag::GeneralizedTime, "2049102018100Z1"),
        (Tag::GeneralizedTime, "+0491020181001Z"),
        (Tag::GeneralizedTime, "204910201810.1Z"),
        (Tag::Time, "491020181001Z"),
        (Tag::Octetstring, "491020181001Z"),
    ] {
        assert_eq!(time_of(tag, text).unwrap_err(), MalformedToken, "{:?}", text);
    }
}

#[test]
fn oid_as_text() {
    let oid = Oid::from_token(&token(Primitive, Tag::Oid, &[0x52, 0xD7, 0x00])).unwrap();
    assert_eq!(oid.to_string(), "Oid(2.2.11136)");
    assert_eq!(
        ConstOid(&[1, 2, 840, 113549]).to_string(),
        "ConstOid(1.2.840.113549)"
    );
    assert_eq!(ConstOid(&[]).to_string(), "ConstOid()");
    assert_eq!(ConstOid(&[7]).to_string(), "ConstOid(7)");
    assert_eq!(
        ConstOid(&[0, 10, 109, u32::MAX]).to_string(),
        "ConstOid(0.10.109.4294967295)"
    );
    let zero = Oid::from_token(&token(Primitive, Tag::Oid, &[0x00])).unwrap();
    assert_eq!(zero.to_string(), "Oid(0.0)");
}

#[test]
fn oid_equality() {
    let a = Oid::from_token(&token(Primitive, Tag::Oid, &[0x2A, 0x86, 0x48])).unwrap();
    let b = Oid::from_token(&token(Primitive, Tag::Oid, &[0x2A, 0x86, 0x48])).unwrap();
    let shorter = Oid::from_token(&token(Primitive, Tag::Oid, &[0x2A])).unwrap();
    let other = Oid::from_token(&token(Primitive, Tag::Oid, &[0x2A, 0x86, 0x49])).unwrap();

    assert_eq!(a, b);
    assert!(a != shorter);
    assert!(a != other);
    assert!(shorter != a);
}
