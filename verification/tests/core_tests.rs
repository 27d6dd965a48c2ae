//! The lexical primitives, exercised byte for byte.

use imap_codec::atoms::{atom, nil, tag_imap, text};
use imap_codec::literal::{encode_literal, literal};
use imap_codec::number::{number, nz_number};
use imap_codec::outcome::ParseError;
use imap_codec::quoted::{encode_quoted, quoted, quoted_char};

#[test]
fn test_atom() {
    assert!(atom(b" ").is_err());
    assert!(atom(b"").is_err());

    let (val, n) = atom(b"a(").unwrap();
    assert_eq!(val, b"a".to_vec());
    assert_eq!(&b"a("[n..], b"(");

    let (val, n) = atom(b"xxx yyy").unwrap();
    assert_eq!(val, b"xxx".to_vec());
    assert_eq!(&b"xxx yyy"[n..], b" yyy");
}

#[test]
fn test_quoted() {
    let input = br#""Hello"???"#;
    let (val, n) = quoted(input).unwrap();
    assert_eq!(&input[n..], b"???");
    assert_eq!(val, b"Hello".to_vec());

    // Allowed escapes...
    assert!(quoted(br#""Hello \" "???"#).is_ok());
    assert!(quoted(br#""Hello \\ "???"#).is_ok());

    // Not allowed escapes...
    assert!(quoted(br#""Hello \a "???"#).is_err());
    assert!(quoted(br#""Hello \z "???"#).is_err());
    assert!(quoted(br#""Hello \? "???"#).is_err());

    let input = br#""Hello \"World\""???"#;
    let (val, n) = quoted(input).unwrap();
    assert_eq!(&input[n..], br#"???"#);
    assert_eq!(val, br#"Hello "World""#.to_vec());

    // Incomplete
    assert!(matches!(quoted(br#""#), Err(ParseError::Incomplete)));
    assert!(matches!(quoted(br#""\"#), Err(ParseError::Incomplete)));
    assert!(matches!(quoted(br#""Hello "#), Err(ParseError::Incomplete)));

    // Malformed
    assert!(matches!(quoted(br#"\"#), Err(ParseError::Malformed)));
}

#[test]
fn test_quoted_char() {
    let input = b"\\\"xxx";
    let (val, n) = quoted_char(input).unwrap();
    assert_eq!(&input[n..], b"xxx");
    assert_eq!(val, b'"');
}

#[test]
fn test_number() {
    assert!(number(b"").is_err());
    assert!(number(b"?").is_err());

    assert!(number(b"0?").is_ok());
    assert!(number(b"55?").is_ok());
    assert!(number(b"999?").is_ok());
}

#[test]
fn test_nz_number() {
    assert!(number(b"").is_err());
    assert!(number(b"?").is_err());

    assert!(nz_number(b"0?").is_err());
    assert!(nz_number(b"55?").is_ok());
    assert!(nz_number(b"999?").is_ok());
}

#[test]
fn test_literal() {
    assert!(literal(b"{3}\r\n123").is_ok());
    assert!(literal(b"{3}\r\n1\x003").is_err());

    let input = b"{3}\r\n123xxx";
    let (val, n) = literal(input).unwrap();
    assert_eq!(&input[n..], b"xxx");
    assert_eq!(val, b"123".to_vec());
}

#[test]
fn test_nil() {
    assert!(nil(b"nil").is_ok());
    assert!(nil(b"nil ").is_ok());
    assert!(nil(b" nil").is_err());
    assert!(nil(b"null").is_err());

    let input = b"nilxxx";
    let (_, n) = nil(input).unwrap();
    assert_eq!(&input[n..], b"xxx");
}

#[test]
fn test_number_values_and_range() {
    let (v, n) = number(b"55?").unwrap();
    assert_eq!((v, n), (55, 2));
    let (v, n) = number(b"4294967295?").unwrap();
    assert_eq!((v, n), (u32::MAX, 10));
    // One past the 32-bit range can never become legal: malformed.
    assert!(matches!(number(b"4294967296?"), Err(ParseError::Malformed)));
    // A buffer that is all digits may still grow: incomplete.
    assert!(matches!(number(b"123"), Err(ParseError::Incomplete)));
}

#[test]
fn test_nz_number_bounds() {
    assert!(matches!(nz_number(b"0?"), Err(ParseError::Malformed)));
    let (v, n) = nz_number(b"1?").unwrap();
    assert_eq!((v, n), (1, 1));
    let (v, _) = nz_number(b"4294967295?").unwrap();
    assert_eq!(v, u32::MAX);
}

#[test]
fn test_literal_handshake_and_incomplete() {
    // Announcement with an empty buffer after CRLF: the continuation
    // handshake is required before any payload byte may be read.
    assert!(matches!(literal(b"{3}\r\n"), Err(ParseError::HandshakeRequired)));
    // Some payload present but not all of it: plain incompleteness.
    assert!(matches!(literal(b"{3}\r\n12"), Err(ParseError::Incomplete)));
    assert!(matches!(literal(b"{3"), Err(ParseError::Incomplete)));
    assert!(matches!(literal(b"x"), Err(ParseError::Malformed)));
}

#[test]
fn test_encode_quoted_roundtrip() {
    assert_eq!(encode_quoted(b"Hello"), b"\"Hello\"".to_vec());
    let content: &[u8] = b"Hello \"World\" \\ and more";
    let wire = encode_quoted(content);
    let (val, n) = quoted(&wire).unwrap();
    assert_eq!(n, wire.len());
    assert_eq!(val, content.to_vec());
}

#[test]
fn test_encode_literal_roundtrip() {
    assert_eq!(encode_literal(b"123"), b"{3}\r\n123".to_vec());
    let wire = encode_literal(b"binary\x01payload");
    let (val, n) = literal(&wire).unwrap();
    assert_eq!(n, wire.len());
    assert_eq!(val, b"binary\x01payload".to_vec());
}

#[test]
fn test_text() {
    let input = b"hello world\r\n";
    let (val, n) = text(input).unwrap();
    assert_eq!(val, b"hello world".to_vec());
    assert_eq!(&input[n..], b"\r\n");
    assert!(matches!(text(b"\r\n"), Err(ParseError::Malformed)));
    assert!(matches!(text(b"abc"), Err(ParseError::Incomplete)));
}

#[test]
fn test_tag_imap() {
    let input = b"A1 OK";
    let (val, n) = tag_imap(input).unwrap();
    assert_eq!(val, b"A1".to_vec());
    assert_eq!(&input[n..], b" OK");
    // "+" is reserved for continuation requests and ends a tag.
    let (val, n) = tag_imap(b"A+1 ").unwrap();
    assert_eq!(val, b"A".to_vec());
    assert_eq!(n, 1);
}
