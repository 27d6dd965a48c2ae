//! The composite string types and the section grammar.

use imap_codec::b64::base64;
use imap_codec::outcome::ParseError;
use imap_codec::section::{
    header_list, section, section_msgtext, section_part, section_spec, section_text,
    PartSpecifier, Section,
};
use imap_codec::strings::{astring, charset, nstring, string, AString, Charset, IString, NString};

#[test]
fn test_string_alternation() {
    let (v, n) = string(b"\"abc\" ").unwrap();
    assert_eq!(v, IString::Quoted(b"abc".to_vec()));
    assert_eq!(n, 5);
    let (v, n) = string(b"{2}\r\nab rest").unwrap();
    assert_eq!(v, IString::Literal(b"ab".to_vec()));
    assert_eq!(n, 7);
    assert!(matches!(string(b"x"), Err(ParseError::Malformed)));
    assert!(matches!(string(b"\"ab"), Err(ParseError::Incomplete)));
}

#[test]
fn test_astring_prefers_atom() {
    let (v, n) = astring(b"foo ").unwrap();
    assert_eq!(v, AString::Atom(b"foo".to_vec()));
    assert_eq!(n, 3);
    let (v, n) = astring(b"\"x y\" ").unwrap();
    assert_eq!(v, AString::Str(IString::Quoted(b"x y".to_vec())));
    assert_eq!(n, 5);
    assert!(matches!(astring(b"foo"), Err(ParseError::Incomplete)));
}

#[test]
fn test_nstring() {
    let (v, n) = nstring(b"NIL rest").unwrap();
    assert_eq!(v, NString(None));
    assert_eq!(n, 3);
    let (v, n) = nstring(b"nil rest").unwrap();
    assert_eq!(v, NString(None));
    assert_eq!(n, 3);
    let (v, _) = nstring(b"\"a\" ").unwrap();
    assert_eq!(v, NString(Some(IString::Quoted(b"a".to_vec()))));
}

#[test]
fn test_charset() {
    let (v, n) = charset(b"UTF-8 ").unwrap();
    assert_eq!(v, Charset::Atom(b"UTF-8".to_vec()));
    assert_eq!(n, 5);
    let (v, _) = charset(b"\"utf 8\" ").unwrap();
    assert_eq!(v, Charset::Quoted(b"utf 8".to_vec()));
}

#[test]
fn test_base64() {
    let (v, n) = base64(b"QUJD ").unwrap();
    assert_eq!(v, b"ABC".to_vec());
    assert_eq!(n, 4);
    let (v, n) = base64(b"QQ== ").unwrap();
    assert_eq!(v, b"A".to_vec());
    assert_eq!(n, 4);
    // A lone alphabet character cannot be a whole base64 quantum.
    assert!(matches!(base64(b"Q "), Err(ParseError::Malformed)));
    // The run may still be growing.
    assert!(matches!(base64(b"QUJD"), Err(ParseError::Incomplete)));
}

#[test]
fn test_header_list() {
    let (v, n) = header_list(b"(a b c)rest").unwrap();
    assert_eq!(
        v,
        vec![
            AString::Atom(b"a".to_vec()),
            AString::Atom(b"b".to_vec()),
            AString::Atom(b"c".to_vec()),
        ]
    );
    assert_eq!(n, 7);
    assert!(matches!(header_list(b"()"), Err(ParseError::Malformed)));
    assert!(matches!(header_list(b"(a"), Err(ParseError::Incomplete)));
}

#[test]
fn test_section_longest_match() {
    // `HEADER.FIELDS.NOT` must win over `HEADER.FIELDS`: the fields-not
    // branch is selected, never a `HEADER.FIELDS` with a dangling `.NOT`.
    let input = b"HEADER.FIELDS.NOT (SUBJECT)]";
    let (v, n) = section_msgtext(input).unwrap();
    assert_eq!(
        v,
        PartSpecifier::HeaderFieldsNot(vec![AString::Atom(b"SUBJECT".to_vec())])
    );
    assert_eq!(n, 27);
    let (v, _) = section_spec(input).unwrap();
    assert_eq!(
        v,
        Section::HeaderFieldsNot(None, vec![AString::Atom(b"SUBJECT".to_vec())])
    );
}

#[test]
fn test_section_msgtext_forms() {
    let (v, n) = section_msgtext(b"HEADER]").unwrap();
    assert_eq!(v, PartSpecifier::Header);
    assert_eq!(n, 6);
    let (v, _) = section_msgtext(b"HEADER.FIELDS (a)]").unwrap();
    assert_eq!(
        v,
        PartSpecifier::HeaderFields(vec![AString::Atom(b"a".to_vec())])
    );
    let (v, n) = section_msgtext(b"TEXT]").unwrap();
    assert_eq!(v, PartSpecifier::Text);
    assert_eq!(n, 4);
    // Keyword prefixes may still be growing.
    assert!(matches!(section_msgtext(b"HEADER"), Err(ParseError::Incomplete)));
    assert!(matches!(section_msgtext(b"xyz]"), Err(ParseError::Malformed)));
}

#[test]
fn test_section_part_backtracks() {
    let (v, n) = section_part(b"1.2.MIME]").unwrap();
    assert_eq!(v, vec![1, 2]);
    assert_eq!(n, 3);
    let (v, n) = section_part(b"1.0]").unwrap();
    assert_eq!(v, vec![1]);
    assert_eq!(n, 1);
    assert!(matches!(section_part(b"1.2"), Err(ParseError::Incomplete)));
}

#[test]
fn test_section_text_mime() {
    let (v, n) = section_text(b"MIME]").unwrap();
    assert_eq!(v, PartSpecifier::Mime);
    assert_eq!(n, 4);
}

#[test]
fn test_section_forms() {
    let input = b"[HEADER]xyz";
    let (v, n) = section(input).unwrap();
    assert_eq!(v, Some(Section::Header(None)));
    assert_eq!(&input[n..], b"xyz");

    let (v, n) = section(b"[]x").unwrap();
    assert_eq!(v, None);
    assert_eq!(n, 2);

    let (v, _) = section(b"[1.2.3]").unwrap();
    assert_eq!(v, Some(Section::Part(vec![1, 2, 3])));

    let (v, _) = section(b"[1.2.MIME]").unwrap();
    assert_eq!(v, Some(Section::Mime(vec![1, 2])));

    let (v, _) = section(b"[3.TEXT]").unwrap();
    assert_eq!(v, Some(Section::Text(Some(vec![3]))));

    let (v, _) = section(b"[HEADER.FIELDS (date subject)]").unwrap();
    assert_eq!(
        v,
        Some(Section::HeaderFields(
            None,
            vec![
                AString::Atom(b"date".to_vec()),
                AString::Atom(b"subject".to_vec()),
            ]
        ))
    );

    assert!(matches!(section(b"[HEADER"), Err(ParseError::Incomplete)));
    assert!(matches!(section(b"x"), Err(ParseError::Malformed)));
    // A zero part number is malformed, and `]` cannot rescue it.
    assert!(matches!(section(b"[0]"), Err(ParseError::Malformed)));
}
