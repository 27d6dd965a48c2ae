//! The response domain model and its exact wire encodings.

use imap_codec::response::{
    BodyStructure, Capability, Code, Continuation, Data, DataItemResponse, EncodeError, Flag,
    FlagNameAttribute, Mailbox, Response, Status, StatusItemResponse,
};
use imap_codec::strings::{IString, NString};

#[test]
fn test_status() {
    let tests: Vec<(Status, &[u8])> = vec![
        // tagged; Ok, No, Bad
        (
            Status::ok(Some(b"A1"), Some(Code::Alert), b"hello"),
            b"A1 OK [ALERT] hello\r\n",
        ),
        (
            Status::no(Some(b"A1"), Some(Code::Alert), b"hello"),
            b"A1 NO [ALERT] hello\r\n",
        ),
        (
            Status::bad(Some(b"A1"), Some(Code::Alert), b"hello"),
            b"A1 BAD [ALERT] hello\r\n",
        ),
        (Status::ok(Some(b"A1"), None, b"hello"), b"A1 OK hello\r\n"),
        (Status::no(Some(b"A1"), None, b"hello"), b"A1 NO hello\r\n"),
        (Status::bad(Some(b"A1"), None, b"hello"), b"A1 BAD hello\r\n"),
        // untagged; Ok, No, Bad
        (
            Status::ok(None, Some(Code::Alert), b"hello"),
            b"* OK [ALERT] hello\r\n",
        ),
        (
            Status::no(None, Some(Code::Alert), b"hello"),
            b"* NO [ALERT] hello\r\n",
        ),
        (
            Status::bad(None, Some(Code::Alert), b"hello"),
            b"* BAD [ALERT] hello\r\n",
        ),
        (Status::ok(None, None, b"hello"), b"* OK hello\r\n"),
        (Status::no(None, None, b"hello"), b"* NO hello\r\n"),
        (Status::bad(None, None, b"hello"), b"* BAD hello\r\n"),
        // preauth
        (
            Status::preauth(Some(Code::Alert), b"hello"),
            b"* PREAUTH [ALERT] hello\r\n",
        ),
        // bye
        (
            Status::bye(Some(Code::Alert), b"hello"),
            b"* BYE [ALERT] hello\r\n",
        ),
    ];

    for (parsed, serialized) in tests {
        assert_eq!(parsed.serialize(), serialized.to_vec());
    }
}

#[test]
fn test_data() {
    let tests: Vec<(Data, &[u8])> = vec![
        (
            Data::Capability(vec![Capability::Imap4Rev1]),
            b"* CAPABILITY IMAP4REV1\r\n",
        ),
        (
            Data::List {
                items: vec![FlagNameAttribute::Noselect],
                delimiter: Some(b'/'),
                mailbox: Mailbox::other(b"bbb"),
            },
            b"* LIST (\\Noselect) \"/\" bbb\r\n",
        ),
        (Data::Search(vec![1, 2, 3, 42]), b"* SEARCH 1 2 3 42\r\n"),
        (Data::Exists(42), b"* 42 EXISTS\r\n"),
        (Data::Recent(12345), b"* 12345 RECENT\r\n"),
        (Data::Expunge(123), b"* 123 EXPUNGE\r\n"),
    ];

    for (parsed, serialized) in tests.into_iter() {
        println!("{:?}", parsed);
        assert_eq!(parsed.serialize().unwrap(), serialized.to_vec());
    }
}

#[test]
fn test_continuation() {
    let tests: Vec<(Continuation, &[u8])> = vec![
        (Continuation::basic(None, b"hello"), b"+ hello\r\n".as_ref()),
        (Continuation::basic(None, b""), b"+ .\r\n"),
        (
            Continuation::basic(Some(Code::ReadWrite), b"hello"),
            b"+ [READ-WRITE] hello\r\n",
        ),
        (
            Continuation::basic(Some(Code::ReadWrite), b""),
            b"+ [READ-WRITE] .\r\n",
        ),
    ];

    for (parsed, serialized) in tests.into_iter() {
        assert_eq!(parsed.serialize(), serialized.to_vec());
    }
}

#[test]
fn test_bodystructure() {
    // The body-structure sub-grammar is not rendered yet: encoding such an
    // item must fail with the distinct unsupported error, never emit bytes.
    let item = DataItemResponse::BodyStructure(BodyStructure {});
    assert_eq!(item.serialize(), Err(EncodeError::Unsupported));
}

#[test]
fn test_search_empty() {
    // No trailing space before CRLF when the number list is empty.
    assert_eq!(
        Data::Search(vec![]).serialize().unwrap(),
        b"* SEARCH\r\n".to_vec()
    );
}

#[test]
fn test_status_data_items() {
    let data = Data::Status {
        name: Mailbox::other(b"blurdybloop"),
        items: vec![
            StatusItemResponse::Messages(231),
            StatusItemResponse::UidNext(44292),
        ],
    };
    assert_eq!(
        data.serialize().unwrap(),
        b"* STATUS blurdybloop (MESSAGES 231 UIDNEXT 44292)\r\n".to_vec()
    );
}

#[test]
fn test_lsub() {
    let data = Data::Lsub {
        items: vec![],
        delimiter: b".".to_vec(),
        name: b"#news.comp.mail.misc".to_vec(),
    };
    assert_eq!(
        data.serialize().unwrap(),
        b"* LSUB () \".\" #news.comp.mail.misc\r\n".to_vec()
    );
}

#[test]
fn test_flags_data() {
    let data = Data::Flags(vec![
        Flag::Answered,
        Flag::Flagged,
        Flag::Deleted,
        Flag::Seen,
        Flag::Draft,
    ]);
    assert_eq!(
        data.serialize().unwrap(),
        b"* FLAGS (\\Answered \\Flagged \\Deleted \\Seen \\Draft)\r\n".to_vec()
    );
}

#[test]
fn test_fetch() {
    let data = Data::Fetch {
        msg: 23,
        items: vec![
            DataItemResponse::Flags(vec![Flag::Seen]),
            DataItemResponse::Rfc822Size(44827),
        ],
    };
    assert_eq!(
        data.serialize().unwrap(),
        b"* 23 FETCH ((\\Seen) RFC822.SIZE 44827)\r\n".to_vec()
    );
}

#[test]
fn test_fetch_nstring_items() {
    let data = Data::Fetch {
        msg: 1,
        items: vec![
            DataItemResponse::Rfc822(NString(None)),
            DataItemResponse::Rfc822Header(NString(Some(IString::Quoted(b"h".to_vec())))),
            DataItemResponse::Rfc822Text(NString(Some(IString::Literal(b"ab".to_vec())))),
            DataItemResponse::Uid(7),
        ],
    };
    assert_eq!(
        data.serialize().unwrap(),
        b"* 1 FETCH (RFC822 NIL RFC822.HEADER \"h\" RFC822.TEXT {2}\r\nab UID 7)\r\n".to_vec()
    );
}

#[test]
fn test_fetch_unsupported() {
    let data = Data::Fetch {
        msg: 5,
        items: vec![
            DataItemResponse::Uid(7),
            DataItemResponse::Envelope(imap_codec::response::Envelope {}),
        ],
    };
    assert_eq!(data.serialize(), Err(EncodeError::Unsupported));
    let resp = Response::Data(data);
    assert_eq!(resp.serialize(), Err(EncodeError::Unsupported));
}

#[test]
fn test_codes() {
    assert_eq!(Code::BadCharset(vec![]).serialize(), b"BADCHARSET".to_vec());
    assert_eq!(
        Code::BadCharset(vec![imap_codec::strings::Charset::Atom(b"UTF-8".to_vec())]).serialize(),
        b"BADCHARSET (UTF-8)".to_vec()
    );
    assert_eq!(
        Code::capability(vec![Capability::Imap4Rev1]).serialize(),
        b"CAPABILITY IMAP4REV1".to_vec()
    );
    assert_eq!(
        Code::PermanentFlags(vec![Flag::Seen, Flag::Keyword(b"custom".to_vec())]).serialize(),
        b"PERMANENTFLAGS (\\Seen custom)".to_vec()
    );
    assert_eq!(Code::UidNext(5).serialize(), b"UIDNEXT 5".to_vec());
    assert_eq!(Code::UidValidity(9).serialize(), b"UIDVALIDITY 9".to_vec());
    assert_eq!(Code::Unseen(2).serialize(), b"UNSEEN 2".to_vec());
    assert_eq!(Code::Parse.serialize(), b"PARSE".to_vec());
    assert_eq!(Code::ReadOnly.serialize(), b"READ-ONLY".to_vec());
    assert_eq!(Code::TryCreate.serialize(), b"TRYCREATE".to_vec());
    assert_eq!(
        Code::Other(b"XFOO".to_vec(), Some(b"bar".to_vec())).serialize(),
        b"XFOO bar".to_vec()
    );
    assert_eq!(
        Code::Other(b"XFOO".to_vec(), None).serialize(),
        b"XFOO".to_vec()
    );
    assert_eq!(
        Code::Referral(b"imap://x/".to_vec()).serialize(),
        b"REFERRAL imap://x/".to_vec()
    );
}

#[test]
fn test_greeting() {
    assert_eq!(
        Status::greeting(None, b"IMAP4rev1 Service Ready").serialize(),
        b"* OK IMAP4rev1 Service Ready\r\n".to_vec()
    );
}

#[test]
fn test_mailbox_inbox() {
    assert_eq!(Mailbox::other(b"inbox"), Mailbox::Inbox);
    assert_eq!(Mailbox::other(b"iNbOx"), Mailbox::Inbox);
    assert_eq!(Mailbox::other(b"bbb"), Mailbox::Other(b"bbb".to_vec()));
}

#[test]
fn test_response_forms() {
    let r = Response::Status(Status::ok(Some(b"A1"), None, b"done"));
    assert_eq!(r.serialize().unwrap(), b"A1 OK done\r\n".to_vec());
    let r = Response::Continuation(Continuation::base64(b"YWJj"));
    assert_eq!(r.serialize().unwrap(), b"+ YWJj\r\n".to_vec());
    let r = Response::Data(Data::Exists(3));
    assert_eq!(r.serialize().unwrap(), b"* 3 EXISTS\r\n".to_vec());
}
