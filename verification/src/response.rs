//! The server-response domain model and its canonical wire encoder.
//!
//! Responses come in three forms: status responses (`OK`, `NO`, `BAD`,
//! `PREAUTH`, `BYE`), untagged server data, and command-continuation
//! requests.  Encoding is bit-exact and total over the supported values;
//! the body-structure, envelope, internal-date and body-extraction fetch
//! items belong to a sub-grammar this codec does not yet encode, and
//! serializing them fails with a distinct `Unsupported` error instead of
//! emitting wrong bytes.

use vstd::prelude::*;

use crate::kw::{
    kw_alert, kw_answered, kw_bad, kw_badcharset, kw_bye, kw_capability, kw_deleted, kw_draft,
    kw_exists, kw_expunge, kw_fetch, kw_flagged, kw_flags, kw_imap4rev1, kw_inbox, kw_list,
    kw_lsub, kw_marked, kw_messages, kw_nil_lower, kw_no, kw_noinferiors, kw_noselect, kw_ok,
    kw_parse, kw_permanentflags, kw_preauth, kw_read_only, kw_read_write, kw_recent,
    kw_recent_flag, kw_referral, kw_rfc822, kw_rfc822_header, kw_rfc822_size, kw_rfc822_text,
    kw_search, kw_seen, kw_status, kw_trycreate, kw_uid, kw_uidnext, kw_uidvalidity, kw_unmarked,
    kw_unseen, put_alert, put_answered, put_badcharset, put_capability,
    put_deleted, put_draft, put_exists, put_expunge, put_fetch, put_flagged, put_flags,
    put_imap4rev1, put_inbox, put_list, put_lsub, put_marked, put_messages, put_nil_lower,
    put_noinferiors, put_noselect, put_parse, put_permanentflags,
    put_read_only, put_read_write, put_recent, put_recent_flag, put_referral, put_rfc822,
    put_rfc822_header, put_rfc822_size, put_rfc822_text, put_search, put_seen, put_status,
    put_trycreate, put_uid, put_uidnext, put_uidvalidity, put_unmarked, put_unseen,
};
use crate::atoms::{eq_ci, nil_kw, seq_eqci};
use crate::literal::spec_literal_wire;
use crate::number::spec_dec_str;
use crate::quoted::{encode_quoted, spec_quoted_wire};
use crate::scan::copy_range;
use crate::section::Section;
use crate::strings::{Charset, CharsetV, IString, IStringV, NString};
use crate::wire::{push_all, push_dec_u32, push_dec_u64, sp_join, wires, write_joined, Wire};

verus! {

broadcast use crate::outcome::lemma_vec_u8_deep_view;

/// Why encoding a value failed: it uses a sub-grammar that this codec does
/// not yet render.
#[derive(Debug, Clone, Copy, PartialEq, Eq, Structural)]
pub enum EncodeError {
    Unsupported,
}

/// A capability name, as advertised in `CAPABILITY` data and codes.
#[derive(Debug, Clone, PartialEq, Eq)]
pub enum Capability {
    Imap4Rev1,
    Other(Vec<u8>),
}

/// The mathematical view of a `Capability`.
pub enum CapabilityV {
    Imap4Rev1,
    Other(Seq<u8>),
}

impl DeepView for Capability {
    type V = CapabilityV;

    open spec fn deep_view(&self) -> CapabilityV {
        match self {
            Capability::Imap4Rev1 => CapabilityV::Imap4Rev1,
            Capability::Other(a) => CapabilityV::Other(a@),
        }
    }
}

/// The wire rendering of a capability.
pub open spec fn cap_wire(c: CapabilityV) -> Seq<u8> {
    match c {
        CapabilityV::Imap4Rev1 => kw_imap4rev1(),
        CapabilityV::Other(a) => a,
    }
}

impl Wire for Capability {
    open spec fn wire(&self) -> Seq<u8> {
        cap_wire(self.deep_view())
    }

    fn write_wire(&self, out: &mut Vec<u8>) {
        match self {
            Capability::Imap4Rev1 => put_imap4rev1(out),
            Capability::Other(a) => push_all(out, a.as_slice()),
        }
    }
}

/// A message flag: one of the system flags, a keyword, or an extension.
#[derive(Debug, Clone, PartialEq, Eq)]
pub enum Flag {
    Answered,
    Deleted,
    Draft,
    Flagged,
    Recent,
    Seen,
    Keyword(Vec<u8>),
    Extension(Vec<u8>),
}

/// The mathematical view of a `Flag`.
pub enum FlagV {
    Answered,
    Deleted,
    Draft,
    Flagged,
    Recent,
    Seen,
    Keyword(Seq<u8>),
    Extension(Seq<u8>),
}

impl DeepView for Flag {
    type V = FlagV;

    open spec fn deep_view(&self) -> FlagV {
        match self {
            Flag::Answered => FlagV::Answered,
            Flag::Deleted => FlagV::Deleted,
            Flag::Draft => FlagV::Draft,
            Flag::Flagged => FlagV::Flagged,
            Flag::Recent => FlagV::Recent,
            Flag::Seen => FlagV::Seen,
            Flag::Keyword(a) => FlagV::Keyword(a@),
            Flag::Extension(a) => FlagV::Extension(a@),
        }
    }
}

/// The wire rendering of a flag: system and extension flags carry a
/// leading backslash, keywords are bare atoms.
pub open spec fn flag_wire(f: FlagV) -> Seq<u8> {
    match f {
        FlagV::Answered => seq![0x5cu8] + kw_answered(),
        FlagV::Deleted => seq![0x5cu8] + kw_deleted(),
        FlagV::Draft => seq![0x5cu8] + kw_draft(),
        FlagV::Flagged => seq![0x5cu8] + kw_flagged(),
        FlagV::Recent => seq![0x5cu8] + kw_recent_flag(),
        FlagV::Seen => seq![0x5cu8] + kw_seen(),
        FlagV::Keyword(a) => a,
        FlagV::Extension(a) => seq![0x5cu8] + a,
    }
}

impl Wire for Flag {
    open spec fn wire(&self) -> Seq<u8> {
        flag_wire(self.deep_view())
    }

    fn write_wire(&self, out: &mut Vec<u8>) {
        match self {
            Flag::Answered => {
                out.push(0x5c);
                put_answered(out);
            },
            Flag::Deleted => {
                out.push(0x5c);
                put_deleted(out);
            },
            Flag::Draft => {
                out.push(0x5c);
                put_draft(out);
            },
            Flag::Flagged => {
                out.push(0x5c);
                put_flagged(out);
            },
            Flag::Recent => {
                out.push(0x5c);
                put_recent_flag(out);
            },
            Flag::Seen => {
                out.push(0x5c);
                put_seen(out);
            },
            Flag::Keyword(a) => push_all(out, a.as_slice()),
            Flag::Extension(a) => {
                out.push(0x5c);
                push_all(out, a.as_slice());
            },
        }
        proof {
            assert(out@ =~= old(out)@ + self.wire());
        }
    }
}

/// A mailbox name attribute in `LIST` / `LSUB` data.
#[derive(Debug, Clone, PartialEq, Eq)]
pub enum FlagNameAttribute {
    Noinferiors,
    Noselect,
    Marked,
    Unmarked,
    Extension(Vec<u8>),
}

/// The mathematical view of a `FlagNameAttribute`.
pub enum FlagNameAttributeV {
    Noinferiors,
    Noselect,
    Marked,
    Unmarked,
    Extension(Seq<u8>),
}

impl DeepView for FlagNameAttribute {
    type V = FlagNameAttributeV;

    open spec fn deep_view(&self) -> FlagNameAttributeV {
        match self {
            FlagNameAttribute::Noinferiors => FlagNameAttributeV::Noinferiors,
            FlagNameAttribute::Noselect => FlagNameAttributeV::Noselect,
            FlagNameAttribute::Marked => FlagNameAttributeV::Marked,
            FlagNameAttribute::Unmarked => FlagNameAttributeV::Unmarked,
            FlagNameAttribute::Extension(a) => FlagNameAttributeV::Extension(a@),
        }
    }
}

/// The wire rendering of a name attribute, always backslash-prefixed.
pub open spec fn fna_wire(f: FlagNameAttributeV) -> Seq<u8> {
    match f {
        FlagNameAttributeV::Noinferiors => seq![0x5cu8] + kw_noinferiors(),
        FlagNameAttributeV::Noselect => seq![0x5cu8] + kw_noselect(),
        FlagNameAttributeV::Marked => seq![0x5cu8] + kw_marked(),
        FlagNameAttributeV::Unmarked => seq![0x5cu8] + kw_unmarked(),
        FlagNameAttributeV::Extension(a) => seq![0x5cu8] + a,
    }
}

impl Wire for FlagNameAttribute {
    open spec fn wire(&self) -> Seq<u8> {
        fna_wire(self.deep_view())
    }

    fn write_wire(&self, out: &mut Vec<u8>) {
        out.push(0x5c);
        match self {
            FlagNameAttribute::Noinferiors => put_noinferiors(out),
            FlagNameAttribute::Noselect => put_noselect(out),
            FlagNameAttribute::Marked => put_marked(out),
            FlagNameAttribute::Unmarked => put_unmarked(out),
            FlagNameAttribute::Extension(a) => push_all(out, a.as_slice()),
        }
        proof {
            assert(out@ =~= old(out)@ + self.wire());
        }
    }
}

/// A mailbox name.  `INBOX` is special-cased, case-insensitively.
#[derive(Debug, Clone, PartialEq, Eq)]
pub enum Mailbox {
    Inbox,
    Other(Vec<u8>),
}

/// The mathematical view of a `Mailbox`.
pub enum MailboxV {
    Inbox,
    Other(Seq<u8>),
}

impl DeepView for Mailbox {
    type V = MailboxV;

    open spec fn deep_view(&self) -> MailboxV {
        match self {
            Mailbox::Inbox => MailboxV::Inbox,
            Mailbox::Other(n) => MailboxV::Other(n@),
        }
    }
}

impl Mailbox {
    /// Build a mailbox from its name; any spelling of `INBOX` is the
    /// special inbox.
    pub fn other(name: &[u8]) -> (r: Mailbox)
        ensures
            r.deep_view() == if seq_eqci(name@, kw_inbox()) {
                MailboxV::Inbox
            } else {
                MailboxV::Other(name@)
            },
    {
        let inbox: [u8; 5] = [0x49, 0x4e, 0x42, 0x4f, 0x58];
        proof {
            assert(inbox@ =~= kw_inbox());
        }
        if eq_ci(name, inbox.as_slice()) {
            Mailbox::Inbox
        } else {
            let v = copy_range(name, 0, name.len());
            proof {
                assert(v@ =~= name@);
            }
            Mailbox::Other(v)
        }
    }
}

/// The wire rendering of a mailbox name.
pub open spec fn mailbox_wire(m: MailboxV) -> Seq<u8> {
    match m {
        MailboxV::Inbox => kw_inbox(),
        MailboxV::Other(n) => n,
    }
}

impl Wire for Mailbox {
    open spec fn wire(&self) -> Seq<u8> {
        mailbox_wire(self.deep_view())
    }

    fn write_wire(&self, out: &mut Vec<u8>) {
        match self {
            Mailbox::Inbox => put_inbox(out),
            Mailbox::Other(n) => push_all(out, n.as_slice()),
        }
    }
}

/// A status data item: the per-mailbox counters of a `STATUS` response.
#[derive(Debug, Clone, Copy, PartialEq, Eq, Structural)]
pub enum StatusItemResponse {
    Messages(u32),
    Recent(u32),
    UidNext(u32),
    UidValidity(u32),
    Unseen(u32),
}

impl DeepView for StatusItemResponse {
    type V = StatusItemResponse;

    open spec fn deep_view(&self) -> StatusItemResponse {
        *self
    }
}

/// The wire rendering of a status data item: its keyword and its counter.
pub open spec fn status_item_wire(i: StatusItemResponse) -> Seq<u8> {
    match i {
        StatusItemResponse::Messages(n) => kw_messages() + seq![0x20u8] + spec_dec_str(n as int),
        StatusItemResponse::Recent(n) => kw_recent() + seq![0x20u8] + spec_dec_str(n as int),
        StatusItemResponse::UidNext(n) => kw_uidnext() + seq![0x20u8] + spec_dec_str(n as int),
        StatusItemResponse::UidValidity(n) => kw_uidvalidity() + seq![0x20u8] + spec_dec_str(
            n as int,
        ),
        StatusItemResponse::Unseen(n) => kw_unseen() + seq![0x20u8] + spec_dec_str(n as int),
    }
}

impl Wire for StatusItemResponse {
    open spec fn wire(&self) -> Seq<u8> {
        status_item_wire(*self)
    }

    fn write_wire(&self, out: &mut Vec<u8>) {
        match self {
            StatusItemResponse::Messages(n) => {
                put_messages(out);
                out.push(0x20);
                push_dec_u32(out, *n);
            },
            StatusItemResponse::Recent(n) => {
                put_recent(out);
                out.push(0x20);
                push_dec_u32(out, *n);
            },
            StatusItemResponse::UidNext(n) => {
                put_uidnext(out);
                out.push(0x20);
                push_dec_u32(out, *n);
            },
            StatusItemResponse::UidValidity(n) => {
                put_uidvalidity(out);
                out.push(0x20);
                push_dec_u32(out, *n);
            },
            StatusItemResponse::Unseen(n) => {
                put_unseen(out);
                out.push(0x20);
                push_dec_u32(out, *n);
            },
        }
        proof {
            assert(out@ =~= old(out)@ + self.wire());
        }
    }
}

impl Wire for u32 {
    open spec fn wire(&self) -> Seq<u8> {
        spec_dec_str(*self as int)
    }

    fn write_wire(&self, out: &mut Vec<u8>) {
        push_dec_u32(out, *self);
    }
}

/// The wire rendering of a charset name.
pub open spec fn charset_wire(c: CharsetV) -> Seq<u8> {
    match c {
        CharsetV::Atom(a) => a,
        CharsetV::Quoted(q) => spec_quoted_wire(q),
    }
}

impl Wire for Charset {
    open spec fn wire(&self) -> Seq<u8> {
        charset_wire(self.deep_view())
    }

    fn write_wire(&self, out: &mut Vec<u8>) {
        match self {
            Charset::Atom(a) => push_all(out, a.as_slice()),
            Charset::Quoted(q) => {
                let w = encode_quoted(q.as_slice());
                push_all(out, w.as_slice());
            },
        }
    }
}

/// A calendar point with a fixed offset from UTC, the value of an
/// `INTERNALDATE` fetch item.  Held as plain fields; this codec carries it
/// but does not yet encode it.
#[derive(Debug, Clone, Copy, PartialEq, Eq, Structural)]
pub struct DateTime {
    pub year: i32,
    pub month: u8,
    pub day: u8,
    pub hour: u8,
    pub minute: u8,
    pub second: u8,
    pub offset_seconds: i32,
}

impl DeepView for DateTime {
    type V = DateTime;

    open spec fn deep_view(&self) -> DateTime {
        *self
    }
}

/// The body structure of a message.  The sub-grammar is not part of this
/// codec yet; values of this type cannot be encoded.
#[derive(Debug, Clone, Copy, PartialEq, Eq, Structural)]
pub struct BodyStructure {
}

impl DeepView for BodyStructure {
    type V = BodyStructure;

    open spec fn deep_view(&self) -> BodyStructure {
        *self
    }
}

/// The envelope of a message.  The sub-grammar is not part of this codec
/// yet; values of this type cannot be encoded.
#[derive(Debug, Clone, Copy, PartialEq, Eq, Structural)]
pub struct Envelope {
}

impl DeepView for Envelope {
    type V = Envelope;

    open spec fn deep_view(&self) -> Envelope {
        *self
    }
}

/// A response code: the bracketed, machine-readable annotation inside a
/// status or continuation line.
#[derive(Debug, Clone, PartialEq, Eq)]
pub enum Code {
    Alert,
    BadCharset(Vec<Charset>),
    Capability(Vec<Capability>),
    Parse,
    PermanentFlags(Vec<Flag>),
    ReadOnly,
    ReadWrite,
    TryCreate,
    UidNext(u32),
    UidValidity(u32),
    Unseen(u32),
    Other(Vec<u8>, Option<Vec<u8>>),
    Referral(Vec<u8>),
}

/// The mathematical view of a `Code`.
pub enum CodeV {
    Alert,
    BadCharset(Seq<CharsetV>),
    Capability(Seq<CapabilityV>),
    Parse,
    PermanentFlags(Seq<FlagV>),
    ReadOnly,
    ReadWrite,
    TryCreate,
    UidNext(u32),
    UidValidity(u32),
    Unseen(u32),
    Other(Seq<u8>, Option<Seq<u8>>),
    Referral(Seq<u8>),
}

impl DeepView for Code {
    type V = CodeV;

    open spec fn deep_view(&self) -> CodeV {
        match self {
            Code::Alert => CodeV::Alert,
            Code::BadCharset(cs) => CodeV::BadCharset(cs.deep_view()),
            Code::Capability(cs) => CodeV::Capability(cs.deep_view()),
            Code::Parse => CodeV::Parse,
            Code::PermanentFlags(fs) => CodeV::PermanentFlags(fs.deep_view()),
            Code::ReadOnly => CodeV::ReadOnly,
            Code::ReadWrite => CodeV::ReadWrite,
            Code::TryCreate => CodeV::TryCreate,
            Code::UidNext(n) => CodeV::UidNext(*n),
            Code::UidValidity(n) => CodeV::UidValidity(*n),
            Code::Unseen(n) => CodeV::Unseen(*n),
            Code::Other(a, p) => CodeV::Other(a@, p.deep_view()),
            Code::Referral(u) => CodeV::Referral(u@),
        }
    }
}

impl Code {
    /// Build a `CAPABILITY` code from a capability list.
    pub fn capability(caps: Vec<Capability>) -> (r: Code)
        ensures
            r.deep_view() == CodeV::Capability(caps.deep_view()),
    {
        Code::Capability(caps)
    }
}

/// The canonical textual rendering of a response code.  `BADCHARSET`
/// parenthesizes its charset list only when the list is non-empty.
pub open spec fn code_wire(c: CodeV) -> Seq<u8> {
    match c {
        CodeV::Alert => kw_alert(),
        CodeV::BadCharset(cs) => {
            if cs.len() == 0 {
                kw_badcharset()
            } else {
                kw_badcharset() + seq![0x20u8, 0x28u8] + sp_join(
                    cs.map(|i: int, x: CharsetV| charset_wire(x)),
                ) + seq![0x29u8]
            }
        },
        CodeV::Capability(cs) => kw_capability() + seq![0x20u8] + sp_join(
            cs.map(|i: int, x: CapabilityV| cap_wire(x)),
        ),
        CodeV::Parse => kw_parse(),
        CodeV::PermanentFlags(fs) => kw_permanentflags() + seq![0x20u8, 0x28u8] + sp_join(
            fs.map(|i: int, x: FlagV| flag_wire(x)),
        ) + seq![0x29u8],
        CodeV::ReadOnly => kw_read_only(),
        CodeV::ReadWrite => kw_read_write(),
        CodeV::TryCreate => kw_trycreate(),
        CodeV::UidNext(n) => kw_uidnext() + seq![0x20u8] + spec_dec_str(n as int),
        CodeV::UidValidity(n) => kw_uidvalidity() + seq![0x20u8] + spec_dec_str(n as int),
        CodeV::Unseen(n) => kw_unseen() + seq![0x20u8] + spec_dec_str(n as int),
        CodeV::Other(a, p) => match p {
            Some(t) => a + seq![0x20u8] + t,
            None => a,
        },
        CodeV::Referral(u) => kw_referral() + seq![0x20u8] + u,
    }
}

impl Wire for Code {
    open spec fn wire(&self) -> Seq<u8> {
        code_wire(self.deep_view())
    }

    fn write_wire(&self, out: &mut Vec<u8>) {
        match self {
            Code::Alert => put_alert(out),
            Code::BadCharset(cs) => {
                put_badcharset(out);
                if cs.len() > 0 {
                    out.push(0x20);
                    out.push(0x28);
                    write_joined(cs, out);
                    out.push(0x29);
                }
                proof {
                    assert(cs.deep_view().map(|i: int, x: CharsetV| charset_wire(x)) =~= wires(
                        cs@,
                    ));
                }
            },
            Code::Capability(cs) => {
                put_capability(out);
                out.push(0x20);
                write_joined(cs, out);
                proof {
                    assert(cs.deep_view().map(|i: int, x: CapabilityV| cap_wire(x)) =~= wires(
                        cs@,
                    ));
                }
            },
            Code::Parse => put_parse(out),
            Code::PermanentFlags(fs) => {
                put_permanentflags(out);
                out.push(0x20);
                out.push(0x28);
                write_joined(fs, out);
                out.push(0x29);
                proof {
                    assert(fs.deep_view().map(|i: int, x: FlagV| flag_wire(x)) =~= wires(fs@));
                }
            },
            Code::ReadOnly => put_read_only(out),
            Code::ReadWrite => put_read_write(out),
            Code::TryCreate => put_trycreate(out),
            Code::UidNext(n) => {
                put_uidnext(out);
                out.push(0x20);
                push_dec_u32(out, *n);
            },
            Code::UidValidity(n) => {
                put_uidvalidity(out);
                out.push(0x20);
                push_dec_u32(out, *n);
            },
            Code::Unseen(n) => {
                put_unseen(out);
                out.push(0x20);
                push_dec_u32(out, *n);
            },
            Code::Other(a, p) => {
                push_all(out, a.as_slice());
                match p {
                    Some(t) => {
                        out.push(0x20);
                        push_all(out, t.as_slice());
                    },
                    None => {},
                }
            },
            Code::Referral(u) => {
                put_referral(out);
                out.push(0x20);
                push_all(out, u.as_slice());
            },
        }
        proof {
            assert(out@ =~= old(out)@ + self.wire());
        }
    }
}

impl Code {
    /// Encode this code to its canonical bytes (never fails).
    pub fn serialize(&self) -> (r: Vec<u8>)
        ensures
            r@ == code_wire(self.deep_view()),
    {
        let mut out: Vec<u8> = Vec::new();
        self.write_wire(&mut out);
        proof {
            assert(out@ =~= code_wire(self.deep_view()));
        }
        out
    }
}

/// Copy a borrowed byte string into an owned vector.
fn bytes_vec(s: &[u8]) -> (r: Vec<u8>)
    ensures
        r@ == s@,
{
    let v = copy_range(s, 0, s.len());
    proof {
        assert(v@ =~= s@);
    }
    v
}

/// The view of an optional borrowed byte string.
pub open spec fn opt_bytes_view(t: Option<&[u8]>) -> Option<Seq<u8>> {
    match t {
        Some(s) => Some(s@),
        None => None,
    }
}

/// A status response: `OK`, `NO` or `BAD` (tagged or untagged), `PREAUTH`
/// or `BYE` (always untagged), with an optional response code and
/// human-readable text.
#[derive(Debug, Clone, PartialEq, Eq)]
pub enum Status {
    Okay { tag: Option<Vec<u8>>, code: Option<Code>, text: Vec<u8> },
    No { tag: Option<Vec<u8>>, code: Option<Code>, text: Vec<u8> },
    Bad { tag: Option<Vec<u8>>, code: Option<Code>, text: Vec<u8> },
    PreAuth { code: Option<Code>, text: Vec<u8> },
    Bye { code: Option<Code>, text: Vec<u8> },
}

/// The mathematical view of a `Status`.
pub enum StatusV {
    Okay { tag: Option<Seq<u8>>, code: Option<CodeV>, text: Seq<u8> },
    No { tag: Option<Seq<u8>>, code: Option<CodeV>, text: Seq<u8> },
    Bad { tag: Option<Seq<u8>>, code: Option<CodeV>, text: Seq<u8> },
    PreAuth { code: Option<CodeV>, text: Seq<u8> },
    Bye { code: Option<CodeV>, text: Seq<u8> },
}

impl DeepView for Status {
    type V = StatusV;

    open spec fn deep_view(&self) -> StatusV {
        match self {
            Status::Okay { tag, code, text } => StatusV::Okay {
                tag: tag.deep_view(),
                code: code.deep_view(),
                text: text@,
            },
            Status::No { tag, code, text } => StatusV::No {
                tag: tag.deep_view(),
                code: code.deep_view(),
                text: text@,
            },
            Status::Bad { tag, code, text } => StatusV::Bad {
                tag: tag.deep_view(),
                code: code.deep_view(),
                text: text@,
            },
            Status::PreAuth { code, text } => StatusV::PreAuth {
                code: code.deep_view(),
                text: text@,
            },
            Status::Bye { code, text } => StatusV::Bye { code: code.deep_view(), text: text@ },
        }
    }
}

/// One status line: the tag (or `*` when absent), the verb, the optional
/// bracketed code, the text, CRLF.
pub open spec fn status_line(
    tag: Option<Seq<u8>>,
    verb: Seq<u8>,
    code: Option<CodeV>,
    text: Seq<u8>,
) -> Seq<u8> {
    (match tag {
        Some(t) => t,
        None => seq![0x2au8],
    }) + seq![0x20u8] + verb + seq![0x20u8] + (match code {
        Some(c) => seq![0x5bu8] + code_wire(c) + seq![0x5du8, 0x20u8],
        None => Seq::empty(),
    }) + text + seq![0x0du8, 0x0au8]
}

/// The wire rendering of a status response.
pub open spec fn status_wire(s: StatusV) -> Seq<u8> {
    match s {
        StatusV::Okay { tag, code, text } => status_line(tag, kw_ok(), code, text),
        StatusV::No { tag, code, text } => status_line(tag, kw_no(), code, text),
        StatusV::Bad { tag, code, text } => status_line(tag, kw_bad(), code, text),
        StatusV::PreAuth { code, text } => status_line(None, kw_preauth(), code, text),
        StatusV::Bye { code, text } => status_line(None, kw_bye(), code, text),
    }
}

/// Append one status line to `out`.
fn write_status_line(
    out: &mut Vec<u8>,
    tag: &Option<Vec<u8>>,
    verb: &[u8],
    code: &Option<Code>,
    text: &Vec<u8>,
)
    ensures
        final(out)@ == old(out)@ + status_line(tag.deep_view(), verb@, code.deep_view(), text@),
{
    match tag {
        Some(t) => push_all(out, t.as_slice()),
        None => out.push(0x2a),
    }
    out.push(0x20);
    push_all(out, verb);
    out.push(0x20);
    match code {
        Some(c) => {
            out.push(0x5b);
            c.write_wire(out);
            out.push(0x5d);
            out.push(0x20);
        },
        None => {},
    }
    push_all(out, text.as_slice());
    out.push(0x0d);
    out.push(0x0a);
    proof {
        assert(out@ =~= old(out)@ + status_line(
            tag.deep_view(),
            verb@,
            code.deep_view(),
            text@,
        ));
    }
}

impl Status {
    /// The untagged `OK` greeting sent at connection startup.
    pub fn greeting(code: Option<Code>, text: &[u8]) -> (r: Status)
        ensures
            r.deep_view() == (StatusV::Okay { tag: None, code: code.deep_view(), text: text@ }),
    {
        Status::Okay { tag: None, code, text: bytes_vec(text) }
    }

    /// An `OK` status response.
    pub fn ok(tag: Option<&[u8]>, code: Option<Code>, text: &[u8]) -> (r: Status)
        ensures
            r.deep_view() == (StatusV::Okay {
                tag: opt_bytes_view(tag),
                code: code.deep_view(),
                text: text@,
            }),
    {
        let t = match tag {
            Some(t) => Some(bytes_vec(t)),
            None => None,
        };
        Status::Okay { tag: t, code, text: bytes_vec(text) }
    }

    /// A `NO` status response.
    pub fn no(tag: Option<&[u8]>, code: Option<Code>, text: &[u8]) -> (r: Status)
        ensures
            r.deep_view() == (StatusV::No {
                tag: opt_bytes_view(tag),
                code: code.deep_view(),
                text: text@,
            }),
    {
        let t = match tag {
            Some(t) => Some(bytes_vec(t)),
            None => None,
        };
        Status::No { tag: t, code, text: bytes_vec(text) }
    }

    /// A `BAD` status response.
    pub fn bad(tag: Option<&[u8]>, code: Option<Code>, text: &[u8]) -> (r: Status)
        ensures
            r.deep_view() == (StatusV::Bad {
                tag: opt_bytes_view(tag),
                code: code.deep_view(),
                text: text@,
            }),
    {
        let t = match tag {
            Some(t) => Some(bytes_vec(t)),
            None => None,
        };
        Status::Bad { tag: t, code, text: bytes_vec(text) }
    }

    /// A `PREAUTH` status response; never tagged.
    pub fn preauth(code: Option<Code>, text: &[u8]) -> (r: Status)
        ensures
            r.deep_view() == (StatusV::PreAuth { code: code.deep_view(), text: text@ }),
    {
        Status::PreAuth { code, text: bytes_vec(text) }
    }

    /// A `BYE` status response; never tagged.
    pub fn bye(code: Option<Code>, text: &[u8]) -> (r: Status)
        ensures
            r.deep_view() == (StatusV::Bye { code: code.deep_view(), text: text@ }),
    {
        Status::Bye { code, text: bytes_vec(text) }
    }

    /// Encode this status response to its exact wire line (never fails).
    pub fn serialize(&self) -> (r: Vec<u8>)
        ensures
            r@ == status_wire(self.deep_view()),
    {
        let mut out: Vec<u8> = Vec::new();
        match self {
            Status::Okay { tag, code, text } => {
                let verb: [u8; 2] = [0x4f, 0x4b];
                proof {
                    assert(verb@ =~= kw_ok());
                }
                write_status_line(&mut out, tag, verb.as_slice(), code, text);
            },
            Status::No { tag, code, text } => {
                let verb: [u8; 2] = [0x4e, 0x4f];
                proof {
                    assert(verb@ =~= kw_no());
                }
                write_status_line(&mut out, tag, verb.as_slice(), code, text);
            },
            Status::Bad { tag, code, text } => {
                let verb: [u8; 3] = [0x42, 0x41, 0x44];
                proof {
                    assert(verb@ =~= kw_bad());
                }
                write_status_line(&mut out, tag, verb.as_slice(), code, text);
            },
            Status::PreAuth { code, text } => {
                let verb: [u8; 7] = [0x50, 0x52, 0x45, 0x41, 0x55, 0x54, 0x48];
                proof {
                    assert(verb@ =~= kw_preauth());
                }
                let no_tag: Option<Vec<u8>> = None;
                write_status_line(&mut out, &no_tag, verb.as_slice(), code, text);
            },
            Status::Bye { code, text } => {
                let verb: [u8; 3] = [0x42, 0x59, 0x45];
                proof {
                    assert(verb@ =~= kw_bye());
                }
                let no_tag: Option<Vec<u8>> = None;
                write_status_line(&mut out, &no_tag, verb.as_slice(), code, text);
            },
        }
        proof {
            assert(out@ =~= status_wire(self.deep_view()));
        }
        out
    }
}

/// A command-continuation request: `+ `, an optional code, text or a
/// base64 payload, CRLF.
#[derive(Debug, Clone, PartialEq, Eq)]
pub enum Continuation {
    Basic { code: Option<Code>, text: Vec<u8> },
    Base64(Vec<u8>),
}

/// The mathematical view of a `Continuation`.
pub enum ContinuationV {
    Basic { code: Option<CodeV>, text: Seq<u8> },
    Base64(Seq<u8>),
}

impl DeepView for Continuation {
    type V = ContinuationV;

    open spec fn deep_view(&self) -> ContinuationV {
        match self {
            Continuation::Basic { code, text } => ContinuationV::Basic {
                code: code.deep_view(),
                text: text@,
            },
            Continuation::Base64(d) => ContinuationV::Base64(d@),
        }
    }
}

/// The wire rendering of a continuation request.
pub open spec fn continuation_wire(c: ContinuationV) -> Seq<u8> {
    match c {
        ContinuationV::Basic { code, text } => seq![0x2bu8, 0x20u8] + (match code {
            Some(c) => seq![0x5bu8] + code_wire(c) + seq![0x5du8, 0x20u8],
            None => Seq::empty(),
        }) + text + seq![0x0du8, 0x0au8],
        ContinuationV::Base64(d) => seq![0x2bu8, 0x20u8] + d + seq![0x0du8, 0x0au8],
    }
}

impl Continuation {
    /// A basic continuation request.  Its text must not be empty on the
    /// wire, so empty text is normalized to a single `.` placeholder.
    pub fn basic(code: Option<Code>, text: &[u8]) -> (r: Continuation)
        ensures
            r.deep_view() == (ContinuationV::Basic {
                code: code.deep_view(),
                text: if text@.len() == 0 {
                    seq![0x2eu8]
                } else {
                    text@
                },
            }),
    {
        let t = if text.len() == 0 {
            let mut v: Vec<u8> = Vec::new();
            v.push(0x2e);
            proof {
                assert(v@ =~= seq![0x2eu8]);
            }
            v
        } else {
            bytes_vec(text)
        };
        Continuation::Basic { code, text: t }
    }

    /// A base64 continuation request carrying raw payload bytes.
    pub fn base64(data: &[u8]) -> (r: Continuation)
        ensures
            r.deep_view() == ContinuationV::Base64(data@),
    {
        Continuation::Base64(bytes_vec(data))
    }

    /// Encode this continuation request to its exact wire line (never
    /// fails).
    pub fn serialize(&self) -> (r: Vec<u8>)
        ensures
            r@ == continuation_wire(self.deep_view()),
    {
        let mut out: Vec<u8> = Vec::new();
        out.push(0x2b);
        out.push(0x20);
        match self {
            Continuation::Basic { code, text } => {
                match code {
                    Some(c) => {
                        out.push(0x5b);
                        c.write_wire(&mut out);
                        out.push(0x5d);
                        out.push(0x20);
                    },
                    None => {},
                }
                push_all(&mut out, text.as_slice());
            },
            Continuation::Base64(d) => {
                push_all(&mut out, d.as_slice());
            },
        }
        out.push(0x0d);
        out.push(0x0a);
        proof {
            assert(out@ =~= continuation_wire(self.deep_view()));
        }
        out
    }
}

/// The wire rendering of an `nstring`: `NIL` when absent, else the quoted
/// or literal form.
pub open spec fn nstring_wire(ns: Option<IStringV>) -> Seq<u8> {
    match ns {
        None => nil_kw(),
        Some(IStringV::Quoted(q)) => spec_quoted_wire(q),
        Some(IStringV::Literal(l)) => spec_literal_wire(l),
    }
}

/// Append an `nstring` to `out`.
fn write_nstring(out: &mut Vec<u8>, ns: &NString)
    ensures
        final(out)@ == old(out)@ + nstring_wire(ns.deep_view()),
{
    match &ns.0 {
        None => {
            let kw: [u8; 3] = [0x4e, 0x49, 0x4c];
            proof {
                assert(kw@ =~= nil_kw());
            }
            push_all(out, kw.as_slice());
        },
        Some(IString::Quoted(q)) => {
            let w = encode_quoted(q.as_slice());
            push_all(out, w.as_slice());
        },
        Some(IString::Literal(l)) => {
            out.push(0x7b);
            push_dec_u64(out, l.len() as u64);
            out.push(0x7d);
            out.push(0x0d);
            out.push(0x0a);
            push_all(out, l.as_slice());
            proof {
                assert(out@ =~= old(out)@ + spec_literal_wire(l@));
            }
        },
    }
    proof {
        assert(out@ =~= old(out)@ + nstring_wire(ns.deep_view()));
    }
}

/// A fetched data item of a `FETCH` response.
#[derive(Debug, Clone, PartialEq, Eq)]
pub enum DataItemResponse {
    Body(BodyStructure),
    BodyExt { section: Option<Section>, origin: Option<u32>, data: NString },
    BodyStructure(BodyStructure),
    Envelope(Envelope),
    Flags(Vec<Flag>),
    InternalDate(DateTime),
    Rfc822(NString),
    Rfc822Header(NString),
    Rfc822Size(u32),
    Rfc822Text(NString),
    Uid(u32),
}

/// The mathematical view of a `DataItemResponse`.
pub enum DataItemResponseV {
    Body(BodyStructure),
    BodyExt { section: Option<crate::section::SectionV>, origin: Option<u32>, data: Option<IStringV> },
    BodyStructure(BodyStructure),
    Envelope(Envelope),
    Flags(Seq<FlagV>),
    InternalDate(DateTime),
    Rfc822(Option<IStringV>),
    Rfc822Header(Option<IStringV>),
    Rfc822Size(u32),
    Rfc822Text(Option<IStringV>),
    Uid(u32),
}

impl DeepView for DataItemResponse {
    type V = DataItemResponseV;

    open spec fn deep_view(&self) -> DataItemResponseV {
        match self {
            DataItemResponse::Body(b) => DataItemResponseV::Body(*b),
            DataItemResponse::BodyExt { section, origin, data } => DataItemResponseV::BodyExt {
                section: section.deep_view(),
                origin: origin.deep_view(),
                data: data.deep_view(),
            },
            DataItemResponse::BodyStructure(b) => DataItemResponseV::BodyStructure(*b),
            DataItemResponse::Envelope(e) => DataItemResponseV::Envelope(*e),
            DataItemResponse::Flags(fs) => DataItemResponseV::Flags(fs.deep_view()),
            DataItemResponse::InternalDate(d) => DataItemResponseV::InternalDate(*d),
            DataItemResponse::Rfc822(ns) => DataItemResponseV::Rfc822(ns.deep_view()),
            DataItemResponse::Rfc822Header(ns) => DataItemResponseV::Rfc822Header(ns.deep_view()),
            DataItemResponse::Rfc822Size(n) => DataItemResponseV::Rfc822Size(*n),
            DataItemResponse::Rfc822Text(ns) => DataItemResponseV::Rfc822Text(ns.deep_view()),
            DataItemResponse::Uid(n) => DataItemResponseV::Uid(*n),
        }
    }
}

/// Which fetch items this codec can encode.  The body-structure, envelope,
/// internal-date and body-extraction items use a sub-grammar it does not
/// yet render.
pub open spec fn item_supported(i: DataItemResponseV) -> bool {
    match i {
        DataItemResponseV::Body(_) => false,
        DataItemResponseV::BodyExt { .. } => false,
        DataItemResponseV::BodyStructure(_) => false,
        DataItemResponseV::Envelope(_) => false,
        DataItemResponseV::InternalDate(_) => false,
        _ => true,
    }
}

/// The wire rendering of a supported fetch item.  (For the unsupported
/// items the rendering is the empty sequence; no encoder exposes it.)
pub open spec fn item_wire(i: DataItemResponseV) -> Seq<u8> {
    match i {
        DataItemResponseV::Flags(fs) => seq![0x28u8] + sp_join(
            fs.map(|q: int, x: FlagV| flag_wire(x)),
        ) + seq![0x29u8],
        DataItemResponseV::Rfc822(ns) => kw_rfc822() + seq![0x20u8] + nstring_wire(ns),
        DataItemResponseV::Rfc822Header(ns) => kw_rfc822_header() + seq![0x20u8] + nstring_wire(
            ns,
        ),
        DataItemResponseV::Rfc822Size(n) => kw_rfc822_size() + seq![0x20u8] + spec_dec_str(
            n as int,
        ),
        DataItemResponseV::Rfc822Text(ns) => kw_rfc822_text() + seq![0x20u8] + nstring_wire(ns),
        DataItemResponseV::Uid(n) => kw_uid() + seq![0x20u8] + spec_dec_str(n as int),
        _ => Seq::empty(),
    }
}

impl DataItemResponse {
    /// Encode this fetch item, or report that its sub-grammar is not
    /// supported.
    pub fn serialize(&self) -> (r: Result<Vec<u8>, EncodeError>)
        ensures
            match r {
                Ok(v) => item_supported(self.deep_view()) && v@ == item_wire(self.deep_view()),
                Err(e) => !item_supported(self.deep_view()) && e == EncodeError::Unsupported,
            },
    {
        match self {
            DataItemResponse::Body(_) => Err(EncodeError::Unsupported),
            DataItemResponse::BodyExt { section: _, origin: _, data: _ } => Err(
                EncodeError::Unsupported,
            ),
            DataItemResponse::BodyStructure(_) => Err(EncodeError::Unsupported),
            DataItemResponse::Envelope(_) => Err(EncodeError::Unsupported),
            DataItemResponse::InternalDate(_) => Err(EncodeError::Unsupported),
            DataItemResponse::Flags(fs) => {
                let mut out: Vec<u8> = Vec::new();
                out.push(0x28);
                write_joined(fs, &mut out);
                out.push(0x29);
                proof {
                    assert(fs.deep_view().map(|q: int, x: FlagV| flag_wire(x)) =~= wires(fs@));
                    assert(out@ =~= item_wire(self.deep_view()));
                }
                Ok(out)
            },
            DataItemResponse::Rfc822(ns) => {
                let mut out: Vec<u8> = Vec::new();
                put_rfc822(&mut out);
                out.push(0x20);
                write_nstring(&mut out, ns);
                proof {
                    assert(out@ =~= item_wire(self.deep_view()));
                }
                Ok(out)
            },
            DataItemResponse::Rfc822Header(ns) => {
                let mut out: Vec<u8> = Vec::new();
                put_rfc822_header(&mut out);
                out.push(0x20);
                write_nstring(&mut out, ns);
                proof {
                    assert(out@ =~= item_wire(self.deep_view()));
                }
                Ok(out)
            },
            DataItemResponse::Rfc822Size(n) => {
                let mut out: Vec<u8> = Vec::new();
                put_rfc822_size(&mut out);
                out.push(0x20);
                push_dec_u32(&mut out, *n);
                proof {
                    assert(out@ =~= item_wire(self.deep_view()));
                }
                Ok(out)
            },
            DataItemResponse::Rfc822Text(ns) => {
                let mut out: Vec<u8> = Vec::new();
                put_rfc822_text(&mut out);
                out.push(0x20);
                write_nstring(&mut out, ns);
                proof {
                    assert(out@ =~= item_wire(self.deep_view()));
                }
                Ok(out)
            },
            DataItemResponse::Uid(n) => {
                let mut out: Vec<u8> = Vec::new();
                put_uid(&mut out);
                out.push(0x20);
                push_dec_u32(&mut out, *n);
                proof {
                    assert(out@ =~= item_wire(self.deep_view()));
                }
                Ok(out)
            },
        }
    }
}

/// Untagged server data: server and mailbox status, mailbox size, and
/// per-message status.
#[derive(Debug, Clone, PartialEq, Eq)]
pub enum Data {
    Capability(Vec<Capability>),
    List { items: Vec<FlagNameAttribute>, delimiter: Option<u8>, mailbox: Mailbox },
    Lsub { items: Vec<FlagNameAttribute>, delimiter: Vec<u8>, name: Vec<u8> },
    Status { name: Mailbox, items: Vec<StatusItemResponse> },
    Search(Vec<u32>),
    Flags(Vec<Flag>),
    Exists(u32),
    Recent(u32),
    Expunge(u32),
    Fetch { msg: u32, items: Vec<DataItemResponse> },
}

/// The mathematical view of a `Data`.
pub enum DataV {
    Capability(Seq<CapabilityV>),
    List { items: Seq<FlagNameAttributeV>, delimiter: Option<u8>, mailbox: MailboxV },
    Lsub { items: Seq<FlagNameAttributeV>, delimiter: Seq<u8>, name: Seq<u8> },
    Status { name: MailboxV, items: Seq<StatusItemResponse> },
    Search(Seq<u32>),
    Flags(Seq<FlagV>),
    Exists(u32),
    Recent(u32),
    Expunge(u32),
    Fetch { msg: u32, items: Seq<DataItemResponseV> },
}

impl DeepView for Data {
    type V = DataV;

    open spec fn deep_view(&self) -> DataV {
        match self {
            Data::Capability(cs) => DataV::Capability(cs.deep_view()),
            Data::List { items, delimiter, mailbox } => DataV::List {
                items: items.deep_view(),
                delimiter: *delimiter,
                mailbox: mailbox.deep_view(),
            },
            Data::Lsub { items, delimiter, name } => DataV::Lsub {
                items: items.deep_view(),
                delimiter: delimiter@,
                name: name@,
            },
            Data::Status { name, items } => DataV::Status {
                name: name.deep_view(),
                items: items.deep_view(),
            },
            Data::Search(ns) => DataV::Search(ns.deep_view()),
            Data::Flags(fs) => DataV::Flags(fs.deep_view()),
            Data::Exists(n) => DataV::Exists(*n),
            Data::Recent(n) => DataV::Recent(*n),
            Data::Expunge(n) => DataV::Expunge(*n),
            Data::Fetch { msg, items } => DataV::Fetch {
                msg: *msg,
                items: items.deep_view(),
            },
        }
    }
}

/// Whether every item of a fetch list is one this codec can encode.
pub open spec fn fetch_items_supported(items: Seq<DataItemResponseV>) -> bool {
    forall|i: int| 0 <= i < items.len() ==> item_supported(#[trigger] items[i])
}

/// Which data responses this codec can encode: all of them, except a
/// `FETCH` that contains an unsupported item.
pub open spec fn data_supported(d: DataV) -> bool {
    match d {
        DataV::Fetch { msg, items } => fetch_items_supported(items),
        _ => true,
    }
}

/// The wire rendering of a data response.  A `SEARCH` with no numbers is
/// exactly `* SEARCH` CRLF, with no trailing space.
pub open spec fn data_wire(d: DataV) -> Seq<u8> {
    match d {
        DataV::Capability(cs) => seq![0x2au8, 0x20u8] + kw_capability() + seq![0x20u8] + sp_join(
            cs.map(|i: int, x: CapabilityV| cap_wire(x)),
        ) + seq![0x0du8, 0x0au8],
        DataV::List { items, delimiter, mailbox } => seq![0x2au8, 0x20u8] + kw_list() + seq![
            0x20u8,
            0x28u8,
        ] + sp_join(items.map(|i: int, x: FlagNameAttributeV| fna_wire(x))) + seq![0x29u8, 0x20u8]
            + (match delimiter {
            Some(dl) => seq![0x22u8, dl, 0x22u8],
            None => kw_nil_lower(),
        }) + seq![0x20u8] + mailbox_wire(mailbox) + seq![0x0du8, 0x0au8],
        DataV::Lsub { items, delimiter, name } => seq![0x2au8, 0x20u8] + kw_lsub() + seq![
            0x20u8,
            0x28u8,
        ] + sp_join(items.map(|i: int, x: FlagNameAttributeV| fna_wire(x))) + seq![
            0x29u8,
            0x20u8,
            0x22u8,
        ] + delimiter + seq![0x22u8, 0x20u8] + name + seq![0x0du8, 0x0au8],
        DataV::Status { name, items } => seq![0x2au8, 0x20u8] + kw_status() + seq![0x20u8]
            + mailbox_wire(name) + seq![0x20u8, 0x28u8] + sp_join(
            items.map(|i: int, x: StatusItemResponse| status_item_wire(x)),
        ) + seq![0x29u8, 0x0du8, 0x0au8],
        DataV::Search(ns) => {
            if ns.len() == 0 {
                seq![0x2au8, 0x20u8] + kw_search() + seq![0x0du8, 0x0au8]
            } else {
                seq![0x2au8, 0x20u8] + kw_search() + seq![0x20u8] + sp_join(
                    ns.map(|i: int, x: u32| spec_dec_str(x as int)),
                ) + seq![0x0du8, 0x0au8]
            }
        },
        DataV::Flags(fs) => seq![0x2au8, 0x20u8] + kw_flags() + seq![0x20u8, 0x28u8] + sp_join(
            fs.map(|i: int, x: FlagV| flag_wire(x)),
        ) + seq![0x29u8, 0x0du8, 0x0au8],
        DataV::Exists(n) => seq![0x2au8, 0x20u8] + spec_dec_str(n as int) + seq![0x20u8]
            + kw_exists() + seq![0x0du8, 0x0au8],
        DataV::Recent(n) => seq![0x2au8, 0x20u8] + spec_dec_str(n as int) + seq![0x20u8]
            + kw_recent() + seq![0x0du8, 0x0au8],
        DataV::Expunge(n) => seq![0x2au8, 0x20u8] + spec_dec_str(n as int) + seq![0x20u8]
            + kw_expunge() + seq![0x0du8, 0x0au8],
        DataV::Fetch { msg, items } => seq![0x2au8, 0x20u8] + spec_dec_str(msg as int) + seq![
            0x20u8,
        ] + kw_fetch() + seq![0x20u8, 0x28u8] + sp_join(
            items.map(|i: int, x: DataItemResponseV| item_wire(x)),
        ) + seq![0x29u8, 0x0du8, 0x0au8],
    }
}

/// A fetch list with one unsupported item is itself unsupported.
proof fn lemma_unsupported_item(items: Seq<DataItemResponseV>, i: int)
    requires
        0 <= i < items.len(),
        !item_supported(items[i]),
    ensures
        !fetch_items_supported(items),
{
}

impl Data {
    /// Encode this data response to its exact wire line, or report that it
    /// holds an unsupported fetch item.
    pub fn serialize(&self) -> (r: Result<Vec<u8>, EncodeError>)
        ensures
            match r {
                Ok(v) => data_supported(self.deep_view()) && v@ == data_wire(self.deep_view()),
                Err(e) => !data_supported(self.deep_view()) && e == EncodeError::Unsupported,
            },
    {
        let mut out: Vec<u8> = Vec::new();
        out.push(0x2a);
        out.push(0x20);
        match self {
            Data::Capability(cs) => {
                put_capability(&mut out);
                out.push(0x20);
                write_joined(cs, &mut out);
                out.push(0x0d);
                out.push(0x0a);
                proof {
                    assert(cs.deep_view().map(|i: int, x: CapabilityV| cap_wire(x)) =~= wires(
                        cs@,
                    ));
                    assert(out@ =~= data_wire(self.deep_view()));
                }
            },
            Data::List { items, delimiter, mailbox } => {
                put_list(&mut out);
                out.push(0x20);
                out.push(0x28);
                write_joined(items, &mut out);
                out.push(0x29);
                out.push(0x20);
                match delimiter {
                    Some(dl) => {
                        out.push(0x22);
                        out.push(*dl);
                        out.push(0x22);
                    },
                    None => put_nil_lower(&mut out),
                }
                out.push(0x20);
                mailbox.write_wire(&mut out);
                out.push(0x0d);
                out.push(0x0a);
                proof {
                    assert(items.deep_view().map(|i: int, x: FlagNameAttributeV| fna_wire(x))
                        =~= wires(items@));
                    assert(out@ =~= data_wire(self.deep_view()));
                }
            },
            Data::Lsub { items, delimiter, name } => {
                put_lsub(&mut out);
                out.push(0x20);
                out.push(0x28);
                write_joined(items, &mut out);
                out.push(0x29);
                out.push(0x20);
                out.push(0x22);
                push_all(&mut out, delimiter.as_slice());
                out.push(0x22);
                out.push(0x20);
                push_all(&mut out, name.as_slice());
                out.push(0x0d);
                out.push(0x0a);
                proof {
                    assert(items.deep_view().map(|i: int, x: FlagNameAttributeV| fna_wire(x))
                        =~= wires(items@));
                    assert(out@ =~= data_wire(self.deep_view()));
                }
            },
            Data::Status { name, items } => {
                put_status(&mut out);
                out.push(0x20);
                name.write_wire(&mut out);
                out.push(0x20);
                out.push(0x28);
                write_joined(items, &mut out);
                out.push(0x29);
                out.push(0x0d);
                out.push(0x0a);
                proof {
                    assert(items.deep_view().map(|i: int, x: StatusItemResponse| status_item_wire(
                        x,
                    )) =~= wires(items@));
                    assert(out@ =~= data_wire(self.deep_view()));
                }
            },
            Data::Search(ns) => {
                put_search(&mut out);
                if ns.len() > 0 {
                    out.push(0x20);
                    write_joined(ns, &mut out);
                }
                out.push(0x0d);
                out.push(0x0a);
                proof {
                    assert(ns.deep_view().map(|i: int, x: u32| spec_dec_str(x as int)) =~= wires(
                        ns@,
                    ));
                    assert(out@ =~= data_wire(self.deep_view()));
                }
            },
            Data::Flags(fs) => {
                put_flags(&mut out);
                out.push(0x20);
                out.push(0x28);
                write_joined(fs, &mut out);
                out.push(0x29);
                out.push(0x0d);
                out.push(0x0a);
                proof {
                    assert(fs.deep_view().map(|i: int, x: FlagV| flag_wire(x)) =~= wires(fs@));
                    assert(out@ =~= data_wire(self.deep_view()));
                }
            },
            Data::Exists(n) => {
                push_dec_u32(&mut out, *n);
                out.push(0x20);
                put_exists(&mut out);
                out.push(0x0d);
                out.push(0x0a);
                proof {
                    assert(out@ =~= data_wire(self.deep_view()));
                }
            },
            Data::Recent(n) => {
                push_dec_u32(&mut out, *n);
                out.push(0x20);
                put_recent(&mut out);
                out.push(0x0d);
                out.push(0x0a);
                proof {
                    assert(out@ =~= data_wire(self.deep_view()));
                }
            },
            Data::Expunge(n) => {
                push_dec_u32(&mut out, *n);
                out.push(0x20);
                put_expunge(&mut out);
                out.push(0x0d);
                out.push(0x0a);
                proof {
                    assert(out@ =~= data_wire(self.deep_view()));
                }
            },
            Data::Fetch { msg, items } => {
                push_dec_u32(&mut out, *msg);
                out.push(0x20);
                put_fetch(&mut out);
                out.push(0x20);
                out.push(0x28);
                let ghost pfx = out@;
                let ghost itemsv = items.deep_view();
                let ghost f = |q: int, x: DataItemResponseV| item_wire(x);
                let mut i: usize = 0;
                proof {
                    assert(itemsv.take(0).map(f) =~= Seq::<Seq<u8>>::empty());
                }
                while i < items.len()
                    invariant
                        0 <= i <= items.len(),
                        itemsv == items.deep_view(),
                        self.deep_view() == (DataV::Fetch { msg: *msg, items: itemsv }),
                        f == (|q: int, x: DataItemResponseV| item_wire(x)),
                        forall|q: int| 0 <= q < i ==> item_supported(#[trigger] itemsv[q]),
                        out@ == pfx + sp_join(itemsv.take(i as int).map(f)),
                    decreases items.len() - i,
                {
                    match items[i].serialize() {
                        Ok(v) => {
                            if i > 0 {
                                out.push(0x20);
                            }
                            push_all(&mut out, v.as_slice());
                            proof {
                                let pre = itemsv.take(i as int).map(f);
                                assert(itemsv[i as int] == items@[i as int].deep_view());
                                assert(itemsv.take(i + 1).map(f) =~= pre.push(
                                    item_wire(itemsv[i as int]),
                                ));
                                crate::wire::lemma_sp_join_push(
                                    pre,
                                    item_wire(itemsv[i as int]),
                                );
                                assert(out@ =~= pfx + sp_join(itemsv.take(i + 1).map(f)));
                            }
                        },
                        Err(_) => {
                            proof {
                                let dv = self.deep_view();
                                assert(dv == (DataV::Fetch { msg: *msg, items: itemsv }));
                                assert(itemsv[i as int] == items@[i as int].deep_view());
                                assert(!item_supported(itemsv[i as int]));
                                lemma_unsupported_item(itemsv, i as int);
                                assert(!data_supported(dv));
                            }
                            return Err(EncodeError::Unsupported);
                        },
                    }
                    i += 1;
                }
                out.push(0x29);
                out.push(0x0d);
                out.push(0x0a);
                proof {
                    assert(itemsv.take(items@.len() as int) =~= itemsv);
                    assert(out@ =~= data_wire(self.deep_view()));
                }
            },
        }
        Ok(out)
    }
}

/// A server response: a status response, untagged data, or a continuation
/// request.
#[derive(Debug, Clone, PartialEq, Eq)]
pub enum Response {
    Status(Status),
    Data(Data),
    Continuation(Continuation),
}

/// The mathematical view of a `Response`.
pub enum ResponseV {
    Status(StatusV),
    Data(DataV),
    Continuation(ContinuationV),
}

impl DeepView for Response {
    type V = ResponseV;

    open spec fn deep_view(&self) -> ResponseV {
        match self {
            Response::Status(s) => ResponseV::Status(s.deep_view()),
            Response::Data(d) => ResponseV::Data(d.deep_view()),
            Response::Continuation(c) => ResponseV::Continuation(c.deep_view()),
        }
    }
}

/// Which responses this codec can encode.
pub open spec fn response_supported(r: ResponseV) -> bool {
    match r {
        ResponseV::Data(d) => data_supported(d),
        _ => true,
    }
}

/// The wire rendering of a response.
pub open spec fn response_wire(r: ResponseV) -> Seq<u8> {
    match r {
        ResponseV::Status(s) => status_wire(s),
        ResponseV::Data(d) => data_wire(d),
        ResponseV::Continuation(c) => continuation_wire(c),
    }
}

impl Response {
    /// Encode this response to its exact wire bytes, or report that it
    /// holds an unsupported fetch item.
    pub fn serialize(&self) -> (r: Result<Vec<u8>, EncodeError>)
        ensures
            match r {
                Ok(v) => response_supported(self.deep_view()) && v@ == response_wire(
                    self.deep_view(),
                ),
                Err(e) => !response_supported(self.deep_view()) && e == EncodeError::Unsupported,
            },
    {
        match self {
            Response::Status(s) => Ok(s.serialize()),
            Response::Data(d) => d.serialize(),
            Response::Continuation(c) => Ok(c.serialize()),
        }
    }
}

} // verus!
