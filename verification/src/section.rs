//! The section / part-specifier grammar: the recursive addressing syntax
//! for a sub-part of a multipart message.
//!
//! `section = "[" [section-spec] "]"` with
//! `section-spec = section-msgtext / (section-part ["." section-text])`,
//! `section-part = nz-number *("." nz-number)` and
//! `section-text = section-msgtext / "MIME"`.
//!
//! `HEADER.FIELDS.NOT` is tried before `HEADER.FIELDS`, which is tried
//! before `HEADER`: longest match first.  This order is load-bearing; with
//! the shorter keyword first, the input would be cut at a prefix and the
//! rest could never parse.

use vstd::prelude::*;

use crate::atoms::{spec_tagci, tagci};
use crate::number::{lemma_nz_number_done_bounds, nz_number, spec_nz_number};
use crate::outcome::{outcome_matches, ParseError, ParseResult, SpecOutcome};
use crate::strings::{astring, lemma_astring_done_bounds, spec_astring, AString, AStringV};
use vstd::slice::slice_subrange;

verus! {

broadcast use lemma_astring_done_bounds, lemma_nz_number_done_bounds;

/// A section specifier: which slice of a message a fetch item addresses.
/// The numeric path (`1.2.3`) names nested multipart indices; `Mime` always
/// carries one, the others may stand at top level.
#[derive(Debug, Clone, PartialEq, Eq)]
pub enum Section {
    Part(Vec<u32>),
    Header(Option<Vec<u32>>),
    HeaderFields(Option<Vec<u32>>, Vec<AString>),
    HeaderFieldsNot(Option<Vec<u32>>, Vec<AString>),
    Text(Option<Vec<u32>>),
    Mime(Vec<u32>),
}

/// The mathematical view of a `Section`.
pub enum SectionV {
    Part(Seq<u32>),
    Header(Option<Seq<u32>>),
    HeaderFields(Option<Seq<u32>>, Seq<AStringV>),
    HeaderFieldsNot(Option<Seq<u32>>, Seq<AStringV>),
    Text(Option<Seq<u32>>),
    Mime(Seq<u32>),
}

impl DeepView for Section {
    type V = SectionV;

    open spec fn deep_view(&self) -> SectionV {
        match self {
            Section::Part(p) => SectionV::Part(p.deep_view()),
            Section::Header(p) => SectionV::Header(p.deep_view()),
            Section::HeaderFields(p, l) => SectionV::HeaderFields(p.deep_view(), l.deep_view()),
            Section::HeaderFieldsNot(p, l) => SectionV::HeaderFieldsNot(
                p.deep_view(),
                l.deep_view(),
            ),
            Section::Text(p) => SectionV::Text(p.deep_view()),
            Section::Mime(p) => SectionV::Mime(p.deep_view()),
        }
    }
}

/// A part specifier as `section-msgtext` / `section-text` yield it, before
/// an optional numeric path is attached.  `Mime` is produced only by
/// `section-text`, never by `section-msgtext`.
#[derive(Debug, Clone, PartialEq, Eq)]
pub enum PartSpecifier {
    Header,
    HeaderFields(Vec<AString>),
    HeaderFieldsNot(Vec<AString>),
    Text,
    Mime,
}

/// The mathematical view of a `PartSpecifier`.
pub enum PartSpecifierV {
    Header,
    HeaderFields(Seq<AStringV>),
    HeaderFieldsNot(Seq<AStringV>),
    Text,
    Mime,
}

impl DeepView for PartSpecifier {
    type V = PartSpecifierV;

    open spec fn deep_view(&self) -> PartSpecifierV {
        match self {
            PartSpecifier::Header => PartSpecifierV::Header,
            PartSpecifier::HeaderFields(l) => PartSpecifierV::HeaderFields(l.deep_view()),
            PartSpecifier::HeaderFieldsNot(l) => PartSpecifierV::HeaderFieldsNot(l.deep_view()),
            PartSpecifier::Text => PartSpecifierV::Text,
            PartSpecifier::Mime => PartSpecifierV::Mime,
        }
    }
}

/// The bytes of `HEADER.FIELDS.NOT`.
pub open spec fn hfn_kw() -> Seq<u8> {
    seq![
        0x48u8,
        0x45,
        0x41,
        0x44,
        0x45,
        0x52,
        0x2e,
        0x46,
        0x49,
        0x45,
        0x4c,
        0x44,
        0x53,
        0x2e,
        0x4e,
        0x4f,
        0x54,
    ]
}

/// The bytes of `HEADER.FIELDS`.
pub open spec fn hf_kw() -> Seq<u8> {
    seq![0x48u8, 0x45, 0x41, 0x44, 0x45, 0x52, 0x2e, 0x46, 0x49, 0x45, 0x4c, 0x44, 0x53]
}

/// The bytes of `HEADER`.
pub open spec fn header_kw() -> Seq<u8> {
    seq![0x48u8, 0x45, 0x41, 0x44, 0x45, 0x52]
}

/// The bytes of `TEXT`.
pub open spec fn text_kw() -> Seq<u8> {
    seq![0x54u8, 0x45, 0x58, 0x54]
}

/// The bytes of `MIME`.
pub open spec fn mime_kw() -> Seq<u8> {
    seq![0x4du8, 0x49, 0x4d, 0x45]
}

/// `*( SP astring )`: the continuation of a `header-list` after its first
/// field name.  A separator followed by something that is not a field name
/// ends the list without consuming the separator.
pub open spec fn spec_hl_rest(s: Seq<u8>) -> SpecOutcome<Seq<AStringV>>
    decreases s.len(),
    via spec_hl_rest_dec
{
    if s.len() == 0 {
        SpecOutcome::Fail { e: ParseError::Incomplete }
    } else if s[0] != 0x20 {
        SpecOutcome::Done { v: Seq::empty(), n: 0 }
    } else {
        match spec_astring(s.skip(1)) {
            SpecOutcome::Done { v, n } => match spec_hl_rest(s.skip(1 + n)) {
                SpecOutcome::Done { v: more, n: m } => SpecOutcome::Done {
                    v: seq![v] + more,
                    n: 1 + n + m,
                },
                SpecOutcome::Fail { e } => SpecOutcome::Fail { e },
            },
            SpecOutcome::Fail { e } => {
                if e == ParseError::Malformed {
                    SpecOutcome::Done { v: Seq::empty(), n: 0 }
                } else {
                    SpecOutcome::Fail { e }
                }
            },
        }
    }
}

#[via_fn]
proof fn spec_hl_rest_dec(s: Seq<u8>) {
    broadcast use lemma_astring_done_bounds;

}

/// `header-list = "(" header-fld-name *(SP header-fld-name) ")"`, where a
/// field name is an `astring`.
pub open spec fn spec_header_list(s: Seq<u8>) -> SpecOutcome<Seq<AStringV>> {
    if s.len() == 0 {
        SpecOutcome::Fail { e: ParseError::Incomplete }
    } else if s[0] != 0x28 {
        SpecOutcome::Fail { e: ParseError::Malformed }
    } else {
        match spec_astring(s.skip(1)) {
            SpecOutcome::Done { v, n } => match spec_hl_rest(s.skip(1 + n)) {
                SpecOutcome::Done { v: more, n: m } => {
                    let j = 1 + n + m;
                    if j >= s.len() {
                        SpecOutcome::Fail { e: ParseError::Incomplete }
                    } else if s[j] != 0x29 {
                        SpecOutcome::Fail { e: ParseError::Malformed }
                    } else {
                        SpecOutcome::Done { v: seq![v] + more, n: j + 1 }
                    }
                },
                SpecOutcome::Fail { e } => SpecOutcome::Fail { e },
            },
            SpecOutcome::Fail { e } => SpecOutcome::Fail { e },
        }
    }
}

/// `spec_hl_rest` consumes a non-negative count within the buffer.
pub proof fn lemma_hl_rest_done_bounds(s: Seq<u8>)
    ensures
        spec_hl_rest(s) matches SpecOutcome::Done { v, n } ==> 0 <= n <= s.len(),
    decreases s.len(),
{
    broadcast use lemma_astring_done_bounds;

    if s.len() > 0 && s[0] == 0x20 {
        match spec_astring(s.skip(1)) {
            SpecOutcome::Done { v, n } => {
                lemma_hl_rest_done_bounds(s.skip(1 + n));
            },
            _ => {},
        }
    }
}

/// A successful `header-list` consumes at least one byte and stays within
/// the buffer.
pub broadcast proof fn lemma_header_list_done_bounds(s: Seq<u8>)
    ensures
        #[trigger] spec_header_list(s) matches SpecOutcome::Done { v, n } ==> 1 <= n <= s.len(),
{
    broadcast use lemma_astring_done_bounds;

    if s.len() > 0 && s[0] == 0x28 {
        match spec_astring(s.skip(1)) {
            SpecOutcome::Done { v, n } => {
                lemma_hl_rest_done_bounds(s.skip(1 + n));
            },
            _ => {},
        }
    }
}

/// Compose already-parsed header fields, an offset, and the remaining list
/// continuation into the outcome of the whole `header-list`, including the
/// closing parenthesis.
pub open spec fn hl_close(
    s: Seq<u8>,
    pre: Seq<AStringV>,
    off: int,
    o: SpecOutcome<Seq<AStringV>>,
) -> SpecOutcome<Seq<AStringV>> {
    match o {
        SpecOutcome::Done { v, n } => {
            let j = off + n;
            if j >= s.len() {
                SpecOutcome::Fail { e: ParseError::Incomplete }
            } else if s[j] != 0x29 {
                SpecOutcome::Fail { e: ParseError::Malformed }
            } else {
                SpecOutcome::Done { v: pre + v, n: j + 1 }
            }
        },
        SpecOutcome::Fail { e } => SpecOutcome::Fail { e },
    }
}

/// Parse a `header-list`.
pub fn header_list(input: &[u8]) -> (r: ParseResult<Vec<AString>>)
    ensures
        outcome_matches(r, spec_header_list(input@)),
{
    if input.len() == 0 {
        return Err(ParseError::Incomplete);
    }
    if input[0] != 0x28 {
        return Err(ParseError::Malformed);
    }
    let sub = slice_subrange(input, 1, input.len());
    proof {
        assert(sub@ =~= input@.skip(1));
    }
    let (a0, n0) = match astring(sub) {
        Ok(p) => p,
        Err(e) => {
            return Err(e);
        },
    };
    let mut acc: Vec<AString> = Vec::new();
    acc.push(a0);
    let mut pos: usize = 1 + n0;
    proof {
        assert(acc.deep_view() =~= seq![a0.deep_view()]);
        assert(input@.skip(1).skip(n0 as int) =~= input@.skip(1 + n0 as int));
        assert(spec_header_list(input@) == hl_close(
            input@,
            acc.deep_view(),
            pos as int,
            spec_hl_rest(input@.skip(pos as int)),
        )) by {
            match spec_hl_rest(input@.skip(pos as int)) {
                SpecOutcome::Done { v: more, n: m } => {
                    assert(seq![a0.deep_view()] + more =~= acc.deep_view() + more);
                },
                _ => {},
            }
        }
    }
    loop
        invariant
            1 <= pos <= input.len(),
            spec_header_list(input@) == hl_close(
                input@,
                acc.deep_view(),
                pos as int,
                spec_hl_rest(input@.skip(pos as int)),
            ),
        decreases input.len() - pos,
    {
        if pos >= input.len() {
            return Err(ParseError::Incomplete);
        }
        if input[pos] != 0x20 {
            proof {
                assert(input@.skip(pos as int)[0] == input@[pos as int]);
            }
            if input[pos] != 0x29 {
                return Err(ParseError::Malformed);
            }
            proof {
                assert(acc.deep_view() + Seq::<AStringV>::empty() =~= acc.deep_view());
            }
            return Ok((acc, pos + 1));
        }
        proof {
            assert(input@.skip(pos as int)[0] == input@[pos as int]);
        }
        let sub2 = slice_subrange(input, pos + 1, input.len());
        proof {
            assert(sub2@ =~= input@.skip(pos + 1));
            assert(input@.skip(pos as int).skip(1) =~= input@.skip(pos + 1));
        }
        match astring(sub2) {
            Ok((a, n)) => {
                proof {
                    assert(1 <= n as int && n as int <= sub2@.len());
                    assert(input@.skip(pos as int).skip(1 + n as int) =~= input@.skip(
                        pos + 1 + n as int,
                    ));
                }
                let ghost pre = acc.deep_view();
                let ghost av = a.deep_view();
                acc.push(a);
                proof {
                    assert(acc.deep_view() =~= pre.push(av));
                    assert(spec_header_list(input@) == hl_close(
                        input@,
                        acc.deep_view(),
                        pos + 1 + n as int,
                        spec_hl_rest(input@.skip(pos + 1 + n as int)),
                    )) by {
                        match spec_hl_rest(input@.skip(pos + 1 + n as int)) {
                            SpecOutcome::Done { v: more, n: m } => {
                                assert(pre + (seq![av] + more) =~= pre.push(av) + more);
                            },
                            _ => {},
                        }
                    }
                }
                pos = pos + 1 + n;
            },
            Err(ParseError::Malformed) => {
                return Err(ParseError::Malformed);
            },
            Err(e) => {
                return Err(e);
            },
        }
    }
}

/// One `HEADER.FIELDS`-style branch: the keyword, a space, a header list.
pub open spec fn spec_hdr_fields_branch(s: Seq<u8>, kw: Seq<u8>) -> SpecOutcome<Seq<AStringV>> {
    match spec_tagci(s, kw) {
        SpecOutcome::Done { v: _, n } => {
            if n >= s.len() {
                SpecOutcome::Fail { e: ParseError::Incomplete }
            } else if s[n] != 0x20 {
                SpecOutcome::Fail { e: ParseError::Malformed }
            } else {
                match spec_header_list(s.skip(n + 1)) {
                    SpecOutcome::Done { v, n: m } => SpecOutcome::Done { v, n: n + 1 + m },
                    SpecOutcome::Fail { e } => SpecOutcome::Fail { e },
                }
            }
        },
        SpecOutcome::Fail { e } => SpecOutcome::Fail { e },
    }
}

/// Parse one `HEADER.FIELDS`-style branch.
fn hdr_fields_branch(input: &[u8], kw: &[u8]) -> (r: ParseResult<Vec<AString>>)
    ensures
        outcome_matches(r, spec_hdr_fields_branch(input@, kw@)),
{
    broadcast use lemma_header_list_done_bounds;

    let (_, n) = match tagci(input, kw) {
        Ok(p) => p,
        Err(e) => {
            return Err(e);
        },
    };
    if n >= input.len() {
        return Err(ParseError::Incomplete);
    }
    if input[n] != 0x20 {
        return Err(ParseError::Malformed);
    }
    let sub = slice_subrange(input, n + 1, input.len());
    proof {
        assert(sub@ =~= input@.skip(n + 1));
    }
    match header_list(sub) {
        Ok((v, m)) => Ok((v, n + 1 + m)),
        Err(e) => Err(e),
    }
}

/// `section-msgtext = "HEADER" / "HEADER.FIELDS" [".NOT"] SP header-list /
/// "TEXT"`, longest keyword first.
pub open spec fn spec_section_msgtext(s: Seq<u8>) -> SpecOutcome<PartSpecifierV> {
    match spec_hdr_fields_branch(s, hfn_kw()) {
        SpecOutcome::Done { v, n } => SpecOutcome::Done {
            v: PartSpecifierV::HeaderFieldsNot(v),
            n,
        },
        SpecOutcome::Fail { e } => {
            if e != ParseError::Malformed {
                SpecOutcome::Fail { e }
            } else {
                match spec_hdr_fields_branch(s, hf_kw()) {
                    SpecOutcome::Done { v, n } => SpecOutcome::Done {
                        v: PartSpecifierV::HeaderFields(v),
                        n,
                    },
                    SpecOutcome::Fail { e } => {
                        if e != ParseError::Malformed {
                            SpecOutcome::Fail { e }
                        } else {
                            match spec_tagci(s, header_kw()) {
                                SpecOutcome::Done { v: _, n } => SpecOutcome::Done {
                                    v: PartSpecifierV::Header,
                                    n,
                                },
                                SpecOutcome::Fail { e } => {
                                    if e != ParseError::Malformed {
                                        SpecOutcome::Fail { e }
                                    } else {
                                        match spec_tagci(s, text_kw()) {
                                            SpecOutcome::Done { v: _, n } => SpecOutcome::Done {
                                                v: PartSpecifierV::Text,
                                                n,
                                            },
                                            SpecOutcome::Fail { e } => SpecOutcome::Fail { e },
                                        }
                                    }
                                },
                            }
                        }
                    },
                }
            }
        },
    }
}

/// Parse `section-msgtext`.
pub fn section_msgtext(input: &[u8]) -> (r: ParseResult<PartSpecifier>)
    ensures
        outcome_matches(r, spec_section_msgtext(input@)),
{
    let hfn: [u8; 17] = [
        0x48,
        0x45,
        0x41,
        0x44,
        0x45,
        0x52,
        0x2e,
        0x46,
        0x49,
        0x45,
        0x4c,
        0x44,
        0x53,
        0x2e,
        0x4e,
        0x4f,
        0x54,
    ];
    proof {
        assert(hfn@ =~= hfn_kw());
    }
    match hdr_fields_branch(input, hfn.as_slice()) {
        Ok((v, n)) => {
            return Ok((PartSpecifier::HeaderFieldsNot(v), n));
        },
        Err(ParseError::Malformed) => {},
        Err(e) => {
            return Err(e);
        },
    }
    let hf: [u8; 13] = [
        0x48,
        0x45,
        0x41,
        0x44,
        0x45,
        0x52,
        0x2e,
        0x46,
        0x49,
        0x45,
        0x4c,
        0x44,
        0x53,
    ];
    proof {
        assert(hf@ =~= hf_kw());
    }
    match hdr_fields_branch(input, hf.as_slice()) {
        Ok((v, n)) => {
            return Ok((PartSpecifier::HeaderFields(v), n));
        },
        Err(ParseError::Malformed) => {},
        Err(e) => {
            return Err(e);
        },
    }
    let hdr: [u8; 6] = [0x48, 0x45, 0x41, 0x44, 0x45, 0x52];
    proof {
        assert(hdr@ =~= header_kw());
    }
    match tagci(input, hdr.as_slice()) {
        Ok((_, n)) => {
            return Ok((PartSpecifier::Header, n));
        },
        Err(ParseError::Malformed) => {},
        Err(e) => {
            return Err(e);
        },
    }
    let txt: [u8; 4] = [0x54, 0x45, 0x58, 0x54];
    proof {
        assert(txt@ =~= text_kw());
    }
    match tagci(input, txt.as_slice()) {
        Ok((_, n)) => Ok((PartSpecifier::Text, n)),
        Err(e) => Err(e),
    }
}

/// `section-text = section-msgtext / "MIME"`.
pub open spec fn spec_section_text(s: Seq<u8>) -> SpecOutcome<PartSpecifierV> {
    match spec_section_msgtext(s) {
        SpecOutcome::Done { v, n } => SpecOutcome::Done { v, n },
        SpecOutcome::Fail { e } => {
            if e != ParseError::Malformed {
                SpecOutcome::Fail { e }
            } else {
                match spec_tagci(s, mime_kw()) {
                    SpecOutcome::Done { v: _, n } => SpecOutcome::Done {
                        v: PartSpecifierV::Mime,
                        n,
                    },
                    SpecOutcome::Fail { e } => SpecOutcome::Fail { e },
                }
            }
        },
    }
}

/// Parse `section-text`.
pub fn section_text(input: &[u8]) -> (r: ParseResult<PartSpecifier>)
    ensures
        outcome_matches(r, spec_section_text(input@)),
{
    match section_msgtext(input) {
        Ok(p) => {
            return Ok(p);
        },
        Err(ParseError::Malformed) => {},
        Err(e) => {
            return Err(e);
        },
    }
    let mime: [u8; 4] = [0x4d, 0x49, 0x4d, 0x45];
    proof {
        assert(mime@ =~= mime_kw());
    }
    match tagci(input, mime.as_slice()) {
        Ok((_, n)) => Ok((PartSpecifier::Mime, n)),
        Err(e) => Err(e),
    }
}

/// `*("." nz-number)`: the continuation of a `section-part`.  A dot not
/// followed by a non-zero number ends the path without consuming the dot.
pub open spec fn spec_part_rest(s: Seq<u8>) -> SpecOutcome<Seq<u32>>
    decreases s.len(),
    via spec_part_rest_dec
{
    if s.len() == 0 {
        SpecOutcome::Fail { e: ParseError::Incomplete }
    } else if s[0] != 0x2e {
        SpecOutcome::Done { v: Seq::empty(), n: 0 }
    } else {
        match spec_nz_number(s.skip(1)) {
            SpecOutcome::Done { v, n } => match spec_part_rest(s.skip(1 + n)) {
                SpecOutcome::Done { v: more, n: m } => SpecOutcome::Done {
                    v: seq![v] + more,
                    n: 1 + n + m,
                },
                SpecOutcome::Fail { e } => SpecOutcome::Fail { e },
            },
            SpecOutcome::Fail { e } => {
                if e == ParseError::Malformed {
                    SpecOutcome::Done { v: Seq::empty(), n: 0 }
                } else {
                    SpecOutcome::Fail { e }
                }
            },
        }
    }
}

#[via_fn]
proof fn spec_part_rest_dec(s: Seq<u8>) {
    broadcast use lemma_nz_number_done_bounds;

}

/// `section-part = nz-number *("." nz-number)`: the nested part path.
pub open spec fn spec_section_part(s: Seq<u8>) -> SpecOutcome<Seq<u32>> {
    match spec_nz_number(s) {
        SpecOutcome::Done { v, n } => match spec_part_rest(s.skip(n)) {
            SpecOutcome::Done { v: more, n: m } => SpecOutcome::Done {
                v: seq![v] + more,
                n: n + m,
            },
            SpecOutcome::Fail { e } => SpecOutcome::Fail { e },
        },
        SpecOutcome::Fail { e } => SpecOutcome::Fail { e },
    }
}

/// `spec_part_rest` consumes a non-negative count within the buffer.
pub proof fn lemma_part_rest_done_bounds(s: Seq<u8>)
    ensures
        spec_part_rest(s) matches SpecOutcome::Done { v, n } ==> 0 <= n <= s.len(),
    decreases s.len(),
{
    broadcast use lemma_nz_number_done_bounds;

    if s.len() > 0 && s[0] == 0x2e {
        match spec_nz_number(s.skip(1)) {
            SpecOutcome::Done { v, n } => {
                lemma_part_rest_done_bounds(s.skip(1 + n));
            },
            _ => {},
        }
    }
}

/// A successful `section-part` consumes at least one byte and stays within
/// the buffer.
pub broadcast proof fn lemma_section_part_done_bounds(s: Seq<u8>)
    ensures
        #[trigger] spec_section_part(s) matches SpecOutcome::Done { v, n } ==> 1 <= n <= s.len(),
{
    broadcast use lemma_nz_number_done_bounds;

    match spec_nz_number(s) {
        SpecOutcome::Done { v, n } => {
            lemma_part_rest_done_bounds(s.skip(n));
        },
        _ => {},
    }
}

/// Compose an already-parsed path prefix and the remaining continuation
/// into the outcome of the whole `section-part`.
pub open spec fn part_cont(pre: Seq<u32>, off: int, o: SpecOutcome<Seq<u32>>) -> SpecOutcome<
    Seq<u32>,
> {
    match o {
        SpecOutcome::Done { v, n } => SpecOutcome::Done { v: pre + v, n: off + n },
        SpecOutcome::Fail { e } => SpecOutcome::Fail { e },
    }
}

/// Parse `section-part`.
pub fn section_part(input: &[u8]) -> (r: ParseResult<Vec<u32>>)
    ensures
        outcome_matches(r, spec_section_part(input@)),
{
    let (v0, n0) = match nz_number(input) {
        Ok(p) => p,
        Err(e) => {
            return Err(e);
        },
    };
    let mut acc: Vec<u32> = Vec::new();
    acc.push(v0);
    let mut pos: usize = n0;
    proof {
        assert(acc.deep_view() =~= seq![v0]);
        assert(spec_section_part(input@) == part_cont(
            acc.deep_view(),
            pos as int,
            spec_part_rest(input@.skip(pos as int)),
        ));
    }
    loop
        invariant
            pos <= input.len(),
            spec_section_part(input@) == part_cont(
                acc.deep_view(),
                pos as int,
                spec_part_rest(input@.skip(pos as int)),
            ),
        decreases input.len() - pos,
    {
        if pos >= input.len() {
            return Err(ParseError::Incomplete);
        }
        proof {
            assert(input@.skip(pos as int)[0] == input@[pos as int]);
        }
        if input[pos] != 0x2e {
            proof {
                assert(acc.deep_view() + Seq::<u32>::empty() =~= acc.deep_view());
            }
            return Ok((acc, pos));
        }
        let sub = slice_subrange(input, pos + 1, input.len());
        proof {
            assert(sub@ =~= input@.skip(pos + 1));
            assert(input@.skip(pos as int).skip(1) =~= input@.skip(pos + 1));
        }
        match nz_number(sub) {
            Ok((v, n)) => {
                proof {
                    assert(1 <= n as int && (n as int) < sub@.len());
                    assert(input@.skip(pos as int).skip(1 + n as int) =~= input@.skip(
                        pos + 1 + n as int,
                    ));
                }
                let ghost pre = acc.deep_view();
                acc.push(v);
                proof {
                    assert(acc.deep_view() =~= pre.push(v));
                    assert(spec_section_part(input@) == part_cont(
                        acc.deep_view(),
                        pos + 1 + n as int,
                        spec_part_rest(input@.skip(pos + 1 + n as int)),
                    )) by {
                        match spec_part_rest(input@.skip(pos + 1 + n as int)) {
                            SpecOutcome::Done { v: more, n: m } => {
                                assert(pre + (seq![v] + more) =~= pre.push(v) + more);
                            },
                            _ => {},
                        }
                    }
                }
                pos = pos + 1 + n;
            },
            Err(ParseError::Malformed) => {
                proof {
                    assert(acc.deep_view() + Seq::<u32>::empty() =~= acc.deep_view());
                }
                return Ok((acc, pos));
            },
            Err(e) => {
                return Err(e);
            },
        }
    }
}

/// Attach no part path to a specifier from `section-msgtext`.  (`Mime`
/// never comes from `section-msgtext`; the arm is present only to make the
/// function total.)
pub open spec fn sec_of_msgtext(p: PartSpecifierV) -> SectionV {
    match p {
        PartSpecifierV::Header => SectionV::Header(None),
        PartSpecifierV::HeaderFields(l) => SectionV::HeaderFields(None, l),
        PartSpecifierV::HeaderFieldsNot(l) => SectionV::HeaderFieldsNot(None, l),
        PartSpecifierV::Text => SectionV::Text(None),
        PartSpecifierV::Mime => SectionV::Mime(Seq::empty()),
    }
}

/// Attach a part path to a specifier from `section-text`.
pub open spec fn sec_of_text(part: Seq<u32>, p: PartSpecifierV) -> SectionV {
    match p {
        PartSpecifierV::Header => SectionV::Header(Some(part)),
        PartSpecifierV::HeaderFields(l) => SectionV::HeaderFields(Some(part), l),
        PartSpecifierV::HeaderFieldsNot(l) => SectionV::HeaderFieldsNot(Some(part), l),
        PartSpecifierV::Text => SectionV::Text(Some(part)),
        PartSpecifierV::Mime => SectionV::Mime(part),
    }
}

/// `section-spec = section-msgtext / (section-part ["." section-text])`.
pub open spec fn spec_section_spec(s: Seq<u8>) -> SpecOutcome<SectionV> {
    match spec_section_msgtext(s) {
        SpecOutcome::Done { v, n } => SpecOutcome::Done { v: sec_of_msgtext(v), n },
        SpecOutcome::Fail { e } => {
            if e != ParseError::Malformed {
                SpecOutcome::Fail { e }
            } else {
                match spec_section_part(s) {
                    SpecOutcome::Done { v: part, n } => {
                        if n >= s.len() {
                            SpecOutcome::Fail { e: ParseError::Incomplete }
                        } else if s[n] != 0x2e {
                            SpecOutcome::Done { v: SectionV::Part(part), n }
                        } else {
                            match spec_section_text(s.skip(n + 1)) {
                                SpecOutcome::Done { v: ps, n: m } => SpecOutcome::Done {
                                    v: sec_of_text(part, ps),
                                    n: n + 1 + m,
                                },
                                SpecOutcome::Fail { e } => {
                                    if e == ParseError::Malformed {
                                        SpecOutcome::Done { v: SectionV::Part(part), n }
                                    } else {
                                        SpecOutcome::Fail { e }
                                    }
                                },
                            }
                        }
                    },
                    SpecOutcome::Fail { e } => SpecOutcome::Fail { e },
                }
            }
        },
    }
}

/// Map a specifier from `section-msgtext` to a top-level section value.
fn section_of_msgtext(ps: PartSpecifier) -> (r: Section)
    ensures
        r.deep_view() == sec_of_msgtext(ps.deep_view()),
{
    match ps {
        PartSpecifier::Header => Section::Header(None),
        PartSpecifier::HeaderFields(l) => Section::HeaderFields(None, l),
        PartSpecifier::HeaderFieldsNot(l) => Section::HeaderFieldsNot(None, l),
        PartSpecifier::Text => Section::Text(None),
        PartSpecifier::Mime => {
            let v: Vec<u32> = Vec::new();
            proof {
                assert(v.deep_view() =~= Seq::<u32>::empty());
            }
            Section::Mime(v)
        },
    }
}

/// Attach a parsed part path to a specifier from `section-text`.
fn section_of_text(part: Vec<u32>, ps: PartSpecifier) -> (r: Section)
    ensures
        r.deep_view() == sec_of_text(part.deep_view(), ps.deep_view()),
{
    match ps {
        PartSpecifier::Header => Section::Header(Some(part)),
        PartSpecifier::HeaderFields(l) => Section::HeaderFields(Some(part), l),
        PartSpecifier::HeaderFieldsNot(l) => Section::HeaderFieldsNot(Some(part), l),
        PartSpecifier::Text => Section::Text(Some(part)),
        PartSpecifier::Mime => Section::Mime(part),
    }
}

/// The bound on what `section-text` may consume, needed to stay inside the
/// buffer when composing offsets.
pub broadcast proof fn lemma_section_text_done_bounds(s: Seq<u8>)
    ensures
        #[trigger] spec_section_text(s) matches SpecOutcome::Done { v, n } ==> 1 <= n <= s.len(),
{
    broadcast use lemma_header_list_done_bounds;

}

/// Parse `section-spec`.
pub fn section_spec(input: &[u8]) -> (r: ParseResult<Section>)
    ensures
        outcome_matches(r, spec_section_spec(input@)),
{
    broadcast use lemma_section_part_done_bounds, lemma_section_text_done_bounds;

    match section_msgtext(input) {
        Ok((ps, n)) => {
            return Ok((section_of_msgtext(ps), n));
        },
        Err(ParseError::Malformed) => {},
        Err(e) => {
            return Err(e);
        },
    }
    let (part, n) = match section_part(input) {
        Ok(p) => p,
        Err(e) => {
            return Err(e);
        },
    };
    if n >= input.len() {
        return Err(ParseError::Incomplete);
    }
    if input[n] != 0x2e {
        return Ok((Section::Part(part), n));
    }
    let sub = slice_subrange(input, n + 1, input.len());
    proof {
        assert(sub@ =~= input@.skip(n + 1));
    }
    match section_text(sub) {
        Ok((ps, m)) => Ok((section_of_text(part, ps), n + 1 + m)),
        Err(ParseError::Malformed) => Ok((Section::Part(part), n)),
        Err(e) => Err(e),
    }
}

/// `section-spec` stays within the buffer when it succeeds.
pub broadcast proof fn lemma_section_spec_done_bounds(s: Seq<u8>)
    ensures
        #[trigger] spec_section_spec(s) matches SpecOutcome::Done { v, n } ==> 0 <= n <= s.len(),
{
    broadcast use lemma_header_list_done_bounds, lemma_section_part_done_bounds,
        lemma_section_text_done_bounds;

}

/// `section = "[" [section-spec] "]"`: an empty pair of brackets is a
/// section with no specifier.
pub open spec fn spec_section(s: Seq<u8>) -> SpecOutcome<Option<SectionV>> {
    if s.len() == 0 {
        SpecOutcome::Fail { e: ParseError::Incomplete }
    } else if s[0] != 0x5b {
        SpecOutcome::Fail { e: ParseError::Malformed }
    } else {
        match spec_section_spec(s.skip(1)) {
            SpecOutcome::Done { v, n } => {
                let j = 1 + n;
                if j >= s.len() {
                    SpecOutcome::Fail { e: ParseError::Incomplete }
                } else if s[j] != 0x5d {
                    SpecOutcome::Fail { e: ParseError::Malformed }
                } else {
                    SpecOutcome::Done { v: Some(v), n: j + 1 }
                }
            },
            SpecOutcome::Fail { e } => {
                if e != ParseError::Malformed {
                    SpecOutcome::Fail { e }
                } else if s.len() < 2 {
                    SpecOutcome::Fail { e: ParseError::Incomplete }
                } else if s[1] != 0x5d {
                    SpecOutcome::Fail { e: ParseError::Malformed }
                } else {
                    SpecOutcome::Done { v: None::<SectionV>, n: 2 }
                }
            },
        }
    }
}

/// Parse `section`.
pub fn section(input: &[u8]) -> (r: ParseResult<Option<Section>>)
    ensures
        outcome_matches(r, spec_section(input@)),
{
    broadcast use lemma_section_spec_done_bounds;

    if input.len() == 0 {
        return Err(ParseError::Incomplete);
    }
    if input[0] != 0x5b {
        return Err(ParseError::Malformed);
    }
    let sub = slice_subrange(input, 1, input.len());
    proof {
        assert(sub@ =~= input@.skip(1));
    }
    match section_spec(sub) {
        Ok((sec, n)) => {
            let j = 1 + n;
            if j >= input.len() {
                return Err(ParseError::Incomplete);
            }
            if input[j] != 0x5d {
                return Err(ParseError::Malformed);
            }
            Ok((Some(sec), j + 1))
        },
        Err(ParseError::Malformed) => {
            if input.len() < 2 {
                return Err(ParseError::Incomplete);
            }
            if input[1] != 0x5d {
                return Err(ParseError::Malformed);
            }
            Ok((None, 2))
        },
        Err(e) => Err(e),
    }
}

} // verus!
