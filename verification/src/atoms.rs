//! Bare tokens: `atom`, `text`, `nil`, tags, and case-insensitive keywords.

use vstd::prelude::*;

use crate::chars::{is_atom_char, is_tag_char, is_text_char, lower, spec_is_atom_char, spec_lower};
use crate::outcome::{lemma_vec_u8_deep_view, outcome_matches, ParseError, ParseResult, SpecOutcome};
use crate::scan::{atom_p, copy_range, lemma_run_end_bounds, lemma_run_end_is, run_end, tag_p, text_p};

verus! {

broadcast use lemma_run_end_bounds, lemma_vec_u8_deep_view;

/// Match a fixed keyword, ASCII case-insensitively, as a streaming token:
/// a mismatch within the compared region is malformed, while a buffer that
/// is a proper prefix of the keyword is incomplete.
pub open spec fn spec_tagci(s: Seq<u8>, t: Seq<u8>) -> SpecOutcome<()> {
    if exists|i: int|
        0 <= i < t.len() && i < s.len() && spec_lower(s[i]) != spec_lower(#[trigger] t[i]) {
        SpecOutcome::Fail { e: ParseError::Malformed }
    } else if s.len() < t.len() {
        SpecOutcome::Fail { e: ParseError::Incomplete }
    } else {
        SpecOutcome::Done { v: (), n: t.len() as int }
    }
}

/// Match the keyword `t` at the start of `input`, case-insensitively.
pub fn tagci(input: &[u8], t: &[u8]) -> (r: ParseResult<()>)
    ensures
        outcome_matches(r, spec_tagci(input@, t@)),
{
    let mut i: usize = 0;
    while i < t.len() && i < input.len()
        invariant
            0 <= i <= t.len(),
            i <= input.len(),
            forall|q: int|
                0 <= q < i ==> spec_lower(input@[q]) == spec_lower(#[trigger] t@[q]),
        decreases t.len() - i,
    {
        if lower(input[i]) != lower(t[i]) {
            return Err(ParseError::Malformed);
        }
        i += 1;
    }
    if i < t.len() {
        return Err(ParseError::Incomplete);
    }
    Ok(((), t.len()))
}

/// ASCII case-insensitive equality of two byte strings.
pub open spec fn seq_eqci(a: Seq<u8>, b: Seq<u8>) -> bool {
    a.len() == b.len() && forall|i: int|
        0 <= i < a.len() ==> spec_lower(a[i]) == spec_lower(#[trigger] b[i])
}

/// Compare two byte strings ASCII case-insensitively.
pub fn eq_ci(a: &[u8], b: &[u8]) -> (r: bool)
    ensures
        r == seq_eqci(a@, b@),
{
    if a.len() != b.len() {
        return false;
    }
    let mut i: usize = 0;
    while i < a.len()
        invariant
            0 <= i <= a.len(),
            a@.len() == b@.len(),
            forall|q: int| 0 <= q < i ==> spec_lower(a@[q]) == spec_lower(#[trigger] b@[q]),
        decreases a.len() - i,
    {
        if lower(a[i]) != lower(b[i]) {
            return false;
        }
        i += 1;
    }
    true
}

/// The three bytes of the `NIL` token.
pub open spec fn nil_kw() -> Seq<u8> {
    seq![0x4eu8, 0x49u8, 0x4cu8]
}

/// `nil = "NIL"`, matched case-insensitively.
pub open spec fn spec_nil(s: Seq<u8>) -> SpecOutcome<()> {
    spec_tagci(s, nil_kw())
}

/// Parse the `nil` token that stands for an absent string.
pub fn nil(input: &[u8]) -> (r: ParseResult<()>)
    ensures
        outcome_matches(r, spec_nil(input@)),
{
    let kw: [u8; 3] = [0x4e, 0x49, 0x4c];
    proof {
        assert(kw@ =~= nil_kw());
    }
    tagci(input, kw.as_slice())
}

/// `atom = 1*ATOM-CHAR`: the longest run of atom characters; an empty run
/// is malformed, and a run reaching the end of the buffer is incomplete.
pub open spec fn spec_atom(s: Seq<u8>) -> SpecOutcome<Seq<u8>> {
    let k = run_end(s, atom_p());
    if k >= s.len() {
        SpecOutcome::Fail { e: ParseError::Incomplete }
    } else if k == 0 {
        SpecOutcome::Fail { e: ParseError::Malformed }
    } else {
        SpecOutcome::Done { v: s.take(k), n: k }
    }
}

/// Parse an `atom`.
pub fn atom(input: &[u8]) -> (r: ParseResult<Vec<u8>>)
    ensures
        outcome_matches(r, spec_atom(input@)),
{
    let mut j: usize = 0;
    while j < input.len() && is_atom_char(input[j])
        invariant
            0 <= j <= input.len(),
            forall|i: int| 0 <= i < j ==> atom_p()(input@[i]),
        decreases input.len() - j,
    {
        j += 1;
    }
    proof {
        lemma_run_end_is(input@, atom_p(), j as int);
    }
    if j == input.len() {
        return Err(ParseError::Incomplete);
    }
    if j == 0 {
        return Err(ParseError::Malformed);
    }
    let out = copy_range(input, 0, j);
    proof {
        assert(out@ =~= input@.take(j as int));
    }
    Ok((out, j))
}

/// `text = 1*TEXT-CHAR`: free-form human-readable text, ending before the
/// first CR or LF.
pub open spec fn spec_text(s: Seq<u8>) -> SpecOutcome<Seq<u8>> {
    let k = run_end(s, text_p());
    if k >= s.len() {
        SpecOutcome::Fail { e: ParseError::Incomplete }
    } else if k == 0 {
        SpecOutcome::Fail { e: ParseError::Malformed }
    } else {
        SpecOutcome::Done { v: s.take(k), n: k }
    }
}

/// Parse `text`.
pub fn text(input: &[u8]) -> (r: ParseResult<Vec<u8>>)
    ensures
        outcome_matches(r, spec_text(input@)),
{
    let mut j: usize = 0;
    while j < input.len() && is_text_char(input[j])
        invariant
            0 <= j <= input.len(),
            forall|i: int| 0 <= i < j ==> text_p()(input@[i]),
        decreases input.len() - j,
    {
        j += 1;
    }
    proof {
        lemma_run_end_is(input@, text_p(), j as int);
    }
    if j == input.len() {
        return Err(ParseError::Incomplete);
    }
    if j == 0 {
        return Err(ParseError::Malformed);
    }
    let out = copy_range(input, 0, j);
    proof {
        assert(out@ =~= input@.take(j as int));
    }
    Ok((out, j))
}

/// `tag = 1*<any ASTRING-CHAR except "+">`: the tag a client put in front
/// of a command, echoed by tagged status responses.
pub open spec fn spec_tag_imap(s: Seq<u8>) -> SpecOutcome<Seq<u8>> {
    let k = run_end(s, tag_p());
    if k >= s.len() {
        SpecOutcome::Fail { e: ParseError::Incomplete }
    } else if k == 0 {
        SpecOutcome::Fail { e: ParseError::Malformed }
    } else {
        SpecOutcome::Done { v: s.take(k), n: k }
    }
}

/// Parse a command tag.
pub fn tag_imap(input: &[u8]) -> (r: ParseResult<Vec<u8>>)
    ensures
        outcome_matches(r, spec_tag_imap(input@)),
{
    let mut j: usize = 0;
    while j < input.len() && is_tag_char(input[j])
        invariant
            0 <= j <= input.len(),
            forall|i: int| 0 <= i < j ==> tag_p()(input@[i]),
        decreases input.len() - j,
    {
        j += 1;
    }
    proof {
        lemma_run_end_is(input@, tag_p(), j as int);
    }
    if j == input.len() {
        return Err(ParseError::Incomplete);
    }
    if j == 0 {
        return Err(ParseError::Malformed);
    }
    let out = copy_range(input, 0, j);
    proof {
        assert(out@ =~= input@.take(j as int));
    }
    Ok((out, j))
}

/// Atom round trip: an atom encodes as itself, so whenever an atom parses,
/// its bytes parse back to the same atom as soon as any non-atom byte
/// follows them (the streaming scanner cannot end a bare atom at the end
/// of the buffer).
pub proof fn lemma_atom_reparse(s: Seq<u8>, v: Seq<u8>, n: int, rest: Seq<u8>)
    requires
        spec_atom(s) == (SpecOutcome::Done { v, n }),
        rest.len() >= 1,
        !spec_is_atom_char(rest[0]),
    ensures
        spec_atom(v + rest) == (SpecOutcome::Done { v, n: v.len() as int }),
{
    broadcast use lemma_run_end_bounds;

    let w = v + rest;
    assert forall|i: int| 0 <= i < v.len() implies atom_p()(w[i]) by {
        assert(v[i] == s.take(run_end(s, atom_p()))[i]);
        assert(v[i] == s[i]);
    }
    assert(w[v.len() as int] == rest[0]);
    lemma_run_end_is(w, atom_p(), v.len() as int);
    assert(w.take(v.len() as int) =~= v);
}

} // verus!
