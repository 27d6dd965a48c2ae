//! The composite string alternations of the grammar: `string`, `astring`,
//! `nstring` and `charset`, with their owned value types.
//!
//! Alternatives are tried in a fixed precedence order; a branch is tried
//! only after the previous one failed as malformed, while the need-more-
//! bytes and handshake outcomes are propagated, never collapsed.

use vstd::prelude::*;

use crate::atoms::{atom, nil, spec_atom, spec_nil};
use crate::literal::{lemma_literal_done_bounds, literal, spec_literal};
use crate::outcome::{lemma_vec_u8_deep_view, outcome_matches, ParseError, ParseResult, SpecOutcome};
use crate::quoted::{lemma_quoted_rest_bounds, quoted, spec_quoted};
use crate::scan::{astring_p, copy_range, lemma_run_end_bounds, lemma_run_end_is, run_end};

verus! {

broadcast use lemma_vec_u8_deep_view, lemma_run_end_bounds;

/// `string = quoted / literal`, as an owned value.  A quoted string is held
/// decoded (escape pairs resolved); a literal is held as its raw payload.
#[derive(Debug, Clone, PartialEq, Eq)]
pub enum IString {
    Quoted(Vec<u8>),
    Literal(Vec<u8>),
}

/// The mathematical view of an `IString`.
pub enum IStringV {
    Quoted(Seq<u8>),
    Literal(Seq<u8>),
}

impl DeepView for IString {
    type V = IStringV;

    open spec fn deep_view(&self) -> IStringV {
        match self {
            IString::Quoted(q) => IStringV::Quoted(q@),
            IString::Literal(l) => IStringV::Literal(l@),
        }
    }
}

/// `nstring = string / nil`: a string that may be absent.
#[derive(Debug, Clone, PartialEq, Eq)]
pub struct NString(pub Option<IString>);

impl DeepView for NString {
    type V = Option<IStringV>;

    open spec fn deep_view(&self) -> Option<IStringV> {
        match self.0 {
            Some(ref i) => Some(i.deep_view()),
            None => None,
        }
    }
}

/// `astring = 1*ASTRING-CHAR / string`: a bare atom-like token, or a string
/// where the first byte cannot start one.
#[derive(Debug, Clone, PartialEq, Eq)]
pub enum AString {
    Atom(Vec<u8>),
    Str(IString),
}

/// The mathematical view of an `AString`.
pub enum AStringV {
    Atom(Seq<u8>),
    Str(IStringV),
}

impl DeepView for AString {
    type V = AStringV;

    open spec fn deep_view(&self) -> AStringV {
        match self {
            AString::Atom(a) => AStringV::Atom(a@),
            AString::Str(s) => AStringV::Str(s.deep_view()),
        }
    }
}

/// `charset = atom / quoted`.
#[derive(Debug, Clone, PartialEq, Eq)]
pub enum Charset {
    Atom(Vec<u8>),
    Quoted(Vec<u8>),
}

/// The mathematical view of a `Charset`.
pub enum CharsetV {
    Atom(Seq<u8>),
    Quoted(Seq<u8>),
}

impl DeepView for Charset {
    type V = CharsetV;

    open spec fn deep_view(&self) -> CharsetV {
        match self {
            Charset::Atom(a) => CharsetV::Atom(a@),
            Charset::Quoted(q) => CharsetV::Quoted(q@),
        }
    }
}

/// `string = quoted / literal`: a leading `"` commits to the quoted form, a
/// leading `{` to the literal form.
pub open spec fn spec_string(s: Seq<u8>) -> SpecOutcome<IStringV> {
    match spec_quoted(s) {
        SpecOutcome::Done { v, n } => SpecOutcome::Done { v: IStringV::Quoted(v), n },
        SpecOutcome::Fail { e } => {
            if e == ParseError::Malformed {
                match spec_literal(s) {
                    SpecOutcome::Done { v, n } => SpecOutcome::Done { v: IStringV::Literal(v), n },
                    SpecOutcome::Fail { e } => SpecOutcome::Fail { e },
                }
            } else {
                SpecOutcome::Fail { e }
            }
        },
    }
}

/// Parse `string`.
pub fn string(input: &[u8]) -> (r: ParseResult<IString>)
    ensures
        outcome_matches(r, spec_string(input@)),
{
    match quoted(input) {
        Ok((v, n)) => Ok((IString::Quoted(v), n)),
        Err(ParseError::Malformed) => match literal(input) {
            Ok((v, n)) => Ok((IString::Literal(v), n)),
            Err(e) => Err(e),
        },
        Err(e) => Err(e),
    }
}

/// `astring`: the bare-atom interpretation is preferred whenever the input
/// starts with astring characters; the string forms are tried only when the
/// first byte cannot start an atom.
pub open spec fn spec_astring(s: Seq<u8>) -> SpecOutcome<AStringV> {
    let k = run_end(s, astring_p());
    if k >= s.len() {
        SpecOutcome::Fail { e: ParseError::Incomplete }
    } else if k > 0 {
        SpecOutcome::Done { v: AStringV::Atom(s.take(k)), n: k }
    } else {
        match spec_string(s) {
            SpecOutcome::Done { v, n } => SpecOutcome::Done { v: AStringV::Str(v), n },
            SpecOutcome::Fail { e } => SpecOutcome::Fail { e },
        }
    }
}

/// Parse `astring`.
pub fn astring(input: &[u8]) -> (r: ParseResult<AString>)
    ensures
        outcome_matches(r, spec_astring(input@)),
{
    let ghost p = astring_p();
    let mut j: usize = 0;
    while j < input.len() && crate::chars::is_astring_char(input[j])
        invariant
            0 <= j <= input.len(),
            p == astring_p(),
            forall|i: int| 0 <= i < j ==> p(input@[i]),
        decreases input.len() - j,
    {
        j += 1;
    }
    proof {
        lemma_run_end_is(input@, p, j as int);
    }
    if j == input.len() {
        return Err(ParseError::Incomplete);
    }
    if j > 0 {
        let out = copy_range(input, 0, j);
        proof {
            assert(out@ =~= input@.take(j as int));
        }
        return Ok((AString::Atom(out), j));
    }
    match string(input) {
        Ok((v, n)) => Ok((AString::Str(v), n)),
        Err(e) => Err(e),
    }
}

/// `nstring = string / nil`: `nil` stands for the absent string.
pub open spec fn spec_nstring(s: Seq<u8>) -> SpecOutcome<Option<IStringV>> {
    match spec_string(s) {
        SpecOutcome::Done { v, n } => SpecOutcome::Done { v: Some(v), n },
        SpecOutcome::Fail { e } => {
            if e == ParseError::Malformed {
                match spec_nil(s) {
                    SpecOutcome::Done { v, n } => SpecOutcome::Done {
                        v: None::<IStringV>,
                        n,
                    },
                    SpecOutcome::Fail { e } => SpecOutcome::Fail { e },
                }
            } else {
                SpecOutcome::Fail { e }
            }
        },
    }
}

/// Parse `nstring`.
pub fn nstring(input: &[u8]) -> (r: ParseResult<NString>)
    ensures
        outcome_matches(r, spec_nstring(input@)),
{
    match string(input) {
        Ok((v, n)) => Ok((NString(Some(v)), n)),
        Err(ParseError::Malformed) => match nil(input) {
            Ok((_, n)) => Ok((NString(None), n)),
            Err(e) => Err(e),
        },
        Err(e) => Err(e),
    }
}

/// `charset = atom / quoted`.
pub open spec fn spec_charset(s: Seq<u8>) -> SpecOutcome<CharsetV> {
    match spec_atom(s) {
        SpecOutcome::Done { v, n } => SpecOutcome::Done { v: CharsetV::Atom(v), n },
        SpecOutcome::Fail { e } => {
            if e == ParseError::Malformed {
                match spec_quoted(s) {
                    SpecOutcome::Done { v, n } => SpecOutcome::Done { v: CharsetV::Quoted(v), n },
                    SpecOutcome::Fail { e } => SpecOutcome::Fail { e },
                }
            } else {
                SpecOutcome::Fail { e }
            }
        },
    }
}

/// Parse `charset`.
pub fn charset(input: &[u8]) -> (r: ParseResult<Charset>)
    ensures
        outcome_matches(r, spec_charset(input@)),
{
    match atom(input) {
        Ok((v, n)) => Ok((Charset::Atom(v), n)),
        Err(ParseError::Malformed) => match quoted(input) {
            Ok((v, n)) => Ok((Charset::Quoted(v), n)),
            Err(e) => Err(e),
        },
        Err(e) => Err(e),
    }
}

/// A successful `string` consumes at least one byte and stays within the
/// buffer.
pub broadcast proof fn lemma_string_done_bounds(s: Seq<u8>)
    ensures
        #[trigger] spec_string(s) matches SpecOutcome::Done { v, n } ==> 1 <= n <= s.len(),
{
    broadcast use lemma_quoted_rest_bounds, lemma_literal_done_bounds;

}

/// A successful `astring` consumes at least one byte and stays within the
/// buffer.
pub broadcast proof fn lemma_astring_done_bounds(s: Seq<u8>)
    ensures
        #[trigger] spec_astring(s) matches SpecOutcome::Done { v, n } ==> 1 <= n <= s.len(),
{
    broadcast use lemma_run_end_bounds;

    lemma_string_done_bounds(s);
}

} // verus!
