//! `base64 = *(4base64-char) [base64-terminal]`: a maximal run of base64
//! alphabet characters with optional `=` / `==` padding, decoded.
//!
//! The decoding itself is done by the `base64` crate; this module only
//! recognises the span to hand to it and propagates its failure as the
//! malformed outcome.

use vstd::prelude::*;

use crate::chars::is_base64_char;
use crate::outcome::{lemma_vec_u8_deep_view, outcome_matches, ParseError, ParseResult, SpecOutcome};
use crate::scan::{base64_p, lemma_run_end_bounds, lemma_run_end_is, run_end};
use vstd::slice::slice_subrange;

verus! {

broadcast use lemma_run_end_bounds, lemma_vec_u8_deep_view;

/// What `base64::decode` returns on the given bytes, with `None` standing
/// for its decode error.  The result depends on the bytes alone.
pub uninterp spec fn base64_decoded(s: Seq<u8>) -> Option<Seq<u8>>;

/// Relies on `base64::decode` (the RFC 4648 standard alphabet): it computes
/// a function of the input bytes alone, returning its decode error exactly
/// where that function is named `None` here.
#[verifier::external_body]
fn decode_base64(input: &[u8]) -> (r: Option<Vec<u8>>)
    ensures
        match r {
            Some(v) => base64_decoded(input@) == Some(v@),
            None => base64_decoded(input@) == None::<Seq<u8>>,
        },
{
    match base64::decode(input) {
        Ok(v) => Some(v),
        Err(_) => None,
    }
}

/// Decode the first `e` bytes of `s`, as the recognised base64 span.
pub open spec fn b64_decode_at(s: Seq<u8>, e: int) -> SpecOutcome<Seq<u8>> {
    match base64_decoded(s.take(e)) {
        Some(v) => SpecOutcome::Done { v, n: e },
        None => SpecOutcome::Fail { e: ParseError::Malformed },
    }
}

/// `base64`: the longest alphabet run plus optional padding, decoded.  A
/// buffer ending inside the run or inside possible padding is incomplete; a
/// span the decoder rejects is malformed.
pub open spec fn spec_base64(s: Seq<u8>) -> SpecOutcome<Seq<u8>> {
    let k = run_end(s, base64_p());
    if k >= s.len() {
        SpecOutcome::Fail { e: ParseError::Incomplete }
    } else if s[k] == 0x3d {
        if k + 1 >= s.len() {
            SpecOutcome::Fail { e: ParseError::Incomplete }
        } else if s[k + 1] == 0x3d {
            b64_decode_at(s, k + 2)
        } else {
            b64_decode_at(s, k + 1)
        }
    } else {
        b64_decode_at(s, k)
    }
}

/// Parse a `base64` blob.
pub fn base64(input: &[u8]) -> (r: ParseResult<Vec<u8>>)
    ensures
        outcome_matches(r, spec_base64(input@)),
{
    let ghost p = base64_p();
    let mut k: usize = 0;
    while k < input.len() && is_base64_char(input[k])
        invariant
            0 <= k <= input.len(),
            p == base64_p(),
            forall|i: int| 0 <= i < k ==> p(input@[i]),
        decreases input.len() - k,
    {
        k += 1;
    }
    proof {
        lemma_run_end_is(input@, p, k as int);
    }
    if k == input.len() {
        return Err(ParseError::Incomplete);
    }
    let e: usize = if input[k] == 0x3d {
        if k + 1 >= input.len() {
            return Err(ParseError::Incomplete);
        } else if input[k + 1] == 0x3d {
            k + 2
        } else {
            k + 1
        }
    } else {
        k
    };
    let sub = slice_subrange(input, 0, e);
    proof {
        assert(sub@ =~= input@.take(e as int));
    }
    match decode_base64(sub) {
        Some(v) => Ok((v, e)),
        None => Err(ParseError::Malformed),
    }
}

} // verus!
