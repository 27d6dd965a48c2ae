//! `literal = "{" number "}" CRLF *CHAR8`: binary-safe, length-prefixed
//! payloads, with the continuation-request handshake as a distinct outcome.
//!
//! A literal announcement that leaves the buffer empty is not an ordinary
//! "need more bytes": nothing further may be assumed to be on the wire
//! until the continuation handshake with the peer has been performed, so
//! that case fails with `HandshakeRequired`.

use vstd::prelude::*;

use crate::chars::spec_is_digit;
use crate::number::{lemma_dec_str_props, lemma_number_accepts, number, spec_dec_str, spec_number};
use crate::outcome::{lemma_vec_u8_deep_view, outcome_matches, ParseError, ParseResult, SpecOutcome};
use crate::wire::{push_all, push_dec_u32};
use vstd::slice::slice_subrange;

verus! {

broadcast use lemma_vec_u8_deep_view;

/// `literal`, valued as its raw payload bytes.
///
/// After the `{N}` CRLF announcement: an empty buffer requires the
/// handshake; fewer than `N` remaining bytes are incomplete; a NUL anywhere
/// in the payload is malformed; otherwise exactly `N` bytes are consumed.
pub open spec fn spec_literal(s: Seq<u8>) -> SpecOutcome<Seq<u8>> {
    if s.len() == 0 {
        SpecOutcome::Fail { e: ParseError::Incomplete }
    } else if s[0] != 0x7b {
        SpecOutcome::Fail { e: ParseError::Malformed }
    } else {
        match spec_number(s.skip(1)) {
            SpecOutcome::Done { v, n } => {
                let j = 1 + n;
                if j >= s.len() {
                    SpecOutcome::Fail { e: ParseError::Incomplete }
                } else if s[j] != 0x7d {
                    SpecOutcome::Fail { e: ParseError::Malformed }
                } else if j + 1 >= s.len() {
                    SpecOutcome::Fail { e: ParseError::Incomplete }
                } else if s[j + 1] != 0x0d {
                    SpecOutcome::Fail { e: ParseError::Malformed }
                } else if j + 2 >= s.len() {
                    SpecOutcome::Fail { e: ParseError::Incomplete }
                } else if s[j + 2] != 0x0a {
                    SpecOutcome::Fail { e: ParseError::Malformed }
                } else if j + 3 >= s.len() {
                    SpecOutcome::Fail { e: ParseError::HandshakeRequired }
                } else if s.len() - (j + 3) < v {
                    SpecOutcome::Fail { e: ParseError::Incomplete }
                } else if exists|q: int| j + 3 <= q < j + 3 + v && s[q] == 0 {
                    SpecOutcome::Fail { e: ParseError::Malformed }
                } else {
                    SpecOutcome::Done { v: s.subrange(j + 3, j + 3 + v), n: j + 3 + v }
                }
            },
            SpecOutcome::Fail { e } => SpecOutcome::Fail { e },
        }
    }
}

/// Parse a literal, returning its payload.
pub fn literal(input: &[u8]) -> (r: ParseResult<Vec<u8>>)
    ensures
        outcome_matches(r, spec_literal(input@)),
{
    if input.len() == 0 {
        return Err(ParseError::Incomplete);
    }
    if input[0] != 0x7b {
        return Err(ParseError::Malformed);
    }
    let sub = slice_subrange(input, 1, input.len());
    proof {
        assert(sub@ =~= input@.skip(1));
    }
    let (v, n) = match number(sub) {
        Ok(p) => p,
        Err(e) => {
            return Err(e);
        },
    };
    let j = 1 + n;
    if j >= input.len() {
        return Err(ParseError::Incomplete);
    }
    if input[j] != 0x7d {
        return Err(ParseError::Malformed);
    }
    if j + 1 >= input.len() {
        return Err(ParseError::Incomplete);
    }
    if input[j + 1] != 0x0d {
        return Err(ParseError::Malformed);
    }
    if j + 2 >= input.len() {
        return Err(ParseError::Incomplete);
    }
    if input[j + 2] != 0x0a {
        return Err(ParseError::Malformed);
    }
    let p = j + 3;
    if p >= input.len() {
        return Err(ParseError::HandshakeRequired);
    }
    if input.len() - p < v as usize {
        return Err(ParseError::Incomplete);
    }
    let end = p + v as usize;
    let mut out: Vec<u8> = Vec::new();
    let mut q = p;
    proof {
        assert(out@ =~= input@.subrange(p as int, p as int));
        assert(spec_literal(input@) == (if exists|t: int|
            p as int <= t < end as int && input@[t] == 0 {
            SpecOutcome::Fail::<Seq<u8>> { e: ParseError::Malformed }
        } else {
            SpecOutcome::Done::<Seq<u8>> {
                v: input@.subrange(p as int, end as int),
                n: end as int,
            }
        }));
    }
    while q < end
        invariant
            p <= q <= end <= input.len(),
            out@ == input@.subrange(p as int, q as int),
            forall|t: int| p <= t < q ==> input@[t] != 0,
            spec_literal(input@) == (if exists|t: int|
                p as int <= t < end as int && input@[t] == 0 {
                SpecOutcome::Fail::<Seq<u8>> { e: ParseError::Malformed }
            } else {
                SpecOutcome::Done::<Seq<u8>> {
                    v: input@.subrange(p as int, end as int),
                    n: end as int,
                }
            }),
        decreases end - q,
    {
        let b = input[q];
        if b == 0 {
            proof {
                assert(exists|t: int| p as int <= t < end as int && input@[t] == 0) by {
                    assert(input@[q as int] == 0);
                }
            }
            return Err(ParseError::Malformed);
        }
        out.push(b);
        proof {
            assert(input@.subrange(p as int, q + 1) =~= input@.subrange(p as int, q as int).push(
                input@[q as int],
            ));
        }
        q += 1;
    }
    proof {
        assert(!(exists|t: int| p as int <= t < end as int && input@[t] == 0));
    }
    Ok((out, end))
}

/// A successful `literal` consumes at least one byte and stays within the
/// buffer.
pub broadcast proof fn lemma_literal_done_bounds(s: Seq<u8>)
    ensures
        #[trigger] spec_literal(s) matches SpecOutcome::Done { v, n } ==> 1 <= n <= s.len(),
{
    broadcast use crate::number::lemma_number_done_bounds;

}

/// The wire form of a literal with the given payload.
pub open spec fn spec_literal_wire(data: Seq<u8>) -> Seq<u8> {
    seq![0x7bu8] + spec_dec_str(data.len() as int) + seq![0x7du8, 0x0du8, 0x0au8] + data
}

/// Encode a payload as a literal.
pub fn encode_literal(data: &[u8]) -> (r: Vec<u8>)
    requires
        data@.len() <= u32::MAX,
    ensures
        r@ == spec_literal_wire(data@),
{
    let mut out: Vec<u8> = Vec::new();
    out.push(0x7b);
    push_dec_u32(&mut out, data.len() as u32);
    out.push(0x7d);
    out.push(0x0d);
    out.push(0x0a);
    push_all(&mut out, data);
    proof {
        assert(out@ =~= spec_literal_wire(data@));
    }
    out
}

/// Literal round trip: a non-empty, NUL-free payload's encoding parses
/// back to exactly that payload, consuming the whole encoding.  (The
/// encoding of an empty payload instead asks for the handshake, because
/// nothing follows its announcement.)
pub proof fn lemma_literal_roundtrip(data: Seq<u8>)
    requires
        1 <= data.len() <= u32::MAX,
        forall|q: int| 0 <= q < data.len() ==> #[trigger] data[q] != 0,
    ensures
        spec_literal(spec_literal_wire(data)) == (SpecOutcome::Done {
            v: data,
            n: spec_literal_wire(data).len() as int,
        }),
{
    let w = spec_literal_wire(data);
    let d = spec_dec_str(data.len() as int);
    lemma_dec_str_props(data.len() as int);
    let rest = seq![0x7du8, 0x0du8, 0x0au8] + data;
    assert(w.len() == 1 + d.len() + 3 + data.len());
    assert(w[0] == 0x7b);
    assert(w.skip(1) =~= d + rest);
    assert(!spec_is_digit(rest[0]));
    lemma_number_accepts(data.len() as u32, rest);
    assert(spec_number(w.skip(1)) == (SpecOutcome::Done {
        v: data.len() as u32,
        n: d.len() as int,
    }));
    let n = d.len() as int;
    let j = 1 + n;
    assert(w[j] == w.skip(1)[n]);
    assert(w.skip(1)[n] == (d + rest)[n]);
    assert(w[j] == 0x7d);
    assert(w[j + 1] == (d + rest)[n + 1]);
    assert(w[j + 1] == 0x0d);
    assert(w[j + 2] == (d + rest)[n + 2]);
    assert(w[j + 2] == 0x0a);
    assert(j + 3 < w.len());
    assert(w.len() - (j + 3) == data.len());
    assert forall|q: int| j + 3 <= q < j + 3 + data.len() implies w[q] != 0 by {
        assert(w[q] == w.skip(1)[q - 1]);
        assert(w.skip(1)[q - 1] == (d + rest)[q - 1]);
        assert((d + rest)[q - 1] == rest[q - 1 - n]);
        assert(rest[q - 1 - n] == data[q - j - 3]);
    }
    assert(w.subrange(j + 3, j + 3 + data.len() as int) =~= data);
}

/// Literal round trip from the parsing side: whenever a literal parses to
/// a non-empty payload, the payload's encoding parses back to the same
/// payload with nothing left over.  (An empty payload is the one
/// exception: its encoding ends at the CRLF of the announcement, which is
/// exactly the handshake-required situation.)
pub proof fn lemma_literal_reparse(s: Seq<u8>, v: Seq<u8>, n: int)
    requires
        spec_literal(s) == (SpecOutcome::Done { v, n }),
        v.len() >= 1,
    ensures
        spec_literal(spec_literal_wire(v)) == (SpecOutcome::Done {
            v,
            n: spec_literal_wire(v).len() as int,
        }),
{
    broadcast use crate::number::lemma_number_done_bounds;

    match spec_number(s.skip(1)) {
        SpecOutcome::Done { v: count, n: nn } => {
            let p = 1 + nn + 3;
            assert(1 <= nn && nn < s.skip(1).len());
            assert(v == s.subrange(p, p + count));
            assert(v.len() == count);
            assert forall|q: int| 0 <= q < v.len() implies #[trigger] v[q] != 0 by {
                assert(v[q] == s[p + q]);
            }
            lemma_literal_roundtrip(v);
        },
        _ => {
            assert(false);
        },
    }
}

} // verus!
