//! The three-way result discipline shared by every parser in the crate.
//!
//! A parser examines a byte buffer that holds a (possibly partial) prefix of
//! one protocol message.  It either succeeds, telling how many bytes it
//! consumed, or fails in one of three ways that the caller must keep apart:
//! buffer more bytes, reject the message, or run the continuation-request
//! handshake with the peer before any further bytes may legitimately arrive.

use vstd::prelude::*;

verus! {

/// How a parse attempt can fail.
#[derive(Debug, Clone, Copy, PartialEq, Eq, Structural)]
pub enum ParseError {
    /// The input is a valid prefix of a legal token, but more bytes are
    /// needed to finish it.  Retry with a larger buffer.
    Incomplete,
    /// The input can never form a legal token at this position.  Reject it.
    Malformed,
    /// A literal was announced and the current buffer holds none of its
    /// payload.  The caller must complete a continuation-request round trip
    /// with the peer before more bytes may be read.
    HandshakeRequired,
}

/// What a parser returns: the parsed value with the number of bytes it
/// consumed (the unconsumed remainder starts at that offset), or a failure.
pub type ParseResult<T> = Result<(T, usize), ParseError>;

/// The outcome a parser is specified to have on a given input, stated over
/// the mathematical views of the parsed values.
pub enum SpecOutcome<V> {
    Done { v: V, n: int },
    Fail { e: ParseError },
}

/// Relates a parser's executable result to its specified outcome.
pub open spec fn outcome_matches<T: DeepView>(
    r: ParseResult<T>,
    o: SpecOutcome<<T as DeepView>::V>,
) -> bool {
    match r {
        Ok((v, n)) => o == (SpecOutcome::Done { v: v.deep_view(), n: n as int }),
        Err(e) => o == (SpecOutcome::Fail::<<T as DeepView>::V> { e }),
    }
}

/// A vector of bytes views the same sequence deeply and shallowly.
pub broadcast proof fn lemma_vec_u8_deep_view(v: Vec<u8>)
    ensures
        #[trigger] v.deep_view() == v@,
{
    assert(v.deep_view() =~= v@);
}

} // verus!
