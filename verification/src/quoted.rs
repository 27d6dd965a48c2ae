//! `quoted = DQUOTE *QUOTED-CHAR DQUOTE`: quoted strings and their escapes.
//!
//! On the wire, `\"` and `\\` are the only legal escape pairs.  Parsing
//! replaces each pair by its literal character; encoding re-inserts a
//! backslash before every `"` and `\` of the content, and only those.

use vstd::prelude::*;

use crate::chars::{
    is_any_text_char_except_quoted_specials, is_quoted_specials, is_text_char,
    spec_is_any_text_char_except_quoted_specials, spec_is_quoted_specials, spec_is_text_char,
};
use crate::outcome::{lemma_vec_u8_deep_view, outcome_matches, ParseError, ParseResult, SpecOutcome};

verus! {

broadcast use lemma_vec_u8_deep_view;

/// Prefix a parsed byte string with already-decoded content.
pub open spec fn prepend(pre: Seq<u8>, o: SpecOutcome<Seq<u8>>) -> SpecOutcome<Seq<u8>> {
    match o {
        SpecOutcome::Done { v, n } => SpecOutcome::Done { v: pre + v, n },
        f => f,
    }
}

/// The run of quoted content from position `i` up to and including the
/// closing double quote, decoded: escape pairs are replaced by the escaped
/// character.  `n` of a successful outcome is the position just after the
/// closing quote.
pub open spec fn quoted_rest(s: Seq<u8>, i: int) -> SpecOutcome<Seq<u8>>
    decreases s.len() - i,
{
    if i >= s.len() {
        SpecOutcome::Fail { e: ParseError::Incomplete }
    } else if s[i] == 0x22 {
        SpecOutcome::Done { v: Seq::empty(), n: i + 1 }
    } else if spec_is_any_text_char_except_quoted_specials(s[i]) {
        prepend(seq![s[i]], quoted_rest(s, i + 1))
    } else if s[i] == 0x5c {
        if i + 1 >= s.len() {
            SpecOutcome::Fail { e: ParseError::Incomplete }
        } else if spec_is_quoted_specials(s[i + 1]) {
            prepend(seq![s[i + 1]], quoted_rest(s, i + 2))
        } else {
            SpecOutcome::Fail { e: ParseError::Malformed }
        }
    } else {
        SpecOutcome::Fail { e: ParseError::Malformed }
    }
}

/// `quoted = DQUOTE *QUOTED-CHAR DQUOTE`, decoded to its content.
pub open spec fn spec_quoted(s: Seq<u8>) -> SpecOutcome<Seq<u8>> {
    if s.len() == 0 {
        SpecOutcome::Fail { e: ParseError::Incomplete }
    } else if s[0] != 0x22 {
        SpecOutcome::Fail { e: ParseError::Malformed }
    } else {
        quoted_rest(s, 1)
    }
}

/// A successful quoted run ends after position `i` and within the buffer.
pub broadcast proof fn lemma_quoted_rest_bounds(s: Seq<u8>, i: int)
    ensures
        #[trigger] quoted_rest(s, i) matches SpecOutcome::Done { v, n } ==> i < n <= s.len(),
    decreases s.len() - i,
{
    if i < s.len() {
        lemma_quoted_rest_bounds(s, i + 1);
        if i + 1 < s.len() {
            lemma_quoted_rest_bounds(s, i + 2);
        }
    }
}

/// The decoded content of a successful quoted run is made of text
/// characters: whatever parsed can be encoded again.
pub proof fn lemma_quoted_rest_content(s: Seq<u8>, i: int, v: Seq<u8>, n: int)
    requires
        quoted_rest(s, i) == (SpecOutcome::Done { v, n }),
    ensures
        forall|q: int| 0 <= q < v.len() ==> spec_is_text_char(#[trigger] v[q]),
    decreases s.len() - i,
{
    if i >= s.len() {
    } else if s[i] == 0x22 {
    } else if spec_is_any_text_char_except_quoted_specials(s[i]) {
        match quoted_rest(s, i + 1) {
            SpecOutcome::Done { v: v2, n: n2 } => {
                lemma_quoted_rest_content(s, i + 1, v2, n2);
                assert(v == seq![s[i]] + v2);
                assert forall|q: int| 0 <= q < v.len() implies spec_is_text_char(v[q]) by {
                    if q > 0 {
                        assert(v[q] == v2[q - 1]);
                    }
                }
            },
            _ => {},
        }
    } else if s[i] == 0x5c && i + 1 < s.len() && spec_is_quoted_specials(s[i + 1]) {
        match quoted_rest(s, i + 2) {
            SpecOutcome::Done { v: v2, n: n2 } => {
                lemma_quoted_rest_content(s, i + 2, v2, n2);
                assert(v == seq![s[i + 1]] + v2);
                assert forall|q: int| 0 <= q < v.len() implies spec_is_text_char(v[q]) by {
                    if q > 0 {
                        assert(v[q] == v2[q - 1]);
                    }
                }
            },
            _ => {},
        }
    } else {
    }
}

/// Parse a quoted string, returning its decoded content.
pub fn quoted(input: &[u8]) -> (r: ParseResult<Vec<u8>>)
    ensures
        outcome_matches(r, spec_quoted(input@)),
{
    if input.len() == 0 {
        return Err(ParseError::Incomplete);
    }
    if input[0] != 0x22 {
        return Err(ParseError::Malformed);
    }
    let mut out: Vec<u8> = Vec::new();
    let mut i: usize = 1;
    proof {
        assert(spec_quoted(input@) == prepend(out@, quoted_rest(input@, 1))) by {
            match quoted_rest(input@, 1) {
                SpecOutcome::Done { v, n } => {
                    assert(Seq::<u8>::empty() + v =~= v);
                },
                _ => {},
            }
        }
    }
    loop
        invariant
            1 <= i <= input.len(),
            spec_quoted(input@) == prepend(out@, quoted_rest(input@, i as int)),
        decreases input.len() - i,
    {
        if i >= input.len() {
            return Err(ParseError::Incomplete);
        }
        let c = input[i];
        if c == 0x22 {
            proof {
                assert(out@ + Seq::<u8>::empty() =~= out@);
            }
            return Ok((out, i + 1));
        } else if is_any_text_char_except_quoted_specials(c) {
            let ghost pre = out@;
            out.push(c);
            i += 1;
            proof {
                assert(prepend(pre, quoted_rest(input@, i - 1)) == prepend(
                    out@,
                    quoted_rest(input@, i as int),
                )) by {
                    match quoted_rest(input@, i as int) {
                        SpecOutcome::Done { v, n } => {
                            assert(pre + (seq![c] + v) =~= out@ + v);
                        },
                        _ => {},
                    }
                }
            }
        } else if c == 0x5c {
            if i + 1 >= input.len() {
                return Err(ParseError::Incomplete);
            }
            let e = input[i + 1];
            if is_quoted_specials(e) {
                let ghost pre = out@;
                out.push(e);
                i += 2;
                proof {
                    assert(prepend(pre, quoted_rest(input@, i - 2)) == prepend(
                        out@,
                        quoted_rest(input@, i as int),
                    )) by {
                        match quoted_rest(input@, i as int) {
                            SpecOutcome::Done { v, n } => {
                                assert(pre + (seq![e] + v) =~= out@ + v);
                            },
                            _ => {},
                        }
                    }
                }
            } else {
                return Err(ParseError::Malformed);
            }
        } else {
            return Err(ParseError::Malformed);
        }
    }
}

/// `QUOTED-CHAR = <any TEXT-CHAR except quoted-specials> / "\" quoted-specials`.
pub open spec fn spec_quoted_char(s: Seq<u8>) -> SpecOutcome<u8> {
    if s.len() == 0 {
        SpecOutcome::Fail { e: ParseError::Incomplete }
    } else if spec_is_any_text_char_except_quoted_specials(s[0]) {
        SpecOutcome::Done { v: s[0], n: 1 }
    } else if s[0] == 0x5c {
        if s.len() < 2 {
            SpecOutcome::Fail { e: ParseError::Incomplete }
        } else if spec_is_quoted_specials(s[1]) {
            SpecOutcome::Done { v: s[1], n: 2 }
        } else {
            SpecOutcome::Fail { e: ParseError::Malformed }
        }
    } else {
        SpecOutcome::Fail { e: ParseError::Malformed }
    }
}

/// Parse a single quoted character, possibly escaped.
pub fn quoted_char(input: &[u8]) -> (r: ParseResult<u8>)
    ensures
        outcome_matches(r, spec_quoted_char(input@)),
{
    if input.len() == 0 {
        return Err(ParseError::Incomplete);
    }
    let c = input[0];
    if is_any_text_char_except_quoted_specials(c) {
        Ok((c, 1))
    } else if c == 0x5c {
        if input.len() < 2 {
            Err(ParseError::Incomplete)
        } else if is_quoted_specials(input[1]) {
            Ok((input[1], 2))
        } else {
            Err(ParseError::Malformed)
        }
    } else {
        Err(ParseError::Malformed)
    }
}

/// The escaped form of quoted-string content: a backslash is inserted
/// before every `"` and `\`, and nowhere else.
pub open spec fn spec_escape(content: Seq<u8>) -> Seq<u8>
    decreases content.len(),
{
    if content.len() == 0 {
        Seq::empty()
    } else {
        (if spec_is_quoted_specials(content[0]) {
            seq![0x5cu8, content[0]]
        } else {
            seq![content[0]]
        }) + spec_escape(content.skip(1))
    }
}

/// The full wire form of a quoted string with the given content.
pub open spec fn spec_quoted_wire(content: Seq<u8>) -> Seq<u8> {
    seq![0x22u8] + spec_escape(content) + seq![0x22u8]
}

/// Escaping distributes over concatenation.
pub proof fn lemma_escape_app(a: Seq<u8>, b: Seq<u8>)
    ensures
        spec_escape(a + b) == spec_escape(a) + spec_escape(b),
    decreases a.len(),
{
    if a.len() == 0 {
        assert(a + b =~= b);
        assert(spec_escape(a) + spec_escape(b) =~= spec_escape(b));
    } else {
        lemma_escape_app(a.skip(1), b);
        assert((a + b).skip(1) =~= a.skip(1) + b);
        assert((a + b)[0] == a[0]);
        let h = if spec_is_quoted_specials(a[0]) {
            seq![0x5cu8, a[0]]
        } else {
            seq![a[0]]
        };
        assert(h + (spec_escape(a.skip(1)) + spec_escape(b)) =~= (h + spec_escape(a.skip(1)))
            + spec_escape(b));
    }
}

/// Encode content as a quoted string, inserting the two legal escapes.
pub fn encode_quoted(content: &[u8]) -> (r: Vec<u8>)
    ensures
        r@ == spec_quoted_wire(content@),
{
    let mut out: Vec<u8> = Vec::new();
    out.push(0x22);
    proof {
        assert(content@.take(0) =~= Seq::<u8>::empty());
        assert(out@ =~= seq![0x22u8] + spec_escape(content@.take(0)));
    }
    let mut i: usize = 0;
    while i < content.len()
        invariant
            0 <= i <= content.len(),
            out@ == seq![0x22u8] + spec_escape(content@.take(i as int)),
        decreases content.len() - i,
    {
        let c = content[i];
        let ghost pre = content@.take(i as int);
        proof {
            assert(content@.take(i + 1) =~= pre + seq![c]);
            lemma_escape_app(pre, seq![c]);
            assert(seq![c].skip(1) =~= Seq::<u8>::empty());
            assert(spec_escape(Seq::<u8>::empty()) =~= Seq::<u8>::empty());
        }
        if is_quoted_specials(c) {
            out.push(0x5c);
            out.push(c);
            proof {
                assert(spec_escape(seq![c]) =~= seq![0x5cu8, c]);
                assert(out@ =~= seq![0x22u8] + spec_escape(content@.take(i + 1)));
            }
        } else {
            out.push(c);
            proof {
                assert(spec_escape(seq![c]) =~= seq![c]);
                assert(out@ =~= seq![0x22u8] + spec_escape(content@.take(i + 1)));
            }
        }
        i += 1;
    }
    out.push(0x22);
    proof {
        assert(content@.take(content@.len() as int) =~= content@);
        assert(out@ =~= spec_quoted_wire(content@));
    }
    out
}

/// Parsing the encoding of legal content, inside a larger buffer whose
/// remainder is exactly the wire form from position `i`, yields exactly
/// that content and stops at the closing quote.
proof fn lemma_quoted_rest_of_wire(s: Seq<u8>, i: int, content: Seq<u8>)
    requires
        0 <= i <= s.len(),
        forall|q: int| 0 <= q < content.len() ==> spec_is_text_char(#[trigger] content[q]),
        s.skip(i) == spec_escape(content) + seq![0x22u8],
    ensures
        quoted_rest(s, i) == (SpecOutcome::Done { v: content, n: s.len() as int }),
    decreases content.len(),
{
    if content.len() == 0 {
        assert(s.skip(i) =~= seq![0x22u8]);
        assert(s.len() - i == 1);
        assert(s[i] == s.skip(i)[0]);
        assert(Seq::<u8>::empty() =~= content);
    } else {
        let c = content[0];
        let tail = spec_escape(content.skip(1)) + seq![0x22u8];
        if spec_is_quoted_specials(c) {
            assert(spec_escape(content) == seq![0x5cu8, c] + spec_escape(content.skip(1)));
            assert(s.skip(i) =~= seq![0x5cu8, c] + tail);
            assert(s.skip(i).len() == s.len() - i);
            assert(s.skip(i).len() >= 3);
            assert(s[i] == s.skip(i)[0]);
            assert(s[i] == 0x5c);
            assert(s[i + 1] == s.skip(i)[1]);
            assert(s[i + 1] == c);
            assert forall|j: int| 0 <= j < s.len() - (i + 2) implies s.skip(i + 2)[j] == tail[j] by {
                assert(s.skip(i + 2)[j] == s[i + 2 + j]);
                assert(s.skip(i)[2 + j] == s[i + 2 + j]);
                assert(s.skip(i)[2 + j] == tail[j]);
            }
            assert(s.skip(i + 2) =~= tail);
            lemma_quoted_rest_of_wire(s, i + 2, content.skip(1));
            assert(seq![c] + content.skip(1) =~= content);
        } else {
            assert(spec_escape(content) == seq![c] + spec_escape(content.skip(1)));
            assert(s.skip(i) =~= seq![c] + tail);
            assert(s.skip(i).len() == s.len() - i);
            assert(s.skip(i).len() >= 2);
            assert(s[i] == s.skip(i)[0]);
            assert(s[i] == c);
            assert(spec_is_any_text_char_except_quoted_specials(c));
            assert forall|j: int| 0 <= j < s.len() - (i + 1) implies s.skip(i + 1)[j] == tail[j] by {
                assert(s.skip(i + 1)[j] == s[i + 1 + j]);
                assert(s.skip(i)[1 + j] == s[i + 1 + j]);
                assert(s.skip(i)[1 + j] == tail[j]);
            }
            assert(s.skip(i + 1) =~= tail);
            lemma_quoted_rest_of_wire(s, i + 1, content.skip(1));
            assert(seq![c] + content.skip(1) =~= content);
        }
    }
}

/// Quoted-string round trip: for every legal content (text characters,
/// i.e. no CR or LF, with `"` and `\` free to occur), decoding the encoding
/// gives the content back, consuming the whole encoding.
pub proof fn lemma_quoted_roundtrip(content: Seq<u8>)
    requires
        forall|q: int| 0 <= q < content.len() ==> spec_is_text_char(#[trigger] content[q]),
    ensures
        spec_quoted(spec_quoted_wire(content)) == (SpecOutcome::Done {
            v: content,
            n: spec_quoted_wire(content).len() as int,
        }),
{
    let w = spec_quoted_wire(content);
    assert(w[0] == 0x22);
    assert(w.skip(1) =~= spec_escape(content) + seq![0x22u8]);
    lemma_quoted_rest_of_wire(w, 1, content);
}

/// Round trip from the parsing side: whenever a quoted string parses, the
/// encoding of the parsed content parses back to the same content with
/// nothing left over.
pub proof fn lemma_quoted_reparse(s: Seq<u8>, v: Seq<u8>, n: int)
    requires
        spec_quoted(s) == (SpecOutcome::Done { v, n }),
    ensures
        spec_quoted(spec_quoted_wire(v)) == (SpecOutcome::Done {
            v,
            n: spec_quoted_wire(v).len() as int,
        }),
{
    assert(s.len() > 0 && s[0] == 0x22);
    assert(quoted_rest(s, 1) == (SpecOutcome::Done { v, n }));
    lemma_quoted_rest_content(s, 1, v, n);
    lemma_quoted_roundtrip(v);
}

} // verus!
