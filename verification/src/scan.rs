//! The "longest run" scanner that most lexical rules are built on.
//!
//! `run_end(s, p)` is the length of the longest prefix of `s` whose bytes all
//! satisfy `p`.  The grammar specifications use it to describe `1*X`-style
//! rules, and the executable parsers prove their scanning loops against it.

use vstd::prelude::*;

use crate::chars::{
    spec_is_astring_char, spec_is_atom_char, spec_is_base64_char, spec_is_digit, spec_is_tag_char,
    spec_is_text_char,
};

verus! {

/// Length of the longest prefix of `s` whose bytes all satisfy `p`.
pub open spec fn run_end(s: Seq<u8>, p: spec_fn(u8) -> bool) -> int
    decreases s.len(),
{
    if s.len() == 0 || !p(s[0]) {
        0
    } else {
        1 + run_end(s.skip(1), p)
    }
}

/// The defining properties of `run_end`: it is in bounds, everything before
/// it satisfies `p`, and the byte at it (if any) does not.
pub broadcast proof fn lemma_run_end_bounds(s: Seq<u8>, p: spec_fn(u8) -> bool)
    ensures
        0 <= #[trigger] run_end(s, p) <= s.len(),
        forall|i: int| 0 <= i < run_end(s, p) ==> p(s[i]),
        run_end(s, p) < s.len() ==> !p(s[run_end(s, p)]),
    decreases s.len(),
{
    if s.len() != 0 && p(s[0]) {
        lemma_run_end_bounds(s.skip(1), p);
        assert forall|i: int| 0 <= i < run_end(s, p) implies p(s[i]) by {
            if i > 0 {
                assert(s.skip(1)[i - 1] == s[i]);
            }
        }
        if run_end(s, p) < s.len() {
            assert(s.skip(1)[run_end(s, p) - 1] == s[run_end(s, p)]);
        }
    }
}

/// An index with these three properties is `run_end`: the scanner that found
/// it has found the longest satisfying prefix.
pub proof fn lemma_run_end_is(s: Seq<u8>, p: spec_fn(u8) -> bool, j: int)
    requires
        0 <= j <= s.len(),
        forall|i: int| 0 <= i < j ==> p(s[i]),
        j < s.len() ==> !p(s[j]),
    ensures
        run_end(s, p) == j,
    decreases s.len(),
{
    if s.len() != 0 && p(s[0]) {
        assert forall|i: int| 0 <= i < j - 1 implies p(s.skip(1)[i]) by {
            assert(s.skip(1)[i] == s[i + 1]);
        }
        if j - 1 < s.skip(1).len() {
            assert(s.skip(1)[j - 1] == s[j]);
        }
        lemma_run_end_is(s.skip(1), p, j - 1);
    }
}

/// Copy the bytes of `input` between positions `a` and `b` into a fresh
/// owned vector.
pub fn copy_range(input: &[u8], a: usize, b: usize) -> (out: Vec<u8>)
    requires
        a <= b <= input.len(),
    ensures
        out@ == input@.subrange(a as int, b as int),
{
    let mut out: Vec<u8> = Vec::new();
    proof {
        assert(input@.subrange(a as int, a as int) =~= out@);
    }
    let mut q = a;
    while q < b
        invariant
            a <= q <= b <= input.len(),
            out@ == input@.subrange(a as int, q as int),
        decreases b - q,
    {
        out.push(input[q]);
        proof {
            assert(input@.subrange(a as int, q + 1) =~= input@.subrange(a as int, q as int).push(
                input@[q as int],
            ));
        }
        q += 1;
    }
    out
}

/// The digit class, as the scanner's predicate.
pub open spec fn digit_p() -> spec_fn(u8) -> bool {
    |c: u8| spec_is_digit(c)
}

/// The atom-character class, as the scanner's predicate.
pub open spec fn atom_p() -> spec_fn(u8) -> bool {
    |c: u8| spec_is_atom_char(c)
}

/// The astring-character class, as the scanner's predicate.
pub open spec fn astring_p() -> spec_fn(u8) -> bool {
    |c: u8| spec_is_astring_char(c)
}

/// The text-character class, as the scanner's predicate.
pub open spec fn text_p() -> spec_fn(u8) -> bool {
    |c: u8| spec_is_text_char(c)
}

/// The tag-character class, as the scanner's predicate.
pub open spec fn tag_p() -> spec_fn(u8) -> bool {
    |c: u8| spec_is_tag_char(c)
}

/// The base64 alphabet, as the scanner's predicate.
pub open spec fn base64_p() -> spec_fn(u8) -> bool {
    |c: u8| spec_is_base64_char(c)
}

} // verus!
