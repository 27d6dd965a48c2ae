//! `number` and `nz-number`: unsigned 32-bit integers written as `1*DIGIT`.

use vstd::prelude::*;

use crate::chars::{is_digit, spec_is_digit};
use crate::outcome::{outcome_matches, ParseError, ParseResult, SpecOutcome};
use crate::scan::{digit_p, lemma_run_end_bounds, lemma_run_end_is, run_end};

verus! {

broadcast use lemma_run_end_bounds;

/// The value of a digit string read in base 10.
pub open spec fn dec_val(s: Seq<u8>) -> int
    decreases s.len(),
{
    if s.len() == 0 {
        0
    } else {
        10 * dec_val(s.drop_last()) + (s.last() - 0x30)
    }
}

/// The base-10 digit string of a non-negative integer, most significant
/// digit first, with no leading zero except for the number 0 itself.
pub open spec fn spec_dec_str(n: int) -> Seq<u8>
    recommends
        0 <= n,
    decreases n,
{
    if n <= 9 {
        seq![(0x30 + n) as u8]
    } else {
        spec_dec_str(n / 10).push((0x30 + n % 10) as u8)
    }
}

/// `number = 1*DIGIT`, valued as an unsigned 32-bit integer.
///
/// A buffer that is all digits may still be a prefix of a longer number, so
/// it is incomplete, not done.  A digit run whose value exceeds the 32-bit
/// range can never become legal by reading further, so it is malformed.
pub open spec fn spec_number(s: Seq<u8>) -> SpecOutcome<u32> {
    let k = run_end(s, digit_p());
    if k >= s.len() {
        SpecOutcome::Fail { e: ParseError::Incomplete }
    } else if k == 0 {
        SpecOutcome::Fail { e: ParseError::Malformed }
    } else if dec_val(s.take(k)) > u32::MAX {
        SpecOutcome::Fail { e: ParseError::Malformed }
    } else {
        SpecOutcome::Done { v: dec_val(s.take(k)) as u32, n: k }
    }
}

/// `nz-number = digit-nz *DIGIT`: a `number` whose value is not zero.
/// The value 0 is a defined failure, not a panic.
pub open spec fn spec_nz_number(s: Seq<u8>) -> SpecOutcome<u32> {
    match spec_number(s) {
        SpecOutcome::Done { v, n } => {
            if v == 0 {
                SpecOutcome::Fail { e: ParseError::Malformed }
            } else {
                SpecOutcome::Done { v, n }
            }
        },
        f => f,
    }
}

/// A successful `number` consumes at least one byte and never the whole
/// buffer (the byte after the digit run was seen and is not a digit).
pub broadcast proof fn lemma_number_done_bounds(s: Seq<u8>)
    ensures
        #[trigger] spec_number(s) matches SpecOutcome::Done { v, n } ==> 1 <= n < s.len(),
{
    broadcast use lemma_run_end_bounds;

}

/// Like `lemma_number_done_bounds`, for `nz-number`.
pub broadcast proof fn lemma_nz_number_done_bounds(s: Seq<u8>)
    ensures
        #[trigger] spec_nz_number(s) matches SpecOutcome::Done { v, n } ==> 1 <= n < s.len(),
{
    lemma_number_done_bounds(s);
}

/// A digit string's value is non-negative.
pub proof fn lemma_dec_val_nonneg(s: Seq<u8>)
    requires
        forall|i: int| 0 <= i < s.len() ==> spec_is_digit(#[trigger] s[i]),
    ensures
        dec_val(s) >= 0,
    decreases s.len(),
{
    if s.len() > 0 {
        lemma_dec_val_nonneg(s.drop_last());
    }
}

/// Reading further digits never decreases the value.
pub proof fn lemma_dec_val_mono(s: Seq<u8>, i: int, j: int)
    requires
        0 <= i <= j <= s.len(),
        forall|q: int| 0 <= q < j ==> spec_is_digit(#[trigger] s[q]),
    ensures
        dec_val(s.take(i)) <= dec_val(s.take(j)),
    decreases j - i,
{
    if i < j {
        lemma_dec_val_mono(s, i, j - 1);
        let t = s.take(j);
        assert(t.drop_last() =~= s.take(j - 1));
        assert(forall|q: int| 0 <= q < t.drop_last().len() ==> spec_is_digit(
            #[trigger] t.drop_last()[q],
        ));
        lemma_dec_val_nonneg(t.drop_last());
    }
}

/// The digit string of `n` is made of digits and reads back as `n`.
pub proof fn lemma_dec_str_props(n: int)
    requires
        0 <= n,
    ensures
        spec_dec_str(n).len() >= 1,
        forall|i: int| 0 <= i < spec_dec_str(n).len() ==> spec_is_digit(#[trigger] spec_dec_str(n)[i]),
        dec_val(spec_dec_str(n)) == n,
    decreases n,
{
    if n <= 9 {
        let d = spec_dec_str(n);
        assert(d.drop_last() =~= Seq::<u8>::empty());
        assert(dec_val(Seq::<u8>::empty()) == 0);
    } else {
        lemma_dec_str_props(n / 10);
        let d = spec_dec_str(n);
        assert(d == spec_dec_str(n / 10).push((0x30 + n % 10) as u8));
        assert(d.len() == spec_dec_str(n / 10).len() + 1);
        assert(d.drop_last() =~= spec_dec_str(n / 10));
        assert(0 <= n % 10 < 10);
        assert(d.last() == (0x30 + n % 10) as u8);
        assert(dec_val(d) == 10 * dec_val(d.drop_last()) + (d.last() - 0x30));
        assert(10 * (n / 10) + n % 10 == n);
    }
}

/// `number` accepts the digit string of every 32-bit value, provided the
/// next byte shows the run has ended.
pub proof fn lemma_number_accepts(v: u32, rest: Seq<u8>)
    requires
        rest.len() >= 1,
        !spec_is_digit(rest[0]),
    ensures
        spec_number(spec_dec_str(v as int) + rest) == (SpecOutcome::Done {
            v,
            n: spec_dec_str(v as int).len() as int,
        }),
{
    let d = spec_dec_str(v as int);
    let s = d + rest;
    lemma_dec_str_props(v as int);
    assert forall|i: int| 0 <= i < d.len() implies digit_p()(s[i]) by {
        assert(s[i] == d[i]);
    }
    assert(s[d.len() as int] == rest[0]);
    lemma_run_end_is(s, digit_p(), d.len() as int);
    assert(s.take(d.len() as int) =~= d);
}

/// `nz-number` accepts the digit string of every non-zero 32-bit value (and
/// of no other value): the non-zero rejection law's positive half.
pub proof fn lemma_nz_number_accepts(v: u32, rest: Seq<u8>)
    requires
        v >= 1,
        rest.len() >= 1,
        !spec_is_digit(rest[0]),
    ensures
        spec_nz_number(spec_dec_str(v as int) + rest) == (SpecOutcome::Done {
            v,
            n: spec_dec_str(v as int).len() as int,
        }),
{
    lemma_number_accepts(v, rest);
}

/// Parse `number = 1*DIGIT` as an unsigned 32-bit integer.
pub fn number(input: &[u8]) -> (r: ParseResult<u32>)
    ensures
        outcome_matches(r, spec_number(input@)),
{
    let s = Ghost(input@);
    let mut j: usize = 0;
    while j < input.len() && is_digit(input[j])
        invariant
            0 <= j <= input.len(),
            s@ == input@,
            forall|i: int| 0 <= i < j ==> digit_p()(s@[i]),
        decreases input.len() - j,
    {
        j += 1;
    }
    proof {
        lemma_run_end_is(s@, digit_p(), j as int);
    }
    if j == input.len() {
        return Err(ParseError::Incomplete);
    }
    if j == 0 {
        return Err(ParseError::Malformed);
    }
    let mut acc: u32 = 0;
    let mut i: usize = 0;
    while i < j
        invariant
            0 <= i <= j < input.len(),
            s@ == input@,
            run_end(s@, digit_p()) == j,
            forall|q: int| 0 <= q < j ==> digit_p()(s@[q]),
            acc == dec_val(s@.take(i as int)),
        decreases j - i,
    {
        let ghost t = s@.take(i + 1);
        proof {
            assert(t.drop_last() =~= s@.take(i as int));
            assert(t.last() == s@[i as int]);
        }
        let d = input[i] - 0x30;
        if acc > (u32::MAX - d as u32) / 10 {
            proof {
                assert(10 * (acc as int) + d > u32::MAX) by {
                    let m = u32::MAX - d;
                    assert(acc as int >= m as int / 10 + 1);
                    assert(10 * (m as int / 10) + m as int % 10 == m as int);
                    assert(10 * (acc as int) >= 10 * (m as int / 10) + 10);
                }
                assert(dec_val(s@.take(i + 1)) > u32::MAX);
                lemma_dec_val_mono(s@, i + 1, j as int);
            }
            return Err(ParseError::Malformed);
        }
        proof {
            let m = u32::MAX - d;
            assert(10 * (acc as int) <= 10 * (m as int / 10));
            assert(10 * (m as int / 10) + m as int % 10 == m as int);
            assert(10 * (acc as int) + d <= u32::MAX);
            assert(dec_val(t) == 10 * (acc as int) + d);
        }
        acc = acc * 10 + d as u32;
        i += 1;
    }
    proof {
        assert(s@.take(j as int) == s@.take(j as int));
    }
    Ok((acc, j))
}

/// Parse `nz-number = digit-nz *DIGIT`, rejecting the value 0 as malformed.
pub fn nz_number(input: &[u8]) -> (r: ParseResult<u32>)
    ensures
        outcome_matches(r, spec_nz_number(input@)),
{
    match number(input) {
        Ok((v, n)) => {
            if v == 0 {
                Err(ParseError::Malformed)
            } else {
                Ok((v, n))
            }
        },
        Err(e) => Err(e),
    }
}

} // verus!
