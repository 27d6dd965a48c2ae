//! The fixed keywords of the response wire forms, as byte sequences, with
//! verified helpers that append them to an output buffer.

use vstd::prelude::*;

use crate::wire::push_all;

verus! {

/// The bytes of `OK`.
pub open spec fn kw_ok() -> Seq<u8> {
    seq![0x4fu8, 0x4b]
}

/// The bytes of `NO`.
pub open spec fn kw_no() -> Seq<u8> {
    seq![0x4eu8, 0x4f]
}

/// The bytes of `BAD`.
pub open spec fn kw_bad() -> Seq<u8> {
    seq![0x42u8, 0x41, 0x44]
}

/// The bytes of `PREAUTH`.
pub open spec fn kw_preauth() -> Seq<u8> {
    seq![0x50u8, 0x52, 0x45, 0x41, 0x55, 0x54, 0x48]
}

/// The bytes of `BYE`.
pub open spec fn kw_bye() -> Seq<u8> {
    seq![0x42u8, 0x59, 0x45]
}

/// The bytes of `ALERT`.
pub open spec fn kw_alert() -> Seq<u8> {
    seq![0x41u8, 0x4c, 0x45, 0x52, 0x54]
}

/// Append `ALERT` to `out`.
pub fn put_alert(out: &mut Vec<u8>)
    ensures
        final(out)@ == old(out)@ + kw_alert(),
{
    let kw: [u8; 5] = [0x41, 0x4c, 0x45, 0x52, 0x54];
    proof {
        assert(kw@ =~= kw_alert());
    }
    push_all(out, kw.as_slice());
}

/// The bytes of `BADCHARSET`.
pub open spec fn kw_badcharset() -> Seq<u8> {
    seq![0x42u8, 0x41, 0x44, 0x43, 0x48, 0x41, 0x52, 0x53, 0x45, 0x54]
}

/// Append `BADCHARSET` to `out`.
pub fn put_badcharset(out: &mut Vec<u8>)
    ensures
        final(out)@ == old(out)@ + kw_badcharset(),
{
    let kw: [u8; 10] = [0x42, 0x41, 0x44, 0x43, 0x48, 0x41, 0x52, 0x53, 0x45, 0x54];
    proof {
        assert(kw@ =~= kw_badcharset());
    }
    push_all(out, kw.as_slice());
}

/// The bytes of `CAPABILITY`.
pub open spec fn kw_capability() -> Seq<u8> {
    seq![0x43u8, 0x41, 0x50, 0x41, 0x42, 0x49, 0x4c, 0x49, 0x54, 0x59]
}

/// Append `CAPABILITY` to `out`.
pub fn put_capability(out: &mut Vec<u8>)
    ensures
        final(out)@ == old(out)@ + kw_capability(),
{
    let kw: [u8; 10] = [0x43, 0x41, 0x50, 0x41, 0x42, 0x49, 0x4c, 0x49, 0x54, 0x59];
    proof {
        assert(kw@ =~= kw_capability());
    }
    push_all(out, kw.as_slice());
}

/// The bytes of `PARSE`.
pub open spec fn kw_parse() -> Seq<u8> {
    seq![0x50u8, 0x41, 0x52, 0x53, 0x45]
}

/// Append `PARSE` to `out`.
pub fn put_parse(out: &mut Vec<u8>)
    ensures
        final(out)@ == old(out)@ + kw_parse(),
{
    let kw: [u8; 5] = [0x50, 0x41, 0x52, 0x53, 0x45];
    proof {
        assert(kw@ =~= kw_parse());
    }
    push_all(out, kw.as_slice());
}

/// The bytes of `PERMANENTFLAGS`.
pub open spec fn kw_permanentflags() -> Seq<u8> {
    seq![0x50u8, 0x45, 0x52, 0x4d, 0x41, 0x4e, 0x45, 0x4e, 0x54, 0x46, 0x4c, 0x41, 0x47, 0x53]
}

/// Append `PERMANENTFLAGS` to `out`.
pub fn put_permanentflags(out: &mut Vec<u8>)
    ensures
        final(out)@ == old(out)@ + kw_permanentflags(),
{
    let kw: [u8; 14] = [0x50, 0x45, 0x52, 0x4d, 0x41, 0x4e, 0x45, 0x4e, 0x54, 0x46, 0x4c, 0x41, 0x47, 0x53];
    proof {
        assert(kw@ =~= kw_permanentflags());
    }
    push_all(out, kw.as_slice());
}

/// The bytes of `READ-ONLY`.
pub open spec fn kw_read_only() -> Seq<u8> {
    seq![0x52u8, 0x45, 0x41, 0x44, 0x2d, 0x4f, 0x4e, 0x4c, 0x59]
}

/// Append `READ-ONLY` to `out`.
pub fn put_read_only(out: &mut Vec<u8>)
    ensures
        final(out)@ == old(out)@ + kw_read_only(),
{
    let kw: [u8; 9] = [0x52, 0x45, 0x41, 0x44, 0x2d, 0x4f, 0x4e, 0x4c, 0x59];
    proof {
        assert(kw@ =~= kw_read_only());
    }
    push_all(out, kw.as_slice());
}

/// The bytes of `READ-WRITE`.
pub open spec fn kw_read_write() -> Seq<u8> {
    seq![0x52u8, 0x45, 0x41, 0x44, 0x2d, 0x57, 0x52, 0x49, 0x54, 0x45]
}

/// Append `READ-WRITE` to `out`.
pub fn put_read_write(out: &mut Vec<u8>)
    ensures
        final(out)@ == old(out)@ + kw_read_write(),
{
    let kw: [u8; 10] = [0x52, 0x45, 0x41, 0x44, 0x2d, 0x57, 0x52, 0x49, 0x54, 0x45];
    proof {
        assert(kw@ =~= kw_read_write());
    }
    push_all(out, kw.as_slice());
}

/// The bytes of `TRYCREATE`.
pub open spec fn kw_trycreate() -> Seq<u8> {
    seq![0x54u8, 0x52, 0x59, 0x43, 0x52, 0x45, 0x41, 0x54, 0x45]
}

/// Append `TRYCREATE` to `out`.
pub fn put_trycreate(out: &mut Vec<u8>)
    ensures
        final(out)@ == old(out)@ + kw_trycreate(),
{
    let kw: [u8; 9] = [0x54, 0x52, 0x59, 0x43, 0x52, 0x45, 0x41, 0x54, 0x45];
    proof {
        assert(kw@ =~= kw_trycreate());
    }
    push_all(out, kw.as_slice());
}

/// The bytes of `UIDNEXT`.
pub open spec fn kw_uidnext() -> Seq<u8> {
    seq![0x55u8, 0x49, 0x44, 0x4e, 0x45, 0x58, 0x54]
}

/// Append `UIDNEXT` to `out`.
pub fn put_uidnext(out: &mut Vec<u8>)
    ensures
        final(out)@ == old(out)@ + kw_uidnext(),
{
    let kw: [u8; 7] = [0x55, 0x49, 0x44, 0x4e, 0x45, 0x58, 0x54];
    proof {
        assert(kw@ =~= kw_uidnext());
    }
    push_all(out, kw.as_slice());
}

/// The bytes of `UIDVALIDITY`.
pub open spec fn kw_uidvalidity() -> Seq<u8> {
    seq![0x55u8, 0x49, 0x44, 0x56, 0x41, 0x4c, 0x49, 0x44, 0x49, 0x54, 0x59]
}

/// Append `UIDVALIDITY` to `out`.
pub fn put_uidvalidity(out: &mut Vec<u8>)
    ensures
        final(out)@ == old(out)@ + kw_uidvalidity(),
{
    let kw: [u8; 11] = [0x55, 0x49, 0x44, 0x56, 0x41, 0x4c, 0x49, 0x44, 0x49, 0x54, 0x59];
    proof {
        assert(kw@ =~= kw_uidvalidity());
    }
    push_all(out, kw.as_slice());
}

/// The bytes of `UNSEEN`.
pub open spec fn kw_unseen() -> Seq<u8> {
    seq![0x55u8, 0x4e, 0x53, 0x45, 0x45, 0x4e]
}

/// Append `UNSEEN` to `out`.
pub fn put_unseen(out: &mut Vec<u8>)
    ensures
        final(out)@ == old(out)@ + kw_unseen(),
{
    let kw: [u8; 6] = [0x55, 0x4e, 0x53, 0x45, 0x45, 0x4e];
    proof {
        assert(kw@ =~= kw_unseen());
    }
    push_all(out, kw.as_slice());
}

/// The bytes of `REFERRAL`.
pub open spec fn kw_referral() -> Seq<u8> {
    seq![0x52u8, 0x45, 0x46, 0x45, 0x52, 0x52, 0x41, 0x4c]
}

/// Append `REFERRAL` to `out`.
pub fn put_referral(out: &mut Vec<u8>)
    ensures
        final(out)@ == old(out)@ + kw_referral(),
{
    let kw: [u8; 8] = [0x52, 0x45, 0x46, 0x45, 0x52, 0x52, 0x41, 0x4c];
    proof {
        assert(kw@ =~= kw_referral());
    }
    push_all(out, kw.as_slice());
}

/// The bytes of `LIST`.
pub open spec fn kw_list() -> Seq<u8> {
    seq![0x4cu8, 0x49, 0x53, 0x54]
}

/// Append `LIST` to `out`.
pub fn put_list(out: &mut Vec<u8>)
    ensures
        final(out)@ == old(out)@ + kw_list(),
{
    let kw: [u8; 4] = [0x4c, 0x49, 0x53, 0x54];
    proof {
        assert(kw@ =~= kw_list());
    }
    push_all(out, kw.as_slice());
}

/// The bytes of `LSUB`.
pub open spec fn kw_lsub() -> Seq<u8> {
    seq![0x4cu8, 0x53, 0x55, 0x42]
}

/// Append `LSUB` to `out`.
pub fn put_lsub(out: &mut Vec<u8>)
    ensures
        final(out)@ == old(out)@ + kw_lsub(),
{
    let kw: [u8; 4] = [0x4c, 0x53, 0x55, 0x42];
    proof {
        assert(kw@ =~= kw_lsub());
    }
    push_all(out, kw.as_slice());
}

/// The bytes of `STATUS`.
pub open spec fn kw_status() -> Seq<u8> {
    seq![0x53u8, 0x54, 0x41, 0x54, 0x55, 0x53]
}

/// Append `STATUS` to `out`.
pub fn put_status(out: &mut Vec<u8>)
    ensures
        final(out)@ == old(out)@ + kw_status(),
{
    let kw: [u8; 6] = [0x53, 0x54, 0x41, 0x54, 0x55, 0x53];
    proof {
        assert(kw@ =~= kw_status());
    }
    push_all(out, kw.as_slice());
}

/// The bytes of `SEARCH`.
pub open spec fn kw_search() -> Seq<u8> {
    seq![0x53u8, 0x45, 0x41, 0x52, 0x43, 0x48]
}

/// Append `SEARCH` to `out`.
pub fn put_search(out: &mut Vec<u8>)
    ensures
        final(out)@ == old(out)@ + kw_search(),
{
    let kw: [u8; 6] = [0x53, 0x45, 0x41, 0x52, 0x43, 0x48];
    proof {
        assert(kw@ =~= kw_search());
    }
    push_all(out, kw.as_slice());
}

/// The bytes of `FLAGS`.
pub open spec fn kw_flags() -> Seq<u8> {
    seq![0x46u8, 0x4c, 0x41, 0x47, 0x53]
}

/// Append `FLAGS` to `out`.
pub fn put_flags(out: &mut Vec<u8>)
    ensures
        final(out)@ == old(out)@ + kw_flags(),
{
    let kw: [u8; 5] = [0x46, 0x4c, 0x41, 0x47, 0x53];
    proof {
        assert(kw@ =~= kw_flags());
    }
    push_all(out, kw.as_slice());
}

/// The bytes of `EXISTS`.
pub open spec fn kw_exists() -> Seq<u8> {
    seq![0x45u8, 0x58, 0x49, 0x53, 0x54, 0x53]
}

/// Append `EXISTS` to `out`.
pub fn put_exists(out: &mut Vec<u8>)
    ensures
        final(out)@ == old(out)@ + kw_exists(),
{
    let kw: [u8; 6] = [0x45, 0x58, 0x49, 0x53, 0x54, 0x53];
    proof {
        assert(kw@ =~= kw_exists());
    }
    push_all(out, kw.as_slice());
}

/// The bytes of `RECENT`.
pub open spec fn kw_recent() -> Seq<u8> {
    seq![0x52u8, 0x45, 0x43, 0x45, 0x4e, 0x54]
}

/// Append `RECENT` to `out`.
pub fn put_recent(out: &mut Vec<u8>)
    ensures
        final(out)@ == old(out)@ + kw_recent(),
{
    let kw: [u8; 6] = [0x52, 0x45, 0x43, 0x45, 0x4e, 0x54];
    proof {
        assert(kw@ =~= kw_recent());
    }
    push_all(out, kw.as_slice());
}

/// The bytes of `EXPUNGE`.
pub open spec fn kw_expunge() -> Seq<u8> {
    seq![0x45u8, 0x58, 0x50, 0x55, 0x4e, 0x47, 0x45]
}

/// Append `EXPUNGE` to `out`.
pub fn put_expunge(out: &mut Vec<u8>)
    ensures
        final(out)@ == old(out)@ + kw_expunge(),
{
    let kw: [u8; 7] = [0x45, 0x58, 0x50, 0x55, 0x4e, 0x47, 0x45];
    proof {
        assert(kw@ =~= kw_expunge());
    }
    push_all(out, kw.as_slice());
}

/// The bytes of `FETCH`.
pub open spec fn kw_fetch() -> Seq<u8> {
    seq![0x46u8, 0x45, 0x54, 0x43, 0x48]
}

/// Append `FETCH` to `out`.
pub fn put_fetch(out: &mut Vec<u8>)
    ensures
        final(out)@ == old(out)@ + kw_fetch(),
{
    let kw: [u8; 5] = [0x46, 0x45, 0x54, 0x43, 0x48];
    proof {
        assert(kw@ =~= kw_fetch());
    }
    push_all(out, kw.as_slice());
}

/// The bytes of `MESSAGES`.
pub open spec fn kw_messages() -> Seq<u8> {
    seq![0x4du8, 0x45, 0x53, 0x53, 0x41, 0x47, 0x45, 0x53]
}

/// Append `MESSAGES` to `out`.
pub fn put_messages(out: &mut Vec<u8>)
    ensures
        final(out)@ == old(out)@ + kw_messages(),
{
    let kw: [u8; 8] = [0x4d, 0x45, 0x53, 0x53, 0x41, 0x47, 0x45, 0x53];
    proof {
        assert(kw@ =~= kw_messages());
    }
    push_all(out, kw.as_slice());
}

/// The bytes of `RFC822`.
pub open spec fn kw_rfc822() -> Seq<u8> {
    seq![0x52u8, 0x46, 0x43, 0x38, 0x32, 0x32]
}

/// Append `RFC822` to `out`.
pub fn put_rfc822(out: &mut Vec<u8>)
    ensures
        final(out)@ == old(out)@ + kw_rfc822(),
{
    let kw: [u8; 6] = [0x52, 0x46, 0x43, 0x38, 0x32, 0x32];
    proof {
        assert(kw@ =~= kw_rfc822());
    }
    push_all(out, kw.as_slice());
}

/// The bytes of `RFC822.HEADER`.
pub open spec fn kw_rfc822_header() -> Seq<u8> {
    seq![0x52u8, 0x46, 0x43, 0x38, 0x32, 0x32, 0x2e, 0x48, 0x45, 0x41, 0x44, 0x45, 0x52]
}

/// Append `RFC822.HEADER` to `out`.
pub fn put_rfc822_header(out: &mut Vec<u8>)
    ensures
        final(out)@ == old(out)@ + kw_rfc822_header(),
{
    let kw: [u8; 13] = [0x52, 0x46, 0x43, 0x38, 0x32, 0x32, 0x2e, 0x48, 0x45, 0x41, 0x44, 0x45, 0x52];
    proof {
        assert(kw@ =~= kw_rfc822_header());
    }
    push_all(out, kw.as_slice());
}

/// The bytes of `RFC822.SIZE`.
pub open spec fn kw_rfc822_size() -> Seq<u8> {
    seq![0x52u8, 0x46, 0x43, 0x38, 0x32, 0x32, 0x2e, 0x53, 0x49, 0x5a, 0x45]
}

/// Append `RFC822.SIZE` to `out`.
pub fn put_rfc822_size(out: &mut Vec<u8>)
    ensures
        final(out)@ == old(out)@ + kw_rfc822_size(),
{
    let kw: [u8; 11] = [0x52, 0x46, 0x43, 0x38, 0x32, 0x32, 0x2e, 0x53, 0x49, 0x5a, 0x45];
    proof {
        assert(kw@ =~= kw_rfc822_size());
    }
    push_all(out, kw.as_slice());
}

/// The bytes of `RFC822.TEXT`.
pub open spec fn kw_rfc822_text() -> Seq<u8> {
    seq![0x52u8, 0x46, 0x43, 0x38, 0x32, 0x32, 0x2e, 0x54, 0x45, 0x58, 0x54]
}

/// Append `RFC822.TEXT` to `out`.
pub fn put_rfc822_text(out: &mut Vec<u8>)
    ensures
        final(out)@ == old(out)@ + kw_rfc822_text(),
{
    let kw: [u8; 11] = [0x52, 0x46, 0x43, 0x38, 0x32, 0x32, 0x2e, 0x54, 0x45, 0x58, 0x54];
    proof {
        assert(kw@ =~= kw_rfc822_text());
    }
    push_all(out, kw.as_slice());
}

/// The bytes of `UID`.
pub open spec fn kw_uid() -> Seq<u8> {
    seq![0x55u8, 0x49, 0x44]
}

/// Append `UID` to `out`.
pub fn put_uid(out: &mut Vec<u8>)
    ensures
        final(out)@ == old(out)@ + kw_uid(),
{
    let kw: [u8; 3] = [0x55, 0x49, 0x44];
    proof {
        assert(kw@ =~= kw_uid());
    }
    push_all(out, kw.as_slice());
}

/// The bytes of `Answered`.
pub open spec fn kw_answered() -> Seq<u8> {
    seq![0x41u8, 0x6e, 0x73, 0x77, 0x65, 0x72, 0x65, 0x64]
}

/// Append `Answered` to `out`.
pub fn put_answered(out: &mut Vec<u8>)
    ensures
        final(out)@ == old(out)@ + kw_answered(),
{
    let kw: [u8; 8] = [0x41, 0x6e, 0x73, 0x77, 0x65, 0x72, 0x65, 0x64];
    proof {
        assert(kw@ =~= kw_answered());
    }
    push_all(out, kw.as_slice());
}

/// The bytes of `Flagged`.
pub open spec fn kw_flagged() -> Seq<u8> {
    seq![0x46u8, 0x6c, 0x61, 0x67, 0x67, 0x65, 0x64]
}

/// Append `Flagged` to `out`.
pub fn put_flagged(out: &mut Vec<u8>)
    ensures
        final(out)@ == old(out)@ + kw_flagged(),
{
    let kw: [u8; 7] = [0x46, 0x6c, 0x61, 0x67, 0x67, 0x65, 0x64];
    proof {
        assert(kw@ =~= kw_flagged());
    }
    push_all(out, kw.as_slice());
}

/// The bytes of `Deleted`.
pub open spec fn kw_deleted() -> Seq<u8> {
    seq![0x44u8, 0x65, 0x6c, 0x65, 0x74, 0x65, 0x64]
}

/// Append `Deleted` to `out`.
pub fn put_deleted(out: &mut Vec<u8>)
    ensures
        final(out)@ == old(out)@ + kw_deleted(),
{
    let kw: [u8; 7] = [0x44, 0x65, 0x6c, 0x65, 0x74, 0x65, 0x64];
    proof {
        assert(kw@ =~= kw_deleted());
    }
    push_all(out, kw.as_slice());
}

/// The bytes of `Seen`.
pub open spec fn kw_seen() -> Seq<u8> {
    seq![0x53u8, 0x65, 0x65, 0x6e]
}

/// Append `Seen` to `out`.
pub fn put_seen(out: &mut Vec<u8>)
    ensures
        final(out)@ == old(out)@ + kw_seen(),
{
    let kw: [u8; 4] = [0x53, 0x65, 0x65, 0x6e];
    proof {
        assert(kw@ =~= kw_seen());
    }
    push_all(out, kw.as_slice());
}

/// The bytes of `Draft`.
pub open spec fn kw_draft() -> Seq<u8> {
    seq![0x44u8, 0x72, 0x61, 0x66, 0x74]
}

/// Append `Draft` to `out`.
pub fn put_draft(out: &mut Vec<u8>)
    ensures
        final(out)@ == old(out)@ + kw_draft(),
{
    let kw: [u8; 5] = [0x44, 0x72, 0x61, 0x66, 0x74];
    proof {
        assert(kw@ =~= kw_draft());
    }
    push_all(out, kw.as_slice());
}

/// The bytes of `Recent`.
pub open spec fn kw_recent_flag() -> Seq<u8> {
    seq![0x52u8, 0x65, 0x63, 0x65, 0x6e, 0x74]
}

/// Append `Recent` to `out`.
pub fn put_recent_flag(out: &mut Vec<u8>)
    ensures
        final(out)@ == old(out)@ + kw_recent_flag(),
{
    let kw: [u8; 6] = [0x52, 0x65, 0x63, 0x65, 0x6e, 0x74];
    proof {
        assert(kw@ =~= kw_recent_flag());
    }
    push_all(out, kw.as_slice());
}

/// The bytes of `Noselect`.
pub open spec fn kw_noselect() -> Seq<u8> {
    seq![0x4eu8, 0x6f, 0x73, 0x65, 0x6c, 0x65, 0x63, 0x74]
}

/// Append `Noselect` to `out`.
pub fn put_noselect(out: &mut Vec<u8>)
    ensures
        final(out)@ == old(out)@ + kw_noselect(),
{
    let kw: [u8; 8] = [0x4e, 0x6f, 0x73, 0x65, 0x6c, 0x65, 0x63, 0x74];
    proof {
        assert(kw@ =~= kw_noselect());
    }
    push_all(out, kw.as_slice());
}

/// The bytes of `Noinferiors`.
pub open spec fn kw_noinferiors() -> Seq<u8> {
    seq![0x4eu8, 0x6f, 0x69, 0x6e, 0x66, 0x65, 0x72, 0x69, 0x6f, 0x72, 0x73]
}

/// Append `Noinferiors` to `out`.
pub fn put_noinferiors(out: &mut Vec<u8>)
    ensures
        final(out)@ == old(out)@ + kw_noinferiors(),
{
    let kw: [u8; 11] = [0x4e, 0x6f, 0x69, 0x6e, 0x66, 0x65, 0x72, 0x69, 0x6f, 0x72, 0x73];
    proof {
        assert(kw@ =~= kw_noinferiors());
    }
    push_all(out, kw.as_slice());
}

/// The bytes of `Marked`.
pub open spec fn kw_marked() -> Seq<u8> {
    seq![0x4du8, 0x61, 0x72, 0x6b, 0x65, 0x64]
}

/// Append `Marked` to `out`.
pub fn put_marked(out: &mut Vec<u8>)
    ensures
        final(out)@ == old(out)@ + kw_marked(),
{
    let kw: [u8; 6] = [0x4d, 0x61, 0x72, 0x6b, 0x65, 0x64];
    proof {
        assert(kw@ =~= kw_marked());
    }
    push_all(out, kw.as_slice());
}

/// The bytes of `Unmarked`.
pub open spec fn kw_unmarked() -> Seq<u8> {
    seq![0x55u8, 0x6e, 0x6d, 0x61, 0x72, 0x6b, 0x65, 0x64]
}

/// Append `Unmarked` to `out`.
pub fn put_unmarked(out: &mut Vec<u8>)
    ensures
        final(out)@ == old(out)@ + kw_unmarked(),
{
    let kw: [u8; 8] = [0x55, 0x6e, 0x6d, 0x61, 0x72, 0x6b, 0x65, 0x64];
    proof {
        assert(kw@ =~= kw_unmarked());
    }
    push_all(out, kw.as_slice());
}

/// The bytes of `IMAP4REV1`.
pub open spec fn kw_imap4rev1() -> Seq<u8> {
    seq![0x49u8, 0x4d, 0x41, 0x50, 0x34, 0x52, 0x45, 0x56, 0x31]
}

/// Append `IMAP4REV1` to `out`.
pub fn put_imap4rev1(out: &mut Vec<u8>)
    ensures
        final(out)@ == old(out)@ + kw_imap4rev1(),
{
    let kw: [u8; 9] = [0x49, 0x4d, 0x41, 0x50, 0x34, 0x52, 0x45, 0x56, 0x31];
    proof {
        assert(kw@ =~= kw_imap4rev1());
    }
    push_all(out, kw.as_slice());
}

/// The bytes of `INBOX`.
pub open spec fn kw_inbox() -> Seq<u8> {
    seq![0x49u8, 0x4e, 0x42, 0x4f, 0x58]
}

/// Append `INBOX` to `out`.
pub fn put_inbox(out: &mut Vec<u8>)
    ensures
        final(out)@ == old(out)@ + kw_inbox(),
{
    let kw: [u8; 5] = [0x49, 0x4e, 0x42, 0x4f, 0x58];
    proof {
        assert(kw@ =~= kw_inbox());
    }
    push_all(out, kw.as_slice());
}

/// The bytes of `nil`.
pub open spec fn kw_nil_lower() -> Seq<u8> {
    seq![0x6eu8, 0x69, 0x6c]
}

/// Append `nil` to `out`.
pub fn put_nil_lower(out: &mut Vec<u8>)
    ensures
        final(out)@ == old(out)@ + kw_nil_lower(),
{
    let kw: [u8; 3] = [0x6e, 0x69, 0x6c];
    proof {
        assert(kw@ =~= kw_nil_lower());
    }
    push_all(out, kw.as_slice());
}

} // verus!
