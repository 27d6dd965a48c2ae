//! Character classes of the grammar.
//!
//! Every class is defined twice: a `spec` predicate that the contracts and
//! grammar specifications use, and an executable twin that the parsers call.
//! `when_used_as_spec` ties the two together.

use vstd::prelude::*;

verus! {

/// `CHAR = %x01-7F` (any 7-bit US-ASCII character, excluding NUL).
pub open spec fn spec_is_ascii_char(c: u8) -> bool {
    0x01 <= c <= 0x7f
}

/// `CTL = %x00-1F / %x7F` (controls).
pub open spec fn spec_is_ctl(c: u8) -> bool {
    c <= 0x1f || c == 0x7f
}

/// `DIGIT = %x30-39`.
pub open spec fn spec_is_digit(c: u8) -> bool {
    0x30 <= c <= 0x39
}

#[verifier::when_used_as_spec(spec_is_digit)]
pub fn is_digit(c: u8) -> (r: bool)
    ensures
        r == spec_is_digit(c),
{
    0x30 <= c && c <= 0x39
}

/// `ALPHA = %x41-5A / %x61-7A`.
pub open spec fn spec_is_alpha(c: u8) -> bool {
    (0x41 <= c <= 0x5a) || (0x61 <= c <= 0x7a)
}

/// `TEXT-CHAR = %x01-09 / %x0B-0C / %x0E-7F` (any `CHAR` except CR and LF).
pub open spec fn spec_is_text_char(c: u8) -> bool {
    (0x01 <= c <= 0x09) || (0x0b <= c <= 0x0c) || (0x0e <= c <= 0x7f)
}

#[verifier::when_used_as_spec(spec_is_text_char)]
pub fn is_text_char(c: u8) -> (r: bool)
    ensures
        r == spec_is_text_char(c),
{
    (0x01 <= c && c <= 0x09) || (0x0b <= c && c <= 0x0c) || (0x0e <= c && c <= 0x7f)
}

/// `quoted-specials = DQUOTE / "\"`.
pub open spec fn spec_is_quoted_specials(c: u8) -> bool {
    c == 0x22 || c == 0x5c
}

#[verifier::when_used_as_spec(spec_is_quoted_specials)]
pub fn is_quoted_specials(c: u8) -> (r: bool)
    ensures
        r == spec_is_quoted_specials(c),
{
    c == 0x22 || c == 0x5c
}

/// A quoted string's unescaped run: any `TEXT-CHAR` except `quoted-specials`.
pub open spec fn spec_is_any_text_char_except_quoted_specials(c: u8) -> bool {
    spec_is_text_char(c) && !spec_is_quoted_specials(c)
}

#[verifier::when_used_as_spec(spec_is_any_text_char_except_quoted_specials)]
pub fn is_any_text_char_except_quoted_specials(c: u8) -> (r: bool)
    ensures
        r == spec_is_any_text_char_except_quoted_specials(c),
{
    is_text_char(c) && !is_quoted_specials(c)
}

/// `CHAR8 = %x01-ff` (any octet except NUL).
pub open spec fn spec_is_char8(c: u8) -> bool {
    c != 0
}

#[verifier::when_used_as_spec(spec_is_char8)]
pub fn is_char8(c: u8) -> (r: bool)
    ensures
        r == spec_is_char8(c),
{
    c != 0
}

/// `list-wildcards = "%" / "*"`.
pub open spec fn spec_is_list_wildcards(c: u8) -> bool {
    c == 0x25 || c == 0x2a
}

#[verifier::when_used_as_spec(spec_is_list_wildcards)]
pub fn is_list_wildcards(c: u8) -> (r: bool)
    ensures
        r == spec_is_list_wildcards(c),
{
    c == 0x25 || c == 0x2a
}

/// `resp-specials = "]"`.
pub open spec fn spec_is_resp_specials(c: u8) -> bool {
    c == 0x5d
}

#[verifier::when_used_as_spec(spec_is_resp_specials)]
pub fn is_resp_specials(c: u8) -> (r: bool)
    ensures
        r == spec_is_resp_specials(c),
{
    c == 0x5d
}

/// `atom-specials = "(" / ")" / "{" / SP / CTL / list-wildcards /
/// quoted-specials / resp-specials`.
pub open spec fn spec_is_atom_specials(c: u8) -> bool {
    c == 0x28 || c == 0x29 || c == 0x7b || c == 0x20 || spec_is_ctl(c) || spec_is_list_wildcards(c)
        || spec_is_quoted_specials(c) || spec_is_resp_specials(c)
}

#[verifier::when_used_as_spec(spec_is_atom_specials)]
pub fn is_atom_specials(c: u8) -> (r: bool)
    ensures
        r == spec_is_atom_specials(c),
{
    c == 0x28 || c == 0x29 || c == 0x7b || c == 0x20 || c <= 0x1f || c == 0x7f
        || is_list_wildcards(c) || is_quoted_specials(c) || is_resp_specials(c)
}

/// `ATOM-CHAR = <any CHAR except atom-specials>`.
pub open spec fn spec_is_atom_char(c: u8) -> bool {
    spec_is_ascii_char(c) && !spec_is_atom_specials(c)
}

#[verifier::when_used_as_spec(spec_is_atom_char)]
pub fn is_atom_char(c: u8) -> (r: bool)
    ensures
        r == spec_is_atom_char(c),
{
    (0x01 <= c && c <= 0x7f) && !is_atom_specials(c)
}

/// `ASTRING-CHAR = ATOM-CHAR / resp-specials`.
pub open spec fn spec_is_astring_char(c: u8) -> bool {
    spec_is_atom_char(c) || spec_is_resp_specials(c)
}

#[verifier::when_used_as_spec(spec_is_astring_char)]
pub fn is_astring_char(c: u8) -> (r: bool)
    ensures
        r == spec_is_astring_char(c),
{
    is_atom_char(c) || is_resp_specials(c)
}

/// A tag's characters: `<any ASTRING-CHAR except "+">`.
pub open spec fn spec_is_tag_char(c: u8) -> bool {
    spec_is_astring_char(c) && c != 0x2b
}

#[verifier::when_used_as_spec(spec_is_tag_char)]
pub fn is_tag_char(c: u8) -> (r: bool)
    ensures
        r == spec_is_tag_char(c),
{
    is_astring_char(c) && c != 0x2b
}

/// `base64-char = ALPHA / DIGIT / "+" / "/"` (case-sensitive).
pub open spec fn spec_is_base64_char(c: u8) -> bool {
    spec_is_alpha(c) || spec_is_digit(c) || c == 0x2b || c == 0x2f
}

#[verifier::when_used_as_spec(spec_is_base64_char)]
pub fn is_base64_char(c: u8) -> (r: bool)
    ensures
        r == spec_is_base64_char(c),
{
    (0x41 <= c && c <= 0x5a) || (0x61 <= c && c <= 0x7a) || is_digit(c) || c == 0x2b || c == 0x2f
}

/// ASCII lower-casing of a single byte, for case-insensitive token matching.
pub open spec fn spec_lower(c: u8) -> u8 {
    if 0x41 <= c <= 0x5a {
        (c + 0x20) as u8
    } else {
        c
    }
}

#[verifier::when_used_as_spec(spec_lower)]
pub fn lower(c: u8) -> (r: u8)
    ensures
        r == spec_lower(c),
{
    if 0x41 <= c && c <= 0x5a {
        c + 0x20
    } else {
        c
    }
}

} // verus!
