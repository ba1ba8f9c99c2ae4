//! Byte classes of the netlist grammar.
//!
//! The grammar is defined on the bytes of a UTF-8 file. ASCII bytes are
//! classified here as `char` classifies them; a character beyond ASCII is
//! classified by `char` itself when a run is scanned (see `lex`), and a
//! byte >= 0x80 that starts no character counts as alphanumeric.
//! Names are compared once lower-cased as `str::to_lowercase` does it
//! ([`spec_fold`]).
use vstd::prelude::*;
use vstd::string::StringSliceAdditionalSpecFns;
use vstd::utf8::{decode_utf8, encode_utf8, encode_utf8_decode_utf8, valid_utf8};
use crate::outside::{str_to_lowercase, str_to_uppercase, unicode_lowercase, unicode_uppercase, utf8_str};

verus! {

/// `' '`, `'\t'` or `'\r'`.
pub open spec fn spec_is_space(b: u8) -> bool {
    b == 0x20 || b == 0x09 || b == 0x0d
}

/// A blank byte or a newline.
pub open spec fn spec_is_space_nl(b: u8) -> bool {
    spec_is_space(b) || b == 0x0a
}

pub open spec fn spec_is_digit(b: u8) -> bool {
    0x30 <= b <= 0x39
}

/// ASCII letters and digits, and every byte >= 0x80.
pub open spec fn spec_is_alnum(b: u8) -> bool {
    spec_is_digit(b) || (0x41 <= b <= 0x5a) || (0x61 <= b <= 0x7a) || b >= 0x80
}

/// ASCII whitespace as `char::is_whitespace` sees it: `\t`, `\n`, `\x0B`, `\x0C`, `\r`, `' '`.
pub open spec fn spec_is_white(b: u8) -> bool {
    (0x09 <= b <= 0x0d) || b == 0x20
}

/// Bytes of a key: alphanumeric or `_`.
pub open spec fn spec_is_word(b: u8) -> bool {
    spec_is_alnum(b) || b == 0x5f
}

/// Bytes of a hierarchical node name: alphanumeric, `_` or `.`.
pub open spec fn spec_is_node(b: u8) -> bool {
    spec_is_word(b) || b == 0x2e
}

/// Bytes of an unquoted formula: alphanumeric or one of `/_.+-*^:`.
pub open spec fn spec_is_formula(b: u8) -> bool {
    spec_is_alnum(b) || b == 0x2f || b == 0x5f || b == 0x2e || b == 0x2b || b == 0x2d
        || b == 0x2a || b == 0x5e || b == 0x3a
}

/// Bytes of an unquoted path: anything but whitespace.
pub open spec fn spec_is_path(b: u8) -> bool {
    spec_is_alnum(b) || !spec_is_white(b)
}

/// ASCII upper-casing; other bytes are unchanged.
pub open spec fn spec_upper(b: u8) -> u8 {
    if 0x61 <= b <= 0x7a { (b - 32) as u8 } else { b }
}

/// ASCII lower-casing; other bytes are unchanged.
pub open spec fn spec_lower(b: u8) -> u8 {
    if 0x41 <= b <= 0x5a { (b + 32) as u8 } else { b }
}

pub fn is_space(b: u8) -> (r: bool)
    ensures r == spec_is_space(b),
{
    b == 0x20 || b == 0x09 || b == 0x0d
}

pub fn is_space_nl(b: u8) -> (r: bool)
    ensures r == spec_is_space_nl(b),
{
    is_space(b) || b == 0x0a
}

pub fn is_digit(b: u8) -> (r: bool)
    ensures r == spec_is_digit(b),
{
    0x30 <= b && b <= 0x39
}

pub fn is_alnum(b: u8) -> (r: bool)
    ensures r == spec_is_alnum(b),
{
    is_digit(b) || (0x41 <= b && b <= 0x5a) || (0x61 <= b && b <= 0x7a) || b >= 0x80
}

pub fn is_white(b: u8) -> (r: bool)
    ensures r == spec_is_white(b),
{
    (0x09 <= b && b <= 0x0d) || b == 0x20
}

pub fn is_word(b: u8) -> (r: bool)
    ensures r == spec_is_word(b),
{
    is_alnum(b) || b == 0x5f
}

pub fn is_node(b: u8) -> (r: bool)
    ensures r == spec_is_node(b),
{
    is_word(b) || b == 0x2e
}

pub fn is_formula(b: u8) -> (r: bool)
    ensures r == spec_is_formula(b),
{
    is_alnum(b) || b == 0x2f || b == 0x5f || b == 0x2e || b == 0x2b || b == 0x2d || b == 0x2a
        || b == 0x5e || b == 0x3a
}

pub fn is_path(b: u8) -> (r: bool)
    ensures r == spec_is_path(b),
{
    is_alnum(b) || !is_white(b)
}

pub fn upper(b: u8) -> (r: u8)
    ensures r == spec_upper(b),
{
    if 0x61 <= b && b <= 0x7a { b - 32 } else { b }
}

pub fn lower(b: u8) -> (r: u8)
    ensures r == spec_lower(b),
{
    if 0x41 <= b && b <= 0x5a { b + 32 } else { b }
}

/// `a` and `b` are equal once both are upper-cased.
pub open spec fn spec_eq_nocase(a: Seq<u8>, b: Seq<u8>) -> bool {
    a.len() == b.len() && forall|k: int| 0 <= k < a.len() ==> spec_upper(#[trigger] a[k]) == spec_upper(b[k])
}

/// The bytes `s[start..end]` equal `lit` up to ASCII case.
pub fn eq_nocase(s: &[u8], start: usize, end: usize, lit: &[u8]) -> (r: bool)
    requires start <= end <= s@.len(),
    ensures r == spec_eq_nocase(s@.subrange(start as int, end as int), lit@),
{
    if end - start != lit.len() {
        return false;
    }
    let mut k: usize = 0;
    while k < lit.len()
        invariant
            end - start == lit@.len(),
            start <= end <= s@.len(),
            k <= lit@.len(),
            forall|m: int| 0 <= m < k ==> spec_upper(#[trigger] s@[start + m]) == spec_upper(lit@[m]),
        decreases lit@.len() - k,
    {
        if upper(s[start + k]) != upper(lit[k]) {
            assert(s@.subrange(start as int, end as int)[k as int] == s@[start + k]);
            return false;
        }
        k = k + 1;
    }
    assert forall|m: int| 0 <= m < lit@.len() implies spec_upper(
        #[trigger] s@.subrange(start as int, end as int)[m],
    ) == spec_upper(lit@[m]) by {
        assert(s@.subrange(start as int, end as int)[m] == s@[start + m]);
    }
    true
}

/// A name lower-cased as `str::to_lowercase` does it, on its UTF-8 bytes;
/// bytes that are not UTF-8 are kept as they are.
#[verifier::opaque]
pub open spec fn spec_fold(t: Seq<u8>) -> Seq<u8> {
    if valid_utf8(t) { encode_utf8(unicode_lowercase(decode_utf8(t))) } else { t }
}

/// Lower-cases the name `t` (see [`spec_fold`]).
pub fn fold_name(t: &[u8]) -> (r: Vec<u8>)
    ensures r@ == spec_fold(t@),
{
    match utf8_str(t) {
        Some(text) => {
            proof { encode_utf8_decode_utf8(text@); reveal(spec_fold); }
            assert(text@ == decode_utf8(t@));
            let low = str_to_lowercase(text);
            let b = low.as_str().as_bytes();
            vstd::slice::slice_to_vec(b)
        },
        None => {
            proof { reveal(spec_fold); }
            vstd::slice::slice_to_vec(t)
        },
    }
}

/// Lower-cases the name `s[start..end]` (see [`spec_fold`]).
pub fn fold_range(s: &[u8], start: usize, end: usize) -> (r: Vec<u8>)
    requires start <= end <= s@.len(),
    ensures r@ == spec_fold(s@.subrange(start as int, end as int)),
{
    let (a, _) = s.split_at(end);
    let (_, t) = a.split_at(start);
    assert(t@ =~= s@.subrange(start as int, end as int));
    fold_name(t)
}

/// A word upper-cased as `str::to_uppercase` does it, on its UTF-8 bytes;
/// bytes that are not UTF-8 are kept as they are.
#[verifier::opaque]
pub open spec fn spec_fold_upper(t: Seq<u8>) -> Seq<u8> {
    if valid_utf8(t) { encode_utf8(unicode_uppercase(decode_utf8(t))) } else { t }
}

/// Upper-cases the word `s[start..end]` (see [`spec_fold_upper`]).
pub fn fold_upper_range(s: &[u8], start: usize, end: usize) -> (r: Vec<u8>)
    requires start <= end <= s@.len(),
    ensures r@ == spec_fold_upper(s@.subrange(start as int, end as int)),
{
    let (a, _) = s.split_at(end);
    let (_, t) = a.split_at(start);
    assert(t@ =~= s@.subrange(start as int, end as int));
    match utf8_str(t) {
        Some(text) => {
            proof { encode_utf8_decode_utf8(text@); reveal(spec_fold_upper); }
            assert(text@ == decode_utf8(t@));
            let up = str_to_uppercase(text);
            let b = up.as_str().as_bytes();
            vstd::slice::slice_to_vec(b)
        },
        None => {
            proof { reveal(spec_fold_upper); }
            vstd::slice::slice_to_vec(t)
        },
    }
}

} // verus!
