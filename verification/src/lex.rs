//! The lexical grammar: runs of character classes, quoted text, comments,
//! keys, formulas and paths. Every scanner takes the file's bytes and a
//! position and returns the position where the token ends.
use vstd::prelude::*;
use vstd::utf8::{char_u32_cast, decode_first_scalar, length_of_first_scalar, valid_first_scalar};
use crate::outside::{
    char_is_alphanumeric, char_is_whitespace, scalar_char, unicode_alphanumeric, unicode_whitespace,
};
use crate::span::{Span, span_of};
use crate::chars::{spec_is_space, spec_is_space_nl, spec_is_digit, spec_is_alnum, spec_is_word, spec_is_node, spec_is_formula, spec_is_path, is_space, is_space_nl, is_digit, is_alnum, is_word, is_node, is_formula, is_path};

verus! {

/// The byte classes that a run scanner knows.
#[derive(Clone, Copy, Debug, PartialEq, Eq)]
pub enum Class {
    Space,
    SpaceNl,
    Digit,
    Alnum,
    Word,
    Node,
    Formula,
    Path,
    /// anything but `'`
    NotQuote,
    /// anything but a newline
    NotNl,
}

pub open spec fn spec_in_class(c: Class, b: u8) -> bool {
    match c {
        Class::Space => spec_is_space(b),
        Class::SpaceNl => spec_is_space_nl(b),
        Class::Digit => spec_is_digit(b),
        Class::Alnum => spec_is_alnum(b),
        Class::Word => spec_is_word(b),
        Class::Node => spec_is_node(b),
        Class::Formula => spec_is_formula(b),
        Class::Path => spec_is_path(b),
        Class::NotQuote => b != 0x27,
        Class::NotNl => b != 0x0a,
    }
}

fn in_class(c: Class, b: u8) -> (r: bool)
    ensures r == spec_in_class(c, b),
{
    match c {
        Class::Space => is_space(b),
        Class::SpaceNl => is_space_nl(b),
        Class::Digit => is_digit(b),
        Class::Alnum => is_alnum(b),
        Class::Word => is_word(b),
        Class::Node => is_node(b),
        Class::Formula => is_formula(b),
        Class::Path => is_path(b),
        Class::NotQuote => b != 0x27,
        Class::NotNl => b != 0x0a,
    }
}

/// The character whose UTF-8 encoding starts at `i`, and the number of
/// its bytes, when the bytes there encode one.
pub open spec fn spec_char_at(s: Seq<u8>, i: int) -> Option<(char, int)> {
    if 0 <= i < s.len() && valid_first_scalar(s.subrange(i, s.len() as int)) {
        let t = s.subrange(i, s.len() as int);
        Some((decode_first_scalar(t) as char, length_of_first_scalar(t)))
    } else {
        None
    }
}

/// Whether a character beyond ASCII belongs to class `c`, as `char`
/// classifies it: a letter or digit of any script is alphanumeric, and a
/// path stops only at whitespace.
pub open spec fn spec_wide_in_class(c: Class, ch: char) -> bool {
    match c {
        Class::Space => false,
        Class::SpaceNl => false,
        Class::Digit => false,
        Class::Alnum => unicode_alphanumeric(ch),
        Class::Word => unicode_alphanumeric(ch),
        Class::Node => unicode_alphanumeric(ch),
        Class::Formula => unicode_alphanumeric(ch),
        Class::Path => unicode_alphanumeric(ch) || !unicode_whitespace(ch),
        Class::NotQuote => true,
        Class::NotNl => true,
    }
}

/// The number of bytes of the character at `i` when it belongs to class
/// `c`: an ASCII byte by its byte class, a character beyond ASCII as
/// `char` classifies it, and a byte that starts no character by its byte
/// class.
pub open spec fn spec_class_width(s: Seq<u8>, i: int, c: Class) -> Option<int> {
    if s[i] < 0x80 {
        if spec_in_class(c, s[i]) { Some(1) } else { None }
    } else {
        match spec_char_at(s, i) {
            Some((ch, w)) => if spec_wide_in_class(c, ch) { Some(w) } else { None },
            None => if spec_in_class(c, s[i]) { Some(1) } else { None },
        }
    }
}

/// The classes that hold ASCII bytes only.
pub open spec fn ascii_class(c: Class) -> bool {
    c is Space || c is SpaceNl || c is Digit
}

proof fn lemma_class_width(s: Seq<u8>, i: int, c: Class)
    requires 0 <= i < s.len(),
    ensures
        spec_class_width(s, i, c) matches Some(w) ==> 1 <= w && i + w <= s.len(),
        ascii_class(c) ==> (spec_class_width(s, i, c) is Some <==> spec_in_class(c, s[i])),
        ascii_class(c) && spec_class_width(s, i, c) is Some ==> spec_class_width(s, i, c) == Some(1int),
{
    let t = s.subrange(i, s.len() as int);
    assert(t[0] == s[i]);
    if valid_first_scalar(t) {
        assert(1 <= length_of_first_scalar(t) <= t.len());
    }
}

/// The end of the longest run of characters of class `c` that starts at `i`.
pub open spec fn spec_scan(s: Seq<u8>, i: int, c: Class) -> int
    decreases s.len() - i,
{
    if i < 0 || i >= s.len() {
        i
    } else {
        match spec_class_width(s, i, c) {
            Some(w) => if 1 <= w && i + w <= s.len() { spec_scan(s, i + w, c) } else { i },
            None => i,
        }
    }
}

pub proof fn lemma_scan_bounds(s: Seq<u8>, i: int, c: Class)
    requires 0 <= i <= s.len(),
    ensures
        i <= spec_scan(s, i, c) <= s.len(),
        spec_scan(s, i, c) < s.len() ==> spec_class_width(s, spec_scan(s, i, c), c) is None,
        ascii_class(c) ==> forall|k: int| i <= k < spec_scan(s, i, c) ==> spec_in_class(c, #[trigger] s[k]),
        ascii_class(c) && spec_scan(s, i, c) < s.len() ==> !spec_in_class(c, s[spec_scan(s, i, c)]),
    decreases s.len() - i,
{
    if i < s.len() {
        lemma_class_width(s, i, c);
        match spec_class_width(s, i, c) {
            Some(w) => { lemma_scan_bounds(s, i + w, c); },
            None => {},
        }
    }
}

/// The character at `i`, whose first byte is beyond ASCII.
fn char_at(s: &[u8], i: usize) -> (r: Option<(char, usize)>)
    requires i < s@.len(), s@[i as int] >= 0x80,
    ensures
        r matches Some((ch, w)) ==> spec_char_at(s@, i as int) == Some((ch, w as int)),
        r is None ==> spec_char_at(s@, i as int) is None,
{
    let ghost t = s@.subrange(i as int, s@.len() as int);
    let n = s.len();
    let b0 = s[i];
    assert(t[0] == b0);
    if 0xc0 <= b0 && b0 <= 0xdf {
        if n - i > 1 && 0x80 <= s[i + 1] && s[i + 1] <= 0xbf {
            let b1 = s[i + 1];
            assert(t[1] == b1);
            let v: u32 = (((b0 & 0x1F) as u32) << 6) | ((b1 & 0x3F) as u32);
            assert(v <= 0x7FF) by (bit_vector)
                requires v == (((b0 & 0x1F) as u32) << 6) | ((b1 & 0x3F) as u32);
            if 0x80 <= v && !(0xD800 <= v && v <= 0xDFFF) {
                match scalar_char(v) {
                    Some(ch) => {
                        proof { char_u32_cast(ch, v); }
                        return Some((ch, 2));
                    },
                    None => { return None; },
                }
            }
        }
        None
    } else if 0xe0 <= b0 && b0 <= 0xef {
        if n - i > 2 && 0x80 <= s[i + 1] && s[i + 1] <= 0xbf && 0x80 <= s[i + 2] && s[i + 2] <= 0xbf {
            let b1 = s[i + 1];
            let b2 = s[i + 2];
            assert(t[1] == b1 && t[2] == b2);
            let v: u32 = (((b0 & 0x0F) as u32) << 12) | (((b1 & 0x3F) as u32) << 6) | ((b2 & 0x3F) as u32);
            assert(v <= 0xFFFF) by (bit_vector)
                requires v == (((b0 & 0x0F) as u32) << 12) | (((b1 & 0x3F) as u32) << 6) | ((b2 & 0x3F) as u32);
            if 0x800 <= v && !(0xD800 <= v && v <= 0xDFFF) {
                match scalar_char(v) {
                    Some(ch) => {
                        proof { char_u32_cast(ch, v); }
                        return Some((ch, 3));
                    },
                    None => { return None; },
                }
            }
        }
        None
    } else if 0xf0 <= b0 && b0 <= 0xf7 {
        if n - i > 3 && 0x80 <= s[i + 1] && s[i + 1] <= 0xbf && 0x80 <= s[i + 2] && s[i + 2] <= 0xbf
            && 0x80 <= s[i + 3] && s[i + 3] <= 0xbf {
            let b1 = s[i + 1];
            let b2 = s[i + 2];
            let b3 = s[i + 3];
            assert(t[1] == b1 && t[2] == b2 && t[3] == b3);
            let v: u32 = (((b0 & 0x07) as u32) << 18) | (((b1 & 0x3F) as u32) << 12) | (((b2 & 0x3F) as u32) << 6)
                | ((b3 & 0x3F) as u32);
            if 0x10000 <= v && v <= 0x10ffff && !(0xD800 <= v && v <= 0xDFFF) {
                match scalar_char(v) {
                    Some(ch) => {
                        proof { char_u32_cast(ch, v); }
                        return Some((ch, 4));
                    },
                    None => { return None; },
                }
            }
        }
        None
    } else {
        None
    }
}

fn wide_in_class(c: Class, ch: char) -> (r: bool)
    ensures r == spec_wide_in_class(c, ch),
{
    match c {
        Class::Space => false,
        Class::SpaceNl => false,
        Class::Digit => false,
        Class::Alnum => char_is_alphanumeric(ch),
        Class::Word => char_is_alphanumeric(ch),
        Class::Node => char_is_alphanumeric(ch),
        Class::Formula => char_is_alphanumeric(ch),
        Class::Path => char_is_alphanumeric(ch) || !char_is_whitespace(ch),
        Class::NotQuote => true,
        Class::NotNl => true,
    }
}

fn class_width(s: &[u8], i: usize, c: Class) -> (r: Option<usize>)
    requires i < s@.len(),
    ensures
        r matches Some(w) ==> spec_class_width(s@, i as int, c) == Some(w as int),
        r is None ==> spec_class_width(s@, i as int, c) is None,
{
    let b = s[i];
    if b < 0x80 {
        if in_class(c, b) { Some(1) } else { None }
    } else {
        match char_at(s, i) {
            Some((ch, w)) => if wide_in_class(c, ch) { Some(w) } else { None },
            None => if in_class(c, b) { Some(1) } else { None },
        }
    }
}

/// Scans the longest run of class `c` from `i`.
pub fn scan(s: &[u8], i: usize, c: Class) -> (j: usize)
    requires i <= s@.len(),
    ensures
        j == spec_scan(s@, i as int, c),
        i <= j <= s@.len(),
{
    let mut j = i;
    proof { lemma_scan_bounds(s@, i as int, c); }
    loop
        invariant
            i <= j <= s@.len(),
            spec_scan(s@, j as int, c) == spec_scan(s@, i as int, c),
        ensures
            j == spec_scan(s@, i as int, c),
        decreases s@.len() - j,
    {
        if j >= s.len() {
            break;
        }
        match class_width(s, j, c) {
            Some(w) => {
                proof { lemma_class_width(s@, j as int, c); }
                j = j + w;
            },
            None => {
                break;
            },
        }
    }
    j
}

} // verus!

verus! {

/// The longest non-empty run of class `c` at `i`.
pub open spec fn spec_take1(s: Seq<u8>, i: int, c: Class) -> Option<int> {
    let j = spec_scan(s, i, c);
    if j > i { Some(j) } else { None }
}

pub fn take1(s: &[u8], i: usize, c: Class) -> (r: Option<usize>)
    requires i <= s@.len(),
    ensures
        r matches Some(j) ==> spec_take1(s@, i as int, c) == Some(j as int) && i < j <= s@.len(),
        r is None ==> spec_take1(s@, i as int, c) is None,
{
    let j = scan(s, i, c);
    if j > i { Some(j) } else { None }
}

} // verus!

verus! {

/// A quoted text `'...'` at `i`: the span inside the quotes and the end after the closing quote.
pub open spec fn spec_unquote(s: Seq<u8>, i: int) -> Option<(Span, int)> {
    if 0 <= i < s.len() && s[i] == 0x27 {
        let j = spec_scan(s, i + 1, Class::NotQuote);
        if j < s.len() { Some((span_of(i + 1, j), j + 1)) } else { None }
    } else {
        None
    }
}

pub fn unquote(s: &[u8], i: usize) -> (r: Option<(Span, usize)>)
    requires i <= s@.len(),
    ensures
        r matches Some((sp, j)) ==> spec_unquote(s@, i as int) == Some((sp, j as int)) && i < j <= s@.len()
            && i < sp.start <= sp.end < j,
        r is None ==> spec_unquote(s@, i as int) is None,
{
    if i < s.len() && s[i] == 0x27 {
        let j = scan(s, i + 1, Class::NotQuote);
        if j < s.len() { Some((Span { start: i + 1, end: j }, j + 1)) } else { None }
    } else {
        None
    }
}

/// A comment `*...\n` at `i`, ending after its newline.
pub open spec fn spec_comment(s: Seq<u8>, i: int) -> Option<int> {
    if 0 <= i < s.len() && s[i] == 0x2a {
        let j = spec_scan(s, i + 1, Class::NotNl);
        if j < s.len() { Some(j + 1) } else { None }
    } else {
        None
    }
}

pub fn comment(s: &[u8], i: usize) -> (r: Option<usize>)
    requires i <= s@.len(),
    ensures
        r matches Some(j) ==> spec_comment(s@, i as int) == Some(j as int) && i < j <= s@.len(),
        r is None ==> spec_comment(s@, i as int) is None,
{
    if i < s.len() && s[i] == 0x2a {
        let j = scan(s, i + 1, Class::NotNl);
        if j < s.len() { Some(j + 1) } else { None }
    } else {
        None
    }
}

/// Blank lines and comment lines at `i`: where the next statement may start.
pub open spec fn spec_csn(s: Seq<u8>, i: int) -> int
    decreases s.len() - i,
{
    let j = spec_scan(s, i, Class::SpaceNl);
    match spec_comment(s, j) {
        Some(k) => if i < k <= s.len() { spec_csn(s, k) } else { j },
        None => j,
    }
}

pub proof fn lemma_csn_bounds(s: Seq<u8>, i: int)
    requires 0 <= i <= s.len(),
    ensures i <= spec_csn(s, i) <= s.len(),
    decreases s.len() - i,
{
    lemma_scan_bounds(s, i, Class::SpaceNl);
    let j = spec_scan(s, i, Class::SpaceNl);
    if j < s.len() && s[j] == 0x2a {
        lemma_scan_bounds(s, j + 1, Class::NotNl);
    }
    match spec_comment(s, j) {
        Some(k) => { lemma_csn_bounds(s, k); },
        None => {},
    }
}

/// Skips blank lines and comment lines (`comment_space_newline`).
pub fn csn(s: &[u8], i: usize) -> (r: usize)
    requires i <= s@.len(),
    ensures r == spec_csn(s@, i as int), i <= r <= s@.len(),
{
    proof { lemma_csn_bounds(s@, i as int); }
    let mut p = i;
    loop
        invariant
            i <= p <= s@.len(),
            spec_csn(s@, p as int) == spec_csn(s@, i as int),
        decreases s@.len() - p,
    {
        let j = scan(s, p, Class::SpaceNl);
        match comment(s, j) {
            Some(k) => { p = k; },
            None => { return j; },
        }
    }
}

/// The separator that may stand between two items of a statement: blanks,
/// or a line break with comments followed by a continuation `+` and blanks.
/// This is where the item after `loss_sep` starts; it always succeeds.
pub open spec fn spec_loss_sep(s: Seq<u8>, i: int) -> int {
    let k = spec_csn(s, i);
    if k < s.len() && s[k] == 0x2b { spec_scan(s, k + 1, Class::Space) } else { spec_scan(s, i, Class::Space) }
}

pub fn loss_sep(s: &[u8], i: usize) -> (r: usize)
    requires i <= s@.len(),
    ensures r == spec_loss_sep(s@, i as int), i <= r <= s@.len(),
{
    let k = csn(s, i);
    if k < s.len() && s[k] == 0x2b { scan(s, k + 1, Class::Space) } else { scan(s, i, Class::Space) }
}

/// First way to start the next item of a statement: at least one blank.
pub open spec fn spec_sep_inline(s: Seq<u8>, i: int) -> Option<int> {
    spec_take1(s, i, Class::Space)
}

/// Second way: a continuation line `+` (after blank and comment lines) and blanks.
pub open spec fn spec_sep_cont(s: Seq<u8>, i: int) -> Option<int> {
    let k = spec_csn(s, i);
    if k < s.len() && s[k] == 0x2b { Some(spec_scan(s, k + 1, Class::Space)) } else { None }
}

/// Where the next item may start, by the two ways of `multiline_sep`; the item is tried at the first, then at the second.
pub fn sep_starts(s: &[u8], i: usize) -> (r: (Option<usize>, Option<usize>))
    requires i <= s@.len(),
    ensures
        r.0 matches Some(p) ==> spec_sep_inline(s@, i as int) == Some(p as int) && i < p <= s@.len(),
        r.0 is None ==> spec_sep_inline(s@, i as int) is None,
        r.1 matches Some(p) ==> spec_sep_cont(s@, i as int) == Some(p as int) && i < p <= s@.len(),
        r.1 is None ==> spec_sep_cont(s@, i as int) is None,
{
    let a = take1(s, i, Class::Space);
    let k = csn(s, i);
    let b = if k < s.len() && s[k] == 0x2b {
        proof { lemma_scan_bounds(s@, k + 1, Class::Space); }
        Some(scan(s, k + 1, Class::Space))
    } else {
        None
    };
    (a, b)
}

/// An item `f` after a separator (`multiline_sep(f)`): `f` at the first start, else at the second.
pub open spec fn spec_msep<T>(s: Seq<u8>, i: int, f: spec_fn(int) -> Option<(T, int)>) -> Option<(T, int)> {
    let second = match spec_sep_cont(s, i) {
        Some(p) => f(p),
        None => None,
    };
    match spec_sep_inline(s, i) {
        Some(p) => match f(p) {
            Some(r) => Some(r),
            None => second,
        },
        None => second,
    }
}

/// Where the value of `= value` starts: blanks, `=`, blanks.
pub open spec fn spec_equal_start(s: Seq<u8>, i: int) -> Option<int> {
    let j = spec_scan(s, i, Class::Space);
    if j < s.len() && s[j] == 0x3d { Some(spec_scan(s, j + 1, Class::Space)) } else { None }
}

pub fn equal_start(s: &[u8], i: usize) -> (r: Option<usize>)
    requires i <= s@.len(),
    ensures
        r matches Some(p) ==> spec_equal_start(s@, i as int) == Some(p as int) && i < p <= s@.len(),
        r is None ==> spec_equal_start(s@, i as int) is None,
{
    let j = scan(s, i, Class::Space);
    if j < s.len() && s[j] == 0x3d {
        proof { lemma_scan_bounds(s@, j + 1, Class::Space); }
        Some(scan(s, j + 1, Class::Space))
    } else {
        None
    }
}

/// A path: quoted text, or a run of non-blank bytes.
pub open spec fn spec_path(s: Seq<u8>, i: int) -> Option<(Span, int)> {
    match spec_unquote(s, i) {
        Some(r) => Some(r),
        None => match spec_take1(s, i, Class::Path) {
            Some(j) => Some((span_of(i, j), j)),
            None => None,
        },
    }
}

pub fn path(s: &[u8], i: usize) -> (r: Option<(Span, usize)>)
    requires i <= s@.len(),
    ensures
        r matches Some((sp, j)) ==> spec_path(s@, i as int) == Some((sp, j as int)) && i < j <= s@.len()
            && i <= sp.start <= sp.end <= j,
        r is None ==> spec_path(s@, i as int) is None,
{
    match unquote(s, i) {
        Some(r) => Some(r),
        None => match take1(s, i, Class::Path) {
            Some(j) => Some((Span { start: i, end: j }, j)),
            None => None,
        },
    }
}

/// The value of the decimal digits `d`.
pub open spec fn spec_digits_value(d: Seq<u8>) -> nat
    decreases d.len(),
{
    if d.len() == 0 { 0 } else { spec_digits_value(d.drop_last()) * 10 + (d.last() - 0x30) as nat }
}

/// An unsigned integer at `i`: its digits, when their value fits in a `usize`.
pub open spec fn spec_integer(s: Seq<u8>, i: int) -> Option<(usize, int)> {
    match spec_take1(s, i, Class::Digit) {
        Some(j) => if spec_digits_value(s.subrange(i, j)) <= usize::MAX {
            Some((spec_digits_value(s.subrange(i, j)) as usize, j))
        } else {
            None
        },
        None => None,
    }
}

proof fn lemma_digits_monotone(d: Seq<u8>, k: int)
    requires 0 <= k <= d.len(), forall|m: int| 0 <= m < d.len() ==> spec_is_digit(#[trigger] d[m]),
    ensures spec_digits_value(d.subrange(0, k)) <= spec_digits_value(d),
    decreases d.len() - k,
{
    if k < d.len() {
        lemma_digits_monotone(d, k + 1);
        assert(d.subrange(0, k + 1).drop_last() =~= d.subrange(0, k));
    } else {
        assert(d.subrange(0, k) =~= d);
    }
}

pub fn integer(s: &[u8], i: usize) -> (r: Option<(usize, usize)>)
    requires i <= s@.len(),
    ensures
        r matches Some((n, j)) ==> spec_integer(s@, i as int) == Some((n, j as int)) && i < j <= s@.len(),
        r is None ==> spec_integer(s@, i as int) is None,
{
    match take1(s, i, Class::Digit) {
        Some(j) => {
            proof { lemma_scan_bounds(s@, i as int, Class::Digit); }
            let ghost d = s@.subrange(i as int, j as int);
            let mut v: usize = 0;
            let mut k = i;
            while k < j
                invariant
                    i <= k <= j <= s@.len(),
                    d == s@.subrange(i as int, j as int),
                    spec_take1(s@, i as int, Class::Digit) == Some(j as int),
                    forall|m: int| i <= m < j ==> spec_is_digit(#[trigger] s@[m]),
                    v == spec_digits_value(s@.subrange(i as int, k as int)),
                decreases j - k,
            {
                assert(s@.subrange(i as int, k + 1).drop_last() =~= s@.subrange(i as int, k as int));
                assert(spec_is_digit(s@[k as int]));
                let dg = (s[k] - 0x30) as usize;
                assert(s@.subrange(i as int, k + 1).last() == s@[k as int]);
                assert(spec_digits_value(s@.subrange(i as int, k + 1)) == v * 10 + dg);
                let m = v.checked_mul(10);
                match m {
                    Some(m) => match m.checked_add(dg) {
                        Some(nv) => { v = nv; },
                        None => {
                            proof {
                                assert forall|m2: int| 0 <= m2 < d.len() implies spec_is_digit(#[trigger] d[m2]) by {
                                    assert(d[m2] == s@[i + m2]);
                                }
                                lemma_digits_monotone(d, k + 1 - i);
                                assert(d.subrange(0, k + 1 - i) =~= s@.subrange(i as int, k + 1));
                            }
                            return None;
                        },
                    },
                    None => {
                        proof {
                            assert forall|m2: int| 0 <= m2 < d.len() implies spec_is_digit(#[trigger] d[m2]) by {
                                assert(d[m2] == s@[i + m2]);
                            }
                            lemma_digits_monotone(d, k + 1 - i);
                            assert(d.subrange(0, k + 1 - i) =~= s@.subrange(i as int, k + 1));
                        }
                        return None;
                    },
                }
                k = k + 1;
            }
            Some((v, j))
        },
        None => None,
    }
}

} // verus!
