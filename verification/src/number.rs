//! Numeric literals: the decimal syntax of a number and its scale suffix.
//!
//! The syntax accepted is that of a decimal floating-point literal: an
//! optional sign, digits with an optional fraction (at least one digit in
//! all), an optional exponent, or one of `nan`, `inf`, `infinity` (any case,
//! optionally signed). The numeric value of a literal is not computed here.
use vstd::prelude::*;
use crate::ast::{NumLit, Unit};
use crate::chars::{fold_upper_range, spec_fold_upper, spec_is_digit, spec_upper, is_digit, upper};
use crate::lex::{Class, spec_scan, scan, lemma_scan_bounds, spec_take1, take1};
use crate::span::{Span, span_of};

verus! {

/// Three bytes at `i` spell `a b c` up to ASCII case (`a`, `b`, `c` upper-case).
pub open spec fn spec_word3(s: Seq<u8>, i: int, a: u8, b: u8, c: u8) -> bool {
    0 <= i && i + 3 <= s.len() && spec_upper(s[i]) == a && spec_upper(s[i + 1]) == b
        && spec_upper(s[i + 2]) == c
}

fn word3(s: &[u8], i: usize, a: u8, b: u8, c: u8) -> (r: bool)
    requires i <= s@.len(),
    ensures r == spec_word3(s@, i as int, a, b, c),
{
    s.len() - i >= 3 && upper(s[i]) == a && upper(s[i + 1]) == b && upper(s[i + 2]) == c
}

/// Length of `inf` or `infinity` at `t`, where `inf` is known to be there.
pub open spec fn spec_inf_rest(s: Seq<u8>, t: int) -> int {
    if s.len() - t >= 8 && spec_word3(s, t + 3, 0x49, 0x4e, 0x49) && spec_upper(s[t + 6]) == 0x54
        && spec_upper(s[t + 7]) == 0x59 {
        8
    } else {
        3
    }
}

/// End of `nan`, `inf` or `infinity` (optionally signed) at `i`.
pub open spec fn spec_inf_nan_end(s: Seq<u8>, i: int) -> Option<int> {
    if s.len() - i >= 3 {
        if spec_word3(s, i, 0x4e, 0x41, 0x4e) {
            Some(i + 3)
        } else if spec_word3(s, i, 0x49, 0x4e, 0x46) {
            Some(i + spec_inf_rest(s, i))
        } else if s.len() - i >= 4 && (s[i] == 0x2b || s[i] == 0x2d) {
            if spec_word3(s, i + 1, 0x4e, 0x41, 0x4e) {
                Some(i + 4)
            } else if spec_word3(s, i + 1, 0x49, 0x4e, 0x46) {
                Some(i + 1 + spec_inf_rest(s, i + 1))
            } else {
                None
            }
        } else {
            None
        }
    } else {
        None
    }
}

/// End of the exponent part `[eE][+-]?digits` at `q`, or `q` when there is none.
pub open spec fn spec_exp_end(s: Seq<u8>, q: int) -> int {
    if q < s.len() && (s[q] == 0x65 || s[q] == 0x45) {
        let r = if q + 1 < s.len() && (s[q + 1] == 0x2d || s[q + 1] == 0x2b) { q + 2 } else { q + 1 };
        if r < s.len() && spec_is_digit(s[r]) {
            spec_scan(s, r, Class::Digit)
        } else {
            q
        }
    } else {
        q
    }
}

/// End of the mantissa digits (with optional fraction) starting at `p`.
pub open spec fn spec_mantissa_end(s: Seq<u8>, p: int) -> int {
    let d1 = spec_scan(s, p, Class::Digit);
    if d1 < s.len() && s[d1] == 0x2e {
        spec_scan(s, d1 + 1, Class::Digit)
    } else {
        d1
    }
}

/// End of a decimal number at `i`.
pub open spec fn spec_decimal_end(s: Seq<u8>, i: int) -> Option<int> {
    if i >= s.len() {
        None
    } else {
        let p = if s[i] == 0x2d || s[i] == 0x2b { i + 1 } else { i };
        if p >= s.len() {
            None
        } else {
            let q = spec_mantissa_end(s, p);
            let d1 = spec_scan(s, p, Class::Digit);
            // digits before the dot plus digits after it
            let n = if q == d1 { d1 - p } else { q - p - 1 };
            if n == 0 {
                None
            } else {
                Some(spec_exp_end(s, q))
            }
        }
    }
}

/// End of the numeric literal at `i`.
pub open spec fn spec_float_end(s: Seq<u8>, i: int) -> Option<int> {
    match spec_decimal_end(s, i) {
        Some(e) => Some(e),
        None => spec_inf_nan_end(s, i),
    }
}

pub proof fn lemma_float_end_bounds(s: Seq<u8>, i: int)
    requires 0 <= i <= s.len(),
    ensures spec_float_end(s, i) matches Some(e) ==> i < e <= s.len(),
{
    if i < s.len() {
        let p = if s[i] == 0x2d || s[i] == 0x2b { i + 1 } else { i };
        if p < s.len() {
            lemma_scan_bounds(s, p, Class::Digit);
            let d1 = spec_scan(s, p, Class::Digit);
            if d1 < s.len() && s[d1] == 0x2e {
                lemma_scan_bounds(s, d1 + 1, Class::Digit);
            }
            let q = spec_mantissa_end(s, p);
            if q < s.len() && (s[q] == 0x65 || s[q] == 0x45) {
                let r = if q + 1 < s.len() && (s[q + 1] == 0x2d || s[q + 1] == 0x2b) { q + 2 } else { q + 1 };
                if r < s.len() {
                    lemma_scan_bounds(s, r, Class::Digit);
                }
            }
        }
    }
}

fn inf_rest(s: &[u8], t: usize) -> (r: usize)
    requires t + 3 <= s@.len(),
    ensures r == spec_inf_rest(s@, t as int),
{
    if s.len() - t >= 8 && word3(s, t + 3, 0x49, 0x4e, 0x49) && upper(s[t + 6]) == 0x54
        && upper(s[t + 7]) == 0x59 {
        8
    } else {
        3
    }
}

fn inf_nan_end(s: &[u8], i: usize) -> (r: Option<usize>)
    requires i <= s@.len(),
    ensures
        r matches Some(e) ==> spec_inf_nan_end(s@, i as int) == Some(e as int),
        r is None ==> spec_inf_nan_end(s@, i as int) is None,
{
    if s.len() - i >= 3 {
        if word3(s, i, 0x4e, 0x41, 0x4e) {
            Some(i + 3)
        } else if word3(s, i, 0x49, 0x4e, 0x46) {
            Some(i + inf_rest(s, i))
        } else if s.len() - i >= 4 && (s[i] == 0x2b || s[i] == 0x2d) {
            if word3(s, i + 1, 0x4e, 0x41, 0x4e) {
                Some(i + 4)
            } else if word3(s, i + 1, 0x49, 0x4e, 0x46) {
                Some(i + 1 + inf_rest(s, i + 1))
            } else {
                None
            }
        } else {
            None
        }
    } else {
        None
    }
}

fn exp_end(s: &[u8], q: usize) -> (r: usize)
    requires q <= s@.len(),
    ensures r == spec_exp_end(s@, q as int),
{
    if q < s.len() && (s[q] == 0x65 || s[q] == 0x45) {
        let r = if q + 1 < s.len() && (s[q + 1] == 0x2d || s[q + 1] == 0x2b) { q + 2 } else { q + 1 };
        if r < s.len() && is_digit(s[r]) {
            scan(s, r, Class::Digit)
        } else {
            q
        }
    } else {
        q
    }
}

fn decimal_end(s: &[u8], i: usize) -> (r: Option<usize>)
    requires i <= s@.len(),
    ensures
        r matches Some(e) ==> spec_decimal_end(s@, i as int) == Some(e as int),
        r is None ==> spec_decimal_end(s@, i as int) is None,
{
    if i >= s.len() {
        None
    } else {
        let p = if s[i] == 0x2d || s[i] == 0x2b { i + 1 } else { i };
        if p >= s.len() {
            None
        } else {
            let d1 = scan(s, p, Class::Digit);
            let q = if d1 < s.len() && s[d1] == 0x2e { scan(s, d1 + 1, Class::Digit) } else { d1 };
            let n = if q == d1 { d1 - p } else { q - p - 1 };
            if n == 0 {
                None
            } else {
                Some(exp_end(s, q))
            }
        }
    }
}

/// End of the numeric literal at `i`, if one starts there.
pub fn float_end(s: &[u8], i: usize) -> (r: Option<usize>)
    requires i <= s@.len(),
    ensures
        r matches Some(e) ==> spec_float_end(s@, i as int) == Some(e as int) && i < e <= s@.len(),
        r is None ==> spec_float_end(s@, i as int) is None,
{
    proof { lemma_float_end_bounds(s@, i as int); }
    match decimal_end(s, i) {
        Some(e) => Some(e),
        None => inf_nan_end(s, i),
    }
}

/// The scale suffix spelled by `t`, upper-cased as `str::to_uppercase`
/// does it, if any.
pub open spec fn spec_unit_of(t: Seq<u8>) -> Option<Unit> {
    spec_unit_name(spec_fold_upper(t))
}

/// The scale suffix named by the upper-case word `u`, if any.
pub open spec fn spec_unit_name(u: Seq<u8>) -> Option<Unit> {
    if u == seq![0x54u8] { Some(Unit::T) }
    else if u == seq![0x47u8] { Some(Unit::G) }
    else if u == seq![0x4du8, 0x45] || u == seq![0x4du8, 0x45, 0x47] || u == seq![0x58u8] || u == seq![0x5au8] { Some(Unit::Meg) }
    else if u == seq![0x4bu8] { Some(Unit::K) }
    else if u == seq![0x4du8, 0x49] || u == seq![0x4du8, 0x49, 0x4c] { Some(Unit::Mil) }
    else if u == seq![0x55u8] { Some(Unit::U) }
    else if u == seq![0x4eu8] { Some(Unit::N) }
    else if u == seq![0x50u8] { Some(Unit::P) }
    else if u == seq![0x46u8] { Some(Unit::F) }
    else if u == seq![0x41u8] { Some(Unit::A) }
    else if u == seq![0x44u8, 0x42] { Some(Unit::DB) }
    else if u == seq![0x4du8, 0x49, 0x4e] { Some(Unit::Min) }
    else if u == seq![0x48u8, 0x52] { Some(Unit::Hr) }
    else if u == seq![0x44u8, 0x41, 0x59] { Some(Unit::Day) }
    else if u == seq![0x59u8, 0x52] { Some(Unit::Yr) }
    else { None }
}

fn unit_of(s: &[u8], a: usize, b: usize) -> (r: Option<Unit>)
    requires a <= b <= s@.len(),
    ensures r == spec_unit_of(s@.subrange(a as int, b as int)),
{
    let up = fold_upper_range(s, a, b);
    unit_name(up.as_slice())
}

fn unit_name(w: &[u8]) -> (r: Option<Unit>)
    ensures r == spec_unit_name(w@),
{
    let ghost u = w@;
    let n = w.len();
    if n == 0 || n > 3 {
        proof {
            assert(u.len() == n);
        }
        return None;
    }
    let c0 = w[0];
    let c1 = if n >= 2 { w[1] } else { 0 };
    let c2 = if n >= 3 { w[2] } else { 0 };
    assert(u.len() == n);
    assert(u[0] == c0);
    assert(n >= 2 ==> u[1] == c1);
    assert(n >= 3 ==> u[2] == c2);
    if n == 1 {
        assert(u =~= seq![c0]);
        if c0 == 0x54 { Some(Unit::T) }
        else if c0 == 0x47 { Some(Unit::G) }
        else if c0 == 0x58 || c0 == 0x5a { Some(Unit::Meg) }
        else if c0 == 0x4b { Some(Unit::K) }
        else if c0 == 0x55 { Some(Unit::U) }
        else if c0 == 0x4e { Some(Unit::N) }
        else if c0 == 0x50 { Some(Unit::P) }
        else if c0 == 0x46 { Some(Unit::F) }
        else if c0 == 0x41 { Some(Unit::A) }
        else { None }
    } else if n == 2 {
        assert(u =~= seq![c0, c1]);
        if c0 == 0x4d && c1 == 0x45 { Some(Unit::Meg) }
        else if c0 == 0x4d && c1 == 0x49 { Some(Unit::Mil) }
        else if c0 == 0x44 && c1 == 0x42 { Some(Unit::DB) }
        else if c0 == 0x48 && c1 == 0x52 { Some(Unit::Hr) }
        else if c0 == 0x59 && c1 == 0x52 { Some(Unit::Yr) }
        else { None }
    } else {
        assert(u =~= seq![c0, c1, c2]);
        if c0 == 0x4d && c1 == 0x45 && c2 == 0x47 { Some(Unit::Meg) }
        else if c0 == 0x4d && c1 == 0x49 && c2 == 0x4c { Some(Unit::Mil) }
        else if c0 == 0x4d && c1 == 0x49 && c2 == 0x4e { Some(Unit::Min) }
        else if c0 == 0x44 && c1 == 0x41 && c2 == 0x59 { Some(Unit::Day) }
        else { None }
    }
}

/// A scale suffix at `i`: the longest run of alphanumeric bytes, when it spells a suffix.
pub open spec fn spec_unit(s: Seq<u8>, i: int) -> Option<(Unit, int)> {
    match spec_take1(s, i, Class::Alnum) {
        Some(j) => match spec_unit_of(s.subrange(i, j)) {
            Some(u) => Some((u, j)),
            None => None,
        },
        None => None,
    }
}

/// A number with an optional scale suffix at `i`.
pub open spec fn spec_float_unit(s: Seq<u8>, i: int) -> Option<(NumLit, int)> {
    match spec_float_end(s, i) {
        Some(e) => match spec_unit(s, e) {
            Some((u, j)) => Some((NumLit { span: span_of(i, e), unit: Some(u) }, j)),
            None => Some((NumLit { span: span_of(i, e), unit: None }, e)),
        },
        None => None,
    }
}

/// Parses a number with an optional scale suffix at `i`.
pub fn float_unit(s: &[u8], i: usize) -> (r: Option<(NumLit, usize)>)
    requires i <= s@.len(),
    ensures
        r matches Some((n, j)) ==> spec_float_unit(s@, i as int) == Some((n, j as int)) && i < j <= s@.len(),
        r is None ==> spec_float_unit(s@, i as int) is None,
{
    match float_end(s, i) {
        Some(e) => {
            match take1(s, e, Class::Alnum) {
                Some(j) => match unit_of(s, e, j) {
                    Some(u) => Some((NumLit { span: Span { start: i, end: e }, unit: Some(u) }, j)),
                    None => Some((NumLit { span: Span { start: i, end: e }, unit: None }, e)),
                },
                None => Some((NumLit { span: Span { start: i, end: e }, unit: None }, e)),
            }
        },
        None => None,
    }
}

} // verus!
