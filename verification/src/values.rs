//! Values, key-value pairs and tokens, and the repetition of items over
//! continuation lines.
use vstd::prelude::*;
use crate::ast::{KeyValueBuilder, NumLit, TokenBuilder, ValueBuilder};
use crate::lex::{
    Class, equal_start, lemma_scan_bounds, sep_starts, spec_equal_start, spec_msep, spec_sep_cont,
    spec_sep_inline, spec_take1, spec_unquote, take1, unquote,
};
use crate::number::{float_unit, spec_float_unit};
use crate::span::{Span, span_of};

verus! {

/// A parse result with its end position as an integer.
pub open spec fn lift<T>(r: Option<(T, usize)>) -> Option<(T, int)> {
    match r {
        Some((x, j)) => Some((x, j as int)),
        None => None,
    }
}

/// A repeated parse result with its end position as an integer.
pub open spec fn lift_vec<T>(r: Option<(Vec<T>, usize)>) -> Option<(Seq<T>, int)> {
    match r {
        Some((x, j)) => Some((x@, j as int)),
        None => None,
    }
}

/// `acc` followed by the items of `r`.
pub open spec fn prepend<T>(acc: Seq<T>, r: Option<(Seq<T>, int)>) -> Option<(Seq<T>, int)> {
    match r {
        Some((xs, k)) => Some((acc + xs, k)),
        None => None,
    }
}

/// Zero or more items `f`: stops at the first failure; a
/// success that consumes nothing is an error.
pub open spec fn spec_many0<T>(s: Seq<u8>, i: int, f: spec_fn(int) -> Option<(T, int)>) -> Option<(Seq<T>, int)>
    decreases s.len() - i,
{
    match f(i) {
        Some((x, j)) => if i < j <= s.len() {
            prepend(seq![x], spec_many0(s, j, f))
        } else {
            None
        },
        None => Some((Seq::empty(), i)),
    }
}

/// One or more items `f`.
pub open spec fn spec_many1<T>(s: Seq<u8>, i: int, f: spec_fn(int) -> Option<(T, int)>) -> Option<(Seq<T>, int)> {
    match f(i) {
        Some((x, j)) => if i < j <= s.len() {
            prepend(seq![x], spec_many0(s, j, f))
        } else {
            None
        },
        None => None,
    }
}

pub proof fn lemma_prepend_step<T>(acc: Seq<T>, x: T, r: Option<(Seq<T>, int)>)
    ensures prepend(acc, prepend(seq![x], r)) == prepend(acc.push(x), r),
{
    match r {
        Some((xs, k)) => { assert(acc + (seq![x] + xs) =~= acc.push(x) + xs); },
        None => {},
    }
}

/// A key: a run of letters, digits and `_`.
pub open spec fn spec_key(s: Seq<u8>, i: int) -> Option<(Span, int)> {
    match spec_take1(s, i, Class::Word) {
        Some(j) => Some((span_of(i, j), j)),
        None => None,
    }
}

pub fn key(s: &[u8], i: usize) -> (r: Option<(Span, usize)>)
    requires i <= s@.len(),
    ensures
        lift(r) == spec_key(s@, i as int),
        r matches Some((sp, j)) ==> sp.start == i && sp.end == j && i < j <= s@.len(),
{
    match take1(s, i, Class::Word) {
        Some(j) => Some((Span { start: i, end: j }, j)),
        None => None,
    }
}

/// A node name: a run of letters, digits, `_` and `.`.
pub open spec fn spec_node(s: Seq<u8>, i: int) -> Option<(Span, int)> {
    match spec_take1(s, i, Class::Node) {
        Some(j) => Some((span_of(i, j), j)),
        None => None,
    }
}

pub fn node(s: &[u8], i: usize) -> (r: Option<(Span, usize)>)
    requires i <= s@.len(),
    ensures
        lift(r) == spec_node(s@, i as int),
        r matches Some((sp, j)) ==> sp.start == i && sp.end == j && i < j <= s@.len(),
{
    match take1(s, i, Class::Node) {
        Some(j) => Some((Span { start: i, end: j }, j)),
        None => None,
    }
}

/// A value: quoted text is an expression; otherwise a number, unless an
/// unquoted formula at the same place reaches further (as in `2+2`).
pub open spec fn spec_value(s: Seq<u8>, i: int) -> Option<(ValueBuilder, int)> {
    match spec_unquote(s, i) {
        Some((sp, j)) => Some((ValueBuilder::Expr(sp), j)),
        None => match (spec_float_unit(s, i), spec_take1(s, i, Class::Formula)) {
            (Some((n, a)), Some(b)) => if b > a {
                Some((ValueBuilder::Expr(span_of(i, b)), b))
            } else {
                Some((ValueBuilder::Num(n), a))
            },
            (Some((n, a)), None) => Some((ValueBuilder::Num(n), a)),
            (None, Some(b)) => Some((ValueBuilder::Expr(span_of(i, b)), b)),
            (None, None) => None,
        },
    }
}

pub fn value(s: &[u8], i: usize) -> (r: Option<(ValueBuilder, usize)>)
    requires i <= s@.len(),
    ensures
        lift(r) == spec_value(s@, i as int),
        r matches Some((_, j)) ==> i < j <= s@.len(),
{
    match unquote(s, i) {
        Some((sp, j)) => Some((ValueBuilder::Expr(sp), j)),
        None => {
            let a = float_unit(s, i);
            let b = take1(s, i, Class::Formula);
            match (a, b) {
                (Some((n, a)), Some(b)) => if b > a {
                    Some((ValueBuilder::Expr(Span { start: i, end: b }), b))
                } else {
                    Some((ValueBuilder::Num(n), a))
                },
                (Some((n, a)), None) => Some((ValueBuilder::Num(n), a)),
                (None, Some(b)) => Some((ValueBuilder::Expr(Span { start: i, end: b }), b)),
                (None, None) => None,
            }
        },
    }
}

/// `key = value`.
pub open spec fn spec_key_value(s: Seq<u8>, i: int) -> Option<(KeyValueBuilder, int)> {
    match spec_key(s, i) {
        Some((k, e)) => match spec_equal_start(s, e) {
            Some(p) => match spec_value(s, p) {
                Some((v, j)) => Some((KeyValueBuilder { k, v }, j)),
                None => None,
            },
            None => None,
        },
        None => None,
    }
}

pub fn key_value(s: &[u8], i: usize) -> (r: Option<(KeyValueBuilder, usize)>)
    requires i <= s@.len(),
    ensures
        lift(r) == spec_key_value(s@, i as int),
        r matches Some((_, j)) ==> i < j <= s@.len(),
{
    match key(s, i) {
        Some((k, e)) => match equal_start(s, e) {
            Some(p) => match value(s, p) {
                Some((v, j)) => Some((KeyValueBuilder { k, v }, j)),
                None => None,
            },
            None => None,
        },
        None => None,
    }
}

/// A token: `key = value`, else a value.
pub open spec fn spec_token(s: Seq<u8>, i: int) -> Option<(TokenBuilder, int)> {
    match spec_key_value(s, i) {
        Some((kv, j)) => Some((TokenBuilder::KV(kv), j)),
        None => match spec_value(s, i) {
            Some((v, j)) => Some((TokenBuilder::Value(v), j)),
            None => None,
        },
    }
}

pub fn token(s: &[u8], i: usize) -> (r: Option<(TokenBuilder, usize)>)
    requires i <= s@.len(),
    ensures
        lift(r) == spec_token(s@, i as int),
        r matches Some((_, j)) ==> i < j <= s@.len(),
{
    match key_value(s, i) {
        Some((kv, j)) => Some((TokenBuilder::KV(kv), j)),
        None => match value(s, i) {
            Some((v, j)) => Some((TokenBuilder::Value(v), j)),
            None => None,
        },
    }
}

/// The item parsers that can follow a separator.
pub open spec fn f_key(s: Seq<u8>) -> spec_fn(int) -> Option<(Span, int)> { |p: int| spec_key(s, p) }
pub open spec fn f_node(s: Seq<u8>) -> spec_fn(int) -> Option<(Span, int)> { |p: int| spec_node(s, p) }
pub open spec fn f_value(s: Seq<u8>) -> spec_fn(int) -> Option<(ValueBuilder, int)> { |p: int| spec_value(s, p) }
pub open spec fn f_key_value(s: Seq<u8>) -> spec_fn(int) -> Option<(KeyValueBuilder, int)> { |p: int| spec_key_value(s, p) }
pub open spec fn f_token(s: Seq<u8>) -> spec_fn(int) -> Option<(TokenBuilder, int)> { |p: int| spec_token(s, p) }
pub open spec fn f_float_unit(s: Seq<u8>) -> spec_fn(int) -> Option<(NumLit, int)> { |p: int| spec_float_unit(s, p) }

/// The same items after a separator.
pub open spec fn m_key(s: Seq<u8>) -> spec_fn(int) -> Option<(Span, int)> { |p: int| spec_msep(s, p, f_key(s)) }
pub open spec fn m_node(s: Seq<u8>) -> spec_fn(int) -> Option<(Span, int)> { |p: int| spec_msep(s, p, f_node(s)) }
pub open spec fn m_value(s: Seq<u8>) -> spec_fn(int) -> Option<(ValueBuilder, int)> { |p: int| spec_msep(s, p, f_value(s)) }
pub open spec fn m_key_value(s: Seq<u8>) -> spec_fn(int) -> Option<(KeyValueBuilder, int)> { |p: int| spec_msep(s, p, f_key_value(s)) }
pub open spec fn m_token(s: Seq<u8>) -> spec_fn(int) -> Option<(TokenBuilder, int)> { |p: int| spec_msep(s, p, f_token(s)) }
pub open spec fn m_float_unit(s: Seq<u8>) -> spec_fn(int) -> Option<(NumLit, int)> { |p: int| spec_msep(s, p, f_float_unit(s)) }

pub fn msep_key(s: &[u8], i: usize) -> (r: Option<(Span, usize)>)
    requires i <= s@.len(),
    ensures
        lift(r) == m_key(s@)(i as int),
        r matches Some((sp, j)) ==> i < sp.start && sp.end == j && j <= s@.len(),
{
    let (a, b) = sep_starts(s, i);
    if let Some(p) = a {
        if let Some(r) = key(s, p) {
            return Some(r);
        }
    }
    match b {
        Some(p) => key(s, p),
        None => None,
    }
}

pub fn msep_node(s: &[u8], i: usize) -> (r: Option<(Span, usize)>)
    requires i <= s@.len(),
    ensures
        lift(r) == m_node(s@)(i as int),
        r matches Some((sp, j)) ==> i < sp.start && sp.end == j && j <= s@.len(),
{
    let (a, b) = sep_starts(s, i);
    if let Some(p) = a {
        if let Some(r) = node(s, p) {
            return Some(r);
        }
    }
    match b {
        Some(p) => node(s, p),
        None => None,
    }
}

pub fn msep_value(s: &[u8], i: usize) -> (r: Option<(ValueBuilder, usize)>)
    requires i <= s@.len(),
    ensures
        lift(r) == m_value(s@)(i as int),
        r matches Some((_, j)) ==> i < j <= s@.len(),
{
    let (a, b) = sep_starts(s, i);
    if let Some(p) = a {
        if let Some(r) = value(s, p) {
            return Some(r);
        }
    }
    match b {
        Some(p) => value(s, p),
        None => None,
    }
}

pub fn msep_key_value(s: &[u8], i: usize) -> (r: Option<(KeyValueBuilder, usize)>)
    requires i <= s@.len(),
    ensures
        lift(r) == m_key_value(s@)(i as int),
        r matches Some((_, j)) ==> i < j <= s@.len(),
{
    let (a, b) = sep_starts(s, i);
    if let Some(p) = a {
        if let Some(r) = key_value(s, p) {
            return Some(r);
        }
    }
    match b {
        Some(p) => key_value(s, p),
        None => None,
    }
}

pub fn msep_token(s: &[u8], i: usize) -> (r: Option<(TokenBuilder, usize)>)
    requires i <= s@.len(),
    ensures
        lift(r) == m_token(s@)(i as int),
        r matches Some((_, j)) ==> i < j <= s@.len(),
{
    let (a, b) = sep_starts(s, i);
    if let Some(p) = a {
        if let Some(r) = token(s, p) {
            return Some(r);
        }
    }
    match b {
        Some(p) => token(s, p),
        None => None,
    }
}

pub fn msep_float_unit(s: &[u8], i: usize) -> (r: Option<(NumLit, usize)>)
    requires i <= s@.len(),
    ensures
        lift(r) == m_float_unit(s@)(i as int),
        r matches Some((_, j)) ==> i < j <= s@.len(),
{
    let (a, b) = sep_starts(s, i);
    if let Some(p) = a {
        if let Some(r) = float_unit(s, p) {
            return Some(r);
        }
    }
    match b {
        Some(p) => float_unit(s, p),
        None => None,
    }
}

/// Zero or more items parsed by `f`, whose meaning is `sf`.
pub fn many0_by<T, F: Fn(usize) -> Option<(T, usize)>>(
    s: &[u8],
    i: usize,
    f: &F,
    Ghost(sf): Ghost<spec_fn(int) -> Option<(T, int)>>,
) -> (r: Option<(Vec<T>, usize)>)
    requires
        i <= s@.len(),
        forall|p: usize| p <= s@.len() ==> call_requires(*f, (p,)),
        forall|p: usize, q: Option<(T, usize)>| p <= s@.len() && call_ensures(*f, (p,), q) ==> lift(q) == sf(p as int)
            && (q matches Some((_, j)) ==> p < j <= s@.len()),
    ensures
        lift_vec(r) == spec_many0(s@, i as int, sf),
        r matches Some((_, j)) ==> i <= j <= s@.len(),
{
    let mut acc: Vec<T> = Vec::new();
    let mut p = i;
    assert(acc@ + Seq::<T>::empty() =~= acc@);
    loop
        invariant
            i <= p <= s@.len(),
            forall|p: usize| p <= s@.len() ==> call_requires(*f, (p,)),
            forall|p: usize, q: Option<(T, usize)>| p <= s@.len() && call_ensures(*f, (p,), q) ==> lift(q) == sf(p as int)
                && (q matches Some((_, j)) ==> p < j <= s@.len()),
            spec_many0(s@, i as int, sf) == prepend(acc@, spec_many0(s@, p as int, sf)),
        decreases s@.len() - p,
    {
        match f(p) {
            Some((x, j)) => {
                proof { lemma_prepend_step(acc@, x, spec_many0(s@, j as int, sf)); }
                acc.push(x);
                p = j;
            },
            None => {
                assert(acc@ + Seq::<T>::empty() =~= acc@);
                return Some((acc, p));
            },
        }
    }
}

/// One or more items parsed by `f`, whose meaning is `sf`.
pub fn many1_by<T, F: Fn(usize) -> Option<(T, usize)>>(
    s: &[u8],
    i: usize,
    f: &F,
    Ghost(sf): Ghost<spec_fn(int) -> Option<(T, int)>>,
) -> (r: Option<(Vec<T>, usize)>)
    requires
        i <= s@.len(),
        forall|p: usize| p <= s@.len() ==> call_requires(*f, (p,)),
        forall|p: usize, q: Option<(T, usize)>| p <= s@.len() && call_ensures(*f, (p,), q) ==> lift(q) == sf(p as int)
            && (q matches Some((_, j)) ==> p < j <= s@.len()),
    ensures
        lift_vec(r) == spec_many1(s@, i as int, sf),
        r matches Some((v, j)) ==> i < j <= s@.len() && v@.len() > 0,
{
    match f(i) {
        Some((x, j)) => {
            match many0_by(s, j, f, Ghost(sf)) {
                Some((rest, k)) => {
                    let mut v: Vec<T> = Vec::new();
                    v.push(x);
                    let mut rest = rest;
                    v.append(&mut rest);
                    proof {
                        assert(v@ =~= seq![x] + spec_many0(s@, j as int, sf).unwrap().0);
                    }
                    Some((v, k))
                },
                None => None,
            }
        },
        None => None,
    }
}

/// Zero or more `key = value` pairs, each after a separator.
pub fn many0_key_value(s: &[u8], i: usize) -> (r: Option<(Vec<KeyValueBuilder>, usize)>)
    requires i <= s@.len(),
    ensures
        lift_vec(r) == spec_many0(s@, i as int, m_key_value(s@)),
        r matches Some((_, j)) ==> i <= j <= s@.len(),
{
    let f = |p: usize| -> (q: Option<(KeyValueBuilder, usize)>)
        requires p <= s@.len(),
        ensures lift(q) == m_key_value(s@)(p as int), q matches Some((_, j)) ==> p < j <= s@.len(),
        { msep_key_value(s, p) };
    many0_by(s, i, &f, Ghost(m_key_value(s@)))
}

} // verus!
