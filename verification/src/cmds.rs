//! The arguments of `.lib`, `.include`, `.option`, `.ic` and `.nodeset`.
use vstd::prelude::*;
use crate::ast::ValueBuilder;
use crate::chars::{fold_range, lower, spec_fold, spec_lower};
use crate::lex::{
    Class, equal_start, lemma_scan_bounds, loss_sep, path, spec_equal_start, spec_loss_sep, spec_msep,
    spec_path, spec_take1, take1,
};
use crate::model::{spec_cmd_kw};
use crate::outside::{find_endl, spec_endl_at};
use crate::span::Span;
use crate::values::{
    f_node, key, lift, many1_by, node, spec_key, spec_many1, spec_node, spec_value, value,
};

verus! {

/// `path section` after `.lib `: the path and the lower-cased section name.
pub open spec fn spec_lib_section(s: Seq<u8>, p: int) -> Option<((Span, Seq<u8>), int)> {
    match spec_path(s, p) {
        Some((ps, q)) => match spec_take1(s, q, Class::Space) {
            Some(r) => match spec_key(s, r) {
                Some((sec, t)) => Some(((ps, spec_fold(s.subrange(sec.start as int, sec.end as int))), t)),
                None => None,
            },
            None => None,
        },
        None => None,
    }
}

/// Skips up to and past the next `.endl [name]`.
pub open spec fn spec_lib_skip(s: Seq<u8>, p: int) -> Option<int> {
    match spec_find_endl(s, p) {
        Some(k) => {
            let m = k + 5;
            match spec_take1(s, m, Class::Space) {
                Some(r) => match spec_key(s, r) {
                    Some((_, t)) => Some(t),
                    None => Some(m),
                },
                None => Some(m),
            }
        },
        None => None,
    }
}

/// What follows `.lib `: `path section` names a section of a library file;
/// anything else is skipped up to and past the next `.endl [name]`.
pub open spec fn spec_lib(s: Seq<u8>, p: int) -> Option<(Option<(Span, Seq<u8>)>, int)> {
    match spec_lib_section(s, p) {
        Some((x, t)) => Some((Some(x), t)),
        None => match spec_lib_skip(s, p) {
            Some(t) => Some((None, t)),
            None => None,
        },
    }
}

/// The first `.endl` (any case) at or after `p`.
pub open spec fn spec_find_endl(s: Seq<u8>, p: int) -> Option<int>
    decreases s.len() - p,
{
    if p < 0 || p + 5 > s.len() {
        None
    } else if spec_endl_at(s, p) {
        Some(p)
    } else {
        spec_find_endl(s, p + 1)
    }
}

proof fn lemma_find_endl_found(s: Seq<u8>, p: int, w: int)
    requires
        0 <= p <= w,
        spec_endl_at(s, w),
        forall|m: int| p <= m < w ==> !spec_endl_at(s, m),
    ensures spec_find_endl(s, p) == Some(w),
    decreases w - p,
{
    if p < w {
        lemma_find_endl_found(s, p + 1, w);
    }
}

proof fn lemma_find_endl_none(s: Seq<u8>, p: int)
    requires 0 <= p, forall|m: int| p <= m ==> !spec_endl_at(s, m),
    ensures spec_find_endl(s, p) is None,
    decreases s.len() - p,
{
    if p + 5 <= s.len() {
        lemma_find_endl_none(s, p + 1);
    }
}

proof fn lemma_endl_shift(s: Seq<u8>, p: int, k: int)
    requires 0 <= p <= s.len(), 0 <= k,
    ensures spec_endl_at(s.subrange(p, s.len() as int), k) == spec_endl_at(s, p + k),
{
}

fn find_endl_from(s: &[u8], p: usize) -> (r: Option<usize>)
    requires p <= s@.len(),
    ensures
        r matches Some(k) ==> spec_find_endl(s@, p as int) == Some(k as int) && p <= k && k + 5 <= s@.len(),
        r is None ==> spec_find_endl(s@, p as int) is None,
{
    let n = s.len();
    let hay = slice_from(s, p);
    match find_endl(hay) {
        Some(k) => {
            assert(hay@.len() == s@.len() - p);
            assert(k + 5 <= hay@.len());
            proof {
                lemma_endl_shift(s@, p as int, k as int);
                assert forall|m: int| p <= m < p + k implies !spec_endl_at(s@, m) by {
                    lemma_endl_shift(s@, p as int, m - p);
                }
                lemma_find_endl_found(s@, p as int, p + k);
            }
            Some(p + k)
        },
        None => {
            proof {
                assert forall|k2: int| p <= k2 implies !spec_endl_at(s@, k2) by {
                    if k2 < s@.len() {
                        lemma_endl_shift(s@, p as int, k2 - p);
                    }
                }
                lemma_find_endl_none(s@, p as int);
            }
            None
        },
    }
}

fn slice_from(s: &[u8], p: usize) -> (r: &[u8])
    requires p <= s@.len(),
    ensures r@ == s@.subrange(p as int, s@.len() as int),
{
    let (_, b) = s.split_at(p);
    b
}

fn lib_section(s: &[u8], p: usize) -> (r: Option<((Span, Vec<u8>), usize)>)
    requires p <= s@.len(),
    ensures
        r matches Some(((ps, sec), t)) ==> spec_lib_section(s@, p as int) == Some(((ps, sec@), t as int))
            && p < t <= s@.len() && ps.start <= ps.end <= s@.len(),
        r is None ==> spec_lib_section(s@, p as int) is None,
{
    match path(s, p) {
        Some((ps, q)) => match take1(s, q, Class::Space) {
            Some(r) => match key(s, r) {
                Some((sec, t)) => Some(((ps, fold_range(s, sec.start, sec.end)), t)),
                None => None,
            },
            None => None,
        },
        None => None,
    }
}

fn lib_skip(s: &[u8], p: usize) -> (r: Option<usize>)
    requires p <= s@.len(),
    ensures
        r matches Some(t) ==> spec_lib_skip(s@, p as int) == Some(t as int) && p < t <= s@.len(),
        r is None ==> spec_lib_skip(s@, p as int) is None,
{
    match find_endl_from(s, p) {
        Some(k) => {
            let n = s.len();
            assert(k + 5 <= n);
            let m = k + 5;
            match take1(s, m, Class::Space) {
                Some(r) => match key(s, r) {
                    Some((_, t)) => Some(t),
                    None => Some(m),
                },
                None => Some(m),
            }
        },
        None => None,
    }
}

/// Parses what follows `.lib ` at `p`.
pub fn lib(s: &[u8], p: usize) -> (r: Option<(Option<(Span, Vec<u8>)>, usize)>)
    requires p <= s@.len(),
    ensures
        r matches Some((x, t)) ==> p < t <= s@.len() && spec_lib(s@, p as int) == Some((
            match x { Some((ps, sec)) => Some((ps, sec@)), None => None },
            t as int,
        )),
        r matches Some((Some((ps, _)), _)) ==> ps.start <= ps.end <= s@.len(),
        r is None ==> spec_lib(s@, p as int) is None,
{
    match lib_section(s, p) {
        Some((x, t)) => Some((Some(x), t)),
        None => match lib_skip(s, p) {
            Some(t) => Some((None, t)),
            None => None,
        },
    }
}

/// `V(node)` in any case.
pub open spec fn spec_v(s: Seq<u8>, p: int) -> Option<(Span, int)> {
    if 0 <= p && p + 1 < s.len() && spec_lower(s[p]) == 0x76 && s[p + 1] == 0x28 {
        match spec_node(s, p + 2) {
            Some((n, q)) => if q < s.len() && s[q] == 0x29 { Some((n, q + 1)) } else { None },
            None => None,
        }
    } else {
        None
    }
}

fn v_node(s: &[u8], p: usize) -> (r: Option<(Span, usize)>)
    requires p <= s@.len(),
    ensures lift(r) == spec_v(s@, p as int), r matches Some((_, j)) ==> p < j <= s@.len(),
{
    if p < s.len() && s.len() - p > 1 && lower(s[p]) == 0x76 && s[p + 1] == 0x28 {
        match node(s, p + 2) {
            Some((n, q)) => if q < s.len() && s[q] == 0x29 { Some((n, q + 1)) } else { None },
            None => None,
        }
    } else {
        None
    }
}

/// `lhs = value` with optional blanks or continuation lines around `=`;
/// the `=` may be left out when `eq_optional`.
pub open spec fn spec_assign(s: Seq<u8>, a: int, eq_optional: bool) -> Option<(ValueBuilder, int)> {
    let b = spec_loss_sep(s, a);
    let has_eq = b < s.len() && s[b] == 0x3d;
    if has_eq || eq_optional {
        let c = spec_loss_sep(s, if has_eq { b + 1 } else { b });
        spec_value(s, c)
    } else {
        None
    }
}

fn assign(s: &[u8], a: usize, eq_optional: bool) -> (r: Option<(ValueBuilder, usize)>)
    requires a <= s@.len(),
    ensures lift(r) == spec_assign(s@, a as int, eq_optional), r matches Some((_, j)) ==> a < j <= s@.len(),
{
    let b = loss_sep(s, a);
    let has_eq = b < s.len() && s[b] == 0x3d;
    if has_eq || eq_optional {
        let c = loss_sep(s, if has_eq { b + 1 } else { b });
        value(s, c)
    } else {
        None
    }
}

/// `.ic` item `V(node) = value`.
pub open spec fn spec_ic_item(s: Seq<u8>, p: int) -> Option<((Span, ValueBuilder), int)> {
    match spec_v(s, p) {
        Some((n, a)) => match spec_assign(s, a, false) {
            Some((v, j)) => Some(((n, v), j)),
            None => None,
        },
        None => None,
    }
}

/// `.nodeset` item `node [=] value`.
pub open spec fn spec_nodeset_item(s: Seq<u8>, p: int) -> Option<((Span, ValueBuilder), int)> {
    match spec_node(s, p) {
        Some((n, a)) => match spec_assign(s, a, true) {
            Some((v, j)) => Some(((n, v), j)),
            None => None,
        },
        None => None,
    }
}

/// `subckt = name` (the keyword in any case).
pub open spec fn spec_subckt_kw(s: Seq<u8>, p: int) -> Option<(Span, int)> {
    match spec_node(s, p) {
        Some((k, a)) => if spec_cmd_kw(s, k, seq![0x73u8, 0x75, 0x62, 0x63, 0x6b, 0x74]) {
            let b = spec_loss_sep(s, a);
            if b < s.len() && s[b] == 0x3d {
                spec_node(s, spec_loss_sep(s, b + 1))
            } else {
                None
            }
        } else {
            None
        },
        None => None,
    }
}

fn subckt_kw(s: &[u8], p: usize) -> (r: Option<(Span, usize)>)
    requires p <= s@.len(),
    ensures lift(r) == spec_subckt_kw(s@, p as int), r matches Some((_, j)) ==> p < j <= s@.len(),
{
    match node(s, p) {
        Some((k, a)) => if crate::model::cmd_kw(s, k, &[0x73u8, 0x75, 0x62, 0x63, 0x6b, 0x74]) {
            let b = loss_sep(s, a);
            if b < s.len() && s[b] == 0x3d {
                node(s, loss_sep(s, b + 1))
            } else {
                None
            }
        } else {
            None
        },
        None => None,
    }
}

pub open spec fn m_ic_item(s: Seq<u8>) -> spec_fn(int) -> Option<((Span, ValueBuilder), int)> {
    |p: int| spec_msep(s, p, |q: int| spec_ic_item(s, q))
}

pub open spec fn m_nodeset_item(s: Seq<u8>) -> spec_fn(int) -> Option<((Span, ValueBuilder), int)> {
    |p: int| spec_msep(s, p, |q: int| spec_nodeset_item(s, q))
}

/// Every `(node, value)` with the optional subcircuit name.
pub open spec fn spec_with_subckt(xs: Seq<(Span, ValueBuilder)>, sub: Option<Span>) -> Seq<(Span, ValueBuilder, Option<Span>)> {
    xs.map_values(|x: (Span, ValueBuilder)| (x.0, x.1, sub))
}

/// `.ic` / `.nodeset` arguments: items, then an optional `subckt = name`.
pub open spec fn spec_node_values(s: Seq<u8>, c: int, nodeset: bool) -> Option<(Seq<(Span, ValueBuilder, Option<Span>)>, int)> {
    match spec_many1(s, c, if nodeset { m_nodeset_item(s) } else { m_ic_item(s) }) {
        Some((xs, d)) => match spec_msep(s, d, |q: int| spec_subckt_kw(s, q)) {
            Some((sub, e)) => Some((spec_with_subckt(xs, Some(sub)), e)),
            None => Some((spec_with_subckt(xs, None), d)),
        },
        None => None,
    }
}

fn item(s: &[u8], p: usize, nodeset: bool) -> (r: Option<((Span, ValueBuilder), usize)>)
    requires p <= s@.len(),
    ensures
        lift(r) == (if nodeset { m_nodeset_item(s@) } else { m_ic_item(s@) })(p as int),
        r matches Some((_, j)) ==> p < j <= s@.len(),
{
    let (a, b) = crate::lex::sep_starts(s, p);
    if let Some(q) = a {
        if let Some(r) = item_at(s, q, nodeset) {
            return Some(r);
        }
    }
    match b {
        Some(q) => item_at(s, q, nodeset),
        None => None,
    }
}

fn item_at(s: &[u8], p: usize, nodeset: bool) -> (r: Option<((Span, ValueBuilder), usize)>)
    requires p <= s@.len(),
    ensures
        nodeset ==> lift(r) == spec_nodeset_item(s@, p as int),
        !nodeset ==> lift(r) == spec_ic_item(s@, p as int),
        r matches Some((_, j)) ==> p < j <= s@.len(),
{
    let n = if nodeset { node(s, p) } else { v_node(s, p) };
    match n {
        Some((n, a)) => match assign(s, a, nodeset) {
            Some((v, j)) => Some(((n, v), j)),
            None => None,
        },
        None => None,
    }
}

fn with_subckt(xs: Vec<(Span, ValueBuilder)>, sub: Option<Span>) -> (r: Vec<(Span, ValueBuilder, Option<Span>)>)
    ensures r@ == spec_with_subckt(xs@, sub),
{
    let mut r: Vec<(Span, ValueBuilder, Option<Span>)> = Vec::new();
    let mut k: usize = 0;
    while k < xs.len()
        invariant
            k <= xs@.len(),
            r@ =~= spec_with_subckt(xs@.subrange(0, k as int), sub),
        decreases xs@.len() - k,
    {
        let x = xs[k];
        r.push((x.0, x.1, sub));
        k = k + 1;
        assert(xs@.subrange(0, k as int) =~= xs@.subrange(0, k - 1).push(x));
    }
    assert(xs@.subrange(0, xs@.len() as int) =~= xs@);
    r
}

/// Parses the arguments of `.ic` (`nodeset == false`) or `.nodeset` at `c`.
pub fn node_values(s: &[u8], c: usize, nodeset: bool) -> (r: Option<(Vec<(Span, ValueBuilder, Option<Span>)>, usize)>)
    requires c <= s@.len(),
    ensures
        lift_vec3(r) == spec_node_values(s@, c as int, nodeset),
        r matches Some((_, e)) ==> c < e <= s@.len(),
{
    let f = |p: usize| -> (q: Option<((Span, ValueBuilder), usize)>)
        requires p <= s@.len(),
        ensures
            lift(q) == (if nodeset { m_nodeset_item(s@) } else { m_ic_item(s@) })(p as int),
            q matches Some((_, j)) ==> p < j <= s@.len(),
        { item(s, p, nodeset) };
    match many1_by(s, c, &f, Ghost(if nodeset { m_nodeset_item(s@) } else { m_ic_item(s@) })) {
        Some((xs, d)) => {
            let (a, b) = crate::lex::sep_starts(s, d);
            let mut sub: Option<(Span, usize)> = None;
            if let Some(q) = a {
                sub = subckt_kw(s, q);
            }
            if sub.is_none() {
                if let Some(q) = b {
                    sub = subckt_kw(s, q);
                }
            }
            match sub {
                Some((sp, e)) => Some((with_subckt(xs, Some(sp)), e)),
                None => Some((with_subckt(xs, None), d)),
            }
        },
        None => None,
    }
}

pub open spec fn lift_vec3<T>(r: Option<(Vec<T>, usize)>) -> Option<(Seq<T>, int)> {
    crate::values::lift_vec(r)
}

/// `.option` item: `name` or `name = value`.
pub open spec fn spec_option_item(s: Seq<u8>, p: int) -> Option<((Span, Option<ValueBuilder>), int)> {
    match spec_key(s, p) {
        Some((k, a)) => match spec_equal_start(s, a) {
            Some(q) => match spec_value(s, q) {
                Some((v, j)) => Some(((k, Some(v)), j)),
                None => Some(((k, None), a)),
            },
            None => Some(((k, None), a)),
        },
        None => None,
    }
}

pub open spec fn m_option_item(s: Seq<u8>) -> spec_fn(int) -> Option<((Span, Option<ValueBuilder>), int)> {
    |p: int| spec_msep(s, p, |q: int| spec_option_item(s, q))
}

fn option_item_at(s: &[u8], p: usize) -> (r: Option<((Span, Option<ValueBuilder>), usize)>)
    requires p <= s@.len(),
    ensures lift(r) == spec_option_item(s@, p as int), r matches Some((_, j)) ==> p < j <= s@.len(),
{
    match key(s, p) {
        Some((k, a)) => match equal_start(s, a) {
            Some(q) => match value(s, q) {
                Some((v, j)) => Some(((k, Some(v)), j)),
                None => Some(((k, None), a)),
            },
            None => Some(((k, None), a)),
        },
        None => None,
    }
}

fn option_item(s: &[u8], p: usize) -> (r: Option<((Span, Option<ValueBuilder>), usize)>)
    requires p <= s@.len(),
    ensures lift(r) == m_option_item(s@)(p as int), r matches Some((_, j)) ==> p < j <= s@.len(),
{
    let (a, b) = crate::lex::sep_starts(s, p);
    if let Some(q) = a {
        if let Some(r) = option_item_at(s, q) {
            return Some(r);
        }
    }
    match b {
        Some(q) => option_item_at(s, q),
        None => None,
    }
}

/// Parses the arguments of `.option` at `c`.
pub fn options(s: &[u8], c: usize) -> (r: Option<(Vec<(Span, Option<ValueBuilder>)>, usize)>)
    requires c <= s@.len(),
    ensures
        crate::values::lift_vec(r) == spec_many1(s@, c as int, m_option_item(s@)),
        r matches Some((_, e)) ==> c < e <= s@.len(),
{
    let f = |p: usize| -> (q: Option<((Span, Option<ValueBuilder>), usize)>)
        requires p <= s@.len(),
        ensures lift(q) == m_option_item(s@)(p as int), q matches Some((_, j)) ==> p < j <= s@.len(),
        { option_item(s, p) };
    many1_by(s, c, &f, Ghost(m_option_item(s@)))
}

} // verus!
