//! `.MODEL` and `.DATA` statements.
use vstd::prelude::*;
use crate::ast::{
    DataBuilder, DataFileBuilder, DataFileView, DataFilesBuilder, DataFilesView, DataValuesBuilder,
    DataValuesView, DataView, KeyValueBuilder, ModelBuilder, ModelTypeBuilder, ModelView, NumLit,
    PnameColNumBuilder, ValueBuilder,
};
use crate::chars::{fold_upper_range, spec_fold, spec_fold_upper};
use crate::lex::{
    Class, equal_start, integer, lemma_scan_bounds, loss_sep, path, scan, spec_equal_start,
    spec_integer, spec_loss_sep, spec_path, spec_scan,
};
use crate::span::Span;
use crate::values::{
    key_value, lift, lift_vec, many0_by, many1_by, m_float_unit, m_key, m_key_value, m_value,
    msep_float_unit, msep_key, msep_key_value, msep_value, prepend, spec_key_value, spec_many0,
    spec_many1,
};

verus! {

/// The word `sp` is `lit` once upper-cased (`lit` in upper case).
pub open spec fn spec_kw(s: Seq<u8>, sp: Span, lit: Seq<u8>) -> bool {
    same_bytes(spec_fold_upper(s.subrange(sp.start as int, sp.end as int)), lit)
}

/// `a` and `b` hold the same bytes.
pub open spec fn same_bytes(a: Seq<u8>, b: Seq<u8>) -> bool {
    a.len() == b.len() && forall|k: int| 0 <= k < a.len() ==> #[trigger] a[k] == b[k]
}

pub(crate) fn kw(s: &[u8], sp: Span, lit: &[u8]) -> (r: bool)
    requires sp.start <= sp.end <= s@.len(),
    ensures r == spec_kw(s@, sp, lit@),
{
    let t = fold_upper_range(s, sp.start, sp.end);
    let r = crate::netlist::bytes_eq(t.as_slice(), lit);
    proof { if !r && same_bytes(t@, lit@) { assert(t@ =~= lit@); } }
    r
}

/// The command word `sp` is `lit` once lower-cased (`lit` in lower case).
#[verifier::opaque]
pub open spec fn spec_cmd_kw(s: Seq<u8>, sp: Span, lit: Seq<u8>) -> bool {
    same_bytes(spec_fold(s.subrange(sp.start as int, sp.end as int)), lit)
}

pub(crate) fn cmd_kw(s: &[u8], sp: Span, lit: &[u8]) -> (r: bool)
    requires sp.start <= sp.end <= s@.len(),
    ensures r == spec_cmd_kw(s@, sp, lit@),
{
    let t = crate::chars::fold_range(s, sp.start, sp.end);
    let r = crate::netlist::bytes_eq(t.as_slice(), lit);
    proof { reveal(spec_cmd_kw); }
    proof { if !r && same_bytes(t@, lit@) { assert(t@ =~= lit@); } }
    r
}

/// The model kind named by the word `sp` (upper-cased); an unknown name keeps its span.
pub open spec fn spec_model_type(s: Seq<u8>, sp: Span) -> ModelTypeBuilder {
    if spec_kw(s, sp, seq![0x41u8, 0x4d, 0x50]) { ModelTypeBuilder::AMP }
    else if spec_kw(s, sp, seq![0x43u8]) { ModelTypeBuilder::C }
    else if spec_kw(s, sp, seq![0x43u8, 0x4f, 0x52, 0x45]) { ModelTypeBuilder::CORE }
    else if spec_kw(s, sp, seq![0x44u8]) { ModelTypeBuilder::D }
    else if spec_kw(s, sp, seq![0x4cu8]) { ModelTypeBuilder::L }
    else if spec_kw(s, sp, seq![0x4eu8, 0x4a, 0x46]) { ModelTypeBuilder::NJF }
    else if spec_kw(s, sp, seq![0x4eu8, 0x4d, 0x4f, 0x53]) { ModelTypeBuilder::NMOS }
    else if spec_kw(s, sp, seq![0x4eu8, 0x50, 0x4e]) { ModelTypeBuilder::NPN }
    else if spec_kw(s, sp, seq![0x4fu8, 0x50, 0x54]) { ModelTypeBuilder::OPT }
    else if spec_kw(s, sp, seq![0x50u8, 0x4a, 0x46]) { ModelTypeBuilder::PJF }
    else if spec_kw(s, sp, seq![0x50u8, 0x4d, 0x4f, 0x53]) { ModelTypeBuilder::PMOS }
    else if spec_kw(s, sp, seq![0x50u8, 0x4e, 0x50]) { ModelTypeBuilder::PNP }
    else if spec_kw(s, sp, seq![0x52u8]) { ModelTypeBuilder::R }
    else if spec_kw(s, sp, seq![0x55u8]) { ModelTypeBuilder::U }
    else if spec_kw(s, sp, seq![0x57u8]) { ModelTypeBuilder::W }
    else if spec_kw(s, sp, seq![0x53u8]) { ModelTypeBuilder::S }
    else { ModelTypeBuilder::Unknown(sp) }
}

impl ModelTypeBuilder {
    /// The model kind named by `s[sp]`, upper-cased.
    pub fn from_name(s: &[u8], sp: Span) -> (r: ModelTypeBuilder)
        requires sp.start <= sp.end <= s@.len(),
        ensures r == spec_model_type(s@, sp),
    {
        if kw(s, sp, &[0x41u8, 0x4d, 0x50]) { ModelTypeBuilder::AMP }
        else if kw(s, sp, &[0x43u8]) { ModelTypeBuilder::C }
        else if kw(s, sp, &[0x43u8, 0x4f, 0x52, 0x45]) { ModelTypeBuilder::CORE }
        else if kw(s, sp, &[0x44u8]) { ModelTypeBuilder::D }
        else if kw(s, sp, &[0x4cu8]) { ModelTypeBuilder::L }
        else if kw(s, sp, &[0x4eu8, 0x4a, 0x46]) { ModelTypeBuilder::NJF }
        else if kw(s, sp, &[0x4eu8, 0x4d, 0x4f, 0x53]) { ModelTypeBuilder::NMOS }
        else if kw(s, sp, &[0x4eu8, 0x50, 0x4e]) { ModelTypeBuilder::NPN }
        else if kw(s, sp, &[0x4fu8, 0x50, 0x54]) { ModelTypeBuilder::OPT }
        else if kw(s, sp, &[0x50u8, 0x4a, 0x46]) { ModelTypeBuilder::PJF }
        else if kw(s, sp, &[0x50u8, 0x4d, 0x4f, 0x53]) { ModelTypeBuilder::PMOS }
        else if kw(s, sp, &[0x50u8, 0x4e, 0x50]) { ModelTypeBuilder::PNP }
        else if kw(s, sp, &[0x52u8]) { ModelTypeBuilder::R }
        else if kw(s, sp, &[0x55u8]) { ModelTypeBuilder::U }
        else if kw(s, sp, &[0x57u8]) { ModelTypeBuilder::W }
        else if kw(s, sp, &[0x53u8]) { ModelTypeBuilder::S }
        else { ModelTypeBuilder::Unknown(sp) }
    }
}

/// The parameters of a `.model` in parentheses: `( [kv kv ...] )`.
pub open spec fn spec_paren_params(s: Seq<u8>, b: int) -> Option<(Seq<KeyValueBuilder>, int)> {
    let p1 = spec_loss_sep(s, b);
    if p1 < s.len() && s[p1] == 0x28 {
        let p2 = spec_loss_sep(s, p1 + 1);
        let (ps, q) = match spec_key_value(s, p2) {
            Some((first, q)) => match spec_many0(s, q, m_key_value(s)) {
                Some((rest, r)) => (seq![first] + rest, r),
                None => (Seq::empty(), p2),
            },
            None => (Seq::empty(), p2),
        };
        let p3 = spec_loss_sep(s, q);
        if p3 < s.len() && s[p3] == 0x29 { Some((ps, p3 + 1)) } else { None }
    } else {
        None
    }
}

/// `.MODEL name type params` after the command word, where the parameters
/// follow directly or stand in parentheses.
pub open spec fn spec_model(s: Seq<u8>, e: int) -> Option<(ModelView, int)> {
    match m_key(s)(e) {
        Some((name, a)) => match m_key(s)(a) {
            Some((ty, b)) => {
                let params = match spec_many1(s, b, m_key_value(s)) {
                    Some((ps, c)) => Some((ps, c)),
                    None => spec_paren_params(s, b),
                };
                match params {
                    Some((ps, c)) => Some((ModelView { name, model_type: spec_model_type(s, ty), params: ps }, c)),
                    None => None,
                }
            },
            None => None,
        },
        None => None,
    }
}

fn paren_params(s: &[u8], b: usize) -> (r: Option<(Vec<KeyValueBuilder>, usize)>)
    requires b <= s@.len(),
    ensures
        lift_vec(r) == spec_paren_params(s@, b as int),
        r matches Some((_, c)) ==> b < c <= s@.len(),
{
    let p1 = loss_sep(s, b);
    if p1 < s.len() && s[p1] == 0x28 {
        let p2 = loss_sep(s, p1 + 1);
        let (ps, q) = match key_value(s, p2) {
            Some((first, q)) => match many0_key_value_at(s, q) {
                Some((rest, r)) => {
                    let mut v: Vec<KeyValueBuilder> = Vec::new();
                    v.push(first);
                    let mut rest = rest;
                    let ghost rv = rest@;
                    v.append(&mut rest);
                    assert(v@ =~= seq![first] + rv);
                    (v, r)
                },
                None => (Vec::new(), p2),
            },
            None => (Vec::new(), p2),
        };
        let p3 = loss_sep(s, q);
        if p3 < s.len() && s[p3] == 0x29 { Some((ps, p3 + 1)) } else { None }
    } else {
        None
    }
}

fn many0_key_value_at(s: &[u8], q: usize) -> (r: Option<(Vec<KeyValueBuilder>, usize)>)
    requires q <= s@.len(),
    ensures
        lift_vec(r) == spec_many0(s@, q as int, m_key_value(s@)),
        r matches Some((_, j)) ==> q <= j <= s@.len(),
{
    crate::values::many0_key_value(s, q)
}

fn many1_key_value(s: &[u8], b: usize) -> (r: Option<(Vec<KeyValueBuilder>, usize)>)
    requires b <= s@.len(),
    ensures
        lift_vec(r) == spec_many1(s@, b as int, m_key_value(s@)),
        r matches Some((_, j)) ==> b < j <= s@.len(),
{
    let f = |p: usize| -> (q: Option<(KeyValueBuilder, usize)>)
        requires p <= s@.len(),
        ensures lift(q) == m_key_value(s@)(p as int), q matches Some((_, j)) ==> p < j <= s@.len(),
        { msep_key_value(s, p) };
    many1_by(s, b, &f, Ghost(m_key_value(s@)))
}

/// Parses the rest of a `.MODEL` statement at `e`.
pub fn model(s: &[u8], e: usize) -> (r: Option<(ModelBuilder, usize)>)
    requires e <= s@.len(),
    ensures
        r matches Some((m, c)) ==> spec_model(s@, e as int) == Some((m@, c as int)) && e < c <= s@.len(),
        r is None ==> spec_model(s@, e as int) is None,
{
    let (name, a) = match msep_key(s, e) {
        Some(x) => x,
        None => { return None; },
    };
    let (ty, b) = match msep_key(s, a) {
        Some(x) => x,
        None => { return None; },
    };
    let params = match many1_key_value(s, b) {
        Some((ps, c)) => Some((ps, c)),
        None => paren_params(s, b),
    };
    match params {
        Some((ps, c)) => Some((ModelBuilder { name, model_type: ModelTypeBuilder::from_name(s, ty), params: ps }, c)),
        None => None,
    }
}

/// `.ENDDATA` (any case) at `t`.
pub open spec fn spec_enddata(s: Seq<u8>, t: int) -> Option<int> {
    if 0 <= t < s.len() && s[t] == 0x2e {
        match crate::values::spec_key(s, t + 1) {
            Some((k, e)) => if spec_kw(s, k, seq![0x45u8, 0x4e, 0x44, 0x44, 0x41, 0x54, 0x41]) { Some(e) } else { None },
            None => None,
        }
    } else {
        None
    }
}

fn enddata(s: &[u8], t: usize) -> (r: Option<usize>)
    requires t <= s@.len(),
    ensures
        r matches Some(e) ==> spec_enddata(s@, t as int) == Some(e as int) && t < e <= s@.len(),
        r is None ==> spec_enddata(s@, t as int) is None,
{
    if t < s.len() && s[t] == 0x2e {
        match crate::values::key(s, t + 1) {
            Some((k, e)) => if kw(s, k, &[0x45u8, 0x4e, 0x44, 0x44, 0x41, 0x54, 0x41]) { Some(e) } else { None },
            None => None,
        }
    } else {
        None
    }
}

/// `KEYWORD = path` after a separator, for the keyword `lit`.
pub open spec fn spec_kw_path(s: Seq<u8>, p: int, lit: Seq<u8>) -> Option<(Span, int)> {
    match m_key(s)(p) {
        Some((k, q)) => if spec_kw(s, k, lit) {
            match spec_equal_start(s, q) {
                Some(r) => spec_path(s, r),
                None => None,
            }
        } else {
            None
        },
        None => None,
    }
}

fn kw_path(s: &[u8], p: usize, lit: &[u8]) -> (r: Option<(Span, usize)>)
    requires p <= s@.len(),
    ensures
        lift(r) == spec_kw_path(s@, p as int, lit@),
        r matches Some((sp, e)) ==> p < e <= s@.len() && sp.start <= sp.end <= s@.len(),
{
    match msep_key(s, p) {
        Some((k, q)) => if kw(s, k, lit) {
            match equal_start(s, q) {
                Some(r) => path(s, r),
                None => None,
            }
        } else {
            None
        },
        None => None,
    }
}

/// `pname = column` for a name other than `FILE` and `OUT`.
pub open spec fn spec_pname_col_num(s: Seq<u8>, p: int) -> Option<(PnameColNumBuilder, int)> {
    match m_key(s)(p) {
        Some((k, q)) => if !spec_kw(s, k, seq![0x46u8, 0x49, 0x4c, 0x45]) && !spec_kw(s, k, seq![0x4fu8, 0x55, 0x54]) {
            match spec_equal_start(s, q) {
                Some(r) => match spec_integer(s, r) {
                    Some((n, e)) => Some((PnameColNumBuilder { pname: k, col_num: n }, e)),
                    None => None,
                },
                None => None,
            }
        } else {
            None
        },
        None => None,
    }
}

fn pname_col_num(s: &[u8], p: usize) -> (r: Option<(PnameColNumBuilder, usize)>)
    requires p <= s@.len(),
    ensures
        lift(r) == spec_pname_col_num(s@, p as int),
        r matches Some((_, e)) ==> p < e <= s@.len(),
{
    match msep_key(s, p) {
        Some((k, q)) => if !kw(s, k, &[0x46u8, 0x49, 0x4c, 0x45]) && !kw(s, k, &[0x4fu8, 0x55, 0x54]) {
            match equal_start(s, q) {
                Some(r) => match integer(s, r) {
                    Some((n, e)) => Some((PnameColNumBuilder { pname: k, col_num: n }, e)),
                    None => None,
                },
                None => None,
            }
        } else {
            None
        },
        None => None,
    }
}

pub open spec fn f_pname_col_num(s: Seq<u8>) -> spec_fn(int) -> Option<(PnameColNumBuilder, int)> {
    |p: int| spec_pname_col_num(s, p)
}

/// `FILE = path` followed by one or more `pname = column`.
pub open spec fn spec_data_file(s: Seq<u8>, p: int) -> Option<(DataFileView, int)> {
    match spec_kw_path(s, p, seq![0x46u8, 0x49, 0x4c, 0x45]) {
        Some((f, q)) => match spec_many1(s, q, f_pname_col_num(s)) {
            Some((pcs, r)) => Some((DataFileView { file: f, pname_col_num: pcs }, r)),
            None => None,
        },
        None => None,
    }
}

pub open spec fn f_data_file(s: Seq<u8>) -> spec_fn(int) -> Option<(DataFileView, int)> {
    |p: int| spec_data_file(s, p)
}

fn data_file(s: &[u8], p: usize) -> (r: Option<(DataFileBuilder, usize)>)
    requires p <= s@.len(),
    ensures
        r matches Some((d, e)) ==> spec_data_file(s@, p as int) == Some((d@, e as int)) && p < e <= s@.len(),
        r is None ==> spec_data_file(s@, p as int) is None,
{
    match kw_path(s, p, &[0x46u8, 0x49, 0x4c, 0x45]) {
        Some((f, q)) => {
            let g = |x: usize| -> (o: Option<(PnameColNumBuilder, usize)>)
                requires x <= s@.len(),
                ensures lift(o) == f_pname_col_num(s@)(x as int), o matches Some((_, j)) ==> x < j <= s@.len(),
                { pname_col_num(s, x) };
            match many1_by(s, q, &g, Ghost(f_pname_col_num(s@))) {
                Some((pcs, r)) => Some((DataFileBuilder { file: f, pname_col_num: pcs }, r)),
                None => None,
            }
        },
        None => None,
    }
}

/// The data files of a `MER` or `LAM` data set, an optional `OUT = path`, and `.ENDDATA`.
pub open spec fn spec_data_files(s: Seq<u8>, b: int) -> Option<(DataFilesView, int)> {
    match spec_many1(s, b, f_data_file(s)) {
        Some((files, c)) => {
            let (out, d) = match spec_kw_path(s, c, seq![0x4fu8, 0x55, 0x54]) {
                Some((o, d)) => (Some(o), d),
                None => (None, c),
            };
            match spec_enddata(s, spec_scan(s, d, Class::SpaceNl)) {
                Some(e) => Some((DataFilesView { files, out }, e)),
                None => None,
            }
        },
        None => None,
    }
}

/// Many data-file entries, with their views.
fn many1_data_file(s: &[u8], b: usize) -> (r: Option<(Vec<DataFileBuilder>, usize)>)
    requires b <= s@.len(),
    ensures
        r matches Some((v, c)) ==> spec_many1(s@, b as int, f_data_file(s@)) == Some((v@.map_values(|f: DataFileBuilder| f@), c as int))
            && b < c <= s@.len(),
        r is None ==> spec_many1(s@, b as int, f_data_file(s@)) is None,
{
    let (first, mut p) = match data_file(s, b) {
        Some(x) => x,
        None => { return None; },
    };
    let mut acc: Vec<DataFileBuilder> = Vec::new();
    acc.push(first);
    assert(acc@.map_values(|f: DataFileBuilder| f@) =~= seq![first@]);
    loop
        invariant
            b < p <= s@.len(),
            spec_many1(s@, b as int, f_data_file(s@)) == prepend(acc@.map_values(|f: DataFileBuilder| f@), spec_many0(s@, p as int, f_data_file(s@))),
        decreases s@.len() - p,
    {
        match data_file(s, p) {
            Some((x, j)) => {
                proof {
                    crate::values::lemma_prepend_step(acc@.map_values(|f: DataFileBuilder| f@), x@, spec_many0(s@, j as int, f_data_file(s@)));
                }
                let ghost old_acc = acc@;
                acc.push(x);
                assert(acc@.map_values(|f: DataFileBuilder| f@) =~= old_acc.map_values(|f: DataFileBuilder| f@).push(x@));
                p = j;
            },
            None => {
                assert(acc@.map_values(|f: DataFileBuilder| f@) + Seq::<DataFileView>::empty() =~= acc@.map_values(|f: DataFileBuilder| f@));
                return Some((acc, p));
            },
        }
    }
}

fn data_files(s: &[u8], b: usize) -> (r: Option<(DataFilesBuilder, usize)>)
    requires b <= s@.len(),
    ensures
        r matches Some((d, e)) ==> spec_data_files(s@, b as int) == Some((d@, e as int)) && b < e <= s@.len(),
        r is None ==> spec_data_files(s@, b as int) is None,
{
    match many1_data_file(s, b) {
        Some((files, c)) => {
            let (out, d) = match kw_path(s, c, &[0x4fu8, 0x55, 0x54]) {
                Some((o, d)) => (Some(o), d),
                None => (None, c),
            };
            match enddata(s, scan(s, d, Class::SpaceNl)) {
                Some(e) => Some((DataFilesBuilder { files, out }, e)),
                None => None,
            }
        },
        None => None,
    }
}

/// Inline data: parameter names until the first number (numeric data) or
/// `DATAFORM` (data given as values), then the data and `.ENDDATA`.
pub open spec fn spec_data_inline(s: Seq<u8>, p: int, params: Seq<Span>) -> Option<(DataValuesView, int)>
    decreases s.len() - p,
{
    match m_float_unit(s)(p) {
        Some((n, q)) => match spec_many0(s, q, m_float_unit(s)) {
            Some((rest, r)) => match spec_enddata(s, spec_scan(s, r, Class::SpaceNl)) {
                Some(e) => Some((DataValuesView::InlineNum { params, values: seq![n] + rest }, e)),
                None => None,
            },
            None => None,
        },
        None => match m_key(s)(p) {
            Some((k, q)) => if spec_kw(s, k, seq![0x44u8, 0x41, 0x54, 0x41, 0x46, 0x4f, 0x52, 0x4d]) {
                match spec_many1(s, q, m_value(s)) {
                    Some((vals, r)) => match spec_enddata(s, spec_scan(s, r, Class::SpaceNl)) {
                        Some(e) => Some((DataValuesView::InlineExpr { params, values: vals }, e)),
                        None => None,
                    },
                    None => None,
                }
            } else if p < q <= s.len() {
                spec_data_inline(s, q, params.push(k))
            } else {
                None
            },
            None => None,
        },
    }
}

fn data_inline(s: &[u8], b: usize, first: Span) -> (r: Option<(DataValuesBuilder, usize)>)
    requires b <= s@.len(),
    ensures
        r matches Some((d, e)) ==> spec_data_inline(s@, b as int, seq![first]) == Some((d@, e as int)) && b < e <= s@.len(),
        r is None ==> spec_data_inline(s@, b as int, seq![first]) is None,
{
    let mut params: Vec<Span> = Vec::new();
    params.push(first);
    let mut p = b;
    assert(params@ =~= seq![first]);
    loop
        invariant
            b <= p <= s@.len(),
            spec_data_inline(s@, b as int, seq![first]) == spec_data_inline(s@, p as int, params@),
        decreases s@.len() - p,
    {
        match msep_float_unit(s, p) {
            Some((n, q)) => {
                let f = |x: usize| -> (o: Option<(NumLit, usize)>)
                    requires x <= s@.len(),
                    ensures lift(o) == m_float_unit(s@)(x as int), o matches Some((_, j)) ==> x < j <= s@.len(),
                    { msep_float_unit(s, x) };
                match many0_by(s, q, &f, Ghost(m_float_unit(s@))) {
                    Some((rest, r)) => {
                        match enddata(s, scan(s, r, Class::SpaceNl)) {
                            Some(e) => {
                                let mut values: Vec<NumLit> = Vec::new();
                                values.push(n);
                                let mut rest = rest;
                                let ghost rv = rest@;
                                values.append(&mut rest);
                                assert(values@ =~= seq![n] + rv);
                                return Some((DataValuesBuilder::InlineNum { params, values }, e));
                            },
                            None => { return None; },
                        }
                    },
                    None => { return None; },
                }
            },
            None => {
                match msep_key(s, p) {
                    Some((k, q)) => {
                        if kw(s, k, &[0x44u8, 0x41, 0x54, 0x41, 0x46, 0x4f, 0x52, 0x4d]) {
                            let f = |x: usize| -> (o: Option<(ValueBuilder, usize)>)
                                requires x <= s@.len(),
                                ensures lift(o) == m_value(s@)(x as int), o matches Some((_, j)) ==> x < j <= s@.len(),
                                { msep_value(s, x) };
                            match many1_by(s, q, &f, Ghost(m_value(s@))) {
                                Some((vals, r)) => match enddata(s, scan(s, r, Class::SpaceNl)) {
                                    Some(e) => { return Some((DataValuesBuilder::InlineExpr { params, values: vals }, e)); },
                                    None => { return None; },
                                },
                                None => { return None; },
                            }
                        } else {
                            params.push(k);
                            p = q;
                        }
                    },
                    None => { return None; },
                }
            },
        }
    }
}

/// `.DATA name ...` after the command word.
pub open spec fn spec_data(s: Seq<u8>, e: int) -> Option<(DataView, int)> {
    match m_key(s)(e) {
        Some((name, a)) => match m_key(s)(a) {
            Some((first, b)) => if spec_kw(s, first, seq![0x4du8, 0x45, 0x52]) {
                match spec_data_files(s, b) {
                    Some((f, c)) => Some((DataView { name, values: DataValuesView::MER(f) }, c)),
                    None => None,
                }
            } else if spec_kw(s, first, seq![0x4cu8, 0x41, 0x4d]) {
                match spec_data_files(s, b) {
                    Some((f, c)) => Some((DataView { name, values: DataValuesView::LAM(f) }, c)),
                    None => None,
                }
            } else {
                match spec_data_inline(s, b, seq![first]) {
                    Some((v, c)) => Some((DataView { name, values: v }, c)),
                    None => None,
                }
            },
            None => None,
        },
        None => None,
    }
}

/// Parses the rest of a `.DATA` statement at `e`.
pub fn data(s: &[u8], e: usize) -> (r: Option<(DataBuilder, usize)>)
    requires e <= s@.len(),
    ensures
        r matches Some((d, c)) ==> spec_data(s@, e as int) == Some((d@, c as int)) && e < c <= s@.len(),
        r is None ==> spec_data(s@, e as int) is None,
{
    let (name, a) = match msep_key(s, e) {
        Some(x) => x,
        None => { return None; },
    };
    let (first, b) = match msep_key(s, a) {
        Some(x) => x,
        None => { return None; },
    };
    if kw(s, first, &[0x4du8, 0x45, 0x52]) {
        match data_files(s, b) {
            Some((f, c)) => Some((DataBuilder { name, values: DataValuesBuilder::MER(f) }, c)),
            None => None,
        }
    } else if kw(s, first, &[0x4cu8, 0x41, 0x4d]) {
        match data_files(s, b) {
            Some((f, c)) => Some((DataBuilder { name, values: DataValuesBuilder::LAM(f) }, c)),
            None => None,
        }
    } else {
        match data_inline(s, b, first) {
            Some((v, c)) => Some((DataBuilder { name, values: v }, c)),
            None => None,
        }
    }
}

} // verus!
