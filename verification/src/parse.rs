//! The statement loop: commands, element lines, subcircuit bodies and the
//! segments of a file.
use vstd::prelude::*;
use crate::ast::{KeyValueBuilder, TokenBuilder, UnknwonBuilder, UnknwonView, ValueBuilder};
use crate::cmds::{lib, m_option_item, node_values, options, spec_lib, spec_node_values};
use crate::err::{ParseError, ParseErrorInner};
use crate::instance::{instance, spec_instance};
use crate::lex::{Class, csn, lemma_csn_bounds, lemma_scan_bounds, path, scan, spec_csn, spec_path, spec_scan, spec_take1, take1};
use crate::local::{
    ASTBuilder, ASTView, EndReason, IncludeRequest, LocalAST, LocalView, ReasonView, RequestView, Segment,
    SegmentView, SubcktBuilder, SubcktView, ast_view, empty_local, local_is_empty, local_view, reason_view,
    segment_view, subckt_view, segs_view,
};
use crate::model::{cmd_kw, data, model, spec_cmd_kw, spec_data, spec_model};
use crate::ports::{ports_params, spec_ports_params};
use crate::span::{pos_at, spec_pos, Pos, Span};
use crate::values::{
    key, lift, lift_vec, many0_by, many1_by, m_key_value, m_token, msep_key_value, msep_token, node, spec_key,
    spec_many0, spec_many1, spec_node,
};

verus! {

/// The requests as mathematical values.
pub open spec fn reqs_view(v: Seq<IncludeRequest>) -> Seq<RequestView> {
    v.map_values(|q: IncludeRequest| q@)
}

/// The outcome of one statement.
pub enum StepView {
    /// The statement was read; reading goes on at the position.
    Continue(LocalView, Seq<RequestView>, int),
    /// The run of statements ends here.
    Stop(LocalView, Seq<RequestView>, ReasonView, int),
    /// The statement does not parse; the position of the failure.
    Fail(int),
}

/// One command `.word ...` that starts at `i1`, whose word is `cmd` and ends at `c`.
pub open spec fn spec_command(
    s: Seq<u8>, base: u32, i1: int, cmd: Span, c: int, acc: LocalView, reqs: Seq<RequestView>,
) -> StepView
    decreases s.len() - i1, 0nat,
{
    if spec_cmd_kw(s, cmd, seq![0x6cu8, 0x69, 0x62]) {
        match spec_take1(s, c, Class::Space) {
            Some(p1) => match spec_lib(s, p1) {
                Some((Some((ps, sec)), t)) => StepView::Stop(acc, reqs,
                    ReasonView::Include(RequestView { file: ps, section: Some(sec), pos: spec_pos(s, base, t) }), t),
                Some((None, t)) => StepView::Continue(acc, reqs, t),
                None => StepView::Fail(i1),
            },
            None => StepView::Fail(i1),
        }
    } else if spec_cmd_kw(s, cmd, seq![0x69u8, 0x6e, 0x63]) || spec_cmd_kw(s, cmd, seq![0x69u8, 0x6e, 0x63, 0x6c, 0x75, 0x64, 0x65]) {
        match spec_take1(s, c, Class::Space) {
            Some(p1) => match spec_path(s, p1) {
                Some((ps, t)) => StepView::Stop(acc, reqs,
                    ReasonView::Include(RequestView { file: ps, section: None, pos: spec_pos(s, base, t) }), t),
                None => StepView::Fail(i1),
            },
            None => StepView::Fail(i1),
        }
    } else if spec_cmd_kw(s, cmd, seq![0x6du8, 0x6f, 0x64, 0x65, 0x6c]) {
        match spec_model(s, c) {
            Some((m, t)) => StepView::Continue(LocalView { model: acc.model.push(m), ..acc }, reqs, t),
            None => StepView::Fail(i1),
        }
    } else if spec_cmd_kw(s, cmd, seq![0x73u8, 0x75, 0x62, 0x63, 0x6b, 0x74]) {
        if 0 <= i1 < c <= s.len() {
            match spec_subckt(s, base, c, reqs) {
                Ok((x, reqs1, t)) => StepView::Continue(LocalView { subckt: acc.subckt.push(x), ..acc }, reqs1, t),
                Err(p) => StepView::Fail(p),
            }
        } else {
            StepView::Fail(i1)
        }
    } else if spec_cmd_kw(s, cmd, seq![0x64u8, 0x61, 0x74, 0x61]) {
        match spec_data(s, c) {
            Some((d, t)) => StepView::Continue(LocalView { data: acc.data.push(d), ..acc }, reqs, t),
            None => StepView::Fail(i1),
        }
    } else if spec_cmd_kw(s, cmd, seq![0x6fu8, 0x70, 0x74, 0x69, 0x6f, 0x6e]) {
        match spec_many1(s, c, m_option_item(s)) {
            Some((xs, t)) => StepView::Continue(LocalView { option: acc.option + xs, ..acc }, reqs, t),
            None => StepView::Fail(i1),
        }
    } else if spec_cmd_kw(s, cmd, seq![0x70u8, 0x61, 0x72, 0x61, 0x6d]) || spec_cmd_kw(s, cmd, seq![0x70u8, 0x61, 0x72, 0x61, 0x6d, 0x65, 0x74, 0x65, 0x72]) {
        match spec_many1(s, c, m_key_value(s)) {
            Some((xs, t)) => StepView::Continue(LocalView { param: acc.param + xs, ..acc }, reqs, t),
            None => StepView::Fail(i1),
        }
    } else if spec_cmd_kw(s, cmd, seq![0x69u8, 0x63]) {
        match spec_node_values(s, c, false) {
            Some((xs, t)) => StepView::Continue(LocalView { init_condition: acc.init_condition + xs, ..acc }, reqs, t),
            None => StepView::Fail(i1),
        }
    } else if spec_cmd_kw(s, cmd, seq![0x6eu8, 0x6f, 0x64, 0x65, 0x73, 0x65, 0x74]) {
        match spec_node_values(s, c, true) {
            Some((xs, t)) => StepView::Continue(LocalView { nodeset: acc.nodeset + xs, ..acc }, reqs, t),
            None => StepView::Fail(i1),
        }
    } else if spec_cmd_kw(s, cmd, seq![0x65u8, 0x6e, 0x64, 0x73]) {
        let t = match spec_take1(s, c, Class::Space) {
            Some(r) => match spec_key(s, r) {
                Some((_, t)) => t,
                None => c,
            },
            None => c,
        };
        StepView::Stop(acc, reqs, ReasonView::End, t)
    } else if spec_cmd_kw(s, cmd, seq![0x65u8, 0x6e, 0x64]) {
        StepView::Stop(acc, reqs, ReasonView::End, c)
    } else {
        match spec_many0(s, c, m_token(s)) {
            Some((toks, t)) => StepView::Continue(LocalView {
                errors: acc.errors.push(ParseError { pos: Some(spec_pos(s, base, c)), err: ParseErrorInner::Unknown(cmd) }),
                unknwon: acc.unknwon.push(UnknwonView { cmd, tokens: toks }),
                ..acc
            }, reqs, t),
            None => StepView::Fail(i1),
        }
    }
}

/// One statement at `i1`: a command after `.`, else an element line; at the
/// end of the text the run ends.
pub open spec fn spec_step(s: Seq<u8>, base: u32, i1: int, acc: LocalView, reqs: Seq<RequestView>) -> StepView
    decreases s.len() - i1, 1nat,
{
    if 0 <= i1 < s.len() && s[i1] == 0x2e {
        match spec_key(s, i1 + 1) {
            Some((cmd, c)) => spec_command(s, base, i1, cmd, c, acc, reqs),
            None => StepView::Fail(i1),
        }
    } else {
        match spec_instance(s, i1) {
            Some((inst, j)) => StepView::Continue(LocalView { instance: acc.instance.push(inst), ..acc }, reqs, j),
            None => if i1 == s.len() { StepView::Stop(acc, reqs, ReasonView::End, i1) } else { StepView::Fail(i1) },
        }
    }
}

/// Statements from `i` until an `.include` / `.lib` line, `.end`, `.ends` or the end of the text.
pub open spec fn spec_local(s: Seq<u8>, base: u32, i: int, acc: LocalView, reqs: Seq<RequestView>)
    -> Result<(LocalView, Seq<RequestView>, ReasonView, int), int>
    decreases s.len() - i, 2nat,
{
    let i1 = spec_csn(s, i);
    if 0 <= i <= i1 <= s.len() {
        match spec_step(s, base, i1, acc, reqs) {
            StepView::Continue(acc1, reqs1, j) => if i1 < j <= s.len() { spec_local(s, base, j, acc1, reqs1) } else { Err(j) },
            StepView::Stop(acc1, reqs1, r, j) => Ok((acc1, reqs1, r, j)),
            StepView::Fail(p) => Err(p),
        }
    } else {
        Err(i)
    }
}

/// The segments from `i` to `.end`, `.ends` or the end of the text, after `segs`.
/// Every `.include` / `.lib` line adds its request and a segment with its index.
pub open spec fn spec_ast(s: Seq<u8>, base: u32, i: int, segs: Seq<SegmentView>, reqs: Seq<RequestView>)
    -> Result<(ASTView, Seq<RequestView>, int), int>
    decreases s.len() - i, 3nat,
{
    match spec_local(s, base, i, empty_local(), reqs) {
        Err(p) => Err(p),
        Ok((l, reqs1, r, j)) => {
            let segs1 = if local_is_empty(l) { segs } else { segs.push(SegmentView::Local(l)) };
            match r {
                ReasonView::End => Ok((ASTView { segments: segs1 }, reqs1, j)),
                ReasonView::Include(q) => if i < j <= s.len() {
                    spec_ast(s, base, j, segs1.push(SegmentView::Include(reqs1.len() as usize)), reqs1.push(q))
                } else {
                    Err(j)
                },
            }
        },
    }
}

/// `.SUBCKT` after the command word at `c`: name, ports, parameters, body.
pub open spec fn spec_subckt(s: Seq<u8>, base: u32, c: int, reqs: Seq<RequestView>)
    -> Result<(SubcktView, Seq<RequestView>, int), int>
    decreases s.len() - c, 4nat,
{
    match spec_take1(s, c, Class::Space) {
        Some(a) => match spec_node(s, a) {
            Some((name, b)) => match spec_ports_params(s, b) {
                Some((ports, params, d)) => {
                    let e = spec_scan(s, d, Class::SpaceNl);
                    if 0 <= c < e <= s.len() {
                        match spec_ast(s, base, e, Seq::empty(), reqs) {
                            Ok((ast, reqs1, f)) => Ok((SubcktView { name, ports, params, ast }, reqs1, f)),
                            Err(p) => Err(p),
                        }
                    } else {
                        Err(c)
                    }
                },
                None => Err(c),
            },
            None => Err(c),
        },
        None => Err(c),
    }
}

} // verus!

verus! {

/// `r` is the outcome `sv` of a statement, with `l` and `q` the statements
/// and requests after it.
pub open spec fn step_matches(
    sv: StepView, l: LocalView, q: Seq<RequestView>, r: Result<(Option<EndReason>, usize), usize>,
) -> bool {
    match (sv, r) {
        (StepView::Continue(l1, q1, j), Ok((None, k))) => l1 == l && q1 == q && j == k,
        (StepView::Stop(l1, q1, rv, j), Ok((Some(e), k))) => l1 == l && q1 == q && rv == reason_view(&e) && j == k,
        (StepView::Fail(p), Err(k)) => p == k,
        _ => false,
    }
}

fn push_request(reqs: &mut Vec<IncludeRequest>, q: IncludeRequest)
    ensures reqs_view(final(reqs)@) == reqs_view(old(reqs)@).push(q@),
{
    reqs.push(q);
    assert(reqs_view(reqs@) =~= reqs_view(old(reqs)@).push(q@));
}

fn push_model(acc: &mut LocalAST, m: crate::ast::ModelBuilder)
    ensures local_view(final(acc)) == (LocalView { model: local_view(old(acc)).model.push(m@), ..local_view(old(acc)) }),
{
    acc.model.push(m);
    assert(local_view(acc).model =~= local_view(old(acc)).model.push(m@));
    assert(local_view(acc).subckt =~= local_view(old(acc)).subckt);
}

fn push_data(acc: &mut LocalAST, d: crate::ast::DataBuilder)
    ensures local_view(final(acc)) == (LocalView { data: local_view(old(acc)).data.push(d@), ..local_view(old(acc)) }),
{
    acc.data.push(d);
    assert(local_view(acc).data =~= local_view(old(acc)).data.push(d@));
    assert(local_view(acc).subckt =~= local_view(old(acc)).subckt);
}

fn push_instance(acc: &mut LocalAST, x: crate::instance::InstanceBuilder)
    ensures local_view(final(acc)) == (LocalView { instance: local_view(old(acc)).instance.push(x@), ..local_view(old(acc)) }),
{
    acc.instance.push(x);
    assert(local_view(acc).instance =~= local_view(old(acc)).instance.push(x@));
    assert(local_view(acc).subckt =~= local_view(old(acc)).subckt);
}

fn push_subckt(acc: &mut LocalAST, x: SubcktBuilder)
    ensures local_view(final(acc)) == (LocalView { subckt: local_view(old(acc)).subckt.push(subckt_view(&x)), ..local_view(old(acc)) }),
{
    let ghost xv = subckt_view(&x);
    acc.subckt.push(x);
    assert(local_view(acc).subckt =~= local_view(old(acc)).subckt.push(xv));
}

fn push_unknown(acc: &mut LocalAST, e: ParseError, u: UnknwonBuilder)
    ensures local_view(final(acc)) == (LocalView {
        errors: local_view(old(acc)).errors.push(e),
        unknwon: local_view(old(acc)).unknwon.push(u@),
        ..local_view(old(acc))
    }),
{
    let ghost ev = e;
    acc.errors.push(e);
    acc.unknwon.push(u);
    assert(local_view(acc).unknwon =~= local_view(old(acc)).unknwon.push(u@));
    assert(local_view(acc).errors =~= local_view(old(acc)).errors.push(ev));
    assert(local_view(acc).subckt =~= local_view(old(acc)).subckt);
}

fn extend_option(acc: &mut LocalAST, xs: Vec<(Span, Option<ValueBuilder>)>)
    ensures local_view(final(acc)) == (LocalView { option: local_view(old(acc)).option + xs@, ..local_view(old(acc)) }),
{
    let mut xs = xs;
    let ghost xv = xs@;
    acc.option.append(&mut xs);
    assert(local_view(acc).option =~= local_view(old(acc)).option + xv);
    assert(local_view(acc).subckt =~= local_view(old(acc)).subckt);
}

fn extend_param(acc: &mut LocalAST, xs: Vec<KeyValueBuilder>)
    ensures local_view(final(acc)) == (LocalView { param: local_view(old(acc)).param + xs@, ..local_view(old(acc)) }),
{
    let mut xs = xs;
    let ghost xv = xs@;
    acc.param.append(&mut xs);
    assert(local_view(acc).param =~= local_view(old(acc)).param + xv);
    assert(local_view(acc).subckt =~= local_view(old(acc)).subckt);
}

fn extend_node_values(acc: &mut LocalAST, xs: Vec<(Span, ValueBuilder, Option<Span>)>, nodeset: bool)
    ensures
        nodeset ==> local_view(final(acc)) == (LocalView { nodeset: local_view(old(acc)).nodeset + xs@, ..local_view(old(acc)) }),
        !nodeset ==> local_view(final(acc)) == (LocalView { init_condition: local_view(old(acc)).init_condition + xs@, ..local_view(old(acc)) }),
{
    let mut xs = xs;
    let ghost xv = xs@;
    if nodeset {
        acc.nodeset.append(&mut xs);
        assert(local_view(acc).nodeset =~= local_view(old(acc)).nodeset + xv);
    } else {
        acc.init_condition.append(&mut xs);
        assert(local_view(acc).init_condition =~= local_view(old(acc)).init_condition + xv);
    }
    assert(local_view(acc).subckt =~= local_view(old(acc)).subckt);
}


fn many1_kv(s: &[u8], c: usize) -> (r: Option<(Vec<KeyValueBuilder>, usize)>)
    requires c <= s@.len(),
    ensures lift_vec(r) == spec_many1(s@, c as int, m_key_value(s@)), r matches Some((_, j)) ==> c < j <= s@.len(),
{
    let f = |p: usize| -> (q: Option<(KeyValueBuilder, usize)>)
        requires p <= s@.len(),
        ensures lift(q) == m_key_value(s@)(p as int), q matches Some((_, j)) ==> p < j <= s@.len(),
        { msep_key_value(s, p) };
    many1_by(s, c, &f, Ghost(m_key_value(s@)))
}

fn many0_tokens(s: &[u8], c: usize) -> (r: Option<(Vec<TokenBuilder>, usize)>)
    requires c <= s@.len(),
    ensures lift_vec(r) == spec_many0(s@, c as int, m_token(s@)), r matches Some((_, j)) ==> c <= j <= s@.len(),
{
    let f = |p: usize| -> (q: Option<(TokenBuilder, usize)>)
        requires p <= s@.len(),
        ensures lift(q) == m_token(s@)(p as int), q matches Some((_, j)) ==> p < j <= s@.len(),
        { msep_token(s, p) };
    many0_by(s, c, &f, Ghost(m_token(s@)))
}

/// An `.include` / `.lib` request at `ps`, with the position after the line.
fn request(s: &[u8], base: u32, ps: Span, section: Option<Vec<u8>>, t: usize) -> (r: IncludeRequest)
    requires t <= s@.len(), base + s@.len() < u32::MAX,
    ensures r@ == (RequestView { file: ps, section: match section { Some(v) => Some(v@), None => None }, pos: spec_pos(s@, base, t as int) }),
{
    IncludeRequest { file: ps, section, pos: pos_at(s, base, t) }
}

#[verifier::rlimit(60)]
fn command(
    s: &[u8], base: u32, i1: usize, cmd: Span, c: usize, acc: &mut LocalAST, reqs: &mut Vec<IncludeRequest>,
) -> (r: Result<(Option<EndReason>, usize), usize>)
    requires
        i1 < c <= s@.len(),
        cmd.start <= cmd.end <= s@.len(),
        base + s@.len() < u32::MAX,
    ensures
        step_matches(spec_command(s@, base, i1 as int, cmd, c as int, local_view(old(acc)), reqs_view(old(reqs)@)),
            local_view(final(acc)), reqs_view(final(reqs)@), r),
        r matches Ok((_, j)) ==> c <= j <= s@.len(),
        r matches Err(p) ==> p <= s@.len(),
    decreases s@.len() - i1, 0nat,
{
    if cmd_kw(s, cmd, &[0x6cu8, 0x69, 0x62]) {
        match take1(s, c, Class::Space) {
            Some(p1) => match lib(s, p1) {
                Some((Some((ps, sec)), t)) => {
                    let q = request(s, base, ps, Some(sec), t);
                    Ok((Some(EndReason::Include(q)), t))
                },
                Some((None, t)) => Ok((None, t)),
                None => Err(i1),
            },
            None => Err(i1),
        }
    } else if cmd_kw(s, cmd, &[0x69u8, 0x6e, 0x63]) || cmd_kw(s, cmd, &[0x69u8, 0x6e, 0x63, 0x6c, 0x75, 0x64, 0x65]) {
        match take1(s, c, Class::Space) {
            Some(p1) => match path(s, p1) {
                Some((ps, t)) => {
                    let q = request(s, base, ps, None, t);
                    Ok((Some(EndReason::Include(q)), t))
                },
                None => Err(i1),
            },
            None => Err(i1),
        }
    } else if cmd_kw(s, cmd, &[0x6du8, 0x6f, 0x64, 0x65, 0x6c]) {
        match model(s, c) {
            Some((m, t)) => { push_model(acc, m); Ok((None, t)) },
            None => Err(i1),
        }
    } else if cmd_kw(s, cmd, &[0x73u8, 0x75, 0x62, 0x63, 0x6b, 0x74]) {
        match subckt(s, base, c, reqs) {
            Ok((x, t)) => { push_subckt(acc, x); Ok((None, t)) },
            Err(p) => Err(p),
        }
    } else if cmd_kw(s, cmd, &[0x64u8, 0x61, 0x74, 0x61]) {
        match data(s, c) {
            Some((d, t)) => { push_data(acc, d); Ok((None, t)) },
            None => Err(i1),
        }
    } else if cmd_kw(s, cmd, &[0x6fu8, 0x70, 0x74, 0x69, 0x6f, 0x6e]) {
        match options(s, c) {
            Some((xs, t)) => { extend_option(acc, xs); Ok((None, t)) },
            None => Err(i1),
        }
    } else if cmd_kw(s, cmd, &[0x70u8, 0x61, 0x72, 0x61, 0x6d]) || cmd_kw(s, cmd, &[0x70u8, 0x61, 0x72, 0x61, 0x6d, 0x65, 0x74, 0x65, 0x72]) {
        match many1_kv(s, c) {
            Some((xs, t)) => { extend_param(acc, xs); Ok((None, t)) },
            None => Err(i1),
        }
    } else if cmd_kw(s, cmd, &[0x69u8, 0x63]) {
        match node_values(s, c, false) {
            Some((xs, t)) => { extend_node_values(acc, xs, false); Ok((None, t)) },
            None => Err(i1),
        }
    } else if cmd_kw(s, cmd, &[0x6eu8, 0x6f, 0x64, 0x65, 0x73, 0x65, 0x74]) {
        match node_values(s, c, true) {
            Some((xs, t)) => { extend_node_values(acc, xs, true); Ok((None, t)) },
            None => Err(i1),
        }
    } else if cmd_kw(s, cmd, &[0x65u8, 0x6e, 0x64, 0x73]) {
        let t = match take1(s, c, Class::Space) {
            Some(r) => match key(s, r) {
                Some((_, t)) => t,
                None => c,
            },
            None => c,
        };
        Ok((Some(EndReason::End), t))
    } else if cmd_kw(s, cmd, &[0x65u8, 0x6e, 0x64]) {
        Ok((Some(EndReason::End), c))
    } else {
        match many0_tokens(s, c) {
            Some((toks, t)) => {
                let e = ParseError { pos: Some(pos_at(s, base, c)), err: ParseErrorInner::Unknown(cmd) };
                push_unknown(acc, e, UnknwonBuilder { cmd, tokens: toks });
                Ok((None, t))
            },
            None => Err(i1),
        }
    }
}

fn step(s: &[u8], base: u32, i1: usize, acc: &mut LocalAST, reqs: &mut Vec<IncludeRequest>) -> (r: Result<(Option<EndReason>, usize), usize>)
    requires
        i1 <= s@.len(),
        base + s@.len() < u32::MAX,
    ensures
        step_matches(spec_step(s@, base, i1 as int, local_view(old(acc)), reqs_view(old(reqs)@)),
            local_view(final(acc)), reqs_view(final(reqs)@), r),
        r matches Ok((_, j)) ==> i1 <= j <= s@.len(),
        r matches Err(p) ==> p <= s@.len(),
    decreases s@.len() - i1, 1nat,
{
    if i1 < s.len() && s[i1] == 0x2e {
        match key(s, i1 + 1) {
            Some((cmd, c)) => command(s, base, i1, cmd, c, acc, reqs),
            None => Err(i1),
        }
    } else {
        match instance(s, i1) {
            Some((inst, j)) => { push_instance(acc, inst); Ok((None, j)) },
            None => if i1 == s.len() { Ok((Some(EndReason::End), i1)) } else { Err(i1) },
        }
    }
}

/// Reads statements from `i` into `acc` until a run of statements ends.
pub fn local_ast(s: &[u8], base: u32, i: usize, acc: &mut LocalAST, reqs: &mut Vec<IncludeRequest>) -> (r: Result<(EndReason, usize), usize>)
    requires
        i <= s@.len(),
        base + s@.len() < u32::MAX,
    ensures
        match (spec_local(s@, base, i as int, local_view(old(acc)), reqs_view(old(reqs)@)), r) {
            (Ok((l, q, rv, j)), Ok((e, k))) => l == local_view(final(acc)) && q == reqs_view(final(reqs)@)
                && rv == reason_view(&e) && j == k,
            (Err(p), Err(k)) => p == k,
            _ => false,
        },
        r matches Ok((_, j)) ==> i <= j <= s@.len(),
        r matches Err(p) ==> p <= s@.len(),
    decreases s@.len() - i, 2nat,
{
    let mut p = i;
    loop
        invariant
            i <= p <= s@.len(),
            base + s@.len() < u32::MAX,
            spec_local(s@, base, i as int, local_view(old(acc)), reqs_view(old(reqs)@))
                == spec_local(s@, base, p as int, local_view(acc), reqs_view(reqs@)),
        decreases s@.len() - p,
    {
        let i1 = csn(s, p);
        match step(s, base, i1, acc, reqs) {
            Ok((None, j)) => {
                if !(i1 < j) {
                    return Err(j);
                }
                p = j;
            },
            Ok((Some(e), j)) => { return Ok((e, j)); },
            Err(q) => { return Err(q); },
        }
    }
}

/// The segments from `i`, after `segs`, to `.end`, `.ends` or the end of the text.
fn ast_from(s: &[u8], base: u32, i: usize, segs: Vec<Segment>, reqs: &mut Vec<IncludeRequest>) -> (r: Result<(ASTBuilder, usize), usize>)
    requires
        i <= s@.len(),
        base + s@.len() < u32::MAX,
    ensures
        match (spec_ast(s@, base, i as int, segs_view(segs@), reqs_view(old(reqs)@)), r) {
            (Ok((a, q, t)), Ok((b, k))) => a == ast_view(&b) && q == reqs_view(final(reqs)@) && t == k,
            (Err(p), Err(k)) => p == k,
            _ => false,
        },
        r matches Ok((_, j)) ==> i <= j <= s@.len(),
        r matches Err(p) ==> p <= s@.len(),
    decreases s@.len() - i, 3nat,
{
    let mut l = LocalAST::new();
    match local_ast(s, base, i, &mut l, reqs) {
        Err(p) => Err(p),
        Ok((reason, j)) => {
            let mut segs = segs;
            let ghost sv0 = segs_view(segs@);
            let empty = l.is_empty();
            if !empty {
                let ghost lv = local_view(&l);
                segs.push(Segment::Local(Box::new(l)));
                assert(segs_view(segs@) =~= sv0.push(SegmentView::Local(lv)));
            }
            match reason {
                EndReason::End => {
                    let b = ASTBuilder { segments: segs };
                    assert(ast_view(&b).segments =~= segs_view(b.segments@));
                    Ok((b, j))
                },
                EndReason::Include(q) => {
                    if !(i < j) {
                        return Err(j);
                    }
                    let idx = reqs.len();
                    let ghost sv1 = segs_view(segs@);
                    segs.push(Segment::Include(idx));
                    assert(segs_view(segs@) =~= sv1.push(SegmentView::Include(idx)));
                    push_request(reqs, q);
                    ast_from(s, base, j, segs, reqs)
                },
            }
        },
    }
}

fn subckt(s: &[u8], base: u32, c: usize, reqs: &mut Vec<IncludeRequest>) -> (r: Result<(SubcktBuilder, usize), usize>)
    requires
        c <= s@.len(),
        base + s@.len() < u32::MAX,
    ensures
        match (spec_subckt(s@, base, c as int, reqs_view(old(reqs)@)), r) {
            (Ok((x, q, t)), Ok((y, k))) => x == subckt_view(&y) && q == reqs_view(final(reqs)@) && t == k,
            (Err(p), Err(k)) => p == k,
            _ => false,
        },
        r matches Ok((_, j)) ==> c <= j <= s@.len(),
        r matches Err(p) ==> p <= s@.len(),
    decreases s@.len() - c, 4nat,
{
    match take1(s, c, Class::Space) {
        Some(a) => match node(s, a) {
            Some((name, b)) => match ports_params(s, b) {
                Some((ports, params, d)) => {
                    let e = scan(s, d, Class::SpaceNl);
                    if c < e {
                        match ast_from(s, base, e, Vec::new(), reqs) {
                            Ok((ast, f)) => {
                                assert(segs_view(Seq::<Segment>::empty()) =~= Seq::<SegmentView>::empty());
                                Ok((SubcktBuilder { name, ports, params, ast }, f))
                            },
                            Err(p) => {
                                assert(segs_view(Seq::<Segment>::empty()) =~= Seq::<SegmentView>::empty());
                                Err(p)
                            },
                        }
                    } else {
                        Err(c)
                    }
                },
                None => Err(c),
            },
            None => Err(c),
        },
        None => Err(c),
    }
}

/// Reads a whole file (or library section) as a list of segments, with the
/// `.include` / `.lib` requests it makes; on a syntax error, the position of
/// the failing statement.
pub fn ast(s: &[u8], base: u32) -> (r: Result<(ASTBuilder, Vec<IncludeRequest>, usize), usize>)
    requires base + s@.len() < u32::MAX,
    ensures
        match (spec_ast(s@, base, 0, Seq::empty(), Seq::empty()), r) {
            (Ok((a, q, t)), Ok((b, reqs, k))) => a == ast_view(&b) && q == reqs_view(reqs@) && t == k,
            (Err(p), Err(k)) => p == k,
            _ => false,
        },
        r matches Err(p) ==> p <= s@.len(),
{
    let mut reqs: Vec<IncludeRequest> = Vec::new();
    assert(reqs_view(reqs@) =~= Seq::<RequestView>::empty());
    assert(segs_view(Seq::<Segment>::empty()) =~= Seq::<SegmentView>::empty());
    match ast_from(s, base, 0, Vec::new(), &mut reqs) {
        Ok((b, k)) => Ok((b, reqs, k)),
        Err(p) => Err(p),
    }
}

} // verus!

verus! {

/// The bytes of `include`.
pub open spec fn word_include() -> Seq<u8> {
    seq![0x69u8, 0x6e, 0x63, 0x6c, 0x75, 0x64, 0x65]
}

/// `.inc` and `.include` (in any case) make one and the same statement:
/// after blanks, the path that follows is an include request (of the whole
/// file, at the position where the path ends), and reading stops there;
/// without blanks or a path the statement fails.
#[verifier::rlimit(100)]
pub proof fn law_include_words(
    s: Seq<u8>, base: u32, i1: int, cmd: Span, c: int, acc: LocalView, reqs: Seq<RequestView>,
)
    requires
        crate::chars::spec_fold(s.subrange(cmd.start as int, cmd.end as int)) == word_include()
            || crate::chars::spec_fold(s.subrange(cmd.start as int, cmd.end as int)) == word_include().subrange(0, 3),
    ensures
        spec_command(s, base, i1, cmd, c, acc, reqs) == match spec_take1(s, c, Class::Space) {
            Some(p1) => match spec_path(s, p1) {
                Some((ps, t)) => StepView::Stop(acc, reqs,
                    ReasonView::Include(RequestView { file: ps, section: None, pos: spec_pos(s, base, t) }), t),
                None => StepView::Fail(i1),
            },
            None => StepView::Fail(i1),
        },
{
    lemma_include_word(s, cmd);
}

proof fn lemma_include_word(s: Seq<u8>, cmd: Span)
    requires
        crate::chars::spec_fold(s.subrange(cmd.start as int, cmd.end as int)) == word_include()
            || crate::chars::spec_fold(s.subrange(cmd.start as int, cmd.end as int)) == word_include().subrange(0, 3),
    ensures
        !spec_cmd_kw(s, cmd, seq![0x6cu8, 0x69, 0x62]),
        spec_cmd_kw(s, cmd, seq![0x69u8, 0x6e, 0x63]) || spec_cmd_kw(s, cmd, seq![0x69u8, 0x6e, 0x63, 0x6c, 0x75, 0x64, 0x65]),
{
    reveal(spec_cmd_kw);
    let w = crate::chars::spec_fold(s.subrange(cmd.start as int, cmd.end as int));
    if w == word_include().subrange(0, 3) {
        assert(w[0] == 0x69);
        assert(w =~= seq![0x69u8, 0x6e, 0x63]);
    }
}

} // verus!
