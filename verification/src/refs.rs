//! Every `.include` / `.lib` segment of a parsed file, in subcircuit bodies
//! too, refers to one of the file's requests.
use vstd::prelude::*;
use crate::local::{ASTView, LocalView, RequestView, SegmentView, SubcktView, empty_local, local_is_empty};
use crate::parse::{spec_ast, spec_command, spec_local, spec_step, spec_subckt, StepView};
use crate::lex::{spec_csn, Class, spec_take1};
use crate::span::Span;
use crate::values::spec_key;
use crate::instance::spec_instance;

verus! {

/// Every segment of `segs[k..]` refers to a request below `n`.
pub open spec fn segs_ok(segs: Seq<SegmentView>, n: nat, k: int) -> bool
    decreases segs, 2int, segs.len() - k,
{
    if 0 <= k < segs.len() {
        proof { assert(decreases_to!(segs => segs[k])); }
        seg_ok(segs[k], n) && segs_ok(segs, n, k + 1)
    } else {
        true
    }
}

/// The segment refers to a request below `n`.
pub open spec fn seg_ok(g: SegmentView, n: nat) -> bool
    decreases g, 1int, 0int,
{
    match g {
        SegmentView::Include(k) => k < n,
        SegmentView::Local(l) => {
            proof { assert(decreases_to!(l => l.subckt)); }
            subs_ok(l.subckt, n, 0)
        },
    }
}

/// The bodies of the subcircuits `v[k..]` refer to requests below `n`.
pub open spec fn subs_ok(v: Seq<SubcktView>, n: nat, k: int) -> bool
    decreases v, 0int, v.len() - k,
{
    if 0 <= k < v.len() {
        proof {
            assert(decreases_to!(v => v[k]));
            assert(decreases_to!(v[k] => v[k].ast));
            assert(decreases_to!(v[k].ast => v[k].ast.segments));
        }
        segs_ok(v[k].ast.segments, n, 0) && subs_ok(v, n, k + 1)
    } else {
        true
    }
}

proof fn lemma_segs_mono(segs: Seq<SegmentView>, n: nat, m: nat, k: int)
    requires segs_ok(segs, n, k), n <= m,
    ensures segs_ok(segs, m, k),
    decreases segs, 2int, segs.len() - k,
{
    if 0 <= k < segs.len() {
        assert(decreases_to!(segs => segs[k]));
        lemma_seg_mono(segs[k], n, m);
        lemma_segs_mono(segs, n, m, k + 1);
    }
}

proof fn lemma_seg_mono(g: SegmentView, n: nat, m: nat)
    requires seg_ok(g, n), n <= m,
    ensures seg_ok(g, m),
    decreases g, 1int, 0int,
{
    match g {
        SegmentView::Include(k) => {},
        SegmentView::Local(l) => {
            assert(decreases_to!(l => l.subckt));
            lemma_subs_mono(l.subckt, n, m, 0);
        },
    }
}

proof fn lemma_subs_mono(v: Seq<SubcktView>, n: nat, m: nat, k: int)
    requires subs_ok(v, n, k), n <= m,
    ensures subs_ok(v, m, k),
    decreases v, 0int, v.len() - k,
{
    if 0 <= k < v.len() {
        assert(decreases_to!(v => v[k]));
        assert(decreases_to!(v[k] => v[k].ast));
        assert(decreases_to!(v[k].ast => v[k].ast.segments));
        lemma_segs_mono(v[k].ast.segments, n, m, 0);
        lemma_subs_mono(v, n, m, k + 1);
    }
}

proof fn lemma_segs_push(segs: Seq<SegmentView>, g: SegmentView, n: nat, k: int)
    requires segs_ok(segs, n, k), seg_ok(g, n), 0 <= k <= segs.len(),
    ensures segs_ok(segs.push(g), n, k),
    decreases segs.len() - k,
{
    let t = segs.push(g);
    if k < segs.len() {
        lemma_segs_push(segs, g, n, k + 1);
        assert(t[k] == segs[k]);
    } else {
        assert(t[k] == g);
        assert(segs_ok(t, n, k + 1));
    }
}

proof fn lemma_subs_push(v: Seq<SubcktView>, x: SubcktView, n: nat, k: int)
    requires subs_ok(v, n, k), segs_ok(x.ast.segments, n, 0), 0 <= k <= v.len(),
    ensures subs_ok(v.push(x), n, k),
    decreases v.len() - k,
{
    let t = v.push(x);
    if k < v.len() {
        lemma_subs_push(v, x, n, k + 1);
        assert(t[k] == v[k]);
    } else {
        assert(t[k] == x);
        assert(subs_ok(t, n, k + 1));
    }
}

#[verifier::rlimit(100)]
proof fn lemma_command(
    s: Seq<u8>, base: u32, i1: int, cmd: Span, c: int, acc: LocalView, reqs: Seq<RequestView>,
)
    requires subs_ok(acc.subckt, reqs.len(), 0),
    ensures
        match spec_command(s, base, i1, cmd, c, acc, reqs) {
            StepView::Continue(a, q, _) => subs_ok(a.subckt, q.len(), 0) && reqs.len() <= q.len(),
            StepView::Stop(a, q, _, _) => subs_ok(a.subckt, q.len(), 0) && reqs.len() <= q.len(),
            StepView::Fail(_) => true,
        },
    decreases s.len() - i1, 0nat,
{
    let lib = crate::model::spec_cmd_kw(s, cmd, seq![0x6cu8, 0x69, 0x62]);
    let inc = crate::model::spec_cmd_kw(s, cmd, seq![0x69u8, 0x6e, 0x63])
        || crate::model::spec_cmd_kw(s, cmd, seq![0x69u8, 0x6e, 0x63, 0x6c, 0x75, 0x64, 0x65]);
    let mdl = crate::model::spec_cmd_kw(s, cmd, seq![0x6du8, 0x6f, 0x64, 0x65, 0x6c]);
    let sub = crate::model::spec_cmd_kw(s, cmd, seq![0x73u8, 0x75, 0x62, 0x63, 0x6b, 0x74]);
    if lib {
    } else if inc {
    } else if mdl {
    } else if sub {
        if 0 <= i1 < c <= s.len() {
            lemma_subckt(s, base, c, reqs);
            match spec_subckt(s, base, c, reqs) {
                Ok((x, reqs1, t)) => {
                    lemma_subs_mono(acc.subckt, reqs.len(), reqs1.len(), 0);
                    lemma_subs_push(acc.subckt, x, reqs1.len(), 0);
                },
                Err(_) => {},
            }
        }
    }
}

proof fn lemma_step(s: Seq<u8>, base: u32, i1: int, acc: LocalView, reqs: Seq<RequestView>)
    requires subs_ok(acc.subckt, reqs.len(), 0),
    ensures
        match spec_step(s, base, i1, acc, reqs) {
            StepView::Continue(a, q, _) => subs_ok(a.subckt, q.len(), 0) && reqs.len() <= q.len(),
            StepView::Stop(a, q, _, _) => subs_ok(a.subckt, q.len(), 0) && reqs.len() <= q.len(),
            StepView::Fail(_) => true,
        },
    decreases s.len() - i1, 1nat,
{
    if 0 <= i1 < s.len() && s[i1] == 0x2e {
        match spec_key(s, i1 + 1) {
            Some((cmd, c)) => lemma_command(s, base, i1, cmd, c, acc, reqs),
            None => {},
        }
    }
}

proof fn lemma_local(s: Seq<u8>, base: u32, i: int, acc: LocalView, reqs: Seq<RequestView>)
    requires subs_ok(acc.subckt, reqs.len(), 0),
    ensures
        spec_local(s, base, i, acc, reqs) matches Ok((l, q, _, _)) ==> subs_ok(l.subckt, q.len(), 0) && reqs.len() <= q.len(),
    decreases s.len() - i, 2nat,
{
    let i1 = spec_csn(s, i);
    if 0 <= i <= i1 <= s.len() {
        lemma_step(s, base, i1, acc, reqs);
        match spec_step(s, base, i1, acc, reqs) {
            StepView::Continue(acc1, reqs1, j) => if i1 < j <= s.len() {
                lemma_local(s, base, j, acc1, reqs1);
            },
            _ => {},
        }
    }
}

proof fn lemma_ast(s: Seq<u8>, base: u32, i: int, segs: Seq<SegmentView>, reqs: Seq<RequestView>)
    requires segs_ok(segs, reqs.len(), 0),
    ensures
        spec_ast(s, base, i, segs, reqs) matches Ok((a, q, _)) ==> segs_ok(a.segments, q.len(), 0) && reqs.len() <= q.len(),
    decreases s.len() - i, 3nat,
{
    assert(subs_ok(empty_local().subckt, reqs.len(), 0));
    lemma_local(s, base, i, empty_local(), reqs);
    match spec_local(s, base, i, empty_local(), reqs) {
        Err(_) => {},
        Ok((l, reqs1, r, j)) => {
            lemma_segs_mono(segs, reqs.len(), reqs1.len(), 0);
            let segs1 = if local_is_empty(l) { segs } else { segs.push(SegmentView::Local(l)) };
            if !local_is_empty(l) {
                lemma_segs_push(segs, SegmentView::Local(l), reqs1.len(), 0);
            }
            match r {
                crate::local::ReasonView::End => {},
                crate::local::ReasonView::Include(q) => if i < j <= s.len() {
                    let n2 = (reqs1.len() + 1) as nat;
                    lemma_segs_mono(segs1, reqs1.len(), n2, 0);
                    lemma_segs_push(segs1, SegmentView::Include(reqs1.len() as usize), n2, 0);
                    lemma_ast(s, base, j, segs1.push(SegmentView::Include(reqs1.len() as usize)), reqs1.push(q));
                },
            }
        },
    }
}

proof fn lemma_subckt(s: Seq<u8>, base: u32, c: int, reqs: Seq<RequestView>)
    ensures
        spec_subckt(s, base, c, reqs) matches Ok((x, q, _)) ==> segs_ok(x.ast.segments, q.len(), 0) && reqs.len() <= q.len(),
    decreases s.len() - c, 4nat,
{
    match spec_take1(s, c, Class::Space) {
        Some(a) => match crate::values::spec_node(s, a) {
            Some((name, b)) => match crate::ports::spec_ports_params(s, b) {
                Some((ports, params, d)) => {
                    let e = crate::lex::spec_scan(s, d, Class::SpaceNl);
                    if 0 <= c < e <= s.len() {
                        assert(segs_ok(Seq::<SegmentView>::empty(), reqs.len(), 0));
                        lemma_ast(s, base, e, Seq::empty(), reqs);
                    }
                },
                None => {},
            },
            None => {},
        },
        None => {},
    }
}

/// Every `.include` / `.lib` segment of a parsed file, in subcircuit bodies
/// too, refers to one of the file's requests, so each has its place for
/// what became of the request.
pub proof fn law_requests_cover_includes(text: Seq<u8>, base: u32, a: ASTView, q: Seq<RequestView>)
    requires crate::source::spec_parse_file(text, base, a, q),
    ensures segs_ok(a.segments, q.len(), 0),
{
    if crate::source::fits_lines(text, base) {
        assert(segs_ok(Seq::<SegmentView>::empty(), 0, 0));
        lemma_ast(text, base, 0, Seq::empty(), Seq::empty());
        match spec_ast(text, base, 0, Seq::empty(), Seq::empty()) {
            Ok(_) => {},
            Err(p) => lemma_error_tree(a, q.len()),
        }
    } else {
        lemma_error_tree(a, q.len());
    }
}

proof fn lemma_error_tree(a: ASTView, n: nat)
    requires exists|e: crate::err::ParseError| crate::source::holds_only_error(a, e),
    ensures segs_ok(a.segments, n, 0),
{
    let e = choose|e: crate::err::ParseError| crate::source::holds_only_error(a, e);
    match a.segments[0] {
        SegmentView::Local(l) => {
            assert(l.subckt == empty_local().subckt);
            assert(subs_ok(l.subckt, n, 0));
            assert(seg_ok(a.segments[0], n));
            assert(segs_ok(a.segments, n, 1));
        },
        _ => {},
    }
}

} // verus!
