//! Resolving a parse run into one netlist: the segments of the top files in
//! order, with every `.include` / `.lib` replaced by what its file holds.
use vstd::prelude::*;
use vstd::string::StringSliceAdditionalSpecFns;
use crate::ast::{DataBuilder, DataView, GeneralBuilder, GeneralView, KeyValueBuilder, ModelBuilder, ModelView,
    UnknwonBuilder, UnknwonView, ValueBuilder};
use crate::err::ParseError;
use crate::instance::{InstanceBuilder, InstanceView};
use crate::local::{
    ASTBuilder, ASTView, LocalAST, LocalView, Segment, SegmentView, SubcktBuilder, SubcktView, ast_view,
    local_view, segment_view, segs_view, subckt_view, subs_view,
};
use crate::source::FileAst;
use crate::span::{FileId, ParsedId, Span};

verus! {

/// The result of a parse run: the files that were asked for first, and
/// every file that was parsed, by [`ParsedId`].
#[derive(Debug)]
pub struct Parsed {
    pub top_ids: Vec<ParsedId>,
    pub inner: Vec<(FileId, FileAst)>,
}

/// The texts of the parsed files, by [`ParsedId`].
#[derive(Debug)]
pub struct Files {
    pub inner: Vec<String>,
}

/// A subcircuit of the netlist: its definition, the file it was read from,
/// and its body resolved.
#[derive(Debug)]
pub struct Subckt<'a> {
    pub name: Span,
    pub ports: &'a Vec<Span>,
    pub params: &'a Vec<KeyValueBuilder>,
    pub file: ParsedId,
    pub ast: AST<'a>,
}

/// The statements of a netlist, each with the file it was read from.
/// A subcircuit name is kept once: the first definition read wins.
#[derive(Debug)]
pub struct AST<'a> {
    pub subckt: Vec<Subckt<'a>>,
    pub instance: Vec<(ParsedId, &'a InstanceBuilder)>,
    pub model: Vec<(ParsedId, &'a ModelBuilder)>,
    pub param: Vec<(ParsedId, KeyValueBuilder)>,
    pub option: Vec<(ParsedId, (Span, Option<ValueBuilder>))>,
    pub init_condition: Vec<(ParsedId, (Span, ValueBuilder, Option<Span>))>,
    pub nodeset: Vec<(ParsedId, (Span, ValueBuilder, Option<Span>))>,
    pub general: Vec<(ParsedId, &'a GeneralBuilder)>,
    pub data: Vec<(ParsedId, &'a DataBuilder)>,
    pub unknwon: Vec<(ParsedId, &'a UnknwonBuilder)>,
}

pub struct SubcktBuiltView {
    pub name: Span,
    pub ports: Seq<Span>,
    pub params: Seq<KeyValueBuilder>,
    pub file: ParsedId,
    pub ast: BuiltView,
}

pub struct BuiltView {
    pub subckt: Seq<SubcktBuiltView>,
    pub instance: Seq<(ParsedId, InstanceView)>,
    pub model: Seq<(ParsedId, ModelView)>,
    pub param: Seq<(ParsedId, KeyValueBuilder)>,
    pub option: Seq<(ParsedId, (Span, Option<ValueBuilder>))>,
    pub init_condition: Seq<(ParsedId, (Span, ValueBuilder, Option<Span>))>,
    pub nodeset: Seq<(ParsedId, (Span, ValueBuilder, Option<Span>))>,
    pub general: Seq<(ParsedId, GeneralView)>,
    pub data: Seq<(ParsedId, DataView)>,
    pub unknwon: Seq<(ParsedId, UnknwonView)>,
}

pub open spec fn empty_built() -> BuiltView {
    BuiltView {
        subckt: Seq::empty(),
        instance: Seq::empty(),
        model: Seq::empty(),
        param: Seq::empty(),
        option: Seq::empty(),
        init_condition: Seq::empty(),
        nodeset: Seq::empty(),
        general: Seq::empty(),
        data: Seq::empty(),
        unknwon: Seq::empty(),
    }
}

pub open spec fn built_view(a: &AST) -> BuiltView
    decreases a,
{
    proof { assert(decreases_to!(a => a.subckt)); }
    BuiltView {
        subckt: subs_built_view(a.subckt@),
        instance: a.instance@.map_values(|x: (ParsedId, &InstanceBuilder)| (x.0, x.1@)),
        model: a.model@.map_values(|x: (ParsedId, &ModelBuilder)| (x.0, x.1@)),
        param: a.param@,
        option: a.option@,
        init_condition: a.init_condition@,
        nodeset: a.nodeset@,
        general: a.general@.map_values(|x: (ParsedId, &GeneralBuilder)| (x.0, x.1@)),
        data: a.data@.map_values(|x: (ParsedId, &DataBuilder)| (x.0, x.1@)),
        unknwon: a.unknwon@.map_values(|x: (ParsedId, &UnknwonBuilder)| (x.0, x.1@)),
    }
}

pub open spec fn subs_built_view(v: Seq<Subckt>) -> Seq<SubcktBuiltView>
    decreases v,
{
    Seq::new(v.len(), |k: int|
        if 0 <= k < v.len() {
            proof { assert(decreases_to!(v => v[k])); }
            sub_built_view(&v[k])
        } else {
            SubcktBuiltView { name: Span { start: 0, end: 0 }, ports: Seq::empty(), params: Seq::empty(), file: ParsedId(0), ast: empty_built() }
        })
}

pub open spec fn sub_built_view(x: &Subckt) -> SubcktBuiltView
    decreases x,
{
    SubcktBuiltView { name: x.name, ports: x.ports@, params: x.params@, file: x.file, ast: built_view(&x.ast) }
}

/// A parse run as mathematical values: the bytes of each file, its
/// segments, and the outcome of each of its requests.
pub struct ParsedView {
    pub files: Seq<Seq<u8>>,
    pub asts: Seq<ASTView>,
    pub links: Seq<Seq<Option<Result<ParsedId, ParseError>>>>,
}

/// The bytes of the files.
pub open spec fn files_view(f: &Files) -> Seq<Seq<u8>> {
    f.inner@.map_values(|t: String| vstd::utf8::encode_utf8(t@))
}

pub open spec fn parsed_view(p: &Parsed, f: &Files) -> ParsedView {
    ParsedView {
        files: files_view(f),
        asts: p.inner@.map_values(|x: (FileId, FileAst)| ast_view(&x.1.ast)),
        links: p.inner@.map_values(|x: (FileId, FileAst)| x.1.links@),
    }
}

/// The text of `sp` in the file `f`, when it lies in that file.
pub open spec fn spec_text(pv: ParsedView, f: ParsedId, sp: Span) -> Option<Seq<u8>> {
    spec_text_in(pv.files, f, sp)
}

/// The text of `sp` in the file `f` of `fs`, when it lies in that file.
pub open spec fn spec_text_in(fs: Seq<Seq<u8>>, f: ParsedId, sp: Span) -> Option<Seq<u8>> {
    if f.0 < fs.len() && sp.start <= sp.end <= fs[f.0 as int].len() {
        Some(fs[f.0 as int].subrange(sp.start as int, sp.end as int))
    } else {
        None
    }
}

/// Two names (each a span of a file) are spelled the same.
pub open spec fn spec_same_name(pv: ParsedView, f1: ParsedId, s1: Span, f2: ParsedId, s2: Span) -> bool {
    match (spec_text(pv, f1, s1), spec_text(pv, f2, s2)) {
        (Some(a), Some(b)) => a == b,
        _ => false,
    }
}

/// A subcircuit of that name is already kept.
pub open spec fn spec_has_subckt(pv: ParsedView, subs: Seq<SubcktBuiltView>, f: ParsedId, name: Span) -> bool {
    exists|k: int| 0 <= k < subs.len() && spec_same_name(pv, subs[k].file, subs[k].name, f, name)
}

/// Keeps `x` unless a subcircuit of its name is kept.
pub open spec fn spec_insert_subckt(pv: ParsedView, subs: Seq<SubcktBuiltView>, x: SubcktBuiltView) -> Seq<SubcktBuiltView> {
    if spec_has_subckt(pv, subs, x.file, x.name) { subs } else { subs.push(x) }
}

/// The outcome of request `idx` of file `pid`.
pub open spec fn spec_link(pv: ParsedView, pid: ParsedId, idx: usize) -> Option<Result<ParsedId, ParseError>> {
    if pid.0 < pv.links.len() && idx < pv.links[pid.0 as int].len() { pv.links[pid.0 as int][idx as int] } else { None }
}

pub open spec fn tag<T>(pid: ParsedId, xs: Seq<T>) -> Seq<(ParsedId, T)> {
    xs.map_values(|x: T| (pid, x))
}

/// The errors found, each with the file whose text it refers to.
pub type Reports = Seq<(ParsedId, ParseError)>;

/// Resolves the segments `segs[k..]` of file `pid` into `acc`. A request
/// that was served adds what its file holds (at most `fuel` files deep); a
/// request that failed is an error; a pending request adds nothing.
pub open spec fn spec_build_segs(
    pv: ParsedView, pid: ParsedId, segs: Seq<SegmentView>, k: int, acc: BuiltView, errs: Reports, fuel: nat,
) -> (BuiltView, Reports)
    decreases fuel, segs, segs.len() - k,
{
    if 0 <= k < segs.len() {
        let (acc1, errs1) = match segs[k] {
            SegmentView::Local(l) => {
                proof { assert(decreases_to!(segs => segs[k])); }
                spec_build_local(pv, pid, l, acc, errs, fuel)
            },
            SegmentView::Include(idx) => match spec_link(pv, pid, idx) {
                Some(Ok(q)) => if fuel > 0 && q.0 < pv.asts.len() {
                    spec_build_segs(pv, q, pv.asts[q.0 as int].segments, 0, acc, errs, (fuel - 1) as nat)
                } else {
                    (acc, errs)
                },
                Some(Err(e)) => (acc, errs.push((pid, e))),
                None => (acc, errs),
            },
        };
        spec_build_segs(pv, pid, segs, k + 1, acc1, errs1, fuel)
    } else {
        (acc, errs)
    }
}

/// Adds the statements of one segment of file `pid`: its subcircuits (each
/// body resolved on its own), its other statements, then its errors.
pub open spec fn spec_build_local(pv: ParsedView, pid: ParsedId, l: LocalView, acc: BuiltView, errs: Reports, fuel: nat)
    -> (BuiltView, Reports)
    decreases fuel, l, 0int,
{
    let (subs, errs1) = spec_build_subckts(pv, pid, l.subckt, 0, acc.subckt, errs, fuel);
    (BuiltView {
        subckt: subs,
        instance: acc.instance + tag(pid, l.instance),
        model: acc.model + tag(pid, l.model),
        param: acc.param + tag(pid, l.param),
        option: acc.option + tag(pid, l.option),
        init_condition: acc.init_condition + tag(pid, l.init_condition),
        nodeset: acc.nodeset + tag(pid, l.nodeset),
        general: acc.general + tag(pid, l.general),
        data: acc.data + tag(pid, l.data),
        unknwon: acc.unknwon + tag(pid, l.unknwon),
    }, errs1 + tag(pid, l.errors))
}

pub open spec fn spec_build_subckts(
    pv: ParsedView, pid: ParsedId, src: Seq<SubcktView>, m: int, subs: Seq<SubcktBuiltView>, errs: Reports, fuel: nat,
) -> (Seq<SubcktBuiltView>, Reports)
    decreases fuel, src, src.len() - m,
{
    if 0 <= m < src.len() {
        let sv = src[m];
        proof { assert(decreases_to!(src => src[m])); }
        let (b, errs1) = spec_build_segs(pv, pid, sv.ast.segments, 0, empty_built(), errs, fuel);
        let x = SubcktBuiltView { name: sv.name, ports: sv.ports, params: sv.params, file: pid, ast: b };
        spec_build_subckts(pv, pid, src, m + 1, spec_insert_subckt(pv, subs, x), errs1, fuel)
    } else {
        (subs, errs)
    }
}

} // verus!

verus! {

/// The errors with their files, as values.
pub open spec fn errs_view(v: Seq<(ParsedId, &ParseError)>) -> Reports {
    v.map_values(|x: (ParsedId, &ParseError)| (x.0, *x.1))
}

/// Resolves the top files in order, each with a depth bound of the number of files.
pub open spec fn spec_build_tops(pv: ParsedView, tops: Seq<ParsedId>, k: int, acc: BuiltView, errs: Reports) -> (BuiltView, Reports)
    decreases tops.len() - k,
{
    if 0 <= k < tops.len() {
        let t = tops[k];
        let (a1, e1) = if t.0 < pv.asts.len() {
            spec_build_segs(pv, t, pv.asts[t.0 as int].segments, 0, acc, errs, pv.asts.len())
        } else {
            (acc, errs)
        };
        spec_build_tops(pv, tops, k + 1, a1, e1)
    } else {
        (acc, errs)
    }
}

impl<'a> AST<'a> {
    pub fn new() -> (r: AST<'a>)
        ensures built_view(&r) == empty_built(),
    {
        let r = AST {
            subckt: Vec::new(),
            instance: Vec::new(),
            model: Vec::new(),
            param: Vec::new(),
            option: Vec::new(),
            init_condition: Vec::new(),
            nodeset: Vec::new(),
            general: Vec::new(),
            data: Vec::new(),
            unknwon: Vec::new(),
        };
        assert(built_view(&r).subckt =~= Seq::<SubcktBuiltView>::empty());
        assert(built_view(&r).instance =~= Seq::<(ParsedId, InstanceView)>::empty());
        assert(built_view(&r).model =~= Seq::<(ParsedId, ModelView)>::empty());
        assert(built_view(&r).general =~= Seq::<(ParsedId, GeneralView)>::empty());
        assert(built_view(&r).data =~= Seq::<(ParsedId, DataView)>::empty());
        assert(built_view(&r).unknwon =~= Seq::<(ParsedId, UnknwonView)>::empty());
        r
    }
}

/// The bytes of `sp` in file `f`, when it lies in that file.
pub(crate) fn text_of<'b>(files: &'b Files, f: ParsedId, sp: Span) -> (r: Option<&'b [u8]>)
    ensures
        r matches Some(t) ==> spec_text_in(files_view(files), f, sp) == Some(t@),
        r is None ==> spec_text_in(files_view(files), f, sp) is None,
{
    if f.0 < files.inner.len() {
        let t = files.inner[f.0].as_str().as_bytes();
        if sp.start <= sp.end && sp.end <= t.len() {
            let (a, _) = t.split_at(sp.end);
            let (_, b) = a.split_at(sp.start);
            assert(b@ =~= t@.subrange(sp.start as int, sp.end as int));
            Some(b)
        } else {
            None
        }
    } else {
        None
    }
}

pub(crate) fn bytes_eq(a: &[u8], b: &[u8]) -> (r: bool)
    ensures r == (a@ == b@),
{
    if a.len() != b.len() {
        return false;
    }
    let mut k: usize = 0;
    while k < a.len()
        invariant
            a@.len() == b@.len(),
            k <= a@.len(),
            forall|m: int| 0 <= m < k ==> a@[m] == b@[m],
        decreases a@.len() - k,
    {
        if a[k] != b[k] {
            return false;
        }
        k = k + 1;
    }
    assert(a@ =~= b@);
    true
}

/// The names `f1:s1` and `f2:s2` are spelled the same.
fn same_name(files: &Files, f1: ParsedId, s1: Span, f2: ParsedId, s2: Span) -> (r: bool)
    ensures r == match (spec_text_in(files_view(files), f1, s1), spec_text_in(files_view(files), f2, s2)) {
        (Some(a), Some(b)) => a == b,
        _ => false,
    },
{
    match (text_of(files, f1, s1), text_of(files, f2, s2)) {
        (Some(a), Some(b)) => bytes_eq(a, b),
        _ => false,
    }
}

fn has_subckt(files: &Files, Ghost(pv): Ghost<ParsedView>, subs: &Vec<Subckt>, f: ParsedId, name: Span) -> (r: bool)
    requires pv.files == files_view(files),
    ensures r == spec_has_subckt(pv, subs_built_view(subs@), f, name),
{
    let ghost bv = subs_built_view(subs@);
    let mut k: usize = 0;
    while k < subs.len()
        invariant
            k <= subs@.len(),
            pv.files == files_view(files),
            bv == subs_built_view(subs@),
            forall|m: int| 0 <= m < k ==> !spec_same_name(pv, #[trigger] bv[m].file, bv[m].name, f, name),
        decreases subs@.len() - k,
    {
        assert(bv[k as int] == sub_built_view(&subs@[k as int]));
        if same_name(files, subs[k].file, subs[k].name, f, name) {
            return true;
        }
        k = k + 1;
    }
    false
}

fn extend_refs<'a, T: View>(dst: &mut Vec<(ParsedId, &'a T)>, src: &'a Vec<T>, pid: ParsedId)
    ensures
        final(dst)@.map_values(|x: (ParsedId, &T)| (x.0, x.1@))
            == old(dst)@.map_values(|x: (ParsedId, &T)| (x.0, x.1@)) + tag(pid, src@.map_values(|x: T| x@)),
{
    let ghost d0 = dst@.map_values(|x: (ParsedId, &T)| (x.0, x.1@));
    let mut k: usize = 0;
    while k < src.len()
        invariant
            k <= src@.len(),
            dst@.map_values(|x: (ParsedId, &T)| (x.0, x.1@)) =~= d0 + tag(pid, src@.subrange(0, k as int).map_values(|x: T| x@)),
        decreases src@.len() - k,
    {
        let ghost before = dst@;
        let r = &src[k];
        dst.push((pid, r));
        assert(dst@ =~= before.push((pid, r)));
        assert(dst@.map_values(|x: (ParsedId, &T)| (x.0, x.1@)) =~= before.map_values(|x: (ParsedId, &T)| (x.0, x.1@)).push((pid, src@[k as int]@)));
        k = k + 1;
        assert(tag(pid, src@.subrange(0, k as int).map_values(|x: T| x@))
            =~= tag(pid, src@.subrange(0, k - 1).map_values(|x: T| x@)).push((pid, src@[k - 1]@)));
    }
    assert(src@.subrange(0, src@.len() as int) =~= src@);
}

fn extend_copies<T: Copy>(dst: &mut Vec<(ParsedId, T)>, src: &Vec<T>, pid: ParsedId)
    ensures final(dst)@ == old(dst)@ + tag(pid, src@),
{
    let ghost d0 = dst@;
    let mut k: usize = 0;
    while k < src.len()
        invariant
            k <= src@.len(),
            dst@ =~= d0 + tag(pid, src@.subrange(0, k as int)),
        decreases src@.len() - k,
    {
        dst.push((pid, src[k]));
        k = k + 1;
        assert(tag(pid, src@.subrange(0, k as int)) =~= tag(pid, src@.subrange(0, k - 1)).push((pid, src@[k - 1])));
    }
    assert(src@.subrange(0, src@.len() as int) =~= src@);
}

fn extend_errors<'a>(dst: &mut Vec<(ParsedId, &'a ParseError)>, src: &'a Vec<ParseError>, pid: ParsedId)
    ensures errs_view(final(dst)@) == errs_view(old(dst)@) + tag(pid, src@),
{
    let ghost d0 = errs_view(dst@);
    let mut k: usize = 0;
    while k < src.len()
        invariant
            k <= src@.len(),
            errs_view(dst@) =~= d0 + tag(pid, src@.subrange(0, k as int)),
        decreases src@.len() - k,
    {
        let ghost before = dst@;
        let r = &src[k];
        dst.push((pid, r));
        assert(dst@ =~= before.push((pid, r)));
        assert(errs_view(dst@) =~= errs_view(before).push((pid, src@[k as int])));
        k = k + 1;
        assert(tag(pid, src@.subrange(0, k as int)) =~= tag(pid, src@.subrange(0, k - 1)).push((pid, src@[k - 1])));
    }
    assert(src@.subrange(0, src@.len() as int) =~= src@);
}

/// The file store and its texts agree with `pv`.
pub open spec fn run_view(parsed: &Parsed, files: &Files, pv: ParsedView) -> bool {
    pv == parsed_view(parsed, files)
}

fn build_segs<'a>(
    parsed: &'a Parsed, files: &Files, Ghost(pv): Ghost<ParsedView>, pid: ParsedId, segs: &'a Vec<Segment>,
    acc: &mut AST<'a>, errs: &mut Vec<(ParsedId, &'a ParseError)>, fuel: usize,
)
    requires run_view(parsed, files, pv),
    ensures
        (built_view(final(acc)), errs_view(final(errs)@))
            == spec_build_segs(pv, pid, segs_view(segs@), 0, built_view(old(acc)), errs_view(old(errs)@), fuel as nat),
    decreases fuel, segs_view(segs@),
{
    let ghost sv = segs_view(segs@);
    let ghost goal = spec_build_segs(pv, pid, sv, 0, built_view(acc), errs_view(errs@), fuel as nat);
    let mut k: usize = 0;
    while k < segs.len()
        invariant
            run_view(parsed, files, pv),
            sv == segs_view(segs@),
            k <= segs@.len(),
            spec_build_segs(pv, pid, sv, k as int, built_view(acc), errs_view(errs@), fuel as nat) == goal,
        decreases segs@.len() - k,
    {
        assert(sv[k as int] == segment_view(&segs@[k as int]));
        match &segs[k] {
            Segment::Local(l) => {
                proof {
                    assert(decreases_to!(sv => sv[k as int]));
                    assert(sv[k as int] == SegmentView::Local(local_view(&**l)));
                }
                build_local(parsed, files, Ghost(pv), pid, &**l, acc, errs, fuel);
            },
            Segment::Include(idx) => {
                let p = pid.0;
                if p < parsed.inner.len() && *idx < parsed.inner[p].1.links.len() {
                    assert(pv.links[p as int] == parsed.inner@[p as int].1.links@);
                    match &parsed.inner[p].1.links[*idx] {
                        Some(Ok(q)) => {
                            if fuel > 0 && q.0 < parsed.inner.len() {
                                let qa = &parsed.inner[q.0].1.ast;
                                assert(pv.asts[q.0 as int] == ast_view(qa));
                                build_segs(parsed, files, Ghost(pv), *q, &qa.segments, acc, errs, fuel - 1);
                            }
                        },
                        Some(Err(e)) => {
                            let ghost before = errs@;
                            errs.push((pid, e));
                            assert(errs_view(errs@) =~= errs_view(before).push((pid, *e)));
                        },
                        None => {},
                    }
                }
            },
        }
        k = k + 1;
    }
}

fn build_local<'a>(
    parsed: &'a Parsed, files: &Files, Ghost(pv): Ghost<ParsedView>, pid: ParsedId, l: &'a LocalAST,
    acc: &mut AST<'a>, errs: &mut Vec<(ParsedId, &'a ParseError)>, fuel: usize,
)
    requires run_view(parsed, files, pv),
    ensures
        (built_view(final(acc)), errs_view(final(errs)@))
            == spec_build_local(pv, pid, local_view(l), built_view(old(acc)), errs_view(old(errs)@), fuel as nat),
    decreases fuel, local_view(l),
{
    proof { assert(decreases_to!(local_view(l) => local_view(l).subckt)); }
    build_subckts(parsed, files, Ghost(pv), pid, &l.subckt, &mut acc.subckt, errs, fuel);
    extend_refs(&mut acc.instance, &l.instance, pid);
    extend_refs(&mut acc.model, &l.model, pid);
    extend_copies(&mut acc.param, &l.param, pid);
    extend_copies(&mut acc.option, &l.option, pid);
    extend_copies(&mut acc.init_condition, &l.init_condition, pid);
    extend_copies(&mut acc.nodeset, &l.nodeset, pid);
    extend_refs(&mut acc.general, &l.general, pid);
    extend_refs(&mut acc.data, &l.data, pid);
    extend_refs(&mut acc.unknwon, &l.unknwon, pid);
    extend_errors(errs, &l.errors, pid);
}

fn build_subckts<'a>(
    parsed: &'a Parsed, files: &Files, Ghost(pv): Ghost<ParsedView>, pid: ParsedId, src: &'a Vec<SubcktBuilder>,
    subs: &mut Vec<Subckt<'a>>, errs: &mut Vec<(ParsedId, &'a ParseError)>, fuel: usize,
)
    requires run_view(parsed, files, pv),
    ensures
        (subs_built_view(final(subs)@), errs_view(final(errs)@))
            == spec_build_subckts(pv, pid, subs_view(src@), 0, subs_built_view(old(subs)@), errs_view(old(errs)@), fuel as nat),
    decreases fuel, subs_view(src@),
{
    let ghost sv = subs_view(src@);
    let ghost goal = spec_build_subckts(pv, pid, sv, 0, subs_built_view(subs@), errs_view(errs@), fuel as nat);
    let mut m: usize = 0;
    while m < src.len()
        invariant
            run_view(parsed, files, pv),
            sv == subs_view(src@),
            m <= src@.len(),
            spec_build_subckts(pv, pid, sv, m as int, subs_built_view(subs@), errs_view(errs@), fuel as nat) == goal,
        decreases src@.len() - m,
    {
        let s = &src[m];
        proof {
            assert(sv[m as int] == subckt_view(s));
            assert(decreases_to!(sv => sv[m as int]));
            assert(decreases_to!(sv[m as int] => sv[m as int].ast));
            assert(decreases_to!(sv[m as int].ast => sv[m as int].ast.segments));
        }
        let mut b = AST::new();
        build_segs(parsed, files, Ghost(pv), pid, &s.ast.segments, &mut b, errs, fuel);
        let kept = has_subckt(files, Ghost(pv), subs, pid, s.name);
        if !kept {
            let ghost before = subs@;
            subs.push(Subckt { name: s.name, ports: &s.ports, params: &s.params, file: pid, ast: b });
            assert(subs_built_view(subs@) =~= subs_built_view(before).push(sub_built_view(&subs@[before.len() as int])));
        }
        m = m + 1;
    }
}

impl Files {
    /// Resolves the parse run into one netlist: the top files in order, each
    /// `.include` / `.lib` replaced by what its file holds, with the errors
    /// found, each with the file whose text it refers to.
    pub fn build<'a>(&self, parsed: &'a Parsed) -> (r: (AST<'a>, Vec<(ParsedId, &'a ParseError)>))
        ensures
            (built_view(&r.0), errs_view(r.1@))
                == spec_build_tops(parsed_view(parsed, self), parsed.top_ids@, 0, empty_built(), Seq::empty()),
    {
        let ghost pv = parsed_view(parsed, self);
        let mut acc = AST::new();
        let mut errs: Vec<(ParsedId, &'a ParseError)> = Vec::new();
        let n = parsed.inner.len();
        let ghost goal = spec_build_tops(pv, parsed.top_ids@, 0, empty_built(), Seq::empty());
        assert(errs_view(errs@) =~= Seq::empty());
        let mut k: usize = 0;
        while k < parsed.top_ids.len()
            invariant
                run_view(parsed, self, pv),
                n == parsed.inner@.len(),
                k <= parsed.top_ids@.len(),
                spec_build_tops(pv, parsed.top_ids@, k as int, built_view(&acc), errs_view(errs@)) == goal,
            decreases parsed.top_ids@.len() - k,
        {
            let t = parsed.top_ids[k];
            if t.0 < n {
                let ta = &parsed.inner[t.0].1.ast;
                assert(pv.asts[t.0 as int] == ast_view(ta));
                build_segs(parsed, self, Ghost(pv), t, &ta.segments, &mut acc, &mut errs, n);
            }
            k = k + 1;
        }
        (acc, errs)
    }
}

} // verus!

verus! {

/// No two kept subcircuits are spelled the same.
pub open spec fn names_distinct(pv: ParsedView, subs: Seq<SubcktBuiltView>) -> bool {
    forall|a: int, b: int| 0 <= a < b < subs.len() ==> !spec_same_name(pv, subs[a].file, subs[a].name, subs[b].file, subs[b].name)
}

/// Keeping a subcircuit (unless one of its name is kept) keeps the names distinct.
pub proof fn law_insert_keeps_names_distinct(pv: ParsedView, subs: Seq<SubcktBuiltView>, x: SubcktBuiltView)
    requires names_distinct(pv, subs),
    ensures names_distinct(pv, spec_insert_subckt(pv, subs, x)),
{
    if !spec_has_subckt(pv, subs, x.file, x.name) {
        let n = subs.push(x);
        assert forall|a: int, b: int| 0 <= a < b < n.len() implies
            !spec_same_name(pv, n[a].file, n[a].name, n[b].file, n[b].name) by {
            if b == subs.len() {
                assert(n[a] == subs[a]);
                if spec_same_name(pv, subs[a].file, subs[a].name, x.file, x.name) {
                    assert(spec_has_subckt(pv, subs, x.file, x.name));
                }
            }
        }
    }
}

/// Resolving the subcircuit definitions of a segment never keeps two
/// subcircuits of the same name: the first definition read wins.
pub proof fn law_build_subckts_names_distinct(
    pv: ParsedView, pid: ParsedId, src: Seq<SubcktView>, m: int, subs: Seq<SubcktBuiltView>, errs: Reports, fuel: nat,
)
    requires names_distinct(pv, subs),
    ensures names_distinct(pv, spec_build_subckts(pv, pid, src, m, subs, errs, fuel).0),
    decreases src.len() - m,
{
    if 0 <= m < src.len() {
        let sv = src[m];
        let (b, errs1) = spec_build_segs(pv, pid, sv.ast.segments, 0, empty_built(), errs, fuel);
        let x = SubcktBuiltView { name: sv.name, ports: sv.ports, params: sv.params, file: pid, ast: b };
        law_insert_keeps_names_distinct(pv, subs, x);
        law_build_subckts_names_distinct(pv, pid, src, m + 1, spec_insert_subckt(pv, subs, x), errs1, fuel);
    }
}

} // verus!
