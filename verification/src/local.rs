//! Statements of a netlist and the segments of a file: runs of statements
//! separated by `.include` / `.lib` lines.
use vstd::prelude::*;
use crate::ast::{
    DataBuilder, DataView, GeneralBuilder, GeneralView, KeyValueBuilder, ModelBuilder, ModelView,
    TokenBuilder, UnknwonBuilder, UnknwonView, ValueBuilder,
};
use crate::cmds::{lib, node_values, options, spec_lib, spec_node_values, m_option_item};
use crate::err::{ParseError, ParseErrorInner};
use crate::instance::{instance, spec_instance, InstanceBuilder, InstanceView};
use crate::lex::{Class, csn, lemma_scan_bounds, path, scan, spec_csn, spec_path, spec_scan, spec_take1, take1};
use crate::model::{data, model, spec_data, spec_model};
use crate::ports::{ports_params, spec_ports_params};
use crate::span::{pos_at, spec_pos, Pos, Span};
use crate::values::{
    key, lift, lift_vec, many0_by, many1_by, m_key_value, m_token, msep_key_value, msep_token, node,
    spec_key, spec_many0, spec_many1, spec_node,
};

verus! {

/// `.SUBCKT name ports params ... .ENDS`
#[derive(Debug)]
pub struct SubcktBuilder {
    pub name: Span,
    pub ports: Vec<Span>,
    pub params: Vec<KeyValueBuilder>,
    pub ast: ASTBuilder,
}

/// The statements of one segment, grouped by kind in the order read.
#[derive(Debug)]
pub struct LocalAST {
    pub subckt: Vec<SubcktBuilder>,
    pub instance: Vec<InstanceBuilder>,
    pub model: Vec<ModelBuilder>,
    pub param: Vec<KeyValueBuilder>,
    pub option: Vec<(Span, Option<ValueBuilder>)>,
    pub data: Vec<DataBuilder>,
    pub general: Vec<GeneralBuilder>,
    pub init_condition: Vec<(Span, ValueBuilder, Option<Span>)>,
    pub nodeset: Vec<(Span, ValueBuilder, Option<Span>)>,
    pub unknwon: Vec<UnknwonBuilder>,
    pub errors: Vec<ParseError>,
}

/// A file read to the end of the file or of a subcircuit body is a list of
/// segments: runs of statements, and the places of `.include` / `.lib`
/// lines, each given by the index of its request.
#[derive(Debug)]
pub enum Segment {
    Local(Box<LocalAST>),
    Include(usize),
}

#[derive(Debug)]
pub struct ASTBuilder {
    pub segments: Vec<Segment>,
}

/// An `.include` / `.lib` line: the span of the file name, the lower-cased
/// section of a `.lib`, and the position after the line.
#[derive(Debug, Clone)]
pub struct IncludeRequest {
    pub file: Span,
    pub section: Option<Vec<u8>>,
    pub pos: Pos,
}

/// Why a run of statements ended.
#[derive(Debug)]
pub enum EndReason {
    Include(IncludeRequest),
    End,
}

pub struct SubcktView {
    pub name: Span,
    pub ports: Seq<Span>,
    pub params: Seq<KeyValueBuilder>,
    pub ast: ASTView,
}

pub struct LocalView {
    pub subckt: Seq<SubcktView>,
    pub instance: Seq<InstanceView>,
    pub model: Seq<ModelView>,
    pub param: Seq<KeyValueBuilder>,
    pub option: Seq<(Span, Option<ValueBuilder>)>,
    pub data: Seq<DataView>,
    pub general: Seq<GeneralView>,
    pub init_condition: Seq<(Span, ValueBuilder, Option<Span>)>,
    pub nodeset: Seq<(Span, ValueBuilder, Option<Span>)>,
    pub unknwon: Seq<UnknwonView>,
    pub errors: Seq<ParseError>,
}

pub enum SegmentView {
    Local(LocalView),
    Include(usize),
}

pub struct ASTView {
    pub segments: Seq<SegmentView>,
}

pub struct RequestView {
    pub file: Span,
    pub section: Option<Seq<u8>>,
    pub pos: Pos,
}

pub enum ReasonView {
    Include(RequestView),
    End,
}

impl View for IncludeRequest {
    type V = RequestView;
    open spec fn view(&self) -> RequestView {
        RequestView {
            file: self.file,
            section: match self.section { Some(v) => Some(v@), None => None },
            pos: self.pos,
        }
    }
}

pub open spec fn reason_view(r: &EndReason) -> ReasonView {
    match r {
        EndReason::Include(q) => ReasonView::Include(q@),
        EndReason::End => ReasonView::End,
    }
}

pub open spec fn subckt_view(x: &SubcktBuilder) -> SubcktView
    decreases x,
{
    SubcktView { name: x.name, ports: x.ports@, params: x.params@, ast: ast_view(&x.ast) }
}

pub open spec fn ast_view(a: &ASTBuilder) -> ASTView
    decreases a,
{
    proof { assert(decreases_to!(a => a.segments)); }
    ASTView { segments: segs_view(a.segments@) }
}

/// The segments as mathematical values.
pub open spec fn segs_view(v: Seq<Segment>) -> Seq<SegmentView>
    decreases v,
{
    Seq::new(v.len(), |k: int|
        if 0 <= k < v.len() {
            proof { assert(decreases_to!(v => v[k])); }
            segment_view(&v[k])
        } else {
            SegmentView::Include(0)
        })
}

/// The subcircuit definitions as mathematical values.
pub open spec fn subs_view(v: Seq<SubcktBuilder>) -> Seq<SubcktView>
    decreases v,
{
    Seq::new(v.len(), |k: int|
        if 0 <= k < v.len() {
            proof { assert(decreases_to!(v => v[k])); }
            subckt_view(&v[k])
        } else {
            SubcktView { name: Span { start: 0, end: 0 }, ports: Seq::empty(), params: Seq::empty(), ast: ASTView { segments: Seq::empty() } }
        })
}

pub open spec fn segment_view(g: &Segment) -> SegmentView
    decreases g,
{
    match g {
        Segment::Local(l) => SegmentView::Local(local_view(&**l)),
        Segment::Include(k) => SegmentView::Include(*k),
    }
}

pub open spec fn local_view(l: &LocalAST) -> LocalView
    decreases l,
{
    proof { assert(decreases_to!(l => l.subckt)); }
    LocalView {
        subckt: subs_view(l.subckt@),
        instance: l.instance@.map_values(|x: InstanceBuilder| x@),
        model: l.model@.map_values(|x: ModelBuilder| x@),
        param: l.param@,
        option: l.option@,
        data: l.data@.map_values(|x: DataBuilder| x@),
        general: l.general@.map_values(|x: GeneralBuilder| x@),
        init_condition: l.init_condition@,
        nodeset: l.nodeset@,
        unknwon: l.unknwon@.map_values(|x: UnknwonBuilder| x@),
        errors: l.errors@,
    }
}

pub open spec fn empty_local() -> LocalView {
    LocalView {
        subckt: Seq::empty(),
        instance: Seq::empty(),
        model: Seq::empty(),
        param: Seq::empty(),
        option: Seq::empty(),
        data: Seq::empty(),
        general: Seq::empty(),
        init_condition: Seq::empty(),
        nodeset: Seq::empty(),
        unknwon: Seq::empty(),
        errors: Seq::empty(),
    }
}

/// No statement was kept (initial conditions and node sets are not counted).
pub open spec fn local_is_empty(l: LocalView) -> bool {
    l.subckt.len() == 0 && l.instance.len() == 0 && l.model.len() == 0 && l.param.len() == 0
        && l.option.len() == 0 && l.data.len() == 0 && l.general.len() == 0 && l.unknwon.len() == 0
        && l.errors.len() == 0
}

impl LocalAST {
    pub fn new() -> (r: LocalAST)
        ensures local_view(&r) == empty_local(),
    {
        let r = LocalAST {
            subckt: Vec::new(),
            instance: Vec::new(),
            model: Vec::new(),
            param: Vec::new(),
            option: Vec::new(),
            data: Vec::new(),
            general: Vec::new(),
            init_condition: Vec::new(),
            nodeset: Vec::new(),
            unknwon: Vec::new(),
            errors: Vec::new(),
        };
        assert(local_view(&r).subckt =~= Seq::<SubcktView>::empty());
        assert(local_view(&r).instance =~= Seq::<InstanceView>::empty());
        assert(local_view(&r).model =~= Seq::<ModelView>::empty());
        assert(local_view(&r).data =~= Seq::<DataView>::empty());
        assert(local_view(&r).general =~= Seq::<GeneralView>::empty());
        assert(local_view(&r).unknwon =~= Seq::<UnknwonView>::empty());
        r
    }

    /// No statement was kept (initial conditions and node sets are not counted).
    pub fn is_empty(&self) -> (r: bool)
        ensures r == local_is_empty(local_view(self)),
    {
        self.subckt.len() == 0 && self.instance.len() == 0 && self.model.len() == 0
            && self.param.len() == 0 && self.option.len() == 0 && self.data.len() == 0
            && self.general.len() == 0 && self.unknwon.len() == 0 && self.errors.len() == 0
    }
}

impl ASTBuilder {
    pub fn new() -> (r: ASTBuilder)
        ensures ast_view(&r).segments.len() == 0,
    {
        ASTBuilder { segments: Vec::new() }
    }
}

} // verus!
