//! Element lines (`R1 a b 1k`, `M1 d g s b nch w=1u`, `X1 a b sub`, ...):
//! their syntax tree and their parser.
use vstd::prelude::*;
use crate::ast::{KeyValueBuilder, ValueBuilder};
use crate::chars::{lower, spec_eq_nocase, spec_lower, eq_nocase};
use crate::lex::{loss_sep, spec_loss_sep, spec_msep};
use crate::ports::{ports_params, spec_ports_params};
use crate::span::Span;
use crate::values::{
    f_node, lift, lift_vec, many0_by, many1_by, m_key_value, m_node, m_value, msep_key_value, msep_node,
    msep_value, node, spec_many0, spec_many1, spec_node, spec_value, value,
};

verus! {

#[derive(Debug, Clone, Copy, PartialEq, Eq, Structural)]
pub struct ResistorBuilder {
    pub n1: Span,
    pub n2: Span,
    pub value: ValueBuilder,
}

#[derive(Debug, Clone, Copy, PartialEq, Eq, Structural)]
pub struct CapacitorBuilder {
    pub n1: Span,
    pub n2: Span,
    pub value: ValueBuilder,
}

#[derive(Debug, Clone, Copy, PartialEq, Eq, Structural)]
pub struct InductorBuilder {
    pub n1: Span,
    pub n2: Span,
    pub value: ValueBuilder,
}

/// A subcircuit call `X... nodes cktname params`.
#[derive(Debug, Clone)]
pub struct SubcktBuilder {
    pub nodes: Vec<Span>,
    pub cktname: Span,
    pub params: Vec<KeyValueBuilder>,
}

#[derive(Debug, Clone)]
pub struct BJTBuilder {
    pub nc: Span,
    pub nb: Span,
    pub ne: Span,
    pub ns: Option<Span>,
    pub mname: Span,
    pub params: Vec<KeyValueBuilder>,
}

#[derive(Debug, Clone)]
pub struct MOSFETBuilder {
    pub nd: Span,
    pub ng: Span,
    pub ns: Span,
    pub nb: Option<Span>,
    pub mname: Span,
    pub params: Vec<KeyValueBuilder>,
}

#[derive(Debug, Clone)]
pub struct DiodeBuilder {
    pub nplus: Span,
    pub nminus: Span,
    pub mname: Span,
    pub params: Vec<KeyValueBuilder>,
}

#[derive(Debug, Clone, Copy, PartialEq, Eq, Structural)]
pub struct TimeValuePointBuilder {
    pub time: ValueBuilder,
    pub value: ValueBuilder,
}

#[derive(Debug, Clone, Copy, PartialEq, Eq, Structural)]
pub enum EdgeType {
    Linear,
    HalfSine,
}

/// A piecewise linear source `PWL(t1 v1 t2 v2 ...)`.
#[derive(Debug, Clone)]
pub struct PWLBuilder {
    pub points: Vec<TimeValuePointBuilder>,
    pub repeat: Option<ValueBuilder>,
    pub rstop: Option<ValueBuilder>,
    pub stopvalue: Option<ValueBuilder>,
    pub stopslope: Option<ValueBuilder>,
    pub delay: Option<ValueBuilder>,
    pub edgetype: EdgeType,
}

#[derive(Debug, Clone)]
pub enum VoltageSourceBuilder {
    Params(Vec<KeyValueBuilder>),
    Value(ValueBuilder),
    PWL(PWLBuilder),
}

#[derive(Debug, Clone)]
pub struct VoltageBuilder {
    pub n1: Span,
    pub n2: Span,
    pub source: VoltageSourceBuilder,
}

#[derive(Debug, Clone)]
pub enum CurrentSourceBuilder {
    Params(Vec<KeyValueBuilder>),
    Value(ValueBuilder),
    PWL(PWLBuilder),
}

#[derive(Debug, Clone)]
pub struct CurrentBuilder {
    pub n1: Span,
    pub n2: Span,
    pub source: CurrentSourceBuilder,
}

#[derive(Debug, Clone)]
pub enum InstanceCtxBuilder {
    Resistor(ResistorBuilder),
    Capacitor(CapacitorBuilder),
    Inductor(InductorBuilder),
    Voltage(VoltageBuilder),
    Current(CurrentBuilder),
    MOSFET(MOSFETBuilder),
    BJT(BJTBuilder),
    Diode(DiodeBuilder),
    Subckt(SubcktBuilder),
    Unknown { ty: u8, nodes: Vec<Span>, params: Vec<KeyValueBuilder> },
}

/// The kind of an element, by the first letter of its name.
#[derive(Debug, Clone, Copy, PartialEq, Eq, Structural)]
pub enum InstanceType {
    /// `R`
    Resistor,
    /// `C`
    Capacitor,
    /// `V`
    VoltageSource,
    /// `I`
    CurrentSource,
    /// `M`
    MOSFET,
    /// `Q`
    BJT,
    /// `D`
    Diode,
    /// `X`
    Subckt,
    /// Any other letter.
    Unknown(u8),
}

/// The kind of an element whose name starts with `b` (any case).
pub open spec fn spec_instance_type(b: u8) -> InstanceType {
    let l = spec_lower(b);
    if l == 0x72 { InstanceType::Resistor }
    else if l == 0x63 { InstanceType::Capacitor }
    else if l == 0x76 { InstanceType::VoltageSource }
    else if l == 0x69 { InstanceType::CurrentSource }
    else if l == 0x6d { InstanceType::MOSFET }
    else if l == 0x71 { InstanceType::BJT }
    else if l == 0x64 { InstanceType::Diode }
    else if l == 0x78 { InstanceType::Subckt }
    else { InstanceType::Unknown(b) }
}

impl From<u8> for InstanceType {
    fn from(value: u8) -> (r: InstanceType)
        ensures r == spec_instance_type(value),
    {
        let l = lower(value);
        if l == 0x72 { InstanceType::Resistor }
        else if l == 0x63 { InstanceType::Capacitor }
        else if l == 0x76 { InstanceType::VoltageSource }
        else if l == 0x69 { InstanceType::CurrentSource }
        else if l == 0x6d { InstanceType::MOSFET }
        else if l == 0x71 { InstanceType::BJT }
        else if l == 0x64 { InstanceType::Diode }
        else if l == 0x78 { InstanceType::Subckt }
        else { InstanceType::Unknown(value) }
    }
}

impl vstd::std_specs::convert::FromSpecImpl<u8> for InstanceType {
    open spec fn obeys_from_spec() -> bool {
        true
    }

    open spec fn from_spec(v: u8) -> InstanceType {
        spec_instance_type(v)
    }
}

/// An element line: its name and what follows it.
#[derive(Debug, Clone)]
pub struct InstanceBuilder {
    pub name: Span,
    pub ctx: InstanceCtxBuilder,
}

/// A piecewise linear source as a mathematical value.
pub struct PWLView {
    pub points: Seq<TimeValuePointBuilder>,
    pub repeat: Option<ValueBuilder>,
    pub rstop: Option<ValueBuilder>,
    pub stopvalue: Option<ValueBuilder>,
    pub stopslope: Option<ValueBuilder>,
    pub delay: Option<ValueBuilder>,
    pub edgetype: EdgeType,
}

/// What drives a voltage or current source.
pub enum SourceView {
    Params(Seq<KeyValueBuilder>),
    Value(ValueBuilder),
    PWL(PWLView),
}

/// An element's nodes, model and parameters as a mathematical value.
#[allow(inconsistent_fields)]
pub enum CtxView {
    Resistor(ResistorBuilder),
    Capacitor(CapacitorBuilder),
    Inductor(InductorBuilder),
    Voltage { n1: Span, n2: Span, source: SourceView },
    Current { n1: Span, n2: Span, source: SourceView },
    MOSFET { nd: Span, ng: Span, ns: Span, nb: Option<Span>, mname: Span, params: Seq<KeyValueBuilder> },
    BJT { nc: Span, nb: Span, ne: Span, ns: Option<Span>, mname: Span, params: Seq<KeyValueBuilder> },
    Diode { nplus: Span, nminus: Span, mname: Span, params: Seq<KeyValueBuilder> },
    Subckt { nodes: Seq<Span>, cktname: Span, params: Seq<KeyValueBuilder> },
    Unknown { ty: u8, nodes: Seq<Span>, params: Seq<KeyValueBuilder> },
}

pub struct InstanceView {
    pub name: Span,
    pub ctx: CtxView,
}

impl View for PWLBuilder {
    type V = PWLView;
    open spec fn view(&self) -> PWLView {
        PWLView {
            points: self.points@,
            repeat: self.repeat,
            rstop: self.rstop,
            stopvalue: self.stopvalue,
            stopslope: self.stopslope,
            delay: self.delay,
            edgetype: self.edgetype,
        }
    }
}

impl View for VoltageSourceBuilder {
    type V = SourceView;
    open spec fn view(&self) -> SourceView {
        match self {
            VoltageSourceBuilder::Params(p) => SourceView::Params(p@),
            VoltageSourceBuilder::Value(v) => SourceView::Value(*v),
            VoltageSourceBuilder::PWL(w) => SourceView::PWL(w@),
        }
    }
}

impl View for CurrentSourceBuilder {
    type V = SourceView;
    open spec fn view(&self) -> SourceView {
        match self {
            CurrentSourceBuilder::Params(p) => SourceView::Params(p@),
            CurrentSourceBuilder::Value(v) => SourceView::Value(*v),
            CurrentSourceBuilder::PWL(w) => SourceView::PWL(w@),
        }
    }
}

impl View for InstanceCtxBuilder {
    type V = CtxView;
    open spec fn view(&self) -> CtxView {
        match self {
            InstanceCtxBuilder::Resistor(r) => CtxView::Resistor(*r),
            InstanceCtxBuilder::Capacitor(c) => CtxView::Capacitor(*c),
            InstanceCtxBuilder::Inductor(l) => CtxView::Inductor(*l),
            InstanceCtxBuilder::Voltage(v) => CtxView::Voltage { n1: v.n1, n2: v.n2, source: v.source@ },
            InstanceCtxBuilder::Current(c) => CtxView::Current { n1: c.n1, n2: c.n2, source: c.source@ },
            InstanceCtxBuilder::MOSFET(m) => CtxView::MOSFET {
                nd: m.nd, ng: m.ng, ns: m.ns, nb: m.nb, mname: m.mname, params: m.params@,
            },
            InstanceCtxBuilder::BJT(b) => CtxView::BJT {
                nc: b.nc, nb: b.nb, ne: b.ne, ns: b.ns, mname: b.mname, params: b.params@,
            },
            InstanceCtxBuilder::Diode(d) => CtxView::Diode {
                nplus: d.nplus, nminus: d.nminus, mname: d.mname, params: d.params@,
            },
            InstanceCtxBuilder::Subckt(x) => CtxView::Subckt { nodes: x.nodes@, cktname: x.cktname, params: x.params@ },
            InstanceCtxBuilder::Unknown { ty, nodes, params } => CtxView::Unknown { ty: *ty, nodes: nodes@, params: params@ },
        }
    }
}

impl View for InstanceBuilder {
    type V = InstanceView;
    open spec fn view(&self) -> InstanceView {
        InstanceView { name: self.name, ctx: self.ctx@ }
    }
}

/// Two nodes and a value (resistors, capacitors, inductors).
pub open spec fn spec_two_nodes_value(s: Seq<u8>, e: int) -> Option<(Span, Span, ValueBuilder, int)> {
    match spec_msep(s, e, f_node(s)) {
        Some((n1, a)) => match spec_msep(s, a, f_node(s)) {
            Some((n2, b)) => match m_value(s)(b) {
                Some((v, c)) => Some((n1, n2, v, c)),
                None => None,
            },
            None => None,
        },
        None => None,
    }
}

fn two_nodes_value(s: &[u8], e: usize) -> (r: Option<(Span, Span, ValueBuilder, usize)>)
    requires e <= s@.len(),
    ensures
        r matches Some((n1, n2, v, c)) ==> spec_two_nodes_value(s@, e as int) == Some((n1, n2, v, c as int)) && e < c <= s@.len(),
        r is None ==> spec_two_nodes_value(s@, e as int) is None,
{
    match msep_node(s, e) {
        Some((n1, a)) => match msep_node(s, a) {
            Some((n2, b)) => match msep_value(s, b) {
                Some((v, c)) => Some((n1, n2, v, c)),
                None => None,
            },
            None => None,
        },
        None => None,
    }
}

/// The time-value pairs of a flat list of values: `(x0, x1), (x2, x3), ...`.
pub open spec fn spec_pairs(xs: Seq<ValueBuilder>) -> Seq<TimeValuePointBuilder> {
    Seq::new(xs.len() / 2, |k: int| TimeValuePointBuilder { time: xs[2 * k], value: xs[2 * k + 1] })
}

/// `PWL ( v1 v2 ... )` with an even number of values.
pub open spec fn spec_pwl(s: Seq<u8>, e: int) -> Option<(PWLView, int)> {
    match spec_msep(s, e, f_node(s)) {
        Some((tag, a)) => if spec_eq_nocase(s.subrange(tag.start as int, tag.end as int), seq![0x50u8, 0x57, 0x4c]) {
            let b = spec_loss_sep(s, a);
            if b < s.len() && s[b] == 0x28 {
                let c = spec_loss_sep(s, b + 1);
                match spec_value(s, c) {
                    Some((first, d)) => match spec_many0(s, d, m_value(s)) {
                        Some((rest, g)) => {
                            let h = spec_loss_sep(s, g);
                            let pts = seq![first] + rest;
                            if h < s.len() && s[h] == 0x29 && pts.len() % 2 == 0 {
                                Some((PWLView {
                                    points: spec_pairs(pts),
                                    repeat: None,
                                    rstop: None,
                                    stopvalue: None,
                                    stopslope: None,
                                    delay: None,
                                    edgetype: EdgeType::Linear,
                                }, h + 1))
                            } else {
                                None
                            }
                        },
                        None => None,
                    },
                    None => None,
                }
            } else {
                None
            }
        } else {
            None
        },
        None => None,
    }
}

fn pairs(xs: &Vec<ValueBuilder>) -> (r: Vec<TimeValuePointBuilder>)
    ensures r@ == spec_pairs(xs@),
{
    let mut r: Vec<TimeValuePointBuilder> = Vec::new();
    let mut j: usize = 0;
    while j + 1 < xs.len()
        invariant
            j == 2 * r@.len(),
            j <= xs@.len(),
            forall|m: int| 0 <= m < r@.len() ==> #[trigger] r@[m] == spec_pairs(xs@)[m],
            r@.len() <= xs@.len() / 2,
        decreases xs@.len() - j,
    {
        r.push(TimeValuePointBuilder { time: xs[j], value: xs[j + 1] });
        j = j + 2;
    }
    assert(r@ =~= spec_pairs(xs@));
    r
}

fn pwl(s: &[u8], e: usize) -> (r: Option<(PWLBuilder, usize)>)
    requires e <= s@.len(),
    ensures
        r matches Some((w, h)) ==> spec_pwl(s@, e as int) == Some((w@, h as int)) && e < h <= s@.len(),
        r is None ==> spec_pwl(s@, e as int) is None,
{
    let (tag, a) = match msep_node(s, e) {
        Some(x) => x,
        None => { return None; },
    };
    if !eq_nocase(s, tag.start, tag.end, &[0x50u8, 0x57, 0x4c]) {
        return None;
    }
    let b = loss_sep(s, a);
    if !(b < s.len() && s[b] == 0x28) {
        return None;
    }
    let c = loss_sep(s, b + 1);
    let (first, d) = match value(s, c) {
        Some(x) => x,
        None => { return None; },
    };
    let f = |p: usize| -> (q: Option<(ValueBuilder, usize)>)
        requires p <= s@.len(),
        ensures lift(q) == m_value(s@)(p as int), q matches Some((_, j)) ==> p < j <= s@.len(),
        { msep_value(s, p) };
    let (rest, g) = match many0_by(s, d, &f, Ghost(m_value(s@))) {
        Some(x) => x,
        None => { return None; },
    };
    let h = loss_sep(s, g);
    let mut pts: Vec<ValueBuilder> = Vec::new();
    pts.push(first);
    let mut rest = rest;
    let ghost rest_v = rest@;
    pts.append(&mut rest);
    assert(pts@ =~= seq![first] + rest_v);
    if h < s.len() && s[h] == 0x29 && pts.len() % 2 == 0 {
        let w = PWLBuilder {
            points: pairs(&pts),
            repeat: None,
            rstop: None,
            stopvalue: None,
            stopslope: None,
            delay: None,
            edgetype: EdgeType::Linear,
        };
        Some((w, h + 1))
    } else {
        None
    }
}

/// The source of a voltage or current source: parameters, a PWL, or a value.
pub open spec fn spec_source(s: Seq<u8>, b: int) -> Option<(SourceView, int)> {
    match spec_many1(s, b, m_key_value(s)) {
        Some((ps, c)) => Some((SourceView::Params(ps), c)),
        None => match spec_pwl(s, b) {
            Some((w, c)) => Some((SourceView::PWL(w), c)),
            None => match m_value(s)(b) {
                Some((v, c)) => Some((SourceView::Value(v), c)),
                None => None,
            },
        },
    }
}

fn voltage_source(s: &[u8], b: usize) -> (r: Option<(VoltageSourceBuilder, usize)>)
    requires b <= s@.len(),
    ensures
        r matches Some((v, c)) ==> spec_source(s@, b as int) == Some((v@, c as int)) && b < c <= s@.len(),
        r is None ==> spec_source(s@, b as int) is None,
{
    let f = |p: usize| -> (q: Option<(KeyValueBuilder, usize)>)
        requires p <= s@.len(),
        ensures lift(q) == m_key_value(s@)(p as int), q matches Some((_, j)) ==> p < j <= s@.len(),
        { msep_key_value(s, p) };
    match many1_by(s, b, &f, Ghost(m_key_value(s@))) {
        Some((ps, c)) => Some((VoltageSourceBuilder::Params(ps), c)),
        None => match pwl(s, b) {
            Some((w, c)) => Some((VoltageSourceBuilder::PWL(w), c)),
            None => match msep_value(s, b) {
                Some((v, c)) => Some((VoltageSourceBuilder::Value(v), c)),
                None => None,
            },
        },
    }
}

fn current_source(s: &[u8], b: usize) -> (r: Option<(CurrentSourceBuilder, usize)>)
    requires b <= s@.len(),
    ensures
        r matches Some((v, c)) ==> spec_source(s@, b as int) == Some((v@, c as int)) && b < c <= s@.len(),
        r is None ==> spec_source(s@, b as int) is None,
{
    let f = |p: usize| -> (q: Option<(KeyValueBuilder, usize)>)
        requires p <= s@.len(),
        ensures lift(q) == m_key_value(s@)(p as int), q matches Some((_, j)) ==> p < j <= s@.len(),
        { msep_key_value(s, p) };
    match many1_by(s, b, &f, Ghost(m_key_value(s@))) {
        Some((ps, c)) => Some((CurrentSourceBuilder::Params(ps), c)),
        None => match pwl(s, b) {
            Some((w, c)) => Some((CurrentSourceBuilder::PWL(w), c)),
            None => match msep_value(s, b) {
                Some((v, c)) => Some((CurrentSourceBuilder::Value(v), c)),
                None => None,
            },
        },
    }
}

/// What follows an element's name, chosen by the name's first letter (any case):
/// `r` resistor, `c` capacitor, `l` inductor, `v` voltage source, `i` current
/// source, `m` MOSFET (3 or 4 nodes and a model), `q` BJT (3 or 4 nodes and a
/// model), `d` diode (2 nodes and a model), `x` subcircuit call (nodes and the
/// subcircuit's name); any other letter keeps its nodes and parameters as they are.
pub open spec fn spec_ctx(s: Seq<u8>, c: u8, e: int) -> Option<(CtxView, int)> {
    if c == 0x72 || c == 0x63 || c == 0x6c {
        match spec_two_nodes_value(s, e) {
            Some((n1, n2, v, k)) => Some((
                if c == 0x72 {
                    CtxView::Resistor(ResistorBuilder { n1, n2, value: v })
                } else if c == 0x63 {
                    CtxView::Capacitor(CapacitorBuilder { n1, n2, value: v })
                } else {
                    CtxView::Inductor(InductorBuilder { n1, n2, value: v })
                },
                k,
            )),
            None => None,
        }
    } else if c == 0x76 || c == 0x69 {
        match spec_msep(s, e, f_node(s)) {
            Some((n1, a)) => match spec_msep(s, a, f_node(s)) {
                Some((n2, b)) => match spec_source(s, b) {
                    Some((src, k)) => Some((
                        if c == 0x76 { CtxView::Voltage { n1, n2, source: src } } else { CtxView::Current { n1, n2, source: src } },
                        k,
                    )),
                    None => None,
                },
                None => None,
            },
            None => None,
        }
    } else {
        match spec_ports_params(s, e) {
            Some((p, params, k)) => if c == 0x6d || c == 0x71 {
                if p.len() == 4 {
                    Some((if c == 0x6d {
                        CtxView::MOSFET { nd: p[0], ng: p[1], ns: p[2], nb: None, mname: p[3], params }
                    } else {
                        CtxView::BJT { nc: p[0], nb: p[1], ne: p[2], ns: None, mname: p[3], params }
                    }, k))
                } else if p.len() == 5 {
                    Some((if c == 0x6d {
                        CtxView::MOSFET { nd: p[0], ng: p[1], ns: p[2], nb: Some(p[3]), mname: p[4], params }
                    } else {
                        CtxView::BJT { nc: p[0], nb: p[1], ne: p[2], ns: Some(p[3]), mname: p[4], params }
                    }, k))
                } else {
                    None
                }
            } else if c == 0x64 {
                if p.len() == 3 {
                    Some((CtxView::Diode { nplus: p[0], nminus: p[1], mname: p[2], params }, k))
                } else {
                    None
                }
            } else if c == 0x78 {
                if p.len() > 0 {
                    Some((CtxView::Subckt { nodes: p.drop_last(), cktname: p.last(), params }, k))
                } else {
                    None
                }
            } else {
                Some((CtxView::Unknown { ty: c, nodes: p, params }, k))
            },
            None => None,
        }
    }
}

/// An element line at `i`: a name, classified by its first letter.
pub open spec fn spec_instance(s: Seq<u8>, i: int) -> Option<(InstanceView, int)> {
    match spec_node(s, i) {
        Some((name, e)) => match spec_ctx(s, spec_lower(s[i]), e) {
            Some((ctx, k)) => Some((InstanceView { name, ctx }, k)),
            None => None,
        },
        None => None,
    }
}

/// Parses an element line at `i`.
pub fn instance(s: &[u8], i: usize) -> (r: Option<(InstanceBuilder, usize)>)
    requires i <= s@.len(),
    ensures
        r matches Some((inst, k)) ==> spec_instance(s@, i as int) == Some((inst@, k as int)) && i < k <= s@.len(),
        r is None ==> spec_instance(s@, i as int) is None,
{
    let (name, e) = match node(s, i) {
        Some(x) => x,
        None => { return None; },
    };
    let c = lower(s[i]);
    if c == 0x72 || c == 0x63 || c == 0x6c {
        match two_nodes_value(s, e) {
            Some((n1, n2, v, k)) => {
                let ctx = if c == 0x72 {
                    InstanceCtxBuilder::Resistor(ResistorBuilder { n1, n2, value: v })
                } else if c == 0x63 {
                    InstanceCtxBuilder::Capacitor(CapacitorBuilder { n1, n2, value: v })
                } else {
                    InstanceCtxBuilder::Inductor(InductorBuilder { n1, n2, value: v })
                };
                Some((InstanceBuilder { name, ctx }, k))
            },
            None => None,
        }
    } else if c == 0x76 || c == 0x69 {
        let (n1, a) = match msep_node(s, e) {
            Some(x) => x,
            None => { return None; },
        };
        let (n2, b) = match msep_node(s, a) {
            Some(x) => x,
            None => { return None; },
        };
        if c == 0x76 {
            match voltage_source(s, b) {
                Some((src, k)) => Some((InstanceBuilder { name, ctx: InstanceCtxBuilder::Voltage(VoltageBuilder { n1, n2, source: src }) }, k)),
                None => None,
            }
        } else {
            match current_source(s, b) {
                Some((src, k)) => Some((InstanceBuilder { name, ctx: InstanceCtxBuilder::Current(CurrentBuilder { n1, n2, source: src }) }, k)),
                None => None,
            }
        }
    } else {
        let (p, params, k) = match ports_params(s, e) {
            Some(x) => x,
            None => { return None; },
        };
        if c == 0x6d || c == 0x71 {
            if p.len() == 4 {
                let ctx = if c == 0x6d {
                    InstanceCtxBuilder::MOSFET(MOSFETBuilder { nd: p[0], ng: p[1], ns: p[2], nb: None, mname: p[3], params })
                } else {
                    InstanceCtxBuilder::BJT(BJTBuilder { nc: p[0], nb: p[1], ne: p[2], ns: None, mname: p[3], params })
                };
                Some((InstanceBuilder { name, ctx }, k))
            } else if p.len() == 5 {
                let ctx = if c == 0x6d {
                    InstanceCtxBuilder::MOSFET(MOSFETBuilder { nd: p[0], ng: p[1], ns: p[2], nb: Some(p[3]), mname: p[4], params })
                } else {
                    InstanceCtxBuilder::BJT(BJTBuilder { nc: p[0], nb: p[1], ne: p[2], ns: Some(p[3]), mname: p[4], params })
                };
                Some((InstanceBuilder { name, ctx }, k))
            } else {
                None
            }
        } else if c == 0x64 {
            if p.len() == 3 {
                Some((InstanceBuilder { name, ctx: InstanceCtxBuilder::Diode(DiodeBuilder { nplus: p[0], nminus: p[1], mname: p[2], params }) }, k))
            } else {
                None
            }
        } else if c == 0x78 {
            if p.len() > 0 {
                let mut nodes = p;
                let ghost all = nodes@;
                let cktname = nodes.pop().unwrap();
                assert(nodes@ =~= all.drop_last());
                Some((InstanceBuilder { name, ctx: InstanceCtxBuilder::Subckt(SubcktBuilder { nodes, cktname, params }) }, k))
            } else {
                None
            }
        } else {
            Some((InstanceBuilder { name, ctx: InstanceCtxBuilder::Unknown { ty: c, nodes: p, params } }, k))
        }
    }
}

} // verus!

verus! {

/// The spans an element keeps from its line, in the order the line gives
/// them: its nodes, then its model or subcircuit name.
pub open spec fn line_order(c: CtxView) -> Seq<Span> {
    match c {
        CtxView::Resistor(r) => seq![r.n1, r.n2],
        CtxView::Capacitor(r) => seq![r.n1, r.n2],
        CtxView::Inductor(r) => seq![r.n1, r.n2],
        CtxView::Voltage { n1, n2, .. } => seq![n1, n2],
        CtxView::Current { n1, n2, .. } => seq![n1, n2],
        CtxView::MOSFET { nd, ng, ns, nb, mname, .. } =>
            seq![nd, ng, ns] + (match nb { Some(b) => seq![b], None => Seq::empty() }) + seq![mname],
        CtxView::BJT { nc, nb, ne, ns, mname, .. } =>
            seq![nc, nb, ne] + (match ns { Some(x) => seq![x], None => Seq::empty() }) + seq![mname],
        CtxView::Diode { nplus, nminus, mname, .. } => seq![nplus, nminus, mname],
        CtxView::Subckt { nodes, cktname, .. } => nodes.push(cktname),
        CtxView::Unknown { nodes, .. } => nodes,
    }
}

/// The (lower-case) letter that names the kind of an element.
pub open spec fn kind_letter(c: CtxView) -> u8 {
    match c {
        CtxView::Resistor(_) => 0x72,
        CtxView::Capacitor(_) => 0x63,
        CtxView::Inductor(_) => 0x6c,
        CtxView::Voltage { .. } => 0x76,
        CtxView::Current { .. } => 0x69,
        CtxView::MOSFET { .. } => 0x6d,
        CtxView::BJT { .. } => 0x71,
        CtxView::Diode { .. } => 0x64,
        CtxView::Subckt { .. } => 0x78,
        CtxView::Unknown { ty, .. } => ty,
    }
}

proof fn lemma_order_two(s: Seq<u8>, c: u8, e: int)
    requires spec_ctx(s, c, e) is Some, c == 0x72 || c == 0x63 || c == 0x6c,
    ensures
        kind_letter(spec_ctx(s, c, e).unwrap().0) == c,
        spec_two_nodes_value(s, e) matches Some((n1, n2, _, k))
            && line_order(spec_ctx(s, c, e).unwrap().0) == seq![n1, n2] && k == spec_ctx(s, c, e).unwrap().1,
{
}

#[verifier::rlimit(100)]
proof fn lemma_order_source(s: Seq<u8>, c: u8, e: int)
    requires spec_ctx(s, c, e) is Some, c == 0x76 || c == 0x69,
    ensures
        kind_letter(spec_ctx(s, c, e).unwrap().0) == c,
        spec_msep(s, e, f_node(s)) matches Some((n1, a))
            && spec_msep(s, a, f_node(s)) matches Some((n2, _))
            && line_order(spec_ctx(s, c, e).unwrap().0) == seq![n1, n2],
{
}

/// What an element line with ports ends as: its kind letter and line order.
pub open spec fn ports_shape(s: Seq<u8>, c: u8, e: int) -> bool {
    &&& kind_letter(spec_ctx(s, c, e).unwrap().0) == c
    &&& spec_ports_params(s, e) matches Some((p, params, k))
    &&& line_order(spec_ctx(s, c, e).unwrap().0) == p
    &&& k == spec_ctx(s, c, e).unwrap().1
}

#[verifier::rlimit(100)]
proof fn lemma_order_mq(s: Seq<u8>, c: u8, e: int)
    requires spec_ctx(s, c, e) is Some, c == 0x6d || c == 0x71,
    ensures ports_shape(s, c, e),
{
    let (p, params, k) = spec_ports_params(s, e).unwrap();
    let ctx = spec_ctx(s, c, e).unwrap().0;
    assert(line_order(ctx) =~= p);
}

#[verifier::rlimit(100)]
proof fn lemma_order_d(s: Seq<u8>, e: int)
    requires spec_ctx(s, 0x64, e) is Some,
    ensures ports_shape(s, 0x64, e),
{
    let (p, params, k) = spec_ports_params(s, e).unwrap();
    let ctx = spec_ctx(s, 0x64, e).unwrap().0;
    assert(line_order(ctx) =~= p);
}

#[verifier::rlimit(100)]
proof fn lemma_order_x(s: Seq<u8>, e: int)
    requires spec_ctx(s, 0x78, e) is Some,
    ensures ports_shape(s, 0x78, e),
{
    let (p, params, k) = spec_ports_params(s, e).unwrap();
    assert(p.drop_last().push(p.last()) =~= p);
}

#[verifier::rlimit(100)]
proof fn lemma_order_other(s: Seq<u8>, c: u8, e: int)
    requires
        spec_ctx(s, c, e) is Some,
        !(c == 0x72 || c == 0x63 || c == 0x6c || c == 0x76 || c == 0x69 || c == 0x6d || c == 0x71 || c == 0x64 || c == 0x78),
    ensures ports_shape(s, c, e),
{
}

proof fn lemma_order_ports(s: Seq<u8>, c: u8, e: int)
    requires spec_ctx(s, c, e) is Some, !(c == 0x72 || c == 0x63 || c == 0x6c || c == 0x76 || c == 0x69),
    ensures
        kind_letter(spec_ctx(s, c, e).unwrap().0) == c,
        spec_ports_params(s, e) matches Some((p, params, k))
            && line_order(spec_ctx(s, c, e).unwrap().0) == p && k == spec_ctx(s, c, e).unwrap().1,
{
    if c == 0x6d || c == 0x71 {
        lemma_order_mq(s, c, e);
    } else if c == 0x64 {
        lemma_order_d(s, e);
    } else if c == 0x78 {
        lemma_order_x(s, e);
    } else {
        lemma_order_other(s, c, e);
    }
}

/// An element line keeps its kind letter, and its names land in its
/// fields in the order the line gives them: for a two-terminal element or
/// a source, the two nodes read after the name; for any other element,
/// the names read before the parameters (nodes, then the model or
/// subcircuit name), one for one.
pub proof fn law_element_line_order(s: Seq<u8>, c: u8, e: int)
    requires spec_ctx(s, c, e) is Some,
    ensures
        kind_letter(spec_ctx(s, c, e).unwrap().0) == c,
        (c == 0x72 || c == 0x63 || c == 0x6c) ==> (spec_two_nodes_value(s, e) matches Some((n1, n2, _, k))
            && line_order(spec_ctx(s, c, e).unwrap().0) == seq![n1, n2] && k == spec_ctx(s, c, e).unwrap().1),
        (c == 0x76 || c == 0x69) ==> (spec_msep(s, e, f_node(s)) matches Some((n1, a))
            && spec_msep(s, a, f_node(s)) matches Some((n2, _))
            && line_order(spec_ctx(s, c, e).unwrap().0) == seq![n1, n2]),
        !(c == 0x72 || c == 0x63 || c == 0x6c || c == 0x76 || c == 0x69) ==> (spec_ports_params(s, e) matches Some((p, params, k))
            && line_order(spec_ctx(s, c, e).unwrap().0) == p && k == spec_ctx(s, c, e).unwrap().1),
{
    if c == 0x72 || c == 0x63 || c == 0x6c {
        lemma_order_two(s, c, e);
    } else if c == 0x76 || c == 0x69 {
        lemma_order_source(s, c, e);
    } else {
        lemma_order_ports(s, c, e);
    }
}

} // verus!
