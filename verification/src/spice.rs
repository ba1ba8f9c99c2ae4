//! Writing a resolved netlist back as SPICE text. The text is a list of
//! pieces: names and expressions are spans of their files, numbers are
//! written in scientific notation with seven decimals, fixed words are
//! literals.
use vstd::prelude::*;
use crate::ast::{
    DataBuilder, DataFileBuilder, DataFileView, DataFilesBuilder, DataFilesView, DataValuesBuilder, DataValuesView,
    DataView, KeyValueBuilder, ModelBuilder, ModelTypeBuilder, ModelView, NumLit, PnameColNumBuilder, TokenBuilder,
    UnknwonBuilder, UnknwonView, ValueBuilder,
};
use crate::display::{display_inline, display_multiline, display_wrap, spec_inline, spec_multiline, spec_wrap};
use crate::instance::{
    CtxView, CurrentSourceBuilder, InstanceBuilder, InstanceCtxBuilder, InstanceView, PWLBuilder, PWLView, SourceView,
    TimeValuePointBuilder, VoltageSourceBuilder,
};
use crate::netlist::{built_view, sub_built_view, subs_built_view, AST, BuiltView, Subckt, SubcktBuiltView};
use crate::span::{ParsedId, Span};

verus! {

/// One piece of written text.
#[derive(Debug, Clone, Copy)]
pub enum Piece {
    /// The text of a span of a file.
    Src(ParsedId, Span),
    /// Fixed text.
    Lit(&'static str),
    /// A number of a file, written in scientific notation with seven decimals.
    Num(ParsedId, NumLit),
    /// A count, in decimal.
    Count(usize),
}

pub open spec fn sp() -> Piece { Piece::Lit(" ") }

pub open spec fn nl() -> Piece { Piece::Lit("\n") }

pub open spec fn cont() -> Seq<Piece> { seq![Piece::Lit("+ ")] }

pub open spec fn w_value(p: ParsedId, v: ValueBuilder) -> Seq<Piece> {
    match v {
        ValueBuilder::Num(n) => seq![Piece::Num(p, n)],
        ValueBuilder::Expr(e) => seq![Piece::Lit("'"), Piece::Src(p, e), Piece::Lit("'")],
    }
}

pub open spec fn w_key_value(p: ParsedId, kv: KeyValueBuilder) -> Seq<Piece> {
    seq![Piece::Src(p, kv.k), Piece::Lit("=")] + w_value(p, kv.v)
}

pub open spec fn w_token(p: ParsedId, t: TokenBuilder) -> Seq<Piece> {
    match t {
        TokenBuilder::KV(kv) => w_key_value(p, kv),
        TokenBuilder::Value(v) => w_value(p, v),
        TokenBuilder::V(n) => seq![Piece::Lit("V("), Piece::Src(p, n), Piece::Lit(")")],
        TokenBuilder::I(n) => seq![Piece::Lit("I("), Piece::Src(p, n), Piece::Lit(")")],
    }
}

pub open spec fn w_kvs(p: ParsedId, kvs: Seq<KeyValueBuilder>) -> Seq<Seq<Piece>> {
    kvs.map_values(|kv: KeyValueBuilder| w_key_value(p, kv))
}

pub open spec fn w_srcs(p: ParsedId, spans: Seq<Span>) -> Seq<Seq<Piece>> {
    spans.map_values(|s: Span| seq![Piece::Src(p, s)])
}

/// `params` after the element: each preceded by a space.
pub open spec fn w_params(p: ParsedId, kvs: Seq<KeyValueBuilder>) -> Seq<Piece> {
    spec_inline(w_kvs(p, kvs), sp(), false)
}

pub open spec fn w_data_file(p: ParsedId, f: DataFileView) -> Seq<Piece> {
    seq![Piece::Lit("+ FILE='"), Piece::Src(p, f.file), Piece::Lit("'")]
        + spec_inline(f.pname_col_num.map_values(|x: PnameColNumBuilder|
            seq![Piece::Src(p, x.pname), Piece::Lit("="), Piece::Count(x.col_num)]), sp(), false)
}

pub open spec fn w_data_files(p: ParsedId, t: DataFilesView) -> Seq<Piece> {
    spec_multiline(t.files.map_values(|f: DataFileView| w_data_file(p, f)), nl())
        + match t.out {
            Some(o) => seq![Piece::Lit("\n+ OUT='"), Piece::Src(p, o), Piece::Lit("'")],
            None => Seq::empty(),
        }
}

pub open spec fn w_data(p: ParsedId, d: DataView) -> Seq<Piece> {
    seq![Piece::Lit(".DATA "), Piece::Src(p, d.name)] + match d.values {
        DataValuesView::InlineExpr { params, values } => seq![Piece::Lit("\n+")]
            + spec_inline(w_srcs(p, params), sp(), false) + seq![Piece::Lit(" DATAFORM")]
            + spec_wrap(values.map_values(|v: ValueBuilder| w_value(p, v)), nl(), cont(), sp(), params.len(), 0),
        DataValuesView::InlineNum { params, values } => seq![Piece::Lit("\n+")]
            + spec_inline(w_srcs(p, params), sp(), false)
            + spec_wrap(values.map_values(|n: NumLit| seq![Piece::Num(p, n)]), nl(), cont(), sp(), params.len(), 0),
        DataValuesView::MER(t) => seq![Piece::Lit(" MER")] + w_data_files(p, t),
        DataValuesView::LAM(t) => seq![Piece::Lit(" LAM")] + w_data_files(p, t),
    } + seq![Piece::Lit("\n.ENDDATA")]
}

pub open spec fn w_pwl(p: ParsedId, w: PWLView) -> Seq<Piece> {
    seq![Piece::Lit("PWL(")]
        + spec_wrap(w.points.map_values(|t: TimeValuePointBuilder| w_value(p, t.time) + seq![sp()] + w_value(p, t.value)),
            nl(), cont(), sp(), 1, 0)
        + seq![Piece::Lit(")")]
}

pub open spec fn w_source(p: ParsedId, s: SourceView) -> Seq<Piece> {
    match s {
        SourceView::Params(kvs) => w_params(p, kvs),
        SourceView::Value(v) => w_value(p, v),
        SourceView::PWL(w) => w_pwl(p, w),
    }
}

pub open spec fn w_two(p: ParsedId, n1: Span, n2: Span) -> Seq<Piece> {
    seq![Piece::Src(p, n1), sp(), Piece::Src(p, n2), sp()]
}

pub open spec fn w_opt_node(p: ParsedId, n: Option<Span>) -> Seq<Piece> {
    match n {
        Some(x) => seq![sp(), Piece::Src(p, x)],
        None => Seq::empty(),
    }
}

pub open spec fn w_ctx(p: ParsedId, c: CtxView) -> Seq<Piece> {
    match c {
        CtxView::Resistor(r) => w_two(p, r.n1, r.n2) + w_value(p, r.value),
        CtxView::Capacitor(x) => w_two(p, x.n1, x.n2) + w_value(p, x.value),
        CtxView::Inductor(x) => w_two(p, x.n1, x.n2) + w_value(p, x.value),
        CtxView::Voltage { n1, n2, source } => w_two(p, n1, n2) + w_source(p, source),
        CtxView::Current { n1, n2, source } => w_two(p, n1, n2) + w_source(p, source),
        CtxView::MOSFET { nd, ng, ns, nb, mname, params } =>
            seq![Piece::Src(p, nd), sp(), Piece::Src(p, ng), sp(), Piece::Src(p, ns)] + w_opt_node(p, nb)
                + seq![sp(), Piece::Src(p, mname)] + w_params(p, params),
        CtxView::BJT { nc, nb, ne, ns, mname, params } =>
            seq![Piece::Src(p, nc), sp(), Piece::Src(p, nb), sp(), Piece::Src(p, ne)] + w_opt_node(p, ns)
                + seq![sp(), Piece::Src(p, mname)] + w_params(p, params),
        CtxView::Diode { nplus, nminus, mname, params } =>
            seq![Piece::Src(p, nplus), sp(), Piece::Src(p, nminus), sp(), Piece::Src(p, mname)] + w_params(p, params),
        CtxView::Subckt { nodes, cktname, params } =>
            spec_inline(w_srcs(p, nodes), sp(), true) + seq![sp(), Piece::Src(p, cktname)] + w_params(p, params),
        CtxView::Unknown { nodes, params, .. } => spec_inline(w_srcs(p, nodes), sp(), true) + w_params(p, params),
    }
}

pub open spec fn w_instance(p: ParsedId, i: InstanceView) -> Seq<Piece> {
    seq![Piece::Src(p, i.name), sp()] + w_ctx(p, i.ctx)
}

pub open spec fn model_type_word(t: ModelTypeBuilder) -> &'static str {
    match t {
        ModelTypeBuilder::AMP => "AMP",
        ModelTypeBuilder::C => "C",
        ModelTypeBuilder::CORE => "CORE",
        ModelTypeBuilder::D => "D",
        ModelTypeBuilder::L => "L",
        ModelTypeBuilder::NJF => "NJF",
        ModelTypeBuilder::NMOS => "NMOS",
        ModelTypeBuilder::NPN => "NPN",
        ModelTypeBuilder::OPT => "OPT",
        ModelTypeBuilder::PJF => "PJF",
        ModelTypeBuilder::PMOS => "PMOS",
        ModelTypeBuilder::PNP => "PNP",
        ModelTypeBuilder::R => "R",
        ModelTypeBuilder::U => "U",
        ModelTypeBuilder::W => "W",
        ModelTypeBuilder::S => "S",
        ModelTypeBuilder::Unknown(_) => "",
    }
}

pub open spec fn w_model_type(p: ParsedId, t: ModelTypeBuilder) -> Seq<Piece> {
    match t {
        ModelTypeBuilder::Unknown(s) => seq![Piece::Src(p, s)],
        _ => seq![Piece::Lit(model_type_word(t))],
    }
}

pub open spec fn w_model(p: ParsedId, m: ModelView) -> Seq<Piece> {
    seq![Piece::Lit(".MODEL "), Piece::Src(p, m.name), sp()] + w_model_type(p, m.model_type)
        + spec_wrap(w_kvs(p, m.params), nl(), cont(), sp(), 4, 0)
}

pub open spec fn w_unknwon(p: ParsedId, u: UnknwonView) -> Seq<Piece> {
    seq![Piece::Lit("."), Piece::Src(p, u.cmd)]
        + spec_inline(u.tokens.map_values(|t: TokenBuilder| w_token(p, t)), sp(), false)
}

pub open spec fn w_option(p: ParsedId, o: (Span, Option<ValueBuilder>)) -> Seq<Piece> {
    match o.1 {
        Some(v) => seq![Piece::Src(p, o.0), Piece::Lit("=")] + w_value(p, v),
        None => seq![Piece::Src(p, o.0)],
    }
}

pub open spec fn w_opt_subckt(p: ParsedId, s: Option<Span>) -> Seq<Piece> {
    match s {
        Some(x) => seq![Piece::Lit(" suckt="), Piece::Src(p, x)],
        None => Seq::empty(),
    }
}

pub open spec fn w_ic(p: ParsedId, ic: (Span, ValueBuilder, Option<Span>)) -> Seq<Piece> {
    seq![Piece::Lit(".IC V("), Piece::Src(p, ic.0), Piece::Lit(")=")] + w_value(p, ic.1) + w_opt_subckt(p, ic.2)
}

pub open spec fn w_nodeset(p: ParsedId, ic: (Span, ValueBuilder, Option<Span>)) -> Seq<Piece> {
    seq![Piece::Lit(".NODESET "), Piece::Src(p, ic.0), Piece::Lit("=")] + w_value(p, ic.1) + w_opt_subckt(p, ic.2)
}

pub open spec fn w_options(a: BuiltView) -> Seq<Piece> {
    if a.option.len() > 0 {
        seq![Piece::Lit(".OPTION ")]
            + spec_wrap(a.option.map_values(|x: (ParsedId, (Span, Option<ValueBuilder>))| w_option(x.0, x.1)), nl(), cont(), sp(), 4, 0)
    } else {
        Seq::empty()
    }
}

pub open spec fn w_params_stmt(a: BuiltView) -> Seq<Piece> {
    if a.param.len() > 0 {
        seq![Piece::Lit("\n.PARAM ")]
            + spec_wrap(a.param.map_values(|x: (ParsedId, KeyValueBuilder)| w_key_value(x.0, x.1)), nl(), cont(), sp(), 4, 0)
    } else {
        Seq::empty()
    }
}

pub open spec fn w_lines(a: BuiltView) -> Seq<Piece> {
    spec_multiline(a.instance.map_values(|x: (ParsedId, InstanceView)| w_instance(x.0, x.1)), nl())
        + spec_multiline(a.init_condition.map_values(|x: (ParsedId, (Span, ValueBuilder, Option<Span>))| w_ic(x.0, x.1)), nl())
        + spec_multiline(a.nodeset.map_values(|x: (ParsedId, (Span, ValueBuilder, Option<Span>))| w_nodeset(x.0, x.1)), nl())
        + spec_multiline(a.data.map_values(|x: (ParsedId, DataView)| w_data(x.0, x.1)), nl())
        + spec_multiline(a.unknwon.map_values(|x: (ParsedId, UnknwonView)| w_unknwon(x.0, x.1)), nl())
}

/// The statements of a netlist: options, parameters, models, subcircuits,
/// elements, initial conditions, node sets, data and unknown commands.
pub open spec fn w_ast(a: BuiltView) -> Seq<Piece>
    decreases a, 1int,
{
    proof { assert(decreases_to!(a => a.subckt)); }
    w_options(a) + w_params_stmt(a) + spec_multiline(a.model.map_values(|x: (ParsedId, ModelView)| w_model(x.0, x.1)), nl())
        + spec_multiline(w_subckts(a.subckt), nl()) + w_lines(a)
}

pub open spec fn w_subckts(v: Seq<SubcktBuiltView>) -> Seq<Seq<Piece>>
    decreases v, 0int,
{
    Seq::new(v.len(), |k: int|
        if 0 <= k < v.len() {
            proof { assert(decreases_to!(v => v[k])); }
            w_subckt(v[k])
        } else {
            Seq::empty()
        })
}

/// `.SUBCKT name ports params`, the body, `.ENDS name`.
pub open spec fn w_subckt(s: SubcktBuiltView) -> Seq<Piece>
    decreases s, 0int,
{
    proof { assert(decreases_to!(s => s.ast)); }
    seq![Piece::Lit(".SUBCKT "), Piece::Src(s.file, s.name), sp()] + spec_inline(w_srcs(s.file, s.ports), sp(), true)
        + w_params(s.file, s.params) + w_ast(s.ast) + seq![Piece::Lit("\n.ENDS "), Piece::Src(s.file, s.name)]
}

/// Inline data lists each name their columns.
pub open spec fn data_ok(d: DataView) -> bool {
    match d.values {
        DataValuesView::InlineExpr { params, .. } => params.len() > 0,
        DataValuesView::InlineNum { params, .. } => params.len() > 0,
        _ => true,
    }
}

/// The netlist can be written: it holds no general command (their words
/// are not written), every inline data lists names, and so do its subcircuits.
pub open spec fn printable(a: BuiltView) -> bool
    decreases a, 1int,
{
    proof { assert(decreases_to!(a => a.subckt)); }
    &&& a.general.len() == 0
    &&& forall|k: int| 0 <= k < a.data.len() ==> data_ok(#[trigger] a.data[k].1)
    &&& all_true(printable_subs(a.subckt))
}

/// Every element is true.
pub open spec fn all_true(s: Seq<bool>) -> bool {
    forall|k: int| 0 <= k < s.len() ==> #[trigger] s[k]
}

pub open spec fn printable_subs(v: Seq<SubcktBuiltView>) -> Seq<bool>
    decreases v, 0int,
{
    Seq::new(v.len(), |k: int|
        if 0 <= k < v.len() {
            proof { assert(decreases_to!(v => v[k])); assert(decreases_to!(v[k] => v[k].ast)); }
            printable(v[k].ast)
        } else {
            true
        })
}

} // verus!

verus! {

/// The written items as values.
pub open spec fn vv(s: Seq<Vec<Piece>>) -> Seq<Seq<Piece>> {
    s.map_values(|x: Vec<Piece>| x@)
}

fn cat(out: &mut Vec<Piece>, more: Vec<Piece>)
    ensures final(out)@ == old(out)@ + more@,
{
    let mut m = more;
    out.append(&mut m);
}

fn wrap_in(out: &mut Vec<Piece>, items: &Vec<Vec<Piece>>, size: usize)
    requires size > 0,
    ensures final(out)@ == old(out)@ + spec_wrap(vv(items@), nl(), cont(), sp(), size as nat, 0),
{
    let c = [Piece::Lit("+ ")];
    assert(c@ =~= cont());
    display_wrap(out, items, Piece::Lit("\n"), &c, Piece::Lit(" "), size);
}

/// The writer of SPICE text with the default layout.
#[derive(Debug, Clone, Copy)]
pub struct DefaultFmt;

impl DefaultFmt {
    /// A number, or a quoted expression.
    pub fn value(&self, p: ParsedId, v: &ValueBuilder) -> (r: Vec<Piece>)
        ensures r@ == w_value(p, *v),
    {
        let mut r: Vec<Piece> = Vec::new();
        match v {
            ValueBuilder::Num(n) => r.push(Piece::Num(p, *n)),
            ValueBuilder::Expr(e) => {
                r.push(Piece::Lit("'"));
                r.push(Piece::Src(p, *e));
                r.push(Piece::Lit("'"));
            },
        }
        assert(r@ =~= w_value(p, *v));
        r
    }

    /// `key=value`
    pub fn key_value(&self, p: ParsedId, kv: &KeyValueBuilder) -> (r: Vec<Piece>)
        ensures r@ == w_key_value(p, *kv),
    {
        let mut r: Vec<Piece> = Vec::new();
        r.push(Piece::Src(p, kv.k));
        r.push(Piece::Lit("="));
        cat(&mut r, self.value(p, &kv.v));
        assert(r@ =~= w_key_value(p, *kv));
        r
    }

    /// A token of a command.
    pub fn token(&self, p: ParsedId, t: &TokenBuilder) -> (r: Vec<Piece>)
        ensures r@ == w_token(p, *t),
    {
        match t {
            TokenBuilder::KV(kv) => self.key_value(p, kv),
            TokenBuilder::Value(v) => self.value(p, v),
            TokenBuilder::V(n) => {
                let mut r: Vec<Piece> = Vec::new();
                r.push(Piece::Lit("V("));
                r.push(Piece::Src(p, *n));
                r.push(Piece::Lit(")"));
                assert(r@ =~= w_token(p, *t));
                r
            },
            TokenBuilder::I(n) => {
                let mut r: Vec<Piece> = Vec::new();
                r.push(Piece::Lit("I("));
                r.push(Piece::Src(p, *n));
                r.push(Piece::Lit(")"));
                assert(r@ =~= w_token(p, *t));
                r
            },
        }
    }

    fn kvs(&self, p: ParsedId, v: &Vec<KeyValueBuilder>) -> (r: Vec<Vec<Piece>>)
        ensures vv(r@) == w_kvs(p, v@),
    {
        let mut r: Vec<Vec<Piece>> = Vec::new();
        let mut k: usize = 0;
        while k < v.len()
            invariant
                k <= v@.len(),
                r@.len() == k,
                forall|m: int| 0 <= m < k ==> #[trigger] r@[m]@ == w_key_value(p, v@[m]),
            decreases v@.len() - k,
        {
            r.push(self.key_value(p, &v[k]));
            k = k + 1;
        }
        assert(vv(r@) =~= w_kvs(p, v@));
        r
    }

    fn srcs(&self, p: ParsedId, v: &Vec<Span>) -> (r: Vec<Vec<Piece>>)
        ensures vv(r@) == w_srcs(p, v@),
    {
        let mut r: Vec<Vec<Piece>> = Vec::new();
        let mut k: usize = 0;
        while k < v.len()
            invariant
                k <= v@.len(),
                r@.len() == k,
                forall|m: int| 0 <= m < k ==> #[trigger] r@[m]@ == seq![Piece::Src(p, v@[m])],
            decreases v@.len() - k,
        {
            let mut one: Vec<Piece> = Vec::new();
            one.push(Piece::Src(p, v[k]));
            assert(one@ =~= seq![Piece::Src(p, v@[k as int])]);
            r.push(one);
            k = k + 1;
        }
        assert(vv(r@) =~= w_srcs(p, v@));
        r
    }

    /// The parameters after an element, each preceded by a space.
    pub fn params(&self, p: ParsedId, v: &Vec<KeyValueBuilder>) -> (r: Vec<Piece>)
        ensures r@ == w_params(p, v@),
    {
        let mut r: Vec<Piece> = Vec::new();
        let items = self.kvs(p, v);
        display_inline(&mut r, &items, Piece::Lit(" "), false);
        assert(r@ =~= w_params(p, v@));
        r
    }

    /// Node names, separated by spaces.
    pub fn ports(&self, p: ParsedId, v: &Vec<Span>) -> (r: Vec<Piece>)
        ensures r@ == spec_inline(w_srcs(p, v@), sp(), true),
    {
        let mut r: Vec<Piece> = Vec::new();
        let items = self.srcs(p, v);
        display_inline(&mut r, &items, Piece::Lit(" "), true);
        assert(r@ =~= spec_inline(w_srcs(p, v@), sp(), true));
        r
    }

    fn data_file(&self, p: ParsedId, f: &DataFileBuilder) -> (r: Vec<Piece>)
        ensures r@ == w_data_file(p, f@),
    {
        let mut r: Vec<Piece> = Vec::new();
        r.push(Piece::Lit("+ FILE='"));
        r.push(Piece::Src(p, f.file));
        r.push(Piece::Lit("'"));
        let ghost want = f.pname_col_num@.map_values(|x: PnameColNumBuilder|
            seq![Piece::Src(p, x.pname), Piece::Lit("="), Piece::Count(x.col_num)]);
        let mut items: Vec<Vec<Piece>> = Vec::new();
        let mut k: usize = 0;
        while k < f.pname_col_num.len()
            invariant
                k <= f.pname_col_num@.len(),
                want == f.pname_col_num@.map_values(|x: PnameColNumBuilder|
                    seq![Piece::Src(p, x.pname), Piece::Lit("="), Piece::Count(x.col_num)]),
                items@.len() == k,
                forall|m: int| 0 <= m < k ==> #[trigger] items@[m]@ == want[m],
            decreases f.pname_col_num@.len() - k,
        {
            let x = f.pname_col_num[k];
            let mut one: Vec<Piece> = Vec::new();
            one.push(Piece::Src(p, x.pname));
            one.push(Piece::Lit("="));
            one.push(Piece::Count(x.col_num));
            assert(one@ =~= want[k as int]);
            items.push(one);
            k = k + 1;
        }
        assert(vv(items@) =~= want);
        display_inline(&mut r, &items, Piece::Lit(" "), false);
        assert(r@ =~= w_data_file(p, f@));
        r
    }

    /// The files of a `.DATA ... MER` / `LAM`, each on its line, and the output file.
    pub fn data_files(&self, p: ParsedId, t: &DataFilesBuilder) -> (r: Vec<Piece>)
        ensures r@ == w_data_files(p, t@),
    {
        let ghost want = t@.files.map_values(|f: DataFileView| w_data_file(p, f));
        let mut items: Vec<Vec<Piece>> = Vec::new();
        let mut k: usize = 0;
        while k < t.files.len()
            invariant
                k <= t.files@.len(),
                want == t@.files.map_values(|f: DataFileView| w_data_file(p, f)),
                items@.len() == k,
                forall|m: int| 0 <= m < k ==> #[trigger] items@[m]@ == want[m],
            decreases t.files@.len() - k,
        {
            assert(t@.files[k as int] == t.files@[k as int]@);
            items.push(self.data_file(p, &t.files[k]));
            k = k + 1;
        }
        assert(vv(items@) =~= want);
        let mut r: Vec<Piece> = Vec::new();
        display_multiline(&mut r, &items, Piece::Lit("\n"));
        match t.out {
            Some(o) => {
                r.push(Piece::Lit("\n+ OUT='"));
                r.push(Piece::Src(p, o));
                r.push(Piece::Lit("'"));
            },
            None => {},
        }
        assert(r@ =~= w_data_files(p, t@));
        r
    }

    /// `.DATA name ... .ENDDATA`
    pub fn data(&self, p: ParsedId, d: &DataBuilder) -> (r: Vec<Piece>)
        requires data_ok(d@),
        ensures r@ == w_data(p, d@),
    {
        let mut r: Vec<Piece> = Vec::new();
        r.push(Piece::Lit(".DATA "));
        r.push(Piece::Src(p, d.name));
        match &d.values {
            DataValuesBuilder::InlineExpr { params, values } => {
                r.push(Piece::Lit("\n+"));
                let names = self.srcs(p, params);
                display_inline(&mut r, &names, Piece::Lit(" "), false);
                r.push(Piece::Lit(" DATAFORM"));
                let mut items: Vec<Vec<Piece>> = Vec::new();
                let mut k: usize = 0;
                while k < values.len()
                    invariant
                        k <= values@.len(),
                        items@.len() == k,
                        forall|m: int| 0 <= m < k ==> #[trigger] items@[m]@ == w_value(p, values@[m]),
                    decreases values@.len() - k,
                {
                    items.push(self.value(p, &values[k]));
                    k = k + 1;
                }
                assert(vv(items@) =~= values@.map_values(|v: ValueBuilder| w_value(p, v)));
                wrap_in(&mut r, &items, params.len());
            },
            DataValuesBuilder::InlineNum { params, values } => {
                r.push(Piece::Lit("\n+"));
                let names = self.srcs(p, params);
                display_inline(&mut r, &names, Piece::Lit(" "), false);
                let mut items: Vec<Vec<Piece>> = Vec::new();
                let mut k: usize = 0;
                while k < values.len()
                    invariant
                        k <= values@.len(),
                        items@.len() == k,
                        forall|m: int| 0 <= m < k ==> #[trigger] items@[m]@ == seq![Piece::Num(p, values@[m])],
                    decreases values@.len() - k,
                {
                    let mut one: Vec<Piece> = Vec::new();
                    one.push(Piece::Num(p, values[k]));
                    assert(one@ =~= seq![Piece::Num(p, values@[k as int])]);
                    items.push(one);
                    k = k + 1;
                }
                assert(vv(items@) =~= values@.map_values(|n: NumLit| seq![Piece::Num(p, n)]));
                wrap_in(&mut r, &items, params.len());
            },
            DataValuesBuilder::MER(t) => {
                r.push(Piece::Lit(" MER"));
                cat(&mut r, self.data_files(p, t));
            },
            DataValuesBuilder::LAM(t) => {
                r.push(Piece::Lit(" LAM"));
                cat(&mut r, self.data_files(p, t));
            },
        }
        r.push(Piece::Lit("\n.ENDDATA"));
        assert(r@ =~= w_data(p, d@));
        r
    }

    /// `PWL(t1 v1` and each further point on a continuation line, then `)`.
    pub fn pwl(&self, p: ParsedId, w: &PWLBuilder) -> (r: Vec<Piece>)
        ensures r@ == w_pwl(p, w@),
    {
        let ghost want = w@.points.map_values(|t: TimeValuePointBuilder| w_value(p, t.time) + seq![sp()] + w_value(p, t.value));
        let mut items: Vec<Vec<Piece>> = Vec::new();
        let mut k: usize = 0;
        while k < w.points.len()
            invariant
                k <= w.points@.len(),
                want == w@.points.map_values(|t: TimeValuePointBuilder| w_value(p, t.time) + seq![sp()] + w_value(p, t.value)),
                items@.len() == k,
                forall|m: int| 0 <= m < k ==> #[trigger] items@[m]@ == want[m],
            decreases w.points@.len() - k,
        {
            let t = w.points[k];
            let mut one = self.value(p, &t.time);
            one.push(Piece::Lit(" "));
            cat(&mut one, self.value(p, &t.value));
            assert(one@ =~= want[k as int]);
            items.push(one);
            k = k + 1;
        }
        assert(vv(items@) =~= want);
        let mut r: Vec<Piece> = Vec::new();
        r.push(Piece::Lit("PWL("));
        wrap_in(&mut r, &items, 1);
        r.push(Piece::Lit(")"));
        assert(r@ =~= w_pwl(p, w@));
        r
    }

    /// What drives a voltage source.
    pub fn voltage_source(&self, p: ParsedId, t: &VoltageSourceBuilder) -> (r: Vec<Piece>)
        ensures r@ == w_source(p, t@),
    {
        match t {
            VoltageSourceBuilder::Params(kvs) => self.params(p, kvs),
            VoltageSourceBuilder::Value(v) => self.value(p, v),
            VoltageSourceBuilder::PWL(w) => self.pwl(p, w),
        }
    }

    /// What drives a current source.
    pub fn current_source(&self, p: ParsedId, t: &CurrentSourceBuilder) -> (r: Vec<Piece>)
        ensures r@ == w_source(p, t@),
    {
        match t {
            CurrentSourceBuilder::Params(kvs) => self.params(p, kvs),
            CurrentSourceBuilder::Value(v) => self.value(p, v),
            CurrentSourceBuilder::PWL(w) => self.pwl(p, w),
        }
    }

    fn two(&self, p: ParsedId, n1: Span, n2: Span) -> (r: Vec<Piece>)
        ensures r@ == w_two(p, n1, n2),
    {
        let mut r: Vec<Piece> = Vec::new();
        r.push(Piece::Src(p, n1));
        r.push(Piece::Lit(" "));
        r.push(Piece::Src(p, n2));
        r.push(Piece::Lit(" "));
        assert(r@ =~= w_two(p, n1, n2));
        r
    }

    fn opt_node(&self, out: &mut Vec<Piece>, p: ParsedId, n: Option<Span>)
        ensures final(out)@ == old(out)@ + w_opt_node(p, n),
    {
        match n {
            Some(x) => {
                out.push(Piece::Lit(" "));
                out.push(Piece::Src(p, x));
            },
            None => {},
        }
        assert(out@ =~= old(out)@ + w_opt_node(p, n));
    }

    /// The nodes, model and parameters of an element.
    pub fn instance_ctx(&self, p: ParsedId, c: &InstanceCtxBuilder) -> (r: Vec<Piece>)
        ensures r@ == w_ctx(p, c@),
    {
        let mut r: Vec<Piece>;
        match c {
            InstanceCtxBuilder::Resistor(x) => {
                r = self.two(p, x.n1, x.n2);
                cat(&mut r, self.value(p, &x.value));
            },
            InstanceCtxBuilder::Capacitor(x) => {
                r = self.two(p, x.n1, x.n2);
                cat(&mut r, self.value(p, &x.value));
            },
            InstanceCtxBuilder::Inductor(x) => {
                r = self.two(p, x.n1, x.n2);
                cat(&mut r, self.value(p, &x.value));
            },
            InstanceCtxBuilder::Voltage(x) => {
                r = self.two(p, x.n1, x.n2);
                cat(&mut r, self.voltage_source(p, &x.source));
            },
            InstanceCtxBuilder::Current(x) => {
                r = self.two(p, x.n1, x.n2);
                cat(&mut r, self.current_source(p, &x.source));
            },
            InstanceCtxBuilder::MOSFET(m) => {
                r = Vec::new();
                r.push(Piece::Src(p, m.nd));
                r.push(Piece::Lit(" "));
                r.push(Piece::Src(p, m.ng));
                r.push(Piece::Lit(" "));
                r.push(Piece::Src(p, m.ns));
                self.opt_node(&mut r, p, m.nb);
                r.push(Piece::Lit(" "));
                r.push(Piece::Src(p, m.mname));
                cat(&mut r, self.params(p, &m.params));
            },
            InstanceCtxBuilder::BJT(b) => {
                r = Vec::new();
                r.push(Piece::Src(p, b.nc));
                r.push(Piece::Lit(" "));
                r.push(Piece::Src(p, b.nb));
                r.push(Piece::Lit(" "));
                r.push(Piece::Src(p, b.ne));
                self.opt_node(&mut r, p, b.ns);
                r.push(Piece::Lit(" "));
                r.push(Piece::Src(p, b.mname));
                cat(&mut r, self.params(p, &b.params));
            },
            InstanceCtxBuilder::Diode(d) => {
                r = Vec::new();
                r.push(Piece::Src(p, d.nplus));
                r.push(Piece::Lit(" "));
                r.push(Piece::Src(p, d.nminus));
                r.push(Piece::Lit(" "));
                r.push(Piece::Src(p, d.mname));
                cat(&mut r, self.params(p, &d.params));
            },
            InstanceCtxBuilder::Subckt(x) => {
                r = self.ports(p, &x.nodes);
                r.push(Piece::Lit(" "));
                r.push(Piece::Src(p, x.cktname));
                cat(&mut r, self.params(p, &x.params));
            },
            InstanceCtxBuilder::Unknown { nodes, params, .. } => {
                r = self.ports(p, nodes);
                cat(&mut r, self.params(p, params));
            },
        }
        assert(r@ =~= w_ctx(p, c@));
        r
    }

    /// `name nodes ... params`
    pub fn instance(&self, p: ParsedId, t: &InstanceBuilder) -> (r: Vec<Piece>)
        ensures r@ == w_instance(p, t@),
    {
        let mut r: Vec<Piece> = Vec::new();
        r.push(Piece::Src(p, t.name));
        r.push(Piece::Lit(" "));
        cat(&mut r, self.instance_ctx(p, &t.ctx));
        assert(r@ =~= w_instance(p, t@));
        r
    }

    /// The device kind of a model.
    pub fn model_type(&self, p: ParsedId, t: ModelTypeBuilder) -> (r: Vec<Piece>)
        ensures r@ == w_model_type(p, t),
    {
        let mut r: Vec<Piece> = Vec::new();
        let word = match t {
            ModelTypeBuilder::AMP => "AMP",
            ModelTypeBuilder::C => "C",
            ModelTypeBuilder::CORE => "CORE",
            ModelTypeBuilder::D => "D",
            ModelTypeBuilder::L => "L",
            ModelTypeBuilder::NJF => "NJF",
            ModelTypeBuilder::NMOS => "NMOS",
            ModelTypeBuilder::NPN => "NPN",
            ModelTypeBuilder::OPT => "OPT",
            ModelTypeBuilder::PJF => "PJF",
            ModelTypeBuilder::PMOS => "PMOS",
            ModelTypeBuilder::PNP => "PNP",
            ModelTypeBuilder::R => "R",
            ModelTypeBuilder::U => "U",
            ModelTypeBuilder::W => "W",
            ModelTypeBuilder::S => "S",
            ModelTypeBuilder::Unknown(s) => {
                r.push(Piece::Src(p, s));
                assert(r@ =~= w_model_type(p, t));
                return r;
            },
        };
        r.push(Piece::Lit(word));
        assert(r@ =~= w_model_type(p, t));
        r
    }

    /// `.MODEL name type` and the parameters, four on a line.
    pub fn model(&self, p: ParsedId, m: &ModelBuilder) -> (r: Vec<Piece>)
        ensures r@ == w_model(p, m@),
    {
        let mut r: Vec<Piece> = Vec::new();
        r.push(Piece::Lit(".MODEL "));
        r.push(Piece::Src(p, m.name));
        r.push(Piece::Lit(" "));
        cat(&mut r, self.model_type(p, m.model_type));
        let items = self.kvs(p, &m.params);
        wrap_in(&mut r, &items, 4);
        assert(r@ =~= w_model(p, m@));
        r
    }

    /// `.cmd tokens`
    pub fn unknwon(&self, p: ParsedId, u: &UnknwonBuilder) -> (r: Vec<Piece>)
        ensures r@ == w_unknwon(p, u@),
    {
        let mut items: Vec<Vec<Piece>> = Vec::new();
        let mut k: usize = 0;
        while k < u.tokens.len()
            invariant
                k <= u.tokens@.len(),
                items@.len() == k,
                forall|m: int| 0 <= m < k ==> #[trigger] items@[m]@ == w_token(p, u.tokens@[m]),
            decreases u.tokens@.len() - k,
        {
            items.push(self.token(p, &u.tokens[k]));
            k = k + 1;
        }
        assert(vv(items@) =~= u@.tokens.map_values(|t: TokenBuilder| w_token(p, t)));
        let mut r: Vec<Piece> = Vec::new();
        r.push(Piece::Lit("."));
        r.push(Piece::Src(p, u.cmd));
        display_inline(&mut r, &items, Piece::Lit(" "), false);
        assert(r@ =~= w_unknwon(p, u@));
        r
    }

    fn opt_subckt(&self, out: &mut Vec<Piece>, p: ParsedId, n: Option<Span>)
        ensures final(out)@ == old(out)@ + w_opt_subckt(p, n),
    {
        match n {
            Some(x) => {
                out.push(Piece::Lit(" suckt="));
                out.push(Piece::Src(p, x));
            },
            None => {},
        }
        assert(out@ =~= old(out)@ + w_opt_subckt(p, n));
    }

    fn option(&self, p: ParsedId, o: &(Span, Option<ValueBuilder>)) -> (r: Vec<Piece>)
        ensures r@ == w_option(p, *o),
    {
        let mut r: Vec<Piece> = Vec::new();
        r.push(Piece::Src(p, o.0));
        match &o.1 {
            Some(v) => {
                r.push(Piece::Lit("="));
                cat(&mut r, self.value(p, v));
            },
            None => {},
        }
        assert(r@ =~= w_option(p, *o));
        r
    }

    fn ic(&self, p: ParsedId, ic: &(Span, ValueBuilder, Option<Span>)) -> (r: Vec<Piece>)
        ensures r@ == w_ic(p, *ic),
    {
        let mut r: Vec<Piece> = Vec::new();
        r.push(Piece::Lit(".IC V("));
        r.push(Piece::Src(p, ic.0));
        r.push(Piece::Lit(")="));
        cat(&mut r, self.value(p, &ic.1));
        self.opt_subckt(&mut r, p, ic.2);
        assert(r@ =~= w_ic(p, *ic));
        r
    }

    fn nodeset(&self, p: ParsedId, ic: &(Span, ValueBuilder, Option<Span>)) -> (r: Vec<Piece>)
        ensures r@ == w_nodeset(p, *ic),
    {
        let mut r: Vec<Piece> = Vec::new();
        r.push(Piece::Lit(".NODESET "));
        r.push(Piece::Src(p, ic.0));
        r.push(Piece::Lit("="));
        cat(&mut r, self.value(p, &ic.1));
        self.opt_subckt(&mut r, p, ic.2);
        assert(r@ =~= w_nodeset(p, *ic));
        r
    }

    /// `.SUBCKT name ports params`, the body, `.ENDS name`.
    pub fn subckt(&self, t: &Subckt) -> (r: Vec<Piece>)
        requires printable(built_view(&t.ast)),
        ensures r@ == w_subckt(sub_built_view(t)),
        decreases t, 0int,
    {
        let f = t.file;
        let mut r: Vec<Piece> = Vec::new();
        r.push(Piece::Lit(".SUBCKT "));
        r.push(Piece::Src(f, t.name));
        r.push(Piece::Lit(" "));
        cat(&mut r, self.ports(f, t.ports));
        cat(&mut r, self.params(f, t.params));
        proof { assert(decreases_to!(t => t.ast)); }
        cat(&mut r, self.ast(&t.ast));
        r.push(Piece::Lit("\n.ENDS "));
        r.push(Piece::Src(f, t.name));
        assert(r@ =~= w_subckt(sub_built_view(t)));
        r
    }

    fn subckts(&self, v: &Vec<Subckt>) -> (r: Vec<Vec<Piece>>)
        requires all_true(printable_subs(subs_built_view(v@))),
        ensures vv(r@) == w_subckts(subs_built_view(v@)),
        decreases v, 1int,
    {
        let ghost sv = subs_built_view(v@);
        let mut r: Vec<Vec<Piece>> = Vec::new();
        let mut k: usize = 0;
        while k < v.len()
            invariant
                sv == subs_built_view(v@),
                all_true(printable_subs(sv)),
                k <= v@.len(),
                r@.len() == k,
                forall|m: int| 0 <= m < k ==> #[trigger] r@[m]@ == w_subckts(sv)[m],
            decreases v@.len() - k,
        {
            assert(sv[k as int] == sub_built_view(&v@[k as int]));
            assert(printable_subs(sv)[k as int]);
            proof {
                assert(decreases_to!(v => v@));
                assert(decreases_to!(v@ => v@[k as int]));
            }
            r.push(self.subckt(&v[k]));
            k = k + 1;
        }
        assert(vv(r@) =~= w_subckts(sv));
        r
    }

    fn options_stmt(&self, r: &mut Vec<Piece>, t: &AST)
        ensures final(r)@ == old(r)@ + w_options(built_view(t)),
    {
        let ghost a = built_view(t);
        let ghost r0 = r@;
        if t.option.len() > 0 {
            r.push(Piece::Lit(".OPTION "));
            let mut items: Vec<Vec<Piece>> = Vec::new();
            let mut k: usize = 0;
            while k < t.option.len()
                invariant
                    k <= t.option@.len(),
                    items@.len() == k,
                    forall|m: int| 0 <= m < k ==> #[trigger] items@[m]@ == w_option(t.option@[m].0, t.option@[m].1),
                decreases t.option@.len() - k,
            {
                items.push(self.option(t.option[k].0, &t.option[k].1));
                k = k + 1;
            }
            assert(vv(items@) =~= a.option.map_values(|x: (ParsedId, (Span, Option<ValueBuilder>))| w_option(x.0, x.1)));
            wrap_in(r, &items, 4);
        }
        assert(r@ =~= r0 + w_options(a));
    }

    fn params_stmt(&self, r: &mut Vec<Piece>, t: &AST)
        ensures final(r)@ == old(r)@ + w_params_stmt(built_view(t)),
    {
        let ghost a = built_view(t);
        let ghost r0 = r@;
        if t.param.len() > 0 {
            r.push(Piece::Lit("\n.PARAM "));
            let mut items: Vec<Vec<Piece>> = Vec::new();
            let mut k: usize = 0;
            while k < t.param.len()
                invariant
                    k <= t.param@.len(),
                    items@.len() == k,
                    forall|m: int| 0 <= m < k ==> #[trigger] items@[m]@ == w_key_value(t.param@[m].0, t.param@[m].1),
                decreases t.param@.len() - k,
            {
                items.push(self.key_value(t.param[k].0, &t.param[k].1));
                k = k + 1;
            }
            assert(vv(items@) =~= a.param.map_values(|x: (ParsedId, KeyValueBuilder)| w_key_value(x.0, x.1)));
            wrap_in(r, &items, 4);
        }
        assert(r@ =~= r0 + w_params_stmt(a));
    }

    fn models_stmt(&self, r: &mut Vec<Piece>, t: &AST)
        ensures final(r)@ == old(r)@ + spec_multiline(built_view(t).model.map_values(|x: (ParsedId, ModelView)| w_model(x.0, x.1)), nl()),
    {
        let ghost a = built_view(t);
        let mut items: Vec<Vec<Piece>> = Vec::new();
        let mut k: usize = 0;
        while k < t.model.len()
            invariant
                k <= t.model@.len(),
                items@.len() == k,
                forall|m: int| 0 <= m < k ==> #[trigger] items@[m]@ == w_model(t.model@[m].0, t.model@[m].1@),
            decreases t.model@.len() - k,
        {
            items.push(self.model(t.model[k].0, t.model[k].1));
            k = k + 1;
        }
        assert(vv(items@) =~= a.model.map_values(|x: (ParsedId, ModelView)| w_model(x.0, x.1)));
        display_multiline(r, &items, Piece::Lit("\n"));
    }

    fn lines_stmt(&self, r: &mut Vec<Piece>, t: &AST)
        requires forall|m: int| 0 <= m < built_view(t).data.len() ==> data_ok(#[trigger] built_view(t).data[m].1),
        ensures final(r)@ == old(r)@ + w_lines(built_view(t)),
    {
        let ghost a = built_view(t);
        let ghost r0 = r@;
        {
            let mut items: Vec<Vec<Piece>> = Vec::new();
            let mut k: usize = 0;
            while k < t.instance.len()
                invariant
                    k <= t.instance@.len(),
                    items@.len() == k,
                    forall|m: int| 0 <= m < k ==> #[trigger] items@[m]@ == w_instance(t.instance@[m].0, t.instance@[m].1@),
                decreases t.instance@.len() - k,
            {
                items.push(self.instance(t.instance[k].0, t.instance[k].1));
                k = k + 1;
            }
            assert(vv(items@) =~= a.instance.map_values(|x: (ParsedId, InstanceView)| w_instance(x.0, x.1)));
            display_multiline(r, &items, Piece::Lit("\n"));
        }
        {
            let mut items: Vec<Vec<Piece>> = Vec::new();
            let mut k: usize = 0;
            while k < t.init_condition.len()
                invariant
                    k <= t.init_condition@.len(),
                    items@.len() == k,
                    forall|m: int| 0 <= m < k ==> #[trigger] items@[m]@ == w_ic(t.init_condition@[m].0, t.init_condition@[m].1),
                decreases t.init_condition@.len() - k,
            {
                items.push(self.ic(t.init_condition[k].0, &t.init_condition[k].1));
                k = k + 1;
            }
            assert(vv(items@) =~= a.init_condition.map_values(|x: (ParsedId, (Span, ValueBuilder, Option<Span>))| w_ic(x.0, x.1)));
            display_multiline(r, &items, Piece::Lit("\n"));
        }
        {
            let mut items: Vec<Vec<Piece>> = Vec::new();
            let mut k: usize = 0;
            while k < t.nodeset.len()
                invariant
                    k <= t.nodeset@.len(),
                    items@.len() == k,
                    forall|m: int| 0 <= m < k ==> #[trigger] items@[m]@ == w_nodeset(t.nodeset@[m].0, t.nodeset@[m].1),
                decreases t.nodeset@.len() - k,
            {
                items.push(self.nodeset(t.nodeset[k].0, &t.nodeset[k].1));
                k = k + 1;
            }
            assert(vv(items@) =~= a.nodeset.map_values(|x: (ParsedId, (Span, ValueBuilder, Option<Span>))| w_nodeset(x.0, x.1)));
            display_multiline(r, &items, Piece::Lit("\n"));
        }
        {
            let mut items: Vec<Vec<Piece>> = Vec::new();
            let mut k: usize = 0;
            while k < t.data.len()
                invariant
                    a == built_view(t),
                    forall|m: int| 0 <= m < a.data.len() ==> data_ok(#[trigger] a.data[m].1),
                    k <= t.data@.len(),
                    items@.len() == k,
                    forall|m: int| 0 <= m < k ==> #[trigger] items@[m]@ == w_data(t.data@[m].0, t.data@[m].1@),
                decreases t.data@.len() - k,
            {
                assert(a.data[k as int].1 == t.data@[k as int].1@);
                items.push(self.data(t.data[k].0, t.data[k].1));
                k = k + 1;
            }
            assert(vv(items@) =~= a.data.map_values(|x: (ParsedId, DataView)| w_data(x.0, x.1)));
            display_multiline(r, &items, Piece::Lit("\n"));
        }
        {
            let mut items: Vec<Vec<Piece>> = Vec::new();
            let mut k: usize = 0;
            while k < t.unknwon.len()
                invariant
                    k <= t.unknwon@.len(),
                    items@.len() == k,
                    forall|m: int| 0 <= m < k ==> #[trigger] items@[m]@ == w_unknwon(t.unknwon@[m].0, t.unknwon@[m].1@),
                decreases t.unknwon@.len() - k,
            {
                items.push(self.unknwon(t.unknwon[k].0, t.unknwon[k].1));
                k = k + 1;
            }
            assert(vv(items@) =~= a.unknwon.map_values(|x: (ParsedId, UnknwonView)| w_unknwon(x.0, x.1)));
            display_multiline(r, &items, Piece::Lit("\n"));
        }
        assert(r@ =~= r0 + w_lines(a));
    }

    /// The statements of a netlist: options, parameters (four on a line),
    /// models, subcircuits, elements, initial conditions, node sets, data
    /// and unknown commands, each on its line.
    pub fn ast(&self, t: &AST) -> (r: Vec<Piece>)
        requires printable(built_view(t)),
        ensures r@ == w_ast(built_view(t)),
        decreases t, 2int,
    {
        let ghost a = built_view(t);
        proof { lemma_printable(a); }
        let mut r: Vec<Piece> = Vec::new();
        self.options_stmt(&mut r, t);
        self.params_stmt(&mut r, t);
        self.models_stmt(&mut r, t);
        proof { assert(decreases_to!(t => t.subckt)); }
        let items = self.subckts(&t.subckt);
        display_multiline(&mut r, &items, Piece::Lit("\n"));
        self.lines_stmt(&mut r, t);
        assert(r@ =~= w_ast(a));
        r
    }
}

proof fn lemma_printable(a: BuiltView)
    requires printable(a),
    ensures
        a.general.len() == 0,
        forall|k: int| 0 <= k < a.data.len() ==> data_ok(#[trigger] a.data[k].1),
        all_true(printable_subs(a.subckt)),
{
}

} // verus!

verus! {

/// The bytes of an ASCII word.
pub open spec fn ascii_bytes(w: Seq<char>) -> Seq<u8> {
    w.map_values(|ch: char| ch as u8)
}

/// Writing a model kind and reading it back gives the same kind: for each
/// known kind, a word that upper-cases to the word written for it is read
/// as that kind (so distinct kinds are written with distinct words).
pub proof fn law_model_type_word_read_back(s: Seq<u8>, sp: Span, t: ModelTypeBuilder)
    requires
        !(t is Unknown),
        crate::chars::spec_fold_upper(s.subrange(sp.start as int, sp.end as int)) == ascii_bytes(model_type_word(t)@),
    ensures crate::model::spec_model_type(s, sp) == t,
{
    let w = crate::chars::spec_fold_upper(s.subrange(sp.start as int, sp.end as int));
    reveal_strlit("AMP");
    reveal_strlit("C");
    reveal_strlit("CORE");
    reveal_strlit("D");
    reveal_strlit("L");
    reveal_strlit("NJF");
    reveal_strlit("NMOS");
    reveal_strlit("NPN");
    reveal_strlit("OPT");
    reveal_strlit("PJF");
    reveal_strlit("PMOS");
    reveal_strlit("PNP");
    reveal_strlit("R");
    reveal_strlit("U");
    reveal_strlit("W");
    reveal_strlit("S");
    match t {
        ModelTypeBuilder::AMP => {
            assert(model_type_word(t)@ =~= seq!['A', 'M', 'P']);
            assert(w =~= seq![0x41u8, 0x4d, 0x50]);
            assert(w[0] == 0x41);
        },
        ModelTypeBuilder::C => {
            assert(model_type_word(t)@ =~= seq!['C']);
            assert(w =~= seq![0x43u8]);
            assert(w[0] == 0x43);
        },
        ModelTypeBuilder::CORE => {
            assert(model_type_word(t)@ =~= seq!['C', 'O', 'R', 'E']);
            assert(w =~= seq![0x43u8, 0x4f, 0x52, 0x45]);
            assert(w[0] == 0x43);
        },
        ModelTypeBuilder::D => {
            assert(model_type_word(t)@ =~= seq!['D']);
            assert(w =~= seq![0x44u8]);
            assert(w[0] == 0x44);
        },
        ModelTypeBuilder::L => {
            assert(model_type_word(t)@ =~= seq!['L']);
            assert(w =~= seq![0x4cu8]);
            assert(w[0] == 0x4c);
        },
        ModelTypeBuilder::NJF => {
            assert(model_type_word(t)@ =~= seq!['N', 'J', 'F']);
            assert(w =~= seq![0x4eu8, 0x4a, 0x46]);
            assert(w[0] == 0x4e);
        },
        ModelTypeBuilder::NMOS => {
            assert(model_type_word(t)@ =~= seq!['N', 'M', 'O', 'S']);
            assert(w =~= seq![0x4eu8, 0x4d, 0x4f, 0x53]);
            assert(w[0] == 0x4e);
        },
        ModelTypeBuilder::NPN => {
            assert(model_type_word(t)@ =~= seq!['N', 'P', 'N']);
            assert(w =~= seq![0x4eu8, 0x50, 0x4e]);
            assert(w[0] == 0x4e);
        },
        ModelTypeBuilder::OPT => {
            assert(model_type_word(t)@ =~= seq!['O', 'P', 'T']);
            assert(w =~= seq![0x4fu8, 0x50, 0x54]);
            assert(w[0] == 0x4f);
        },
        ModelTypeBuilder::PJF => {
            assert(model_type_word(t)@ =~= seq!['P', 'J', 'F']);
            assert(w =~= seq![0x50u8, 0x4a, 0x46]);
            assert(w[0] == 0x50);
        },
        ModelTypeBuilder::PMOS => {
            assert(model_type_word(t)@ =~= seq!['P', 'M', 'O', 'S']);
            assert(w =~= seq![0x50u8, 0x4d, 0x4f, 0x53]);
            assert(w[0] == 0x50);
        },
        ModelTypeBuilder::PNP => {
            assert(model_type_word(t)@ =~= seq!['P', 'N', 'P']);
            assert(w =~= seq![0x50u8, 0x4e, 0x50]);
            assert(w[0] == 0x50);
        },
        ModelTypeBuilder::R => {
            assert(model_type_word(t)@ =~= seq!['R']);
            assert(w =~= seq![0x52u8]);
            assert(w[0] == 0x52);
        },
        ModelTypeBuilder::U => {
            assert(model_type_word(t)@ =~= seq!['U']);
            assert(w =~= seq![0x55u8]);
            assert(w[0] == 0x55);
        },
        ModelTypeBuilder::W => {
            assert(model_type_word(t)@ =~= seq!['W']);
            assert(w =~= seq![0x57u8]);
            assert(w[0] == 0x57);
        },
        ModelTypeBuilder::S => {
            assert(model_type_word(t)@ =~= seq!['S']);
            assert(w =~= seq![0x53u8]);
            assert(w[0] == 0x53);
        },
        ModelTypeBuilder::Unknown(_) => {},
    }
}

} // verus!
