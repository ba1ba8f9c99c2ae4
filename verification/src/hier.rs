//! Queries on the subcircuit hierarchy of a resolved netlist: the nodes of
//! an element, and the internal nodes and definitions met when a
//! subcircuit is expanded.
use vstd::prelude::*;
use crate::chars::{fold_name, spec_fold};
use crate::instance::{CtxView, InstanceBuilder, InstanceCtxBuilder, InstanceView};
use crate::netlist::{
    built_view, bytes_eq, files_view, spec_text_in, sub_built_view, subs_built_view, text_of, Files, Subckt,
    SubcktBuiltView,
};
use crate::span::{ParsedId, Span};

verus! {

/// A node found in a file: the file and the span of its name.
pub type NodeAt = (ParsedId, Span);

/// Nodes by lower-cased name, each with its last occurrence, in the order
/// their names were first met.
#[derive(Debug)]
pub struct NodeMap {
    pub entries: Vec<(Vec<u8>, NodeAt)>,
}

/// The entries as values.
pub open spec fn nodes_view(m: &NodeMap) -> Seq<(Seq<u8>, NodeAt)> {
    m.entries@.map_values(|e: (Vec<u8>, NodeAt)| (e.0@, e.1))
}

/// The index of the entry of name `k`, if there is one.
pub open spec fn key_index(m: Seq<(Seq<u8>, NodeAt)>, k: Seq<u8>) -> Option<int> {
    if exists|i: int| 0 <= i < m.len() && m[i].0 == k {
        Some(choose|i: int| 0 <= i < m.len() && m[i].0 == k && forall|j: int| 0 <= j < i ==> m[j].0 != k)
    } else {
        None
    }
}

/// Sets the entry of name `k` to `v` (appended when the name is new).
pub open spec fn spec_ins(m: Seq<(Seq<u8>, NodeAt)>, k: Seq<u8>, v: NodeAt) -> Seq<(Seq<u8>, NodeAt)> {
    match key_index(m, k) {
        Some(i) => m.update(i, (k, v)),
        None => m.push((k, v)),
    }
}

/// Removes the entry of name `k`, if there is one.
pub open spec fn spec_rem(m: Seq<(Seq<u8>, NodeAt)>, k: Seq<u8>) -> Seq<(Seq<u8>, NodeAt)> {
    match key_index(m, k) {
        Some(i) => m.remove(i),
        None => m,
    }
}

/// No name has two entries.
pub open spec fn keys_distinct(m: Seq<(Seq<u8>, NodeAt)>) -> bool {
    forall|a: int, b: int| 0 <= a < m.len() && 0 <= b < m.len() && m[a].0 == m[b].0 ==> a == b
}

impl NodeMap {
    pub fn new() -> (r: NodeMap)
        ensures nodes_view(&r) == Seq::<(Seq<u8>, NodeAt)>::empty(),
    {
        let r = NodeMap { entries: Vec::new() };
        assert(nodes_view(&r) =~= Seq::<(Seq<u8>, NodeAt)>::empty());
        r
    }

    fn find(&self, k: &[u8]) -> (r: Option<usize>)
        ensures
            r matches Some(i) ==> key_index(nodes_view(self), k@) == Some(i as int) && i < self.entries@.len(),
            r is None ==> key_index(nodes_view(self), k@) is None,
    {
        let ghost m = nodes_view(self);
        let mut i: usize = 0;
        while i < self.entries.len()
            invariant
                m == nodes_view(self),
                i <= m.len(),
                forall|j: int| 0 <= j < i ==> m[j].0 != k@,
            decreases m.len() - i,
        {
            if crate::netlist::bytes_eq(self.entries[i].0.as_slice(), k) {
                proof {
                    assert(m[i as int].0 == k@);
                    let c = choose|c: int| 0 <= c < m.len() && m[c].0 == k@ && forall|j: int| 0 <= j < c ==> m[j].0 != k@;
                    if c < i { assert(m[c].0 != k@); }
                    if c > i { assert(m[i as int].0 != k@); }
                }
                return Some(i);
            }
            i = i + 1;
        }
        None
    }

    /// Sets the entry of name `k` to `v`.
    pub fn insert(&mut self, k: Vec<u8>, v: NodeAt)
        ensures nodes_view(final(self)) == spec_ins(nodes_view(old(self)), k@, v),
    {
        let ghost m = nodes_view(self);
        let ghost kv = k@;
        let ks = k.as_slice();
        let found = self.find(ks);
        assert(ks@ == kv);
        match found {
            Some(i) => {
                assert(key_index(m, kv) == Some(i as int));
                self.entries.set(i, (k, v));
                assert(nodes_view(self) =~= m.update(i as int, (kv, v)));
            },
            None => {
                assert(key_index(m, kv) is None);
                self.entries.push((k, v));
                assert(nodes_view(self) =~= m.push((kv, v)));
            },
        }
    }

    /// Removes the entry of name `k`.
    pub fn remove(&mut self, k: &[u8])
        ensures nodes_view(final(self)) == spec_rem(nodes_view(old(self)), k@),
    {
        let ghost m = nodes_view(self);
        let found = self.find(k);
        match found {
            Some(i) => {
                assert(key_index(m, k@) == Some(i as int));
                self.entries.remove(i);
                assert(nodes_view(self) =~= m.remove(i as int));
            },
            None => {
                assert(key_index(m, k@) is None);
            },
        }
    }
}

/// Setting a name keeps every name once.
pub proof fn law_ins_keeps_distinct(m: Seq<(Seq<u8>, NodeAt)>, k: Seq<u8>, v: NodeAt)
    requires keys_distinct(m),
    ensures keys_distinct(spec_ins(m, k, v)),
{
    let n = spec_ins(m, k, v);
    match key_index(m, k) {
        Some(i) => {
            assert forall|a: int, b: int| 0 <= a < n.len() && 0 <= b < n.len() && n[a].0 == n[b].0 implies a == b by {
                if a == i && b != i { assert(m[b].0 == k && m[i].0 == k); }
                if b == i && a != i { assert(m[a].0 == k && m[i].0 == k); }
            }
        },
        None => {
            assert forall|a: int, b: int| 0 <= a < n.len() && 0 <= b < n.len() && n[a].0 == n[b].0 implies a == b by {
                if a == m.len() && b < m.len() { assert(m[b].0 == k); }
                if b == m.len() && a < m.len() { assert(m[a].0 == k); }
            }
        },
    }
}

/// After setting a name, its entry holds the value set.
pub proof fn law_ins_then_lookup(m: Seq<(Seq<u8>, NodeAt)>, k: Seq<u8>, v: NodeAt)
    requires keys_distinct(m),
    ensures
        key_index(spec_ins(m, k, v), k) matches Some(i) && spec_ins(m, k, v)[i] == (k, v),
{
    let n = spec_ins(m, k, v);
    law_ins_keeps_distinct(m, k, v);
    match key_index(m, k) {
        Some(i) => {
            assert(n[i].0 == k);
            let c = choose|c: int| 0 <= c < n.len() && n[c].0 == k && forall|j: int| 0 <= j < c ==> n[j].0 != k;
            assert(0 <= c < n.len() && n[c].0 == k);
            assert(c == i);
        },
        None => {
            let i = m.len() as int;
            assert(n[i].0 == k);
            let c = choose|c: int| 0 <= c < n.len() && n[c].0 == k && forall|j: int| 0 <= j < c ==> n[j].0 != k;
            assert(0 <= c < n.len() && n[c].0 == k);
            assert(c == i);
        },
    }
}

/// After removing a name, it has no entry.
pub proof fn law_rem_then_absent(m: Seq<(Seq<u8>, NodeAt)>, k: Seq<u8>)
    requires keys_distinct(m),
    ensures key_index(spec_rem(m, k), k) is None,
{
    let n = spec_rem(m, k);
    match key_index(m, k) {
        Some(i) => {
            assert forall|j: int| 0 <= j < n.len() implies n[j].0 != k by {
                if j < i { assert(n[j] == m[j]); } else { assert(n[j] == m[j + 1]); }
            }
        },
        None => {},
    }
}

/// The nodes of an element, in the order they are met: two-terminal
/// elements `n1 n2`; a MOSFET gate, drain, source, then bulk; a BJT base,
/// collector, emitter, then substrate; a diode `n-` then `n+`; a
/// subcircuit call or an unknown element its nodes.
pub open spec fn ctx_nodes(c: CtxView) -> Seq<Span> {
    match c {
        CtxView::Resistor(r) => seq![r.n1, r.n2],
        CtxView::Capacitor(x) => seq![x.n1, x.n2],
        CtxView::Inductor(x) => seq![x.n1, x.n2],
        CtxView::Voltage { n1, n2, .. } => seq![n1, n2],
        CtxView::Current { n1, n2, .. } => seq![n1, n2],
        CtxView::MOSFET { nd, ng, ns, nb, .. } => seq![ng, nd, ns] + match nb { Some(b) => seq![b], None => Seq::empty() },
        CtxView::BJT { nc, nb, ne, ns, .. } => seq![nb, nc, ne] + match ns { Some(s) => seq![s], None => Seq::empty() },
        CtxView::Diode { nplus, nminus, .. } => seq![nminus, nplus],
        CtxView::Subckt { nodes, .. } => nodes,
        CtxView::Unknown { nodes, .. } => nodes,
    }
}

/// Sets, for each node `spans[k..]` of file `pid` in order, the entry of
/// its lower-cased name to it (a span outside its file is passed over).
pub open spec fn spec_add_nodes(fs: Seq<Seq<u8>>, pid: ParsedId, spans: Seq<Span>, k: int, m: Seq<(Seq<u8>, NodeAt)>)
    -> Seq<(Seq<u8>, NodeAt)>
    decreases spans.len() - k,
{
    if 0 <= k < spans.len() {
        let m1 = match spec_text_in(fs, pid, spans[k]) {
            Some(t) => spec_ins(m, spec_fold(t), (pid, spans[k])),
            None => m,
        };
        spec_add_nodes(fs, pid, spans, k + 1, m1)
    } else {
        m
    }
}

/// Sets the entries of the nodes `spans` of file `pid`.
fn add_nodes(files: &Files, pid: ParsedId, spans: &Vec<Span>, nodes: &mut NodeMap)
    ensures nodes_view(final(nodes)) == spec_add_nodes(files_view(files), pid, spans@, 0, nodes_view(old(nodes))),
{
    let ghost fs = files_view(files);
    let ghost goal = spec_add_nodes(fs, pid, spans@, 0, nodes_view(nodes));
    let mut k: usize = 0;
    while k < spans.len()
        invariant
            fs == files_view(files),
            k <= spans@.len(),
            spec_add_nodes(fs, pid, spans@, k as int, nodes_view(nodes)) == goal,
        decreases spans@.len() - k,
    {
        let sp = spans[k];
        match text_of(files, pid, sp) {
            Some(t) => {
                let key = fold_name(t);
                nodes.insert(key, (pid, sp));
            },
            None => {},
        }
        k = k + 1;
    }
}

impl InstanceCtxBuilder {
    /// Sets, for each node of this element (of file `pid`) in order, the
    /// entry of its lower-cased name to it.
    pub fn append_nodes(&self, files: &Files, pid: ParsedId, nodes: &mut NodeMap)
        ensures nodes_view(final(nodes)) == spec_add_nodes(files_view(files), pid, ctx_nodes(self@), 0, nodes_view(old(nodes))),
    {
        let mut spans: Vec<Span> = Vec::new();
        match self {
            InstanceCtxBuilder::Resistor(r) => { spans.push(r.n1); spans.push(r.n2); },
            InstanceCtxBuilder::Capacitor(c) => { spans.push(c.n1); spans.push(c.n2); },
            InstanceCtxBuilder::Inductor(l) => { spans.push(l.n1); spans.push(l.n2); },
            InstanceCtxBuilder::Voltage(v) => { spans.push(v.n1); spans.push(v.n2); },
            InstanceCtxBuilder::Current(c) => { spans.push(c.n1); spans.push(c.n2); },
            InstanceCtxBuilder::MOSFET(m) => {
                spans.push(m.ng);
                spans.push(m.nd);
                spans.push(m.ns);
                match m.nb { Some(b) => spans.push(b), None => {} }
            },
            InstanceCtxBuilder::BJT(b) => {
                spans.push(b.nb);
                spans.push(b.nc);
                spans.push(b.ne);
                match b.ns { Some(s) => spans.push(s), None => {} }
            },
            InstanceCtxBuilder::Diode(d) => { spans.push(d.nminus); spans.push(d.nplus); },
            InstanceCtxBuilder::Subckt(x) => { spans = x.nodes.clone(); },
            InstanceCtxBuilder::Unknown { nodes: ns, .. } => { spans = ns.clone(); },
        }
        assert(spans@ =~= ctx_nodes(self@));
        add_nodes(files, pid, &spans, nodes);
    }
}

} // verus!

verus! {

/// The text of `sp` in file `f`, or nothing when the span lies outside it.
pub open spec fn text_or_empty(fs: Seq<Seq<u8>>, f: ParsedId, sp: Span) -> Seq<u8> {
    match spec_text_in(fs, f, sp) {
        Some(t) => t,
        None => Seq::empty(),
    }
}

/// The first `k` names of `path`, each followed by a dot.
pub open spec fn spec_prefix(path: Seq<Seq<u8>>, k: int) -> Seq<u8>
    decreases k,
{
    if k <= 0 || k > path.len() { Seq::empty() } else { spec_prefix(path, k - 1) + path[k - 1] + seq![0x2eu8] }
}

/// The names of `path` and then `n`, joined by dots.
pub open spec fn spec_joined(path: Seq<Seq<u8>>, n: Seq<u8>) -> Seq<u8> {
    spec_prefix(path, path.len() as int) + n
}

pub open spec fn paths_view(v: Seq<Vec<u8>>) -> Seq<Seq<u8>> {
    v.map_values(|x: Vec<u8>| x@)
}

pub open spec fn scopes_view(v: Seq<&Vec<Subckt>>) -> Seq<Seq<SubcktBuiltView>> {
    v.map_values(|x: &Vec<Subckt>| subs_built_view(x@))
}

pub open spec fn apps_view(v: Seq<&Subckt>) -> Seq<SubcktBuiltView> {
    v.map_values(|x: &Subckt| sub_built_view(x))
}

/// The definition `s` is named `lname` once lower-cased.
pub open spec fn spec_named(fs: Seq<Seq<u8>>, s: SubcktBuiltView, lname: Seq<u8>) -> bool {
    match spec_text_in(fs, s.file, s.name) {
        Some(t) => spec_fold(t) == lname,
        None => false,
    }
}

/// The first definition of `scope[k..]` named `lname`.
pub open spec fn scope_find(fs: Seq<Seq<u8>>, scope: Seq<SubcktBuiltView>, lname: Seq<u8>, k: int) -> Option<int>
    decreases scope.len() - k,
{
    if 0 <= k < scope.len() {
        if spec_named(fs, scope[k], lname) { Some(k) } else { scope_find(fs, scope, lname, k + 1) }
    } else {
        None
    }
}

/// The definition named `lname` in the innermost of `scopes[..j]` that has one.
pub open spec fn scopes_find(fs: Seq<Seq<u8>>, scopes: Seq<Seq<SubcktBuiltView>>, lname: Seq<u8>, j: int) -> Option<(int, int)>
    decreases j,
{
    if 0 < j <= scopes.len() {
        match scope_find(fs, scopes[j - 1], lname, 0) {
            Some(k) => Some((j - 1, k)),
            None => scopes_find(fs, scopes, lname, j - 1),
        }
    } else {
        None
    }
}

/// The nodes of the elements `insts[k..]`, added to `m`.
pub open spec fn spec_inst_nodes(fs: Seq<Seq<u8>>, insts: Seq<(ParsedId, InstanceView)>, k: int, m: Seq<(Seq<u8>, NodeAt)>)
    -> Seq<(Seq<u8>, NodeAt)>
    decreases insts.len() - k,
{
    if 0 <= k < insts.len() {
        spec_inst_nodes(fs, insts, k + 1, spec_add_nodes(fs, insts[k].0, ctx_nodes(insts[k].1.ctx), 0, m))
    } else {
        m
    }
}

/// `m` without the ports `ports[k..]` of file `f`.
pub open spec fn spec_rem_ports(fs: Seq<Seq<u8>>, f: ParsedId, ports: Seq<Span>, k: int, m: Seq<(Seq<u8>, NodeAt)>)
    -> Seq<(Seq<u8>, NodeAt)>
    decreases ports.len() - k,
{
    if 0 <= k < ports.len() {
        let m1 = match spec_text_in(fs, f, ports[k]) {
            Some(t) => spec_rem(m, spec_fold(t)),
            None => m,
        };
        spec_rem_ports(fs, f, ports, k + 1, m1)
    } else {
        m
    }
}

/// The full names of the nodes of `m` under the instance path `path`.
pub open spec fn spec_internal(fs: Seq<Seq<u8>>, path: Seq<Seq<u8>>, m: Seq<(Seq<u8>, NodeAt)>) -> Seq<Seq<u8>> {
    m.map_values(|e: (Seq<u8>, NodeAt)| spec_joined(path, text_or_empty(fs, e.1.0, e.1.1)))
}

/// The internal nodes and the top-level definitions found so far.
pub type Found = (Seq<Seq<u8>>, Seq<SubcktBuiltView>);

/// Expands the subcircuit `name` under the instance path `path`: a leaf
/// cell adds nothing; else the definition is looked up (by lower-cased
/// name, innermost scope first), its nodes that are not ports are added as
/// internal nodes, a definition of the outermost scope is recorded, and
/// each subcircuit call of its body is expanded in turn, with the body's
/// definitions as the innermost scope. A name with no definition (or a
/// hierarchy deeper than `fuel`) gives the full name of the call.
pub open spec fn spec_append(
    fs: Seq<Seq<u8>>, leafs: Seq<Seq<u8>>, name: Seq<u8>, path: Seq<Seq<u8>>, scopes: Seq<Seq<SubcktBuiltView>>,
    acc: Found, fuel: nat,
) -> Result<Found, (Seq<u8>, Found)>
    decreases fuel, 0int, 0int,
{
    if leafs.contains(name) {
        Ok(acc)
    } else {
        match scopes_find(fs, scopes, spec_fold(name), scopes.len() as int) {
            None => Err((spec_joined(path, name), acc)),
            Some((i, k)) => if fuel == 0 {
                Err((spec_joined(path, name), acc))
            } else {
                let ckt = scopes[i][k];
                let m = spec_rem_ports(fs, ckt.file, ckt.ports, 0, spec_inst_nodes(fs, ckt.ast.instance, 0, Seq::empty()));
                let acc1 = (acc.0 + spec_internal(fs, path, m), if i == 0 { acc.1.push(ckt) } else { acc.1 });
                spec_append_insts(fs, leafs, path, scopes.push(ckt.ast.subckt), ckt.ast.instance, 0, acc1, (fuel - 1) as nat)
            },
        }
    }
}

/// Expands the subcircuit calls among `insts[k..]` in order; the first
/// that fails ends the expansion.
pub open spec fn spec_append_insts(
    fs: Seq<Seq<u8>>, leafs: Seq<Seq<u8>>, path: Seq<Seq<u8>>, scopes: Seq<Seq<SubcktBuiltView>>,
    insts: Seq<(ParsedId, InstanceView)>, k: int, acc: Found, fuel: nat,
) -> Result<Found, (Seq<u8>, Found)>
    decreases fuel, 1int, insts.len() - k,
{
    if 0 <= k < insts.len() {
        let p = insts[k].0;
        let iv = insts[k].1;
        match iv.ctx {
            CtxView::Subckt { cktname, .. } => {
                match spec_append(fs, leafs, text_or_empty(fs, p, cktname), path.push(text_or_empty(fs, p, iv.name)), scopes, acc, fuel) {
                    Ok(a) => spec_append_insts(fs, leafs, path, scopes, insts, k + 1, a, fuel),
                    Err(e) => Err(e),
                }
            },
            _ => spec_append_insts(fs, leafs, path, scopes, insts, k + 1, acc, fuel),
        }
    } else {
        Ok(acc)
    }
}

/// `r` and the outputs `nodes`, `subs` are what `res` says.
pub open spec fn append_result_is(r: Result<(), Vec<u8>>, res: Result<Found, (Seq<u8>, Found)>, nodes: Seq<Seq<u8>>, subs: Seq<SubcktBuiltView>) -> bool {
    match res {
        Ok(a) => r is Ok && nodes == a.0 && subs == a.1,
        Err((e, a)) => match r {
            Err(m) => m@ == e && nodes == a.0 && subs == a.1,
            Ok(_) => false,
        },
    }
}

fn copy_text(files: &Files, f: ParsedId, sp: Span) -> (r: Vec<u8>)
    ensures r@ == text_or_empty(files_view(files), f, sp),
{
    match text_of(files, f, sp) {
        Some(t) => vstd::slice::slice_to_vec(t),
        None => Vec::new(),
    }
}

fn join_path(path: &Vec<Vec<u8>>, n: &[u8]) -> (r: Vec<u8>)
    ensures r@ == spec_joined(paths_view(path@), n@),
{
    let ghost pv = paths_view(path@);
    let mut out: Vec<u8> = Vec::new();
    let mut k: usize = 0;
    while k < path.len()
        invariant
            pv == paths_view(path@),
            k <= path@.len(),
            out@ == spec_prefix(pv, k as int),
        decreases path@.len() - k,
    {
        let mut piece = vstd::slice::slice_to_vec(path[k].as_slice());
        out.append(&mut piece);
        out.push(0x2e);
        k = k + 1;
        assert(out@ =~= spec_prefix(pv, k as int));
    }
    let mut tail = vstd::slice::slice_to_vec(n);
    out.append(&mut tail);
    out
}

fn contains_bytes(v: &Vec<Vec<u8>>, n: &[u8]) -> (r: bool)
    ensures r == paths_view(v@).contains(n@),
{
    let mut k: usize = 0;
    while k < v.len()
        invariant
            k <= v@.len(),
            forall|m: int| 0 <= m < k ==> paths_view(v@)[m] != n@,
        decreases v@.len() - k,
    {
        if bytes_eq(v[k].as_slice(), n) {
            assert(paths_view(v@)[k as int] == n@);
            return true;
        }
        k = k + 1;
    }
    false
}

fn find_in_scope(files: &Files, scope: &Vec<Subckt>, lname: &[u8]) -> (r: Option<usize>)
    ensures
        r matches Some(k) ==> scope_find(files_view(files), subs_built_view(scope@), lname@, 0) == Some(k as int)
            && k < scope@.len(),
        r is None ==> scope_find(files_view(files), subs_built_view(scope@), lname@, 0) is None,
{
    let ghost fs = files_view(files);
    let ghost sv = subs_built_view(scope@);
    let mut k: usize = 0;
    while k < scope.len()
        invariant
            fs == files_view(files),
            sv == subs_built_view(scope@),
            k <= scope@.len(),
            scope_find(fs, sv, lname@, k as int) == scope_find(fs, sv, lname@, 0),
        decreases scope@.len() - k,
    {
        assert(sv[k as int] == sub_built_view(&scope@[k as int]));
        let named = match text_of(files, scope[k].file, scope[k].name) {
            Some(t) => {
                let low = fold_name(t);
                bytes_eq(low.as_slice(), lname)
            },
            None => false,
        };
        if named {
            return Some(k);
        }
        k = k + 1;
    }
    None
}

fn find_in_scopes(files: &Files, scopes: &Vec<&Vec<Subckt>>, lname: &[u8]) -> (r: Option<(usize, usize)>)
    ensures
        r matches Some((i, k)) ==> scopes_find(files_view(files), scopes_view(scopes@), lname@, scopes@.len() as int)
            == Some((i as int, k as int)) && i < scopes@.len() && k < scopes@[i as int]@.len(),
        r is None ==> scopes_find(files_view(files), scopes_view(scopes@), lname@, scopes@.len() as int) is None,
{
    let ghost fs = files_view(files);
    let ghost sv = scopes_view(scopes@);
    let mut j: usize = scopes.len();
    while j > 0
        invariant
            fs == files_view(files),
            sv == scopes_view(scopes@),
            j <= scopes@.len(),
            scopes_find(fs, sv, lname@, j as int) == scopes_find(fs, sv, lname@, scopes@.len() as int),
        decreases j,
    {
        assert(sv[j - 1] == subs_built_view(scopes@[j - 1]@));
        match find_in_scope(files, scopes[j - 1], lname) {
            Some(k) => {
                return Some((j - 1, k));
            },
            None => {},
        }
        j = j - 1;
    }
    None
}

fn inst_nodes(files: &Files, insts: &Vec<(ParsedId, &InstanceBuilder)>, m: &mut NodeMap)
    ensures
        nodes_view(final(m)) == spec_inst_nodes(files_view(files),
            insts@.map_values(|x: (ParsedId, &InstanceBuilder)| (x.0, x.1@)), 0, nodes_view(old(m))),
{
    let ghost fs = files_view(files);
    let ghost iv = insts@.map_values(|x: (ParsedId, &InstanceBuilder)| (x.0, x.1@));
    let ghost goal = spec_inst_nodes(fs, iv, 0, nodes_view(m));
    let mut k: usize = 0;
    while k < insts.len()
        invariant
            fs == files_view(files),
            iv == insts@.map_values(|x: (ParsedId, &InstanceBuilder)| (x.0, x.1@)),
            k <= insts@.len(),
            spec_inst_nodes(fs, iv, k as int, nodes_view(m)) == goal,
        decreases insts@.len() - k,
    {
        let (p, inst) = insts[k];
        inst.ctx.append_nodes(files, p, m);
        k = k + 1;
    }
}

fn rem_ports(files: &Files, f: ParsedId, ports: &Vec<Span>, m: &mut NodeMap)
    ensures nodes_view(final(m)) == spec_rem_ports(files_view(files), f, ports@, 0, nodes_view(old(m))),
{
    let ghost fs = files_view(files);
    let ghost goal = spec_rem_ports(fs, f, ports@, 0, nodes_view(m));
    let mut k: usize = 0;
    while k < ports.len()
        invariant
            fs == files_view(files),
            k <= ports@.len(),
            spec_rem_ports(fs, f, ports@, k as int, nodes_view(m)) == goal,
        decreases ports@.len() - k,
    {
        match text_of(files, f, ports[k]) {
            Some(t) => {
                let low = fold_name(t);
                m.remove(low.as_slice());
            },
            None => {},
        }
        k = k + 1;
    }
}

fn push_internal(files: &Files, path: &Vec<Vec<u8>>, m: &NodeMap, out: &mut Vec<Vec<u8>>)
    ensures
        paths_view(final(out)@) == paths_view(old(out)@) + spec_internal(files_view(files), paths_view(path@), nodes_view(m)),
{
    let ghost o0 = paths_view(out@);
    let ghost want = spec_internal(files_view(files), paths_view(path@), nodes_view(m));
    let mut k: usize = 0;
    while k < m.entries.len()
        invariant
            k <= m.entries@.len(),
            want == spec_internal(files_view(files), paths_view(path@), nodes_view(m)),
            paths_view(out@) == o0 + want.subrange(0, k as int),
        decreases m.entries@.len() - k,
    {
        let at = m.entries[k].1;
        let t = copy_text(files, at.0, at.1);
        let full = join_path(path, t.as_slice());
        let ghost before = out@;
        out.push(full);
        assert(paths_view(out@) =~= paths_view(before).push(full@));
        k = k + 1;
        assert(want.subrange(0, k as int) =~= want.subrange(0, k - 1).push(want[k - 1]));
    }
    assert(want.subrange(0, want.len() as int) =~= want);
}

impl<'a> Subckt<'a> {
    /// Expands the subcircuit `cktname` under the instance path
    /// `inst_path` (the names of the calls that led to it), looking
    /// definitions up in `include_subckts` (innermost scope last): its
    /// internal nodes (full names, joined by dots) go to `internal_nodes`,
    /// the definitions met in the outermost scope to `append_subckts`, and
    /// every subcircuit call of its body is expanded in turn. Names in
    /// `leaf_cells` are not expanded. A call with no definition, or a
    /// hierarchy deeper than `depth`, gives its full name as the error.
    /// The instance path and the scopes are given back as they were.
    pub fn append(
        files: &Files, cktname: &[u8], leaf_cells: &Vec<Vec<u8>>, inst_path: &mut Vec<Vec<u8>>,
        include_subckts: &mut Vec<&'a Vec<Subckt<'a>>>, internal_nodes: &mut Vec<Vec<u8>>,
        append_subckts: &mut Vec<&'a Subckt<'a>>, depth: usize,
    ) -> (r: Result<(), Vec<u8>>)
        ensures
            final(inst_path)@ == old(inst_path)@,
            final(include_subckts)@ == old(include_subckts)@,
            append_result_is(r,
                spec_append(files_view(files), paths_view(leaf_cells@), cktname@, paths_view(old(inst_path)@),
                    scopes_view(old(include_subckts)@), (paths_view(old(internal_nodes)@), apps_view(old(append_subckts)@)), depth as nat),
                paths_view(final(internal_nodes)@), apps_view(final(append_subckts)@)),
        decreases depth,
    {
        let ghost fs = files_view(files);
        let ghost leafs = paths_view(leaf_cells@);
        let ghost path0 = paths_view(inst_path@);
        let ghost p0 = inst_path@;
        let ghost sc0 = include_subckts@;
        if contains_bytes(leaf_cells, cktname) {
            return Ok(());
        }
        let lname = fold_name(cktname);
        let found = find_in_scopes(files, include_subckts, lname.as_slice());
        let (i, k) = match found {
            None => {
                return Err(join_path(inst_path, cktname));
            },
            Some(ik) => ik,
        };
        if depth == 0 {
            return Err(join_path(inst_path, cktname));
        }
        let scope: &'a Vec<Subckt<'a>> = include_subckts[i];
        let ckt: &'a Subckt<'a> = &scope[k];
        let ghost cv = sub_built_view(ckt);
        assert(scopes_view(sc0)[i as int] == subs_built_view(scope@));
        assert(scopes_view(sc0)[i as int][k as int] == cv);
        let mut m = NodeMap::new();
        inst_nodes(files, &ckt.ast.instance, &mut m);
        assert(built_view(&ckt.ast).instance == ckt.ast.instance@.map_values(|x: (ParsedId, &InstanceBuilder)| (x.0, x.1@)));
        rem_ports(files, ckt.file, ckt.ports, &mut m);
        push_internal(files, inst_path, &m, internal_nodes);
        if i == 0 {
            let ghost before = append_subckts@;
            append_subckts.push(ckt);
            assert(apps_view(append_subckts@) =~= apps_view(before).push(cv));
        }
        let ghost sc1 = scopes_view(sc0).push(cv.ast.subckt);
        include_subckts.push(&ckt.ast.subckt);
        assert(scopes_view(include_subckts@) =~= sc1);
        let insts = &ckt.ast.instance;
        let ghost iv = insts@.map_values(|x: (ParsedId, &InstanceBuilder)| (x.0, x.1@));
        let ghost goal = spec_append_insts(fs, leafs, path0, sc1, iv, 0,
            (paths_view(internal_nodes@), apps_view(append_subckts@)), (depth - 1) as nat);
        assert(goal == spec_append(fs, leafs, cktname@, path0, scopes_view(sc0),
            (paths_view(old(internal_nodes)@), apps_view(old(append_subckts)@)), depth as nat));
        let mut j: usize = 0;
        while j < insts.len()
            invariant
                goal == spec_append(fs, leafs, cktname@, path0, scopes_view(sc0),
                    (paths_view(old(internal_nodes)@), apps_view(old(append_subckts)@)), depth as nat),
                fs == files_view(files),
                leafs == paths_view(leaf_cells@),
                path0 == paths_view(inst_path@),
                p0 == inst_path@,
                p0 == old(inst_path)@,
                sc0 == old(include_subckts)@,
                include_subckts@ == sc0.push(&ckt.ast.subckt),
                scopes_view(include_subckts@) == sc1,
                iv == insts@.map_values(|x: (ParsedId, &InstanceBuilder)| (x.0, x.1@)),
                insts == &ckt.ast.instance,
                depth > 0,
                j <= insts@.len(),
                spec_append_insts(fs, leafs, path0, sc1, iv, j as int,
                    (paths_view(internal_nodes@), apps_view(append_subckts@)), (depth - 1) as nat) == goal,
            decreases insts@.len() - j,
        {
            let (p, inst) = insts[j];
            match &inst.ctx {
                InstanceCtxBuilder::Subckt(x) => {
                    let nm = copy_text(files, p, x.cktname);
                    let inm = copy_text(files, p, inst.name);
                    let ghost inm_v = inm@;
                    inst_path.push(inm);
                    assert(paths_view(inst_path@) =~= path0.push(inm_v));
                    let res = Self::append(files, nm.as_slice(), leaf_cells, inst_path, include_subckts,
                        internal_nodes, append_subckts, depth - 1);
                    inst_path.pop();
                    assert(inst_path@ =~= p0);
                    match res {
                        Err(e) => {
                            include_subckts.pop();
                            assert(include_subckts@ =~= sc0);
                            return Err(e);
                        },
                        Ok(()) => {},
                    }
                },
                _ => {},
            }
            j = j + 1;
        }
        include_subckts.pop();
        assert(include_subckts@ =~= sc0);
        Ok(())
    }
}

} // verus!

verus! {

/// A leaf cell is not expanded: nothing is added.
pub proof fn law_leaf_adds_nothing(
    fs: Seq<Seq<u8>>, leafs: Seq<Seq<u8>>, name: Seq<u8>, path: Seq<Seq<u8>>, scopes: Seq<Seq<SubcktBuiltView>>,
    acc: Found, fuel: nat,
)
    requires leafs.contains(name),
    ensures spec_append(fs, leafs, name, path, scopes, acc, fuel) == Ok::<Found, (Seq<u8>, Found)>(acc),
{
}

/// A name with no definition in any scope is an error naming the call by
/// its full path, and adds nothing.
pub proof fn law_undefined_cell_is_error(
    fs: Seq<Seq<u8>>, leafs: Seq<Seq<u8>>, name: Seq<u8>, path: Seq<Seq<u8>>, scopes: Seq<Seq<SubcktBuiltView>>,
    acc: Found, fuel: nat,
)
    requires
        !leafs.contains(name),
        scopes_find(fs, scopes, spec_fold(name), scopes.len() as int) is None,
    ensures spec_append(fs, leafs, name, path, scopes, acc, fuel) == Err::<Found, (Seq<u8>, Found)>((spec_joined(path, name), acc)),
{
}

/// Removing ports keeps every name once, and no removed port is left.
pub proof fn law_rem_ports_removes(fs: Seq<Seq<u8>>, f: ParsedId, ports: Seq<Span>, k: int, m: Seq<(Seq<u8>, NodeAt)>)
    requires keys_distinct(m), 0 <= k,
    ensures
        keys_distinct(spec_rem_ports(fs, f, ports, k, m)),
        forall|j: int| k <= j < ports.len() && (#[trigger] spec_text_in(fs, f, ports[j])) is Some
            ==> key_index(spec_rem_ports(fs, f, ports, k, m), spec_fold(spec_text_in(fs, f, ports[j]).unwrap())) is None,
    decreases ports.len() - k,
{
    if k < ports.len() {
        let m1 = match spec_text_in(fs, f, ports[k]) {
            Some(t) => spec_rem(m, spec_fold(t)),
            None => m,
        };
        match spec_text_in(fs, f, ports[k]) {
            Some(t) => law_rem_keeps_distinct(m, spec_fold(t)),
            None => {},
        }
        law_rem_ports_removes(fs, f, ports, k + 1, m1);
        let r = spec_rem_ports(fs, f, ports, k + 1, m1);
        assert(r == spec_rem_ports(fs, f, ports, k, m));
        match spec_text_in(fs, f, ports[k]) {
            Some(t) => {
                law_rem_then_absent(m, spec_fold(t));
                law_rem_ports_keeps_absent(fs, f, ports, k + 1, m1, spec_fold(t));
            },
            None => {},
        }
    }
}

/// Removing a name keeps every other name once.
pub proof fn law_rem_keeps_distinct(m: Seq<(Seq<u8>, NodeAt)>, k: Seq<u8>)
    requires keys_distinct(m),
    ensures keys_distinct(spec_rem(m, k)),
{
    let n = spec_rem(m, k);
    lemma_key_index(m, k);
    match key_index(m, k) {
        Some(i) => {
            assert forall|a: int, b: int| 0 <= a < n.len() && 0 <= b < n.len() && n[a].0 == n[b].0 implies a == b by {
                let a1 = if a < i { a } else { a + 1 };
                let b1 = if b < i { b } else { b + 1 };
                assert(n[a] == m[a1] && n[b] == m[b1]);
            }
        },
        None => {},
    }
}

proof fn lemma_first_witness(m: Seq<(Seq<u8>, NodeAt)>, k: Seq<u8>, i0: int)
    requires 0 <= i0 < m.len(), m[i0].0 == k,
    ensures exists|i: int| 0 <= i < m.len() && m[i].0 == k && forall|j: int| 0 <= j < i ==> m[j].0 != k,
    decreases i0,
{
    if exists|j: int| 0 <= j < i0 && m[j].0 == k {
        let j0 = choose|j: int| 0 <= j < i0 && m[j].0 == k;
        lemma_first_witness(m, k, j0);
    } else {
        assert(forall|j: int| 0 <= j < i0 ==> m[j].0 != k);
    }
}

proof fn lemma_key_index(m: Seq<(Seq<u8>, NodeAt)>, k: Seq<u8>)
    ensures
        key_index(m, k) matches Some(i) ==> 0 <= i < m.len() && m[i].0 == k,
        key_index(m, k) is None ==> forall|j: int| 0 <= j < m.len() ==> m[j].0 != k,
{
    if exists|i: int| 0 <= i < m.len() && m[i].0 == k {
        let i0 = choose|i: int| 0 <= i < m.len() && m[i].0 == k;
        lemma_first_witness(m, k, i0);
    }
}

proof fn law_rem_keeps_absent(m: Seq<(Seq<u8>, NodeAt)>, k: Seq<u8>, key: Seq<u8>)
    requires key_index(m, key) is None,
    ensures key_index(spec_rem(m, k), key) is None,
{
    let n = spec_rem(m, k);
    lemma_key_index(m, k);
    lemma_key_index(m, key);
    match key_index(m, k) {
        Some(i) => {
            assert forall|j: int| 0 <= j < n.len() implies n[j].0 != key by {
                if j < i { assert(n[j] == m[j]); } else { assert(n[j] == m[j + 1]); }
            }
        },
        None => {},
    }
}

/// A name with no entry gets none by removing ports.
proof fn law_rem_ports_keeps_absent(
    fs: Seq<Seq<u8>>, f: ParsedId, ports: Seq<Span>, k: int, m: Seq<(Seq<u8>, NodeAt)>, key: Seq<u8>,
)
    requires key_index(m, key) is None, 0 <= k,
    ensures key_index(spec_rem_ports(fs, f, ports, k, m), key) is None,
    decreases ports.len() - k,
{
    if k < ports.len() {
        let m1 = match spec_text_in(fs, f, ports[k]) {
            Some(t) => spec_rem(m, spec_fold(t)),
            None => m,
        };
        match spec_text_in(fs, f, ports[k]) {
            Some(t) => {
                assert(m1 == spec_rem(m, spec_fold(t)));
                law_rem_keeps_absent(m, spec_fold(t), key);
            },
            None => {},
        }
        law_rem_ports_keeps_absent(fs, f, ports, k + 1, m1, key);
    }
}

} // verus!

verus! {

/// `x` is a terminal of the element `c`: one of the nodes its line names
/// (both ends of a two-terminal element or source; gate, drain, source
/// and bulk of a MOSFET; base, collector, emitter and substrate of a BJT;
/// both ends of a diode; every node of a subcircuit call or an unknown
/// element), never a model name, subcircuit name or parameter.
pub open spec fn is_terminal(c: CtxView, x: Span) -> bool {
    match c {
        CtxView::Resistor(r) => x == r.n1 || x == r.n2,
        CtxView::Capacitor(r) => x == r.n1 || x == r.n2,
        CtxView::Inductor(r) => x == r.n1 || x == r.n2,
        CtxView::Voltage { n1, n2, .. } => x == n1 || x == n2,
        CtxView::Current { n1, n2, .. } => x == n1 || x == n2,
        CtxView::MOSFET { nd, ng, ns, nb, .. } => x == nd || x == ng || x == ns || nb == Some(x),
        CtxView::BJT { nc, nb, ne, ns, .. } => x == nc || x == nb || x == ne || ns == Some(x),
        CtxView::Diode { nplus, nminus, .. } => x == nplus || x == nminus,
        CtxView::Subckt { nodes, .. } => nodes.contains(x),
        CtxView::Unknown { nodes, .. } => nodes.contains(x),
    }
}

/// Every terminal of an element is among its nodes.
pub proof fn law_terminals_are_nodes(c: CtxView, x: Span)
    requires is_terminal(c, x),
    ensures ctx_nodes(c).contains(x),
{
    let n = ctx_nodes(c);
    match c {
        CtxView::MOSFET { nd, ng, ns, nb, .. } => {
            if x == nd { assert(n[1] == x); } else if x == ng { assert(n[0] == x); }
            else if x == ns { assert(n[2] == x); } else { assert(n[3] == x); }
        },
        CtxView::BJT { nc, nb, ne, ns, .. } => {
            if x == nc { assert(n[1] == x); } else if x == nb { assert(n[0] == x); }
            else if x == ne { assert(n[2] == x); } else { assert(n[3] == x); }
        },
        CtxView::Diode { nplus, nminus, .. } => {
            if x == nminus { assert(n[0] == x); } else { assert(n[1] == x); }
        },
        CtxView::Subckt { .. } => {},
        CtxView::Unknown { .. } => {},
        _ => {
            if n[0] == x { assert(n[0] == x); } else { assert(n[1] == x); }
        },
    }
}

/// Setting a name keeps every name that had an entry.
proof fn lemma_ins_keeps_key(m: Seq<(Seq<u8>, NodeAt)>, k: Seq<u8>, v: NodeAt, key: Seq<u8>)
    requires key_index(m, key) is Some,
    ensures key_index(spec_ins(m, k, v), key) is Some,
{
    lemma_key_index(m, key);
    lemma_key_index(m, k);
    let i = key_index(m, key).unwrap();
    let n = spec_ins(m, k, v);
    match key_index(m, k) {
        Some(j) => {
            if j == i { assert(n[i].0 == key); } else { assert(n[i] == m[i]); }
            assert(0 <= i < n.len() && n[i].0 == key);
        },
        None => {
            assert(n[i] == m[i]);
        },
    }
}

/// After setting a name, it has an entry.
proof fn lemma_ins_has_key(m: Seq<(Seq<u8>, NodeAt)>, k: Seq<u8>, v: NodeAt)
    ensures key_index(spec_ins(m, k, v), k) is Some,
{
    lemma_key_index(m, k);
    let n = spec_ins(m, k, v);
    match key_index(m, k) {
        Some(j) => { assert(n[j].0 == k); },
        None => { assert(n[m.len() as int].0 == k); },
    }
}

/// Adding nodes keeps every name that had an entry, and gives an entry to
/// the (lower-cased) name of every node added.
proof fn lemma_add_nodes_keys(fs: Seq<Seq<u8>>, pid: ParsedId, spans: Seq<Span>, k: int, m: Seq<(Seq<u8>, NodeAt)>)
    requires 0 <= k,
    ensures
        forall|key: Seq<u8>| key_index(m, key) is Some ==> #[trigger] key_index(spec_add_nodes(fs, pid, spans, k, m), key) is Some,
        forall|j: int| k <= j < spans.len() && (#[trigger] spec_text_in(fs, pid, spans[j])) is Some ==>
            key_index(spec_add_nodes(fs, pid, spans, k, m), spec_fold(spec_text_in(fs, pid, spans[j]).unwrap())) is Some,
    decreases spans.len() - k,
{
    if k < spans.len() {
        let m1 = match spec_text_in(fs, pid, spans[k]) {
            Some(t) => spec_ins(m, spec_fold(t), (pid, spans[k])),
            None => m,
        };
        lemma_add_nodes_keys(fs, pid, spans, k + 1, m1);
        assert(spec_add_nodes(fs, pid, spans, k, m) == spec_add_nodes(fs, pid, spans, k + 1, m1));
        assert forall|key: Seq<u8>| key_index(m, key) is Some implies #[trigger] key_index(spec_add_nodes(fs, pid, spans, k, m), key) is Some by {
            match spec_text_in(fs, pid, spans[k]) {
                Some(t) => lemma_ins_keeps_key(m, spec_fold(t), (pid, spans[k]), key),
                None => {},
            }
        }
        match spec_text_in(fs, pid, spans[k]) {
            Some(t) => lemma_ins_has_key(m, spec_fold(t), (pid, spans[k])),
            None => {},
        }
    }
}

/// After the nodes of an element are added, the lower-cased name of each
/// of its terminals has an entry, and every name that had an entry keeps one.
pub proof fn law_element_nodes_registered(fs: Seq<Seq<u8>>, pid: ParsedId, c: CtxView, m: Seq<(Seq<u8>, NodeAt)>, x: Span)
    requires is_terminal(c, x), spec_text_in(fs, pid, x) is Some,
    ensures
        key_index(spec_add_nodes(fs, pid, ctx_nodes(c), 0, m), spec_fold(spec_text_in(fs, pid, x).unwrap())) is Some,
        forall|key: Seq<u8>| key_index(m, key) is Some ==> #[trigger] key_index(spec_add_nodes(fs, pid, ctx_nodes(c), 0, m), key) is Some,
{
    law_terminals_are_nodes(c, x);
    let n = ctx_nodes(c);
    let j = choose|j: int| 0 <= j < n.len() && n[j] == x;
    lemma_add_nodes_keys(fs, pid, n, 0, m);
    assert(spec_text_in(fs, pid, n[j]) is Some);
}

} // verus!
