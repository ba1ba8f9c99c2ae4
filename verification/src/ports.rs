//! `ports [first_key = value key = value ...]`: the node list of an element
//! or a subcircuit with its trailing parameters.
use vstd::prelude::*;
use crate::ast::{KeyValueBuilder, ValueBuilder};
use crate::lex::{equal_start, spec_equal_start};
use crate::span::Span;
use crate::values::{
    lift, many0_by, many0_key_value, many1_by, m_key_value, m_node, msep_node, prepend, spec_many0,
    spec_many1, spec_value, value,
};

verus! {

/// The optional parameter part after the nodes: `= value` for the last
/// name read, then more `key = value` pairs.
pub open spec fn spec_params_tail(s: Seq<u8>, j: int) -> Option<(ValueBuilder, Seq<KeyValueBuilder>, int)> {
    match spec_equal_start(s, j) {
        Some(q) => match spec_value(s, q) {
            Some((v, e)) => match spec_many0(s, e, m_key_value(s)) {
                Some((rest, k)) => Some((v, rest, k)),
                None => None,
            },
            None => None,
        },
        None => None,
    }
}

/// Nodes and parameters. The names are read first; when `= value` follows,
/// the last name read is the key of the first parameter.
pub open spec fn spec_ports_params(s: Seq<u8>, i: int) -> Option<(Seq<Span>, Seq<KeyValueBuilder>, int)> {
    match spec_many1(s, i, m_node(s)) {
        Some((names, j)) => match spec_params_tail(s, j) {
            Some((v, rest, k)) => Some((
                names.drop_last(),
                seq![KeyValueBuilder { k: names.last(), v }] + rest,
                k,
            )),
            None => Some((names, Seq::empty(), j)),
        },
        None => None,
    }
}

pub fn ports_params(s: &[u8], i: usize) -> (r: Option<(Vec<Span>, Vec<KeyValueBuilder>, usize)>)
    requires i <= s@.len(),
    ensures
        r matches Some((ports, params, k)) ==> spec_ports_params(s@, i as int) == Some((ports@, params@, k as int))
            && i < k <= s@.len(),
        r is None ==> spec_ports_params(s@, i as int) is None,
{
    let f = |p: usize| -> (q: Option<(Span, usize)>)
        requires p <= s@.len(),
        ensures lift(q) == m_node(s@)(p as int), q matches Some((_, j)) ==> p < j <= s@.len(),
        { msep_node(s, p) };
    match many1_by(s, i, &f, Ghost(m_node(s@))) {
        Some((names, j)) => {
            let tail = match equal_start(s, j) {
                Some(q) => match value(s, q) {
                    Some((v, e)) => match many0_key_value(s, e) {
                        Some((rest, k)) => Some((v, rest, k)),
                        None => None,
                    },
                    None => None,
                },
                None => None,
            };
            match tail {
                Some((v, rest, k)) => {
                    let mut names = names;
                    let ghost all = names@;
                    let last = names.pop().unwrap();
                    let mut params: Vec<KeyValueBuilder> = Vec::new();
                    params.push(KeyValueBuilder { k: last, v });
                    let mut rest = rest;
                    params.append(&mut rest);
                    proof {
                        assert(names@ =~= all.drop_last());
                    }
                    Some((names, params, k))
                },
                None => Some((names, Vec::new(), j)),
            }
        },
        None => None,
    }
}

} // verus!
