//! Verified core of a SPICE (HSPICE) netlist reader: the lexical grammar,
//! the statement parsers, the file storage of a parse run, the resolution of
//! `.include` / `.lib` segments into one netlist, and hierarchy queries on it.
#![allow(unused_imports)]

pub mod chars;
pub mod span;
pub mod paths;
pub mod ast;
pub mod lex;
pub mod number;
pub mod values;
pub mod ports;
pub mod instance;
pub mod model;
pub mod cmds;
pub mod err;
mod outside;
pub mod local;
pub mod parse;
pub mod storage;
pub mod source;
pub mod netlist;
pub mod chain;
pub mod hier;
pub mod display;
pub mod report;
pub mod spice;
pub mod sweep;
pub mod built;
pub mod meas;
pub mod refs;

use vstd::prelude::*;

verus! {

} // verus!
