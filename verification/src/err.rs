//! Errors found while reading a netlist.
use vstd::prelude::*;
use crate::span::{FileId, Pos, Span};
use indexmap::IndexMap;

verus! {

#[derive(Debug)]
pub enum ParseErrorInner {
    /// The file could not be read; the message of the I/O error.
    IO(String),
    /// A `.lib` names a section that its file does not hold.
    NoLibSection { path: String, section: String },
    /// A statement does not follow the grammar.
    Syntax,
    /// A command that is not known.
    Unknown(Span),
    /// A file includes itself through the chain of included files; the chain
    /// and the index in it of the file that is included again.
    CircularDefinition(IndexMap<FileId, Option<Pos>>, usize),
}

#[derive(Debug)]
pub struct ParseError {
    pub pos: Option<Pos>,
    pub err: ParseErrorInner,
}

impl ParseErrorInner {
    /// This error at `pos`.
    pub fn with(self, pos: Option<Pos>) -> (r: ParseError)
        ensures r.pos == pos, r.err == self,
    {
        ParseError { pos, err: self }
    }
}

} // verus!
