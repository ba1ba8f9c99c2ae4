//! A file (or library section) as the parse run stores it, and its reading.
use vstd::prelude::*;
use vstd::string::StringSliceAdditionalSpecFns;
use crate::err::{ParseError, ParseErrorInner};
use crate::local::{ASTBuilder, ASTView, IncludeRequest, RequestView, LocalAST, Segment, SegmentView, ast_view, local_view, segment_view};
use crate::parse::{ast, reqs_view, spec_ast};
use crate::span::{pos_at, spec_pos, ParsedId};

verus! {

/// What was parsed from one file: its segments, the `.include` / `.lib`
/// requests that its segments refer to, and what became of each request
/// (`None` while it is pending).
#[derive(Debug)]
pub struct FileAst {
    pub ast: ASTBuilder,
    pub requests: Vec<IncludeRequest>,
    pub links: Vec<Option<Result<ParsedId, ParseError>>>,
}

impl Default for FileAst {
    fn default() -> (r: FileAst)
        ensures ast_view(&r.ast).segments.len() == 0, r.requests@.len() == 0, r.links@.len() == 0,
    {
        FileAst { ast: ASTBuilder::new(), requests: Vec::new(), links: Vec::new() }
    }
}

/// The tree has one segment, whose only statement is the error `e`.
pub open spec fn holds_only_error(a: ASTView, e: ParseError) -> bool {
    &&& a.segments.len() == 1
    &&& a.segments[0] matches SegmentView::Local(l)
    &&& l == crate::local::LocalView { errors: seq![e], ..crate::local::empty_local() }
}

/// A syntax tree that holds only `err` (`error2ast`).
pub fn error2ast(err: ParseError) -> (r: ASTBuilder)
    ensures holds_only_error(ast_view(&r), err),
{
    let ghost e = err;
    let mut local = LocalAST::new();
    local.errors.push(err);
    let mut b = ASTBuilder::new();
    let ghost lv = local_view(&local);
    assert(lv.errors =~= seq![e]);
    assert(lv.subckt =~= Seq::empty());
    assert(lv.instance =~= Seq::empty());
    assert(lv.model =~= Seq::empty());
    assert(lv.data =~= Seq::empty());
    assert(lv.general =~= Seq::empty());
    assert(lv.unknwon =~= Seq::empty());
    b.segments.push(Segment::Local(Box::new(local)));
    assert(ast_view(&b).segments[0] == segment_view(&b.segments@[0]));
    b
}

/// The text `text` is small enough for its line numbers to be counted.
pub open spec fn fits_lines(text: Seq<u8>, base: u32) -> bool {
    base + text.len() < u32::MAX
}

/// `a` and `q` are what reading `text` (first line `base + 1`) gives: its
/// segments and requests; a syntax error gives a tree that holds only the
/// error, at the position of the failing statement, and no request.
pub open spec fn spec_parse_file(text: Seq<u8>, base: u32, a: ASTView, q: Seq<RequestView>) -> bool {
    if fits_lines(text, base) {
        match spec_ast(text, base, 0, Seq::empty(), Seq::empty()) {
            Ok((a1, q1, _)) => a == a1 && q == q1,
            Err(p) => q.len() == 0 && holds_only_error(a,
                ParseError { pos: Some(spec_pos(text, base, p)), err: ParseErrorInner::Syntax }),
        }
    } else {
        q.len() == 0 && holds_only_error(a, ParseError { pos: None, err: ParseErrorInner::Syntax })
    }
}

/// Reads the text of a file whose first line is line `base + 1`: its
/// segments and requests; a syntax error gives a tree that holds only the
/// error, at the position of the failing statement, and no request.
pub fn parse_file(text: &str, base: u32) -> (r: (ASTBuilder, Vec<IncludeRequest>))
    ensures spec_parse_file(text.spec_bytes(), base, ast_view(&r.0), reqs_view(r.1@)),
{
    let s = text.as_bytes();
    let n = s.len();
    if !(n < u32::MAX as usize && base < u32::MAX - n as u32) {
        return (error2ast(ParseError { pos: None, err: ParseErrorInner::Syntax }), Vec::new());
    }
    match ast(s, base) {
        Ok((b, reqs, _)) => (b, reqs),
        Err(p) => {
            let pos = pos_at(s, base, p);
            (error2ast(ParseError { pos: Some(pos), err: ParseErrorInner::Syntax }), Vec::new())
        },
    }
}

/// What was parsed from the text `text` (first line `base + 1`), with
/// every request pending.
pub fn file_ast(text: &str, base: u32) -> (r: FileAst)
    ensures
        spec_parse_file(text.spec_bytes(), base, ast_view(&r.ast), reqs_view(r.requests@)),
        r.links@.len() == r.requests@.len(),
        forall|k: int| 0 <= k < r.links@.len() ==> r.links@[k] is None,
{
    let (a, q) = parse_file(text, base);
    let mut links: Vec<Option<Result<ParsedId, ParseError>>> = Vec::new();
    let mut k: usize = 0;
    while k < q.len()
        invariant
            k <= q@.len(),
            links@.len() == k,
            forall|m: int| 0 <= m < k ==> links@[m] is None,
        decreases q@.len() - k,
    {
        links.push(None);
        k = k + 1;
    }
    FileAst { ast: a, requests: q, links }
}

} // verus!
