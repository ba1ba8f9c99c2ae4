//! Positions in a file, file identities and the storage of the files that a
//! parse run has read.
use vstd::prelude::*;

verus! {

/// A byte range `start..end` of a file.
#[derive(Debug, Clone, Copy, Default, PartialEq, Eq, Structural)]
pub struct Span {
    pub start: usize,
    pub end: usize,
}

/// The span `a..b`.
pub open spec fn span_of(a: int, b: int) -> Span {
    Span { start: a as usize, end: b as usize }
}

/// A byte offset in a file together with its line number (counted from 1).
#[derive(Debug, Clone, Copy, PartialEq, Eq, Structural)]
pub struct Pos {
    pub start: usize,
    pub line_num: u32,
}

/// The index of a parsed file in its [`FileStorage`].
#[derive(Debug, Clone, Copy, PartialEq, Eq, Structural)]
pub struct ParsedId(pub usize);

} // verus!

verus! {

/// The number of newlines in `s`.
pub open spec fn spec_count_nl(s: Seq<u8>) -> nat
    decreases s.len(),
{
    if s.len() == 0 { 0 } else { spec_count_nl(s.drop_last()) + if s.last() == 0x0a { 1nat } else { 0nat } }
}

pub proof fn lemma_count_nl_le(s: Seq<u8>)
    ensures spec_count_nl(s) <= s.len(),
    decreases s.len(),
{
    if s.len() > 0 { lemma_count_nl_le(s.drop_last()); }
}

/// The line of offset `i` of a text whose first line is line `base + 1`.
pub open spec fn spec_line(s: Seq<u8>, base: u32, i: int) -> int {
    base + 1 + spec_count_nl(s.subrange(0, i))
}

/// The line of offset `i` of a text whose first line is line `base + 1`.
pub fn line_at(s: &[u8], base: u32, i: usize) -> (r: u32)
    requires i <= s@.len(), base + s@.len() < u32::MAX,
    ensures r == spec_line(s@, base, i as int),
{
    let mut n: u32 = 0;
    let mut k: usize = 0;
    while k < i
        invariant
            k <= i <= s@.len(),
            base + s@.len() < u32::MAX,
            n == spec_count_nl(s@.subrange(0, k as int)),
        decreases i - k,
    {
        proof {
            assert(s@.subrange(0, k + 1).drop_last() =~= s@.subrange(0, k as int));
            lemma_count_nl_le(s@.subrange(0, k as int));
        }
        if s[k] == 0x0a {
            n = n + 1;
        }
        k = k + 1;
    }
    proof { lemma_count_nl_le(s@.subrange(0, i as int)); }
    base + 1 + n
}

/// The position of offset `i`.
pub open spec fn spec_pos(s: Seq<u8>, base: u32, i: int) -> Pos {
    Pos { start: i as usize, line_num: spec_line(s, base, i) as u32 }
}

pub fn pos_at(s: &[u8], base: u32, i: usize) -> (r: Pos)
    requires i <= s@.len(), base + s@.len() < u32::MAX,
    ensures r == spec_pos(s@, base, i as int),
{
    Pos { start: i, line_num: line_at(s, base, i) }
}

/// The identity of a parsed file: a whole file, or one section of a library
/// file. A parse run keeps its paths in normal form ([`crate::paths::normal_path`]),
/// so that two identities are equal exactly when their paths have the same
/// components ([`crate::paths::law_normal_identifies`]) and their sections agree.
#[derive(Debug, Clone, PartialEq, Eq, Hash)]
pub enum FileId {
    Include { path: String },
    Section { path: String, section: String },
}

pub enum FileIdView {
    Include { path: Seq<char> },
    Section { path: Seq<char>, section: Seq<char> },
}

impl View for FileId {
    type V = FileIdView;
    open spec fn view(&self) -> FileIdView {
        match self {
            FileId::Include { path } => FileIdView::Include { path: path@ },
            FileId::Section { path, section } => FileIdView::Section { path: path@, section: section@ },
        }
    }
}

impl FileId {
    /// The path of the file.
    pub fn path(&self) -> (r: &String)
        ensures
            r@ == match self@ {
                FileIdView::Include { path } => path,
                FileIdView::Section { path, .. } => path,
            },
    {
        match self {
            FileId::Include { path } => path,
            FileId::Section { path, section: _ } => path,
        }
    }

    /// Two identities name the same file (and the same section).
    pub fn same(&self, other: &FileId) -> (r: bool)
        ensures r == (self@ == other@),
    {
        match (self, other) {
            (FileId::Include { path: a }, FileId::Include { path: b }) => a.eq(b),
            (FileId::Section { path: a, section: x }, FileId::Section { path: b, section: y }) => a.eq(b) && x.eq(y),
            _ => false,
        }
    }
}

} // verus!
