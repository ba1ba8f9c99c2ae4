//! The decisions of a parse run: the chain of files being read (and the
//! circular definitions it reveals), the sections of library files, and the
//! links from each request to the file that serves it.
use vstd::prelude::*;
use vstd::string::StringSliceAdditionalSpecFns;
use crate::err::{ParseError, ParseErrorInner};
use crate::outside::{
    chain_entries, chain_map_clone, chain_map_get, chain_map_index_of, chain_map_len, chain_map_new, chain_map_push,
    chain_map_set_last, captures_view, regex_captures, regex_captures_all, regex_escape, spec_regex_escape, utf8_str,
};
use indexmap::IndexMap;
use crate::span::{spec_count_nl, lemma_count_nl_le, FileId, FileIdView, ParsedId, Pos};
use crate::storage::{spec_distinct, spec_index_of, spec_new_file, spec_new_file_index, FileStorage};
use crate::source::{error2ast, holds_only_error, FileAst};
use crate::local::ast_view;
use crate::netlist::{Files, Parsed};

verus! {

/// The files being read, from the top file down to the current one, each
/// with the position of the request that led further down (the last one
/// with the position of the request that led to it).
pub type Chain = IndexMap<FileId, Option<Pos>>;

/// The identities of a chain.
pub open spec fn chain_ids(c: Seq<(FileIdView, Option<Pos>)>) -> Seq<FileIdView> {
    c.map_values(|x: (FileIdView, Option<Pos>)| x.0)
}

/// The index of the first file of the chain `c` with identity `id`.
pub open spec fn chain_find(c: Seq<(FileIdView, Option<Pos>)>, id: FileIdView) -> Option<int> {
    if exists|k: int| 0 <= k < c.len() && c[k].0 == id {
        Some(choose|k: int| 0 <= k < c.len() && c[k].0 == id && forall|j: int| 0 <= j < k ==> c[j].0 != id)
    } else {
        None
    }
}

impl FileId {
    /// A copy of this identity.
    pub fn duplicate(&self) -> (r: FileId)
        ensures r@ == self@,
    {
        match self {
            FileId::Include { path } => FileId::Include { path: path.clone() },
            FileId::Section { path, section } => FileId::Section { path: path.clone(), section: section.clone() },
        }
    }
}

/// An empty chain.
pub fn new_chain() -> (r: Chain)
    ensures chain_entries(r) == Seq::<(FileIdView, Option<Pos>)>::empty(),
{
    chain_map_new()
}

/// The index of `id` in the chain, if it is there.
fn index_in(chain: &Chain, id: &FileId) -> (r: Option<usize>)
    ensures
        r matches Some(k) ==> chain_find(chain_entries(*chain), id@) == Some(k as int),
        r is None ==> chain_find(chain_entries(*chain), id@) is None,
{
    let ghost c = chain_entries(*chain);
    let found = chain_map_index_of(chain, id);
    match found {
        Some(k) => {
            proof {
                let w = choose|w: int| 0 <= w < c.len() && c[w].0 == id@ && forall|j: int| 0 <= j < w ==> c[j].0 != id@;
                assert(0 <= k < c.len() && c[k as int].0 == id@);
                if w < k { assert(c[w].0 != id@); }
                if w > k { assert(c[k as int].0 != id@); }
            }
            Some(k)
        },
        None => None,
    }
}

/// `r` is the circular definition found at index `k` of `chain`, at `pos`.
pub open spec fn is_circular(r: Result<Chain, ParseError>, chain: Seq<(FileIdView, Option<Pos>)>, pos: Option<Pos>, k: int) -> bool {
    match r {
        Err(e) => e.pos == pos && match e.err {
            ParseErrorInner::CircularDefinition(c, i) => chain_entries(c) == chain && i == k,
            _ => false,
        },
        Ok(_) => false,
    }
}

/// Enters the file `file_id`, reached by the request at `pos`: a file that
/// is already in the chain is a circular definition (reported with the
/// chain and the index of that file in it); else the file is appended.
pub fn enter(chain: Chain, file_id: &FileId, pos: Option<Pos>) -> (r: Result<Chain, ParseError>)
    ensures
        match chain_find(chain_entries(chain), file_id@) {
            Some(k) => is_circular(r, chain_entries(chain), pos, k),
            None => match r {
                Ok(c) => chain_entries(c) == chain_entries(chain).push((file_id@, pos)),
                Err(_) => false,
            },
        },
{
    match index_in(&chain, file_id) {
        Some(k) => Err(ParseErrorInner::CircularDefinition(chain, k).with(pos)),
        None => {
            let mut c = chain;
            chain_map_push(&mut c, file_id.duplicate(), pos);
            Ok(c)
        },
    }
}

/// The chain handed to the requests of the current file: the same files,
/// the last one now with the position `pos` of the request.
pub fn child_chain(chain: &Chain, pos: Pos) -> (r: Chain)
    ensures
        chain_entries(*chain).len() > 0 ==> chain_entries(r) == chain_entries(*chain).update(
            chain_entries(*chain).len() - 1, (chain_entries(*chain).last().0, Some(pos))),
        chain_entries(*chain).len() == 0 ==> chain_entries(r) == chain_entries(*chain),
{
    let mut r = chain_map_clone(chain);
    chain_map_set_last(&mut r, Some(pos));
    r
}

/// The number of files in the chain.
pub fn chain_len(chain: &Chain) -> (r: usize)
    ensures r == chain_entries(*chain).len(),
{
    chain_map_len(chain)
}

/// The file at `i` of the chain and its position, when there is one.
pub fn chain_at(chain: &Chain, i: usize) -> (r: Option<(&FileId, &Option<Pos>)>)
    ensures
        r matches Some((f, p)) ==> i < chain_entries(*chain).len() && chain_entries(*chain)[i as int] == (f@, *p),
        r is None ==> i >= chain_entries(*chain).len(),
{
    chain_map_get(chain, i)
}

/// Entering a file keeps every file of the chain once.
pub proof fn law_enter_keeps_chain_distinct(chain: Seq<(FileIdView, Option<Pos>)>, id: FileIdView, pos: Option<Pos>)
    requires
        spec_distinct(chain_ids(chain)),
        chain_find(chain, id) is None,
    ensures
        spec_distinct(chain_ids(chain.push((id, pos)))),
{
    let ids = chain_ids(chain);
    let n = chain_ids(chain.push((id, pos)));
    assert(n =~= ids.push(id));
    assert forall|a: int, b: int| 0 <= a < n.len() && 0 <= b < n.len() && n[a] == n[b] implies a == b by {
        if a == ids.len() && b < ids.len() { assert(chain[b].0 == id); }
        if b == ids.len() && a < ids.len() { assert(chain[a].0 == id); }
    }
}

} // verus!

verus! {

/// The section `section` of the library text `text`, given what the
/// section search found: the section's text and the number of lines before
/// the match (as the `u32` line offset of the section's first line).
pub open spec fn spec_section_of(text: Seq<u8>, found: Option<(nat, Seq<char>)>) -> Option<(Seq<char>, u32)> {
    match found {
        Some((a, g)) => Some((g, spec_count_nl(text.subrange(0, a as int)) as u32)),
        None => None,
    }
}

/// The section and its line offset, from the last match `found` (the
/// offset where it starts and the text of the section) in `text`.
pub fn section_of(text: &str, found: Option<(usize, String)>) -> (r: Option<(String, u32)>)
    requires found matches Some((a, _)) ==> a <= text.spec_bytes().len(),
    ensures
        match spec_section_of(text.spec_bytes(), match found { Some((a, g)) => Some((a as nat, g@)), None => None }) {
            Some((g, n)) => r matches Some((s, m)) && s@ == g && m == n,
            None => r is None,
        },
{
    match found {
        Some((a, g)) => {
            let s = text.as_bytes();
            let mut n: usize = 0;
            let mut k: usize = 0;
            while k < a
                invariant
                    a <= s@.len(),
                    k <= a,
                    n == spec_count_nl(s@.subrange(0, k as int)),
                decreases a - k,
            {
                proof {
                    assert(s@.subrange(0, k + 1).drop_last() =~= s@.subrange(0, k as int));
                    lemma_count_nl_le(s@.subrange(0, k as int));
                }
                if s[k] == 0x0a {
                    n = n + 1;
                }
                k = k + 1;
            }
            Some((g, n as u32))
        },
        None => None,
    }
}

/// The pattern that finds the section whose escaped name is `escaped`:
/// `(?ims)^\s*\.lib\s+NAME\b(.*?)^\s*\.endl(?:\s+NAME\b)?`, where NAME is
/// `escaped` (multi-line, any case, `.` matching newlines).
pub open spec fn spec_section_pattern(escaped: Seq<char>) -> Seq<char> {
    "(?ims)^\\s*\\.lib\\s+"@ + escaped + "\\b(.*?)^\\s*\\.endl(?:\\s+"@ + escaped + "\\b)?"@
}

proof fn lemma_encode_concat(a: Seq<char>, b: Seq<char>)
    ensures vstd::utf8::encode_utf8(a + b) == vstd::utf8::encode_utf8(a) + vstd::utf8::encode_utf8(b),
    decreases a.len(),
{
    if a.len() == 0 {
        assert(a + b =~= b);
        assert(vstd::utf8::encode_utf8(a) =~= Seq::<u8>::empty());
    } else {
        lemma_encode_concat(a.drop_first(), b);
        assert((a + b).drop_first() =~= a.drop_first() + b);
        assert((a + b)[0] == a[0]);
        assert(vstd::utf8::encode_utf8(a + b) =~= vstd::utf8::encode_scalar(a[0] as u32)
            + (vstd::utf8::encode_utf8(a.drop_first()) + vstd::utf8::encode_utf8(b)));
    }
}

fn push_bytes(v: &mut Vec<u8>, t: &str)
    ensures final(v)@ == old(v)@ + vstd::utf8::encode_utf8(t@),
{
    let b = t.as_bytes();
    let mut tail = vstd::slice::slice_to_vec(b);
    v.append(&mut tail);
}

/// The UTF-8 bytes of the section pattern for the escaped name `escaped`.
pub fn section_pattern(escaped: &str) -> (r: Vec<u8>)
    ensures r@ == vstd::utf8::encode_utf8(spec_section_pattern(escaped@)),
{
    let head = "(?ims)^\\s*\\.lib\\s+";
    let mid = "\\b(.*?)^\\s*\\.endl(?:\\s+";
    let tail = "\\b)?";
    let mut v: Vec<u8> = Vec::new();
    push_bytes(&mut v, head);
    push_bytes(&mut v, escaped);
    push_bytes(&mut v, mid);
    push_bytes(&mut v, escaped);
    push_bytes(&mut v, tail);
    proof {
        let e = escaped@;
        lemma_encode_concat(head@, e);
        lemma_encode_concat(head@ + e, mid@);
        lemma_encode_concat(head@ + e + mid@, e);
        lemma_encode_concat(head@ + e + mid@ + e, tail@);
        assert(v@ =~= vstd::utf8::encode_utf8(head@ + e + mid@ + e + tail@));
    }
    v
}

/// Of all matches `found` (start, first group), the last one, when its
/// group took part.
pub open spec fn spec_last_capture(found: Option<Seq<(nat, Option<Seq<char>>)>>) -> Option<(nat, Seq<char>)> {
    match found {
        Some(v) => if v.len() > 0 {
            match v.last().1 {
                Some(g) => Some((v.last().0, g)),
                None => None,
            }
        } else {
            None
        },
        None => None,
    }
}

/// What the section search of `section` in `text` finds: the last match
/// of the section pattern of the escaped name, as its start and the
/// section's text.
pub open spec fn spec_lib_found(text: Seq<char>, section: Seq<char>) -> Option<(nat, Seq<char>)> {
    spec_last_capture(regex_captures(spec_section_pattern(spec_regex_escape(section)), text))
}

/// The last of the matches `found`, when its group took part.
pub fn last_capture(found: Option<Vec<(usize, Option<String>)>>) -> (r: Option<(usize, String)>)
    ensures
        match spec_last_capture(match found { Some(v) => Some(captures_view(v@)), None => None }) {
            Some((a, g)) => r matches Some((b, h)) && b as nat == a && h@ == g,
            None => r is None,
        },
        r matches Some((b, _)) ==> found matches Some(v) && v@.len() > 0 && b == v@.last().0,
{
    match found {
        Some(mut v) => {
            let ghost cv = captures_view(v@);
            let ghost n = v@.len();
            match v.pop() {
                Some((a, Some(g))) => {
                    assert(cv.last() == (a as nat, Some(g@)));
                    Some((a, g))
                },
                Some((a, None)) => {
                    assert(cv.last().1 is None);
                    None
                },
                None => None,
            }
        },
        None => None,
    }
}

/// The section `section` of the library text `text` (`.lib section` ...
/// `.endl`, any case; the last such section counts), with the number of
/// lines before it. A pattern that does not compile finds nothing.
pub fn match_lib(text: &str, section: &str) -> (r: Option<(String, u32)>)
    ensures
        match spec_section_of(text.spec_bytes(), spec_lib_found(text@, section@)) {
            Some((g, n)) => r matches Some((s, m)) && s@ == g && m == n,
            None => r is None,
        },
{
    let escaped = regex_escape(section);
    let pat = section_pattern(escaped.as_str());
    let ghost want = spec_section_pattern(spec_regex_escape(section@));
    proof {
        vstd::utf8::encode_utf8_valid_utf8(want);
    }
    let pattern = match utf8_str(pat.as_slice()) {
        Some(p) => p,
        None => { return None; },
    };
    proof {
        vstd::utf8::encode_utf8_decode_utf8(pattern@);
        vstd::utf8::encode_utf8_decode_utf8(want);
        assert(pattern@ == want);
    }
    let all = regex_captures_all(pattern, text);
    let found = last_capture(all);
    section_of(text, found)
}

} // verus!

verus! {

/// What entering a file decided.
#[derive(Debug)]
pub enum Opened {
    /// The file is in the chain already.
    Circular(ParseError),
    /// The file was read before, under this index.
    Existed(ParsedId),
    /// The file is to be read; the chain with the file appended.
    Read(Chain),
}

/// Enters the file `file_id`, reached by the request at `pos` (`None` for
/// a top file) through `chain`: a circular definition, a file read before,
/// or a file to read.
pub fn open_file(storage: &FileStorage<FileAst>, chain: Chain, file_id: &FileId, pos: Option<Pos>) -> (r: Opened)
    requires storage.wf(),
    ensures
        match chain_find(chain_entries(chain), file_id@) {
            Some(k) => match r {
                Opened::Circular(e) => is_circular(Err(e), chain_entries(chain), pos, k),
                _ => false,
            },
            None => match spec_index_of(storage.ids(), file_id@) {
                Some(p) => r == Opened::Existed(ParsedId(p as usize)),
                None => match r {
                    Opened::Read(c) => chain_entries(c) == chain_entries(chain).push((file_id@, pos)),
                    _ => false,
                },
            },
        },
{
    match enter(chain, file_id, pos) {
        Err(e) => Opened::Circular(e),
        Ok(c) => {
            match storage.existed(file_id) {
                Some(p) => Opened::Existed(p),
                None => Opened::Read(c),
            }
        },
    }
}

/// `r` is the I/O error `msg` at `pos`.
pub open spec fn is_io_error(r: Result<(ParsedId, String, u32), ParseError>, msg: Seq<char>, pos: Option<Pos>) -> bool {
    match r {
        Err(e) => e.pos == pos && match e.err {
            ParseErrorInner::IO(m) => m@ == msg,
            _ => false,
        },
        Ok(_) => false,
    }
}

/// `r` says that the library file `path` has no section `section`, at `pos`.
pub open spec fn is_no_section(r: Result<(ParsedId, String, u32), ParseError>, path: Seq<char>, section: Seq<char>, pos: Option<Pos>) -> bool {
    match r {
        Err(e) => e.pos == pos && match e.err {
            ParseErrorInner::NoLibSection { path: p, section: s } => p@ == path && s@ == section,
            _ => false,
        },
        Ok(_) => false,
    }
}

/// `r` is the stored file `id` (in `ids`) with the text `text` whose first
/// line is line `base + 1`.
pub open spec fn is_loaded(r: Result<(ParsedId, String, u32), ParseError>, ids: Seq<FileIdView>, id: FileIdView, text: Seq<char>, base: u32) -> bool {
    match r {
        Ok((p, t, b)) => p.0 == spec_new_file_index(ids, id) && t@ == text && b == base,
        Err(_) => false,
    }
}

/// Loads what reading the file `file_id` gave (its text, or the message of
/// the I/O error): a library file is cut to its section (the section's
/// first line keeps its line number), and the file is stored under a new
/// index; the stored text is written later, with what was parsed from it.
pub fn load_file(storage: &mut FileStorage<FileAst>, file_id: FileId, contents: Result<String, String>, pos: Option<Pos>)
    -> (r: Result<(ParsedId, String, u32), ParseError>)
    requires old(storage).wf(),
    ensures
        final(storage).wf(),
        r is Err ==> final(storage).ids() == old(storage).ids() && final(storage).file@ == old(storage).file@
            && final(storage).parsed@ == old(storage).parsed@,
        r is Ok ==> final(storage).ids() == spec_new_file(old(storage).ids(), file_id@),
        match contents {
            Err(msg) => is_io_error(r, msg@, pos),
            Ok(text) => match file_id@ {
                FileIdView::Section { path, section } =>
                    match spec_section_of(vstd::utf8::encode_utf8(text@), spec_lib_found(text@, section)) {
                        Some((g, n)) => is_loaded(r, old(storage).ids(), file_id@, g, n),
                        None => is_no_section(r, path, section, pos),
                    },
                FileIdView::Include { .. } => is_loaded(r, old(storage).ids(), file_id@, text@, 0),
            },
        },
{
    match contents {
        Err(msg) => Err(ParseErrorInner::IO(msg).with(pos)),
        Ok(text) => {
            let cut = match &file_id {
                FileId::Section { path, section } => {
                    match match_lib(text.as_str(), section.as_str()) {
                        Some((g, n)) => Ok((g, n)),
                        None => Err(ParseErrorInner::NoLibSection { path: path.clone(), section: section.clone() }.with(pos)),
                    }
                },
                FileId::Include { .. } => Ok((text, 0u32)),
            };
            match cut {
                Err(e) => Err(e),
                Ok((t, n)) => {
                    let p = storage.new_file(file_id);
                    Ok((p, t, n))
                },
            }
        },
    }
}

/// Records what became of request `idx` of file `pid`: only a pending
/// request of a stored file is recorded; `r` says whether it was.
pub fn set_link(storage: &mut FileStorage<FileAst>, pid: ParsedId, idx: usize, res: Result<ParsedId, ParseError>) -> (r: bool)
    requires old(storage).wf(),
    ensures
        final(storage).wf(),
        final(storage).ids() == old(storage).ids(),
        final(storage).file@ == old(storage).file@,
        r == (pid.0 < old(storage).parsed@.len() && idx < old(storage).parsed@[pid.0 as int].1.links@.len()
            && old(storage).parsed@[pid.0 as int].1.links@[idx as int] is None),
        !r ==> final(storage).parsed@ == old(storage).parsed@,
        r ==> final(storage).parsed@[pid.0 as int].1.links@ == old(storage).parsed@[pid.0 as int].1.links@.update(idx as int, Some(res))
            && final(storage).parsed@[pid.0 as int].1.ast == old(storage).parsed@[pid.0 as int].1.ast
            && final(storage).parsed@[pid.0 as int].1.requests == old(storage).parsed@[pid.0 as int].1.requests
            && forall|m: int| 0 <= m < old(storage).parsed@.len() && m != pid.0 ==> final(storage).parsed@[m] == old(storage).parsed@[m],
{
    let k = pid.0;
    if k >= storage.parsed.len() {
        return false;
    }
    if idx >= storage.parsed[k].1.links.len() || storage.parsed[k].1.links[idx].is_some() {
        return false;
    }
    let (id, mut fa) = storage.parsed.remove(k);
    fa.links.set(idx, Some(res));
    storage.parsed.insert(k, (id, fa));
    assert(storage.ids() =~= old(storage).ids());
    true
}

/// The parse run of a top file that could not be read: the file, holding
/// only the error, and an empty text.
pub fn error2parsed(file_id: FileId, err: ParseError) -> (r: (Parsed, Files))
    ensures
        r.0.top_ids@ == seq![ParsedId(0)],
        r.0.inner@.len() == 1,
        r.0.inner@[0].0@ == file_id@,
        holds_only_error(ast_view(&r.0.inner@[0].1.ast), err),
        r.0.inner@[0].1.requests@.len() == 0,
        r.0.inner@[0].1.links@.len() == 0,
        r.1.inner@.len() == 1,
        r.1.inner@[0]@ == Seq::<char>::empty(),
{
    let a = error2ast(err);
    let fa = FileAst { ast: a, requests: Vec::new(), links: Vec::new() };
    let mut inner = Vec::new();
    inner.push((file_id, fa));
    let mut texts = Vec::new();
    texts.push(String::new());
    let mut tops = Vec::new();
    tops.push(ParsedId(0));
    assert(tops@ =~= seq![ParsedId(0)]);
    (Parsed { top_ids: tops, inner }, Files { inner: texts })
}

/// The index of the first top file that failed, if one did.
pub open spec fn first_failed(tops: Seq<Result<ParsedId, (FileId, ParseError)>>) -> Option<int> {
    if exists|k: int| 0 <= k < tops.len() && tops[k] is Err {
        Some(choose|k: int| 0 <= k < tops.len() && tops[k] is Err && forall|m: int| 0 <= m < k ==> tops[m] is Ok)
    } else {
        None
    }
}

/// The indexes of the top files, when all of them were read.
pub open spec fn ok_ids(tops: Seq<Result<ParsedId, (FileId, ParseError)>>) -> Seq<ParsedId> {
    tops.map_values(|t: Result<ParsedId, (FileId, ParseError)>| match t {
        Ok(p) => p,
        Err(_) => ParsedId(0),
    })
}

/// Ends a parse run, given what became of each top file in order: the
/// first top file that failed gives a run that holds only its error;
/// otherwise the run holds the top files and every stored file.
pub fn finish_run(storage: FileStorage<FileAst>, tops: Vec<Result<ParsedId, (FileId, ParseError)>>) -> (r: (Parsed, Files))
    ensures
        match first_failed(tops@) {
            Some(k) => match tops@[k] {
                Err((f, e)) => r.0.top_ids@ == seq![ParsedId(0)] && r.0.inner@.len() == 1
                    && r.0.inner@[0].0@ == f@ && holds_only_error(ast_view(&r.0.inner@[0].1.ast), e)
                    && r.1.inner@.len() == 1 && r.1.inner@[0]@ == Seq::<char>::empty(),
                Ok(_) => false,
            },
            None => r.0.top_ids@ == ok_ids(tops@) && r.0.inner@ == storage.parsed@ && r.1.inner@ == storage.file@,
        },
{
    match first_error(&tops) {
        Some(k) => {
            proof {
                let c = choose|j: int| 0 <= j < tops@.len() && tops@[j] is Err && forall|m: int| 0 <= m < j ==> tops@[m] is Ok;
                assert(0 <= c < tops@.len() && tops@[c] is Err);
                if c < k { assert(tops@[c] is Ok); }
                if c > k { assert(tops@[k as int] is Ok); }
            }
            match take_at(tops, k) {
                Err((f, e)) => error2parsed(f, e),
                Ok(_) => (Parsed { top_ids: Vec::new(), inner: storage.parsed }, Files { inner: storage.file }),
            }
        },
        None => {
            let mut ids: Vec<ParsedId> = Vec::new();
            let mut k: usize = 0;
            while k < tops.len()
                invariant
                    k <= tops@.len(),
                    forall|m: int| 0 <= m < tops@.len() ==> tops@[m] is Ok,
                    ids@ == ok_ids(tops@).subrange(0, k as int),
                decreases tops@.len() - k,
            {
                match &tops[k] {
                    Ok(p) => ids.push(*p),
                    Err(_) => {},
                }
                assert(ids@ =~= ok_ids(tops@).subrange(0, k + 1));
                k = k + 1;
            }
            assert(ids@ =~= ok_ids(tops@));
            (Parsed { top_ids: ids, inner: storage.parsed }, Files { inner: storage.file })
        },
    }
}

/// The index of the first failed top file.
fn first_error(tops: &Vec<Result<ParsedId, (FileId, ParseError)>>) -> (r: Option<usize>)
    ensures
        r matches Some(k) ==> k < tops@.len() && tops@[k as int] is Err && forall|m: int| 0 <= m < k ==> tops@[m] is Ok,
        r is None ==> forall|m: int| 0 <= m < tops@.len() ==> tops@[m] is Ok,
{
    let mut k: usize = 0;
    while k < tops.len()
        invariant
            k <= tops@.len(),
            forall|m: int| 0 <= m < k ==> tops@[m] is Ok,
        decreases tops@.len() - k,
    {
        if tops[k].is_err() {
            return Some(k);
        }
        k = k + 1;
    }
    None
}

/// The element `k` of `v`.
fn take_at<T>(v: Vec<T>, k: usize) -> (r: T)
    requires k < v@.len(),
    ensures r == v@[k as int],
{
    let mut w = v;
    w.remove(k)
}

} // verus!
