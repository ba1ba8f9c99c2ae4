//! The files read by a parse run: each file (or library section) once, its
//! text, and what was parsed from it, found again by its identity.
use vstd::prelude::*;
use crate::span::{FileId, FileIdView, ParsedId};

verus! {

/// The index of `id` in `ids`, when it occurs there.
pub open spec fn spec_index_of(ids: Seq<FileIdView>, id: FileIdView) -> Option<int> {
    if exists|k: int| 0 <= k < ids.len() && ids[k] == id {
        Some(choose|k: int| 0 <= k < ids.len() && ids[k] == id)
    } else {
        None
    }
}

/// No identity occurs twice.
pub open spec fn spec_distinct(ids: Seq<FileIdView>) -> bool {
    forall|a: int, b: int| 0 <= a < ids.len() && 0 <= b < ids.len() && ids[a] == ids[b] ==> a == b
}

/// The identities after `new_file(id)`: unchanged when `id` is known, else `id` appended.
pub open spec fn spec_new_file(ids: Seq<FileIdView>, id: FileIdView) -> Seq<FileIdView> {
    match spec_index_of(ids, id) {
        Some(_) => ids,
        None => ids.push(id),
    }
}

/// The index that `new_file(id)` returns.
pub open spec fn spec_new_file_index(ids: Seq<FileIdView>, id: FileIdView) -> int {
    match spec_index_of(ids, id) {
        Some(k) => k,
        None => ids.len() as int,
    }
}

#[derive(Debug)]
pub struct FileStorage<P> {
    /// The text of each file, by [`ParsedId`].
    pub file: Vec<String>,
    /// The identity of each file and what was parsed from it, by [`ParsedId`].
    pub parsed: Vec<(FileId, P)>,
}

impl<P> FileStorage<P> {
    /// The identities of the stored files, in order.
    pub open spec fn ids(&self) -> Seq<FileIdView> {
        self.parsed@.map_values(|x: (FileId, P)| x.0@)
    }

    /// Each identity occurs once and every file has its text.
    pub open spec fn wf(&self) -> bool {
        self.file@.len() == self.parsed@.len() && spec_distinct(self.ids())
    }

    pub fn new() -> (r: FileStorage<P>)
        ensures r.wf(), r.ids().len() == 0,
    {
        let r = FileStorage { file: Vec::new(), parsed: Vec::new() };
        assert(r.ids() =~= Seq::<FileIdView>::empty());
        r
    }

    /// The index of the file `file_id`, if it was stored.
    pub fn existed(&self, file_id: &FileId) -> (r: Option<ParsedId>)
        requires self.wf(),
        ensures
            r matches Some(p) ==> spec_index_of(self.ids(), file_id@) == Some(p.0 as int),
            r is None ==> spec_index_of(self.ids(), file_id@) is None,
    {
        let mut k: usize = 0;
        while k < self.parsed.len()
            invariant
                k <= self.parsed@.len(),
                self.wf(),
                forall|m: int| 0 <= m < k ==> self.ids()[m] != file_id@,
            decreases self.parsed@.len() - k,
        {
            if self.parsed[k].0.same(file_id) {
                proof {
                    assert(self.ids()[k as int] == file_id@);
                    let c = choose|m: int| 0 <= m < self.ids().len() && self.ids()[m] == file_id@;
                    assert(c == k);
                }
                return Some(ParsedId(k));
            }
            k = k + 1;
        }
        None
    }

    /// Writes the text and the parse result of the file `parsed_id`.
    pub fn update_ctx(&mut self, parsed_id: &ParsedId, file_ctx: String, parsed: P)
        requires old(self).wf(), parsed_id.0 < old(self).parsed@.len(),
        ensures
            final(self).wf(),
            final(self).ids() == old(self).ids(),
            final(self).file@ == old(self).file@.update(parsed_id.0 as int, file_ctx),
            final(self).parsed@[parsed_id.0 as int].1 == parsed,
            forall|m: int| 0 <= m < old(self).parsed@.len() && m != parsed_id.0 ==> final(self).parsed@[m] == old(self).parsed@[m],
    {
        let k = parsed_id.0;
        self.file.set(k, file_ctx);
        let (id, _old) = self.parsed.remove(k);
        self.parsed.insert(k, (id, parsed));
        assert(self.ids() =~= old(self).ids());
    }
}

impl<P: Default> FileStorage<P> {
    /// The index of the file `file_id`; a file not stored before is stored
    /// with an empty text and a default parse result.
    pub fn new_file(&mut self, file_id: FileId) -> (r: ParsedId)
        requires old(self).wf(),
        ensures
            final(self).wf(),
            final(self).ids() == spec_new_file(old(self).ids(), file_id@),
            r.0 == spec_new_file_index(old(self).ids(), file_id@),
            spec_index_of(old(self).ids(), file_id@) is Some ==> final(self).file@ == old(self).file@ && final(self).parsed@ == old(self).parsed@,
            spec_index_of(old(self).ids(), file_id@) is None ==> final(self).file@.len() == old(self).file@.len() + 1
                && final(self).file@.subrange(0, old(self).file@.len() as int) == old(self).file@
                && final(self).file@.last()@ == Seq::<char>::empty()
                && final(self).parsed@.subrange(0, old(self).parsed@.len() as int) == old(self).parsed@
                && final(self).parsed@.last().0@ == file_id@
                && call_ensures(P::default, (), final(self).parsed@.last().1),
    {
        match self.existed(&file_id) {
            Some(p) => p,
            None => {
                let n = self.file.len();
                let ghost id = file_id@;
                self.file.push(String::new());
                let fresh = P::default();
                self.parsed.push((file_id, fresh));
                assert(self.ids() =~= old(self).ids().push(id));
                assert forall|a: int, b: int| 0 <= a < self.ids().len() && 0 <= b < self.ids().len() && self.ids()[a] == self.ids()[b] implies a == b by {
                    if a == n as int && b < n as int {
                        assert(old(self).ids()[b] == id);
                    }
                    if b == n as int && a < n as int {
                        assert(old(self).ids()[a] == id);
                    }
                }
                assert(self.parsed@.subrange(0, n as int) =~= old(self).parsed@);
                assert(self.file@.subrange(0, n as int) =~= old(self).file@);
                ParsedId(n)
            },
        }
    }
}

} // verus!

verus! {

proof fn lemma_index_of_unique(ids: Seq<FileIdView>, id: FileIdView, k: int)
    requires spec_distinct(ids), 0 <= k < ids.len(), ids[k] == id,
    ensures spec_index_of(ids, id) == Some(k),
{
    let c = choose|m: int| 0 <= m < ids.len() && ids[m] == id;
    assert(c == k);
}

/// Storing a file keeps every identity once.
pub proof fn law_new_file_distinct(ids: Seq<FileIdView>, id: FileIdView)
    requires spec_distinct(ids),
    ensures spec_distinct(spec_new_file(ids, id)),
{
    if spec_index_of(ids, id) is None {
        let n = spec_new_file(ids, id);
        assert forall|a: int, b: int| 0 <= a < n.len() && 0 <= b < n.len() && n[a] == n[b] implies a == b by {
            if a == ids.len() && b < ids.len() { assert(ids[b] == id); }
            if b == ids.len() && a < ids.len() { assert(ids[a] == id); }
        }
    }
}

/// After `new_file(id)`, looking `id` up gives the index that `new_file` returned.
pub proof fn law_new_file_then_existed(ids: Seq<FileIdView>, id: FileIdView)
    requires spec_distinct(ids),
    ensures
        spec_index_of(spec_new_file(ids, id), id) == Some(spec_new_file_index(ids, id)),
        0 <= spec_new_file_index(ids, id) < spec_new_file(ids, id).len(),
{
    law_new_file_distinct(ids, id);
    match spec_index_of(ids, id) {
        Some(k) => {
            let c = choose|m: int| 0 <= m < ids.len() && ids[m] == id;
            assert(0 <= c < ids.len() && ids[c] == id);
        },
        None => {
            lemma_index_of_unique(ids.push(id), id, ids.len() as int);
        },
    }
}

/// Storing the same file twice stores it once: the second call changes
/// nothing and returns the same index.
pub proof fn law_new_file_idempotent(ids: Seq<FileIdView>, id: FileIdView)
    requires spec_distinct(ids),
    ensures
        spec_new_file(spec_new_file(ids, id), id) == spec_new_file(ids, id),
        spec_new_file_index(spec_new_file(ids, id), id) == spec_new_file_index(ids, id),
{
    law_new_file_then_existed(ids, id);
}

/// Storing a file does not change where any other file is found.
pub proof fn law_new_file_keeps_others(ids: Seq<FileIdView>, id: FileIdView, other: FileIdView)
    requires spec_distinct(ids), other != id,
    ensures spec_index_of(spec_new_file(ids, id), other) == spec_index_of(ids, other),
{
    law_new_file_distinct(ids, id);
    if spec_index_of(ids, id) is None {
        let n = ids.push(id);
        match spec_index_of(ids, other) {
            Some(k) => {
                let c = choose|m: int| 0 <= m < ids.len() && ids[m] == other;
                assert(0 <= c < ids.len() && ids[c] == other);
                assert(n[c] == other);
                lemma_index_of_unique(n, other, c);
            },
            None => {
                assert forall|m: int| 0 <= m < n.len() implies n[m] != other by {
                    if m < ids.len() {
                        assert(n[m] == ids[m]);
                    }
                }
            },
        }
    }
}

} // verus!
