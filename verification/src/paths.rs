//! File paths as the parse run compares them: by their components, as
//! `std::path::Path` does on Unix. A root is a component of its own, empty
//! components (repeated or trailing `/`) are dropped, and `.` is dropped
//! except at the very start of a relative path. Two paths name the same
//! file exactly when their normal forms are equal.
use vstd::prelude::*;

verus! {

/// The pieces of `p` between its `/` bytes, in order (empty ones too).
pub open spec fn split_slash(p: Seq<u8>) -> Seq<Seq<u8>>
    decreases p.len(),
{
    if p.len() == 0 {
        seq![Seq::empty()]
    } else {
        let r = split_slash(p.drop_last());
        if p.last() == 0x2f { r.push(Seq::empty()) } else { r.update(r.len() - 1, r.last().push(p.last())) }
    }
}

/// The piece at `j` is a component: not empty, and not `.` unless it is
/// the first piece.
pub open spec fn keep_piece(ps: Seq<Seq<u8>>, j: int) -> bool {
    ps[j].len() > 0 && (ps[j] != seq![0x2eu8] || j == 0)
}

/// The components among the first `k` pieces.
pub open spec fn kept(ps: Seq<Seq<u8>>, k: int) -> Seq<Seq<u8>>
    decreases k,
{
    if k <= 0 { Seq::empty() } else { kept(ps, k - 1) + if keep_piece(ps, k - 1) { seq![ps[k - 1]] } else { Seq::empty() } }
}

/// `p` starts at the root.
pub open spec fn rooted(p: Seq<u8>) -> bool {
    p.len() > 0 && p[0] == 0x2f
}

/// The components of `p`: `/` for a root, then its pieces that count.
pub open spec fn path_parts(p: Seq<u8>) -> Seq<Seq<u8>> {
    (if rooted(p) { seq![seq![0x2fu8]] } else { Seq::empty() }) + kept(split_slash(p), split_slash(p).len() as int)
}

/// Components joined by `/`.
pub open spec fn join_slash(cs: Seq<Seq<u8>>) -> Seq<u8>
    decreases cs.len(),
{
    if cs.len() == 0 {
        Seq::empty()
    } else if cs.len() == 1 {
        cs[0]
    } else {
        join_slash(cs.drop_last()) + seq![0x2fu8] + cs.last()
    }
}

/// The path that components `cs` make: a root, then the others joined by `/`.
pub open spec fn path_of_parts(cs: Seq<Seq<u8>>) -> Seq<u8> {
    if cs.len() > 0 && cs[0] == seq![0x2fu8] { seq![0x2fu8] + join_slash(cs.drop_first()) } else { join_slash(cs) }
}

/// The normal form of `p`: the path its components make.
pub open spec fn spec_normal_path(p: Seq<u8>) -> Seq<u8> {
    path_of_parts(path_parts(p))
}

proof fn lemma_split_facts(p: Seq<u8>)
    ensures
        split_slash(p).len() >= 1,
        forall|j: int, m: int| 0 <= j < split_slash(p).len() && 0 <= m < split_slash(p)[j].len()
            ==> split_slash(p)[j][m] != 0x2f,
        rooted(p) ==> split_slash(p)[0].len() == 0 && split_slash(p).len() >= 2,
    decreases p.len(),
{
    if p.len() > 0 {
        lemma_split_facts(p.drop_last());
        let r = split_slash(p.drop_last());
        if p.len() > 1 {
            assert(p.drop_last()[0] == p[0]);
        } else {
            assert(r =~= seq![Seq::<u8>::empty()]);
            if rooted(p) {
                assert(p.last() == p[0]);
            }
        }
        if p.last() != 0x2f {
            let l = r.last().push(p.last());
            assert forall|m: int| 0 <= m < l.len() implies l[m] != 0x2f by {
                if m < r.last().len() { assert(l[m] == r[r.len() - 1][m]); }
            }
        }
    }
}

proof fn lemma_kept_no_root(ps: Seq<Seq<u8>>, k: int)
    requires
        0 <= k <= ps.len(),
        forall|j: int, m: int| 0 <= j < ps.len() && 0 <= m < ps[j].len() ==> ps[j][m] != 0x2f,
    ensures
        forall|j: int| 0 <= j < kept(ps, k).len() ==> kept(ps, k)[j] != seq![0x2fu8],
    decreases k,
{
    if k > 0 {
        lemma_kept_no_root(ps, k - 1);
        let a = kept(ps, k - 1);
        if keep_piece(ps, k - 1) {
            assert(ps[k - 1][0] != 0x2f);
            assert(ps[k - 1] != seq![0x2fu8]) by {
                if ps[k - 1] == seq![0x2fu8] { assert(ps[k - 1][0] == 0x2f); }
            }
            assert forall|j: int| 0 <= j < kept(ps, k).len() implies kept(ps, k)[j] != seq![0x2fu8] by {
                if j < a.len() { assert(kept(ps, k)[j] == a[j]); } else { assert(kept(ps, k)[j] == ps[k - 1]); }
            }
        } else {
            assert(kept(ps, k) =~= a);
        }
    }
}

/// The normal form of `p[..k]`'s first `k` pieces, written out: `out`
/// holds the kept pieces among `ps[..k]` joined by `/`.
proof fn lemma_join_push(cs: Seq<Seq<u8>>, c: Seq<u8>)
    ensures
        join_slash(cs.push(c)) == if cs.len() == 0 { c } else { join_slash(cs) + seq![0x2fu8] + c },
{
    assert(cs.push(c).drop_last() =~= cs);
}

/// No byte of `y` is `/`.
pub open spec fn no_slash(y: Seq<u8>) -> bool {
    forall|m: int| 0 <= m < y.len() ==> y[m] != 0x2f
}

proof fn lemma_split_concat(x: Seq<u8>, z: Seq<u8>)
    ensures split_slash(x + seq![0x2fu8] + z) == split_slash(x) + split_slash(z),
    decreases z.len(),
{
    let xs = x + seq![0x2fu8];
    assert(xs.drop_last() =~= x);
    if z.len() == 0 {
        assert(xs + z =~= xs);
        assert(split_slash(x).push(Seq::empty()) =~= split_slash(x) + seq![Seq::<u8>::empty()]);
    } else {
        let zd = z.drop_last();
        lemma_split_concat(x, zd);
        lemma_split_facts(zd);
        assert((xs + z).drop_last() =~= xs + zd);
        assert((xs + z).last() == z.last());
        let a = split_slash(x);
        let b = split_slash(zd);
        if z.last() == 0x2f {
            assert((a + b).push(Seq::empty()) =~= a + b.push(Seq::empty()));
        } else {
            let ab = a + b;
            assert(ab.last() == b.last());
            assert(ab.update(ab.len() - 1, ab.last().push(z.last())) =~= a + b.update(b.len() - 1, b.last().push(z.last())));
        }
    }
}

proof fn lemma_split_plain(y: Seq<u8>)
    requires no_slash(y),
    ensures split_slash(y) == seq![y],
    decreases y.len(),
{
    if y.len() > 0 {
        assert(y.last() == y[y.len() - 1]);
        lemma_split_plain(y.drop_last());
        assert(y.drop_last().push(y.last()) =~= y);
        assert(seq![y.drop_last()].update(0, y.drop_last().push(y.last())) =~= seq![y]);
    } else {
        assert(y =~= Seq::<u8>::empty());
    }
}

proof fn lemma_split_join(cs: Seq<Seq<u8>>)
    requires cs.len() >= 1, forall|j: int| 0 <= j < cs.len() ==> no_slash(#[trigger] cs[j]),
    ensures split_slash(join_slash(cs)) == cs,
    decreases cs.len(),
{
    if cs.len() == 1 {
        lemma_split_plain(cs[0]);
        assert(seq![cs[0]] =~= cs);
    } else {
        let init = cs.drop_last();
        lemma_split_join(init);
        lemma_split_concat(join_slash(init), cs.last());
        lemma_split_plain(cs.last());
        assert(init + seq![cs.last()] =~= cs);
    }
}

proof fn lemma_join_head(cs: Seq<Seq<u8>>)
    requires cs.len() >= 1,
    ensures
        join_slash(cs).len() >= cs[0].len(),
        forall|m: int| 0 <= m < cs[0].len() ==> join_slash(cs)[m] == cs[0][m],
    decreases cs.len(),
{
    if cs.len() > 1 {
        let init = cs.drop_last();
        lemma_join_head(init);
        assert(init[0] == cs[0]);
    }
}

proof fn lemma_kept_facts(ps: Seq<Seq<u8>>, k: int)
    requires
        0 <= k <= ps.len(),
        forall|j: int| 0 <= j < ps.len() ==> no_slash(#[trigger] ps[j]),
    ensures
        forall|i: int| 0 <= i < kept(ps, k).len() ==> (#[trigger] kept(ps, k)[i]).len() > 0 && no_slash(kept(ps, k)[i])
            && (kept(ps, k)[i] == seq![0x2eu8] ==> i == 0 && ps[0] == seq![0x2eu8]),
    decreases k,
{
    if k > 0 {
        lemma_kept_facts(ps, k - 1);
        let a = kept(ps, k - 1);
        if keep_piece(ps, k - 1) {
            assert forall|i: int| 0 <= i < kept(ps, k).len() implies (#[trigger] kept(ps, k)[i]).len() > 0
                && no_slash(kept(ps, k)[i]) && (kept(ps, k)[i] == seq![0x2eu8] ==> i == 0 && ps[0] == seq![0x2eu8]) by {
                if i < a.len() {
                    assert(kept(ps, k)[i] == a[i]);
                } else {
                    assert(kept(ps, k)[i] == ps[k - 1]);
                    if ps[k - 1] == seq![0x2eu8] {
                        assert(k - 1 == 0);
                        assert(kept(ps, 0).len() == 0);
                    }
                }
            }
        } else {
            assert(kept(ps, k) =~= a);
        }
    }
}

proof fn lemma_kept_from(ps: Seq<Seq<u8>>, k: int, s: int)
    requires
        0 <= s <= k <= ps.len(),
        forall|j: int| 0 <= j < s ==> !keep_piece(ps, j),
        forall|j: int| s <= j < k ==> keep_piece(ps, j),
    ensures kept(ps, k) == ps.subrange(s, k),
    decreases k,
{
    if k > s {
        lemma_kept_from(ps, k - 1, s);
        assert(ps.subrange(s, k - 1) + seq![ps[k - 1]] =~= ps.subrange(s, k));
    } else if k > 0 {
        lemma_kept_from(ps, k - 1, if s <= k - 1 { s } else { k - 1 });
        assert(kept(ps, k) =~= Seq::<Seq<u8>>::empty());
        assert(ps.subrange(s, k) =~= Seq::<Seq<u8>>::empty());
    } else {
        assert(ps.subrange(s, k) =~= Seq::<Seq<u8>>::empty());
    }
}

/// Normalising a path keeps its components.
pub proof fn law_normal_keeps_parts(p: Seq<u8>)
    ensures path_parts(spec_normal_path(p)) == path_parts(p),
{
    let ps = split_slash(p);
    lemma_split_facts(p);
    assert forall|j: int| 0 <= j < ps.len() implies no_slash(#[trigger] ps[j]) by {}
    let k = kept(ps, ps.len() as int);
    lemma_kept_facts(ps, ps.len() as int);
    lemma_kept_no_root(ps, ps.len() as int);
    let n = spec_normal_path(p);
    if rooted(p) {
        let cs = seq![seq![0x2fu8]] + k;
        assert(path_parts(p) == cs);
        assert(cs[0] == seq![0x2fu8]);
        assert(cs.drop_first() =~= k);
        assert(n == seq![0x2fu8] + join_slash(k));
        lemma_split_concat(Seq::empty(), join_slash(k));
        assert(Seq::<u8>::empty() + seq![0x2fu8] + join_slash(k) =~= n);
        assert(n[0] == 0x2f);
        let sn = split_slash(n);
        if k.len() == 0 {
            assert(sn =~= seq![Seq::<u8>::empty(), Seq::<u8>::empty()]);
            lemma_kept_from(sn, 2, 2);
            assert(kept(sn, 2) =~= Seq::<Seq<u8>>::empty());
        } else {
            assert forall|j: int| 0 <= j < k.len() implies no_slash(#[trigger] k[j]) by {}
            lemma_split_join(k);
            assert(sn =~= seq![Seq::<u8>::empty()] + k);
            assert forall|j: int| 1 <= j < sn.len() implies keep_piece(sn, j) by {
                assert(sn[j] == k[j - 1]);
                if k[j - 1] == seq![0x2eu8] { assert(ps[0] == seq![0x2eu8]); assert(ps[0].len() == 0); }
            }
            lemma_kept_from(sn, sn.len() as int, 1);
            assert(sn.subrange(1, sn.len() as int) =~= k);
        }
        assert(path_parts(n) =~= cs);
    } else {
        assert(path_parts(p) =~= k);
        if k.len() == 0 {
            assert(n =~= Seq::<u8>::empty());
            let e = seq![Seq::<u8>::empty()];
            assert(split_slash(n) == e);
            assert(!keep_piece(e, 0));
            assert(kept(e, 0) =~= Seq::<Seq<u8>>::empty());
            assert(kept(e, 1) =~= Seq::<Seq<u8>>::empty());
            assert(path_parts(n) =~= k);
        } else {
            assert(k[0] != seq![0x2fu8]);
            assert(n == join_slash(k));
            assert forall|j: int| 0 <= j < k.len() implies no_slash(#[trigger] k[j]) by {}
            lemma_split_join(k);
            lemma_join_head(k);
            assert(k[0].len() > 0);
            assert(n[0] == k[0][0]);
            assert(!rooted(n));
            assert forall|j: int| 0 <= j < k.len() implies keep_piece(k, j) by {
                assert(k[j].len() > 0);
            }
            lemma_kept_from(k, k.len() as int, 0);
            assert(k.subrange(0, k.len() as int) =~= k);
            assert(path_parts(n) =~= k);
        }
    }
}

/// Two paths have the same normal form exactly when they have the same
/// components: the normal form is how the parse run tells files apart.
pub proof fn law_normal_identifies(p: Seq<u8>, q: Seq<u8>)
    ensures (spec_normal_path(p) == spec_normal_path(q)) <==> (path_parts(p) == path_parts(q)),
{
    law_normal_keeps_parts(p);
    law_normal_keeps_parts(q);
}

/// The normal form of the path `p`.
pub fn normal_path(p: &[u8]) -> (r: Vec<u8>)
    ensures r@ == spec_normal_path(p@),
{
    // The pieces between slashes.
    let mut pieces: Vec<Vec<u8>> = Vec::new();
    pieces.push(Vec::new());
    let n = p.len();
    let mut k: usize = 0;
    while k < n
        invariant
            k <= n == p@.len(),
            pieces@.len() >= 1,
            pieces@.map_values(|x: Vec<u8>| x@) == split_slash(p@.subrange(0, k as int)),
        decreases n - k,
    {
        let ghost before = pieces@.map_values(|x: Vec<u8>| x@);
        proof {
            assert(p@.subrange(0, k + 1).drop_last() =~= p@.subrange(0, k as int));
            assert(p@.subrange(0, k + 1).last() == p@[k as int]);
        }
        if p[k] == 0x2f {
            pieces.push(Vec::new());
            assert(pieces@.map_values(|x: Vec<u8>| x@) =~= before.push(Seq::empty()));
        } else {
            let mut last = pieces.pop().unwrap();
            let ghost lv = last@;
            assert(lv == before.last());
            last.push(p[k]);
            pieces.push(last);
            assert(pieces@.map_values(|x: Vec<u8>| x@) =~= before.update(before.len() - 1, lv.push(p@[k as int])));
        }
        k = k + 1;
    }
    let ghost ps = pieces@.map_values(|x: Vec<u8>| x@);
    assert(p@.subrange(0, n as int) =~= p@);
    proof { lemma_split_facts(p@); }
    let root = n > 0 && p[0] == 0x2f;
    let ghost cs = kept(ps, ps.len() as int);
    // The kept pieces joined by `/`.
    let mut body: Vec<u8> = Vec::new();
    let mut any = false;
    let mut j: usize = 0;
    while j < pieces.len()
        invariant
            ps == pieces@.map_values(|x: Vec<u8>| x@),
            j <= ps.len(),
            any == (kept(ps, j as int).len() > 0),
            body@ == join_slash(kept(ps, j as int)),
        decreases ps.len() - j,
    {
        let piece = &pieces[j];
        assert(piece@ == ps[j as int]);
        let is_dot = piece.len() == 1 && piece[0] == 0x2e;
        proof {
            if piece@.len() == 1 && piece@[0] == 0x2e { assert(piece@ =~= seq![0x2eu8]); }
        }
        if piece.len() > 0 && (!is_dot || j == 0) {
            proof { lemma_join_push(kept(ps, j as int), ps[j as int]); }
            if any {
                body.push(0x2f);
            }
            let mut add = vstd::slice::slice_to_vec(piece.as_slice());
            body.append(&mut add);
            any = true;
            assert(kept(ps, j + 1) == kept(ps, j as int).push(ps[j as int]));
        } else {
            assert(kept(ps, j + 1) =~= kept(ps, j as int));
        }
        j = j + 1;
    }
    proof {
        lemma_kept_no_root(ps, ps.len() as int);
        let parts = path_parts(p@);
        if root {
            assert(parts == seq![seq![0x2fu8]] + cs);
            assert(parts[0] == seq![0x2fu8]);
            assert(parts.drop_first() =~= cs);
        } else {
            assert(parts =~= cs);
            if cs.len() > 0 { assert(cs[0] != seq![0x2fu8]); }
        }
    }
    if root {
        let mut r: Vec<u8> = Vec::new();
        r.push(0x2f);
        r.append(&mut body);
        r
    } else {
        body
    }
}

} // verus!
