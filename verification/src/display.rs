//! Writing lists of items as SPICE text: on one line, one per line, or
//! wrapped into continuation lines.
use vstd::prelude::*;

verus! {

/// Each of `pieces[..k]` preceded by `sep`.
pub open spec fn spec_each_after<T>(pieces: Seq<Seq<T>>, sep: Seq<T>, k: int) -> Seq<T>
    decreases k,
{
    if k <= 0 || k > pieces.len() { Seq::empty() } else { spec_each_after(pieces, sep, k - 1) + sep + pieces[k - 1] }
}

/// The pieces on one line, each preceded by `sep`, but for the first one
/// when `skip_first_sep`.
pub open spec fn spec_inline<T>(pieces: Seq<Seq<T>>, sep: T, skip_first_sep: bool) -> Seq<T> {
    if skip_first_sep && pieces.len() > 0 {
        pieces[0] + spec_each_after(pieces.drop_first(), seq![sep], pieces.len() - 1)
    } else {
        spec_each_after(pieces, seq![sep], pieces.len() as int)
    }
}

/// The pieces, each on a line of its own (each preceded by the newline `nl`).
pub open spec fn spec_multiline<T>(pieces: Seq<Seq<T>>, nl: T) -> Seq<T> {
    spec_each_after(pieces, seq![nl], pieces.len() as int)
}

/// The pieces `pieces[k..]` in lines of `wrap_size`: each line starts with
/// the newline `nl` and `line_sep`, and its items are separated by `item_sep`.
pub open spec fn spec_wrap<T>(pieces: Seq<Seq<T>>, nl: T, line_sep: Seq<T>, item_sep: T, wrap_size: nat, k: int) -> Seq<T>
    decreases pieces.len() - k,
{
    if 0 <= k < pieces.len() && wrap_size > 0 {
        let e = if k + wrap_size < pieces.len() { k + wrap_size } else { pieces.len() as int };
        seq![nl] + line_sep + spec_inline(pieces.subrange(k, e), item_sep, true)
            + spec_wrap(pieces, nl, line_sep, item_sep, wrap_size, e)
    } else {
        Seq::empty()
    }
}

/// Appends `piece` to `f`.
fn put<T: Copy>(f: &mut Vec<T>, piece: &[T])
    ensures final(f)@ == old(f)@ + piece@,
{
    let mut tail = vstd::slice::slice_to_vec(piece);
    f.append(&mut tail);
}

/// Writes `pieces[start..end]`, each preceded by `sep`.
fn each_after<T: Copy>(f: &mut Vec<T>, pieces: &Vec<Vec<T>>, sep: &[T], start: usize, end: usize)
    requires start <= end <= pieces@.len(),
    ensures
        final(f)@ == old(f)@ + spec_each_after(pieces@.map_values(|p: Vec<T>| p@).subrange(start as int, end as int),
            sep@, end - start),
{
    let ghost pv = pieces@.map_values(|p: Vec<T>| p@).subrange(start as int, end as int);
    let ghost f0 = f@;
    let mut k = start;
    while k < end
        invariant
            start <= k <= end <= pieces@.len(),
            pv == pieces@.map_values(|p: Vec<T>| p@).subrange(start as int, end as int),
            f@ == f0 + spec_each_after(pv, sep@, k - start),
        decreases end - k,
    {
        put(f, sep);
        put(f, pieces[k].as_slice());
        k = k + 1;
        assert(pv[k - start - 1] == pieces@[k - 1]@);
        assert(f@ =~= f0 + spec_each_after(pv, sep@, k - start));
    }
}

/// Writes the pieces on one line, each preceded by `sep` (but for the
/// first one when `skip_first_sep`).
pub fn display_inline<T: Copy>(f: &mut Vec<T>, pieces: &Vec<Vec<T>>, sep: T, skip_first_sep: bool)
    ensures final(f)@ == old(f)@ + spec_inline(pieces@.map_values(|p: Vec<T>| p@), sep, skip_first_sep),
{
    let ghost pv = pieces@.map_values(|p: Vec<T>| p@);
    let s = [sep];
    let n = pieces.len();
    assert(s@ =~= seq![sep]);
    if skip_first_sep && n > 0 {
        put(f, pieces[0].as_slice());
        each_after(f, pieces, &s, 1, n);
        assert(pv.subrange(1, n as int) =~= pv.drop_first());
    } else {
        each_after(f, pieces, &s, 0, n);
        assert(pv.subrange(0, n as int) =~= pv);
    }
}

/// Writes the pieces, each on a line of its own (each preceded by `nl`).
pub fn display_multiline<T: Copy>(f: &mut Vec<T>, pieces: &Vec<Vec<T>>, nl: T)
    ensures final(f)@ == old(f)@ + spec_multiline(pieces@.map_values(|p: Vec<T>| p@), nl),
{
    let ghost pv = pieces@.map_values(|p: Vec<T>| p@);
    let s = [nl];
    assert(s@ =~= seq![nl]);
    each_after(f, pieces, &s, 0, pieces.len());
    assert(pv.subrange(0, pv.len() as int) =~= pv);
}

/// Writes the pieces in lines of `wrap_size` items: each line starts with
/// the newline `nl` and `line_sep`, and its items are separated by `item_sep`.
pub fn display_wrap<T: Copy>(f: &mut Vec<T>, pieces: &Vec<Vec<T>>, nl: T, line_sep: &[T], item_sep: T, wrap_size: usize)
    requires wrap_size > 0,
    ensures
        final(f)@ == old(f)@ + spec_wrap(pieces@.map_values(|p: Vec<T>| p@), nl, line_sep@, item_sep, wrap_size as nat, 0),
{
    let ghost pv = pieces@.map_values(|p: Vec<T>| p@);
    let ghost goal = f@ + spec_wrap(pv, nl, line_sep@, item_sep, wrap_size as nat, 0);
    let s = [item_sep];
    let nls = [nl];
    assert(s@ =~= seq![item_sep]);
    assert(nls@ =~= seq![nl]);
    let n = pieces.len();
    let mut k: usize = 0;
    while k < n
        invariant
            n == pieces@.len(),
            pv == pieces@.map_values(|p: Vec<T>| p@),
            s@ == seq![item_sep],
            nls@ == seq![nl],
            wrap_size > 0,
            k <= n,
            f@ + spec_wrap(pv, nl, line_sep@, item_sep, wrap_size as nat, k as int) == goal,
        decreases n - k,
    {
        let e = if wrap_size < n - k { k + wrap_size } else { n };
        let ghost before = f@;
        put(f, &nls);
        put(f, line_sep);
        put(f, pieces[k].as_slice());
        each_after(f, pieces, &s, k + 1, e);
        proof {
            let chunk = pv.subrange(k as int, e as int);
            assert(chunk.drop_first() =~= pv.subrange(k + 1, e as int));
            assert(chunk[0] == pieces@[k as int]@);
            assert(f@ =~= before + (seq![nl] + line_sep@ + spec_inline(chunk, item_sep, true)));
        }
        k = e;
    }
}

/// An optional item, written only when it is there.
pub struct OptionDispaly<'a, T, F: Fn(&T) -> Vec<u8>>(pub &'a Option<T>, pub F);

impl<'a, T, F: Fn(&T) -> Vec<u8>> OptionDispaly<'a, T, F> {
    /// Writes what the formatter gives for the item, if there is one.
    pub fn write(&self, f: &mut Vec<u8>)
        requires self.0 matches Some(t) ==> self.1.requires((t,)),
        ensures
            match self.0 {
                Some(t) => exists|p: Vec<u8>| self.1.ensures((t,), p) && final(f)@ == old(f)@ + p@,
                None => final(f)@ == old(f)@,
            },
    {
        match self.0 {
            Some(t) => {
                let p = (self.1)(t);
                put(f, p.as_slice());
            },
            None => {},
        }
    }
}

} // verus!
