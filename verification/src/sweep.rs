//! The layout of a sweep output file of the simulator: after the word
//! `sweep`, the names of the signals (`v(node`, `i(elem`, `p(elem`), the
//! marker `$&%#`, then fields of 13 characters; the fields come in rows of
//! one sweep value and one value per signal.
use vstd::prelude::*;
use crate::chars::{fold_name, spec_fold};
use crate::lex::{lemma_scan_bounds, scan, spec_scan, Class};
use crate::span::{span_of, Span};
use crate::values::{key, lift, spec_key};

verus! {

/// The kind of a signal.
#[derive(Debug, Clone, Copy, PartialEq, Eq, Structural)]
pub enum DataType {
    /// a voltage, `v(`
    V,
    /// a current, `i(`
    I,
    /// a power, `p(`
    P,
}

/// A signal: its kind and the bytes of its name.
#[derive(Debug, Clone)]
pub struct DataName {
    pub ty: DataType,
    pub name: Vec<u8>,
}

impl DataName {
    /// The same kind, and names equal once lower-cased.
    pub fn same(&self, other: &DataName) -> (r: bool)
        ensures
            r == (self.ty == other.ty && spec_fold(self.name@) == spec_fold(other.name@)),
    {
        if self.ty != other.ty {
            return false;
        }
        let a = fold_name(self.name.as_slice());
        let b = fold_name(other.name.as_slice());
        crate::netlist::bytes_eq(a.as_slice(), b.as_slice())
    }
}

/// The kind letter at `i` (lower case only).
pub open spec fn spec_data_type(s: Seq<u8>, i: int) -> Option<(DataType, int)> {
    if 0 <= i < s.len() {
        if s[i] == 0x76 { Some((DataType::V, i + 1)) }
        else if s[i] == 0x69 { Some((DataType::I, i + 1)) }
        else if s[i] == 0x70 { Some((DataType::P, i + 1)) }
        else { None }
    } else {
        None
    }
}

pub fn data_type(s: &[u8], i: usize) -> (r: Option<(DataType, usize)>)
    requires i <= s@.len(),
    ensures lift(r) == spec_data_type(s@, i as int),
{
    if i < s.len() {
        if s[i] == 0x76 { Some((DataType::V, i + 1)) }
        else if s[i] == 0x69 { Some((DataType::I, i + 1)) }
        else if s[i] == 0x70 { Some((DataType::P, i + 1)) }
        else { None }
    } else {
        None
    }
}

/// A signal `k(name` at `i`: the kind, `(`, and a name of word bytes.
pub open spec fn spec_data_name(s: Seq<u8>, i: int) -> Option<((DataType, Span), int)> {
    match spec_data_type(s, i) {
        Some((t, j)) => if j < s.len() && s[j] == 0x28 {
            match spec_key(s, j + 1) {
                Some((n, k)) => Some(((t, n), k)),
                None => None,
            }
        } else {
            None
        },
        None => None,
    }
}

/// The signal at `i`, with the bytes of its name.
pub fn data_name(s: &[u8], i: usize) -> (r: Option<(DataName, usize)>)
    requires i <= s@.len(),
    ensures
        match spec_data_name(s@, i as int) {
            Some(((t, n), k)) => match r {
                Some((d, j)) => d.ty == t && j == k && d.name@ == s@.subrange(n.start as int, n.end as int),
                None => false,
            },
            None => r is None,
        },
{
    let (t, j) = match data_type(s, i) {
        Some(x) => x,
        None => return None,
    };
    if !(j < s.len() && s[j] == 0x28) {
        return None;
    }
    let (n, k) = match key(s, j + 1) {
        Some(x) => x,
        None => return None,
    };
    let (a, _) = s.split_at(n.end);
    let (_, name) = a.split_at(n.start);
    assert(name@ =~= s@.subrange(n.start as int, n.end as int));
    Some((DataName { ty: t, name: vstd::slice::slice_to_vec(name) }, k))
}

impl PartialEq for DataName {
    fn eq(&self, other: &Self) -> (r: bool) {
        self.same(other)
    }
}

impl Eq for DataName {}

impl vstd::std_specs::cmp::PartialEqSpecImpl for DataName {
    open spec fn obeys_eq_spec() -> bool {
        true
    }

    open spec fn eq_spec(&self, other: &DataName) -> bool {
        self.ty == other.ty && spec_fold(self.name@) == spec_fold(other.name@)
    }
}

/// The end of the blanks and newlines at `i`.
pub open spec fn skip_sn(s: Seq<u8>, i: int) -> int {
    spec_scan(s, i, Class::SpaceNl)
}

/// The signals from `i` on, each after blanks and newlines, and where they end.
pub open spec fn spec_names_from(s: Seq<u8>, i: int) -> (Seq<(DataType, Span)>, int)
    decreases s.len() - i,
{
    if 0 <= i <= s.len() {
        let j = skip_sn(s, i);
        match spec_data_name(s, j) {
            Some((x, k)) => if k > i && k <= s.len() {
                let (rest, e) = spec_names_from(s, k);
                (seq![x] + rest, e)
            } else {
                (Seq::empty(), i)
            },
            None => (Seq::empty(), i),
        }
    } else {
        (Seq::empty(), i)
    }
}

/// `w` starts at `p`.
pub open spec fn word_at(s: Seq<u8>, p: int, w: Seq<u8>) -> bool {
    0 <= p && p + w.len() <= s.len() && s.subrange(p, p + w.len()) == w
}

/// The bytes of `sweep`.
pub open spec fn sweep_word() -> Seq<u8> {
    seq![0x73u8, 0x77, 0x65, 0x65, 0x70]
}

/// The bytes of `$&%#`.
pub open spec fn end_mark() -> Seq<u8> {
    seq![0x24u8, 0x26, 0x25, 0x23]
}

/// The first place of `w` in `s` from `p` on.
pub open spec fn first_from(s: Seq<u8>, w: Seq<u8>, p: int) -> Option<int>
    decreases s.len() + 1 - p,
{
    if p < 0 || p > s.len() || p + w.len() > s.len() {
        None
    } else if word_at(s, p, w) {
        Some(p)
    } else {
        first_from(s, w, p + 1)
    }
}

/// The header of a sweep file: the signals after the first `sweep` (at
/// least one), then `$&%#`; and where the fields start.
pub open spec fn spec_sweep_names(s: Seq<u8>) -> Option<(Seq<(DataType, Span)>, int)> {
    match first_from(s, sweep_word(), 0) {
        Some(p) => {
            let (names, e) = spec_names_from(s, p + 5);
            let j = skip_sn(s, e);
            if names.len() > 0 && word_at(s, j, end_mark()) { Some((names, skip_sn(s, j + 4))) } else { None }
        },
        None => None,
    }
}

/// The candidate fields from `i` on: after blanks and newlines, 13 bytes each.
pub open spec fn spec_fields(s: Seq<u8>, i: int) -> Seq<Span>
    decreases s.len() - i,
{
    if 0 <= i <= s.len() {
        let j = skip_sn(s, i);
        proof { lemma_scan_bounds(s, i, Class::SpaceNl); }
        if j + 13 <= s.len() { seq![span_of(j, j + 13)] + spec_fields(s, j + 13) } else { Seq::empty() }
    } else {
        Seq::empty()
    }
}

/// For each of `n_names` signals, the indexes of its values among
/// `n_values` values laid out in rows of one sweep value and one value per
/// signal (an incomplete last row is dropped).
pub open spec fn spec_columns(n_names: nat, n_values: nat) -> Seq<Seq<int>> {
    let row = n_names + 1;
    let size = n_values / row;
    Seq::new(n_names, |j: int| Seq::new(size, |i: int| i * row + j + 1))
}

fn find_word(s: &[u8], w: &[u8]) -> (r: Option<usize>)
    ensures
        r matches Some(p) ==> first_from(s@, w@, 0) == Some(p as int) && word_at(s@, p as int, w@),
        r is None ==> first_from(s@, w@, 0) is None,
{
    let n = s.len();
    let m = w.len();
    if m > n {
        return None;
    }
    let mut p: usize = 0;
    while p <= n - m
        invariant
            n == s@.len(),
            m == w@.len(),
            m <= n,
            first_from(s@, w@, p as int) == first_from(s@, w@, 0),
        decreases n - p,
    {
        let mut k: usize = 0;
        while k < m && s[p + k] == w[k]
            invariant
                p + m <= n,
                n == s@.len(),
                m == w@.len(),
                k <= m,
                forall|t: int| 0 <= t < k ==> s@[p + t] == w@[t],
            decreases m - k,
        {
            k = k + 1;
        }
        if k == m {
            assert(s@.subrange(p as int, p + m) =~= w@);
            return Some(p);
        }
        assert(s@.subrange(p as int, p + m)[k as int] != w@[k as int]);
        p = p + 1;
    }
    None
}

/// The signals from `i` on, with the bytes of their names, and where they end.
fn names_from(s: &[u8], i: usize) -> (r: (Vec<DataName>, usize))
    requires i <= s@.len(),
    ensures
        r.1 == spec_names_from(s@, i as int).1,
        i <= r.1 <= s@.len(),
        r.0@.len() == spec_names_from(s@, i as int).0.len(),
        forall|m: int| 0 <= m < r.0@.len() ==> #[trigger] r.0@[m].ty == spec_names_from(s@, i as int).0[m].0
            && r.0@[m].name@ == s@.subrange(spec_names_from(s@, i as int).0[m].1.start as int,
                spec_names_from(s@, i as int).0[m].1.end as int),
    decreases s@.len() - i,
{
    let n = s.len();
    let j = scan(s, i, Class::SpaceNl);
    proof { lemma_scan_bounds(s@, i as int, Class::SpaceNl); }
    match data_name(s, j) {
        Some((d, k)) => {
            if k > i && k <= n {
                let (rest, e) = names_from(s, k);
                let ghost x = spec_data_name(s@, j as int).unwrap().0;
                let ghost tail = spec_names_from(s@, k as int).0;
                let mut v: Vec<DataName> = Vec::new();
                v.push(d);
                let mut rest = rest;
                let ghost rv = rest@;
                v.append(&mut rest);
                assert(spec_names_from(s@, i as int).0 == seq![x] + tail);
                assert forall|m: int| 0 <= m < v@.len() implies #[trigger] v@[m].ty == spec_names_from(s@, i as int).0[m].0
                    && v@[m].name@ == s@.subrange(spec_names_from(s@, i as int).0[m].1.start as int,
                        spec_names_from(s@, i as int).0[m].1.end as int) by {
                    if m > 0 {
                        assert(v@[m] == rv[m - 1]);
                    }
                }
                (v, e)
            } else {
                (Vec::new(), i)
            }
        },
        None => (Vec::new(), i),
    }
}

/// The header of a sweep file: its signals, and where the fields start.
pub fn sweep_names(s: &[u8]) -> (r: Option<(Vec<DataName>, usize)>)
    ensures
        match spec_sweep_names(s@) {
            Some((names, k)) => match r {
                Some((v, j)) => j == k && v@.len() == names.len()
                    && forall|m: int| 0 <= m < names.len() ==> #[trigger] v@[m].ty == names[m].0
                        && v@[m].name@ == s@.subrange(names[m].1.start as int, names[m].1.end as int),
                None => false,
            },
            None => r is None,
        },
{
    let w = [0x73u8, 0x77, 0x65, 0x65, 0x70];
    assert(w@ =~= sweep_word());
    let p = match find_word(s, &w) {
        Some(p) => p,
        None => return None,
    };
    let n = s.len();
    let (names, e) = names_from(s, p + 5);
    if names.len() == 0 {
        return None;
    }
    let j = scan(s, e, Class::SpaceNl);
    proof { lemma_scan_bounds(s@, e as int, Class::SpaceNl); }
    if !(j <= n && 4 <= n - j && s[j] == 0x24 && s[j + 1] == 0x26 && s[j + 2] == 0x25 && s[j + 3] == 0x23) {
        proof {
            if word_at(s@, j as int, end_mark()) {
                assert(s@.subrange(j as int, j + 4)[0] == s@[j as int]);
                assert(s@.subrange(j as int, j + 4)[1] == s@[j + 1]);
                assert(s@.subrange(j as int, j + 4)[2] == s@[j + 2]);
                assert(s@.subrange(j as int, j + 4)[3] == s@[j + 3]);
            }
        }
        return None;
    }
    assert(s@.subrange(j as int, j + 4) =~= end_mark());
    let k = scan(s, j + 4, Class::SpaceNl);
    Some((names, k))
}

/// The candidate fields from `i` on.
pub fn sweep_fields(s: &[u8], i: usize) -> (r: Vec<Span>)
    requires i <= s@.len(),
    ensures r@ == spec_fields(s@, i as int),
{
    let n = s.len();
    let mut r: Vec<Span> = Vec::new();
    let mut k = i;
    loop
        invariant
            n == s@.len(),
            k <= n,
            r@ + spec_fields(s@, k as int) == spec_fields(s@, i as int),
        decreases n - k,
    {
        let j = scan(s, k, Class::SpaceNl);
        proof { lemma_scan_bounds(s@, k as int, Class::SpaceNl); }
        if j < n && 13 <= n - j {
            let ghost before = r@;
            r.push(Span { start: j, end: j + 13 });
            assert(r@ + spec_fields(s@, (j + 13) as int) =~= before + spec_fields(s@, k as int));
            k = j + 13;
        } else {
            assert(r@ + spec_fields(s@, k as int) =~= r@);
            return r;
        }
    }
}

/// For each of `n_names` signals, the indexes of its values among
/// `n_values` values (rows of one sweep value and one value per signal).
pub fn sweep_columns(n_names: usize, n_values: usize) -> (r: Vec<Vec<usize>>)
    requires n_names < usize::MAX,
    ensures
        r@.len() == n_names,
        forall|j: int| 0 <= j < n_names ==> (#[trigger] r@[j])@.map_values(|x: usize| x as int) == spec_columns(n_names as nat, n_values as nat)[j],
{
    let row = n_names + 1;
    let size = n_values / row;
    let mut r: Vec<Vec<usize>> = Vec::new();
    let mut j: usize = 0;
    while j < n_names
        invariant
            row == n_names + 1,
            size == n_values / row,
            j <= n_names,
            r@.len() == j,
            forall|m: int| 0 <= m < j ==> (#[trigger] r@[m])@.map_values(|x: usize| x as int) == spec_columns(n_names as nat, n_values as nat)[m],
        decreases n_names - j,
    {
        let mut col: Vec<usize> = Vec::new();
        let mut i: usize = 0;
        while i < size
            invariant
                row == n_names + 1,
                size == n_values / row,
                j < n_names,
                i <= size,
                col@.len() == i,
                forall|t: int| 0 <= t < i ==> #[trigger] col@[t] == t * row + j + 1,
            decreases size - i,
        {
            proof {
                assert(size * row <= n_values) by (nonlinear_arith)
                    requires size == n_values / row, row > 0;
                assert(i * row + j + 1 <= size * row) by (nonlinear_arith)
                    requires i < size, j + 1 <= row;
            }
            col.push(i * row + j + 1);
            i = i + 1;
        }
        assert(col@.map_values(|x: usize| x as int) =~= spec_columns(n_names as nat, n_values as nat)[j as int]);
        r.push(col);
        j = j + 1;
    }
    r
}

} // verus!

verus! {

/// Every index of a column is a value, and never the sweep value of its row.
pub proof fn law_columns_in_range(n_names: nat, n_values: nat, j: int, i: int)
    requires 0 <= j < n_names, 0 <= i < spec_columns(n_names, n_values)[j].len(),
    ensures
        spec_columns(n_names, n_values)[j][i] < n_values,
        spec_columns(n_names, n_values)[j][i] % ((n_names + 1) as int) != 0,
{
    let row: int = (n_names + 1) as int;
    let size: int = (n_values as int) / row;
    assert(spec_columns(n_names, n_values)[j][i] == i * row + j + 1);
    assert(i * row + j + 1 < n_values) by (nonlinear_arith)
        requires i < size, size == (n_values as int) / row, row > 0, j + 1 < row, i >= 0, j >= 0;
    assert((i * row + j + 1) % row == j + 1) by (nonlinear_arith)
        requires row > 0, 0 <= j + 1 < row, i >= 0;
}

/// No value belongs to two places of the columns.
pub proof fn law_columns_disjoint(n_names: nat, n_values: nat, j1: int, i1: int, j2: int, i2: int)
    requires
        0 <= j1 < n_names, 0 <= i1 < spec_columns(n_names, n_values)[j1].len(),
        0 <= j2 < n_names, 0 <= i2 < spec_columns(n_names, n_values)[j2].len(),
        spec_columns(n_names, n_values)[j1][i1] == spec_columns(n_names, n_values)[j2][i2],
    ensures j1 == j2 && i1 == i2,
{
    let row: int = (n_names + 1) as int;
    assert(spec_columns(n_names, n_values)[j1][i1] == i1 * row + j1 + 1);
    assert(spec_columns(n_names, n_values)[j2][i2] == i2 * row + j2 + 1);
    assert(j1 == j2 && i1 == i2) by (nonlinear_arith)
        requires i1 * row + j1 + 1 == i2 * row + j2 + 1, 0 <= j1 < row - 1, 0 <= j2 < row - 1, i1 >= 0, i2 >= 0, row > 0;
}

} // verus!

verus! {

/// The letter that names a kind of signal in a sweep file.
pub open spec fn signal_letter(t: DataType) -> u8 {
    match t {
        DataType::V => 0x76,
        DataType::I => 0x69,
        DataType::P => 0x70,
    }
}

/// The kind read at `i` is the one its letter names: exactly the letters
/// `v`, `i` and `p` are read, each as its own kind, consuming one byte.
pub proof fn law_data_type_keeps_letter(s: Seq<u8>, i: int)
    ensures
        spec_data_type(s, i) matches Some((t, j)) ==> 0 <= i < s.len() && j == i + 1 && signal_letter(t) == s[i],
        (0 <= i < s.len() && (s[i] == 0x76 || s[i] == 0x69 || s[i] == 0x70)) ==> spec_data_type(s, i) is Some,
{
}

} // verus!
