//! The columns of a measurement table chosen by the prefix of their names.
use vstd::prelude::*;

verus! {

/// `name` starts with `prefix`.
pub open spec fn starts_with(name: Seq<u8>, prefix: Seq<u8>) -> bool {
    prefix.len() <= name.len() && name.subrange(0, prefix.len() as int) == prefix
}

/// The name is chosen: there is no prefix, or it starts with the prefix.
pub open spec fn chosen(name: Seq<u8>, prefix: Option<Seq<u8>>) -> bool {
    match prefix {
        Some(p) => starts_with(name, p),
        None => true,
    }
}

/// The first chosen column from `i` on.
pub open spec fn next_from(names: Seq<Seq<u8>>, prefix: Option<Seq<u8>>, i: int) -> Option<int>
    decreases names.len() - i,
{
    if 0 <= i < names.len() {
        if chosen(names[i], prefix) { Some(i) } else { next_from(names, prefix, i + 1) }
    } else {
        None
    }
}

/// The columns of a measurement table, by name, in order; with a prefix,
/// only the columns whose names start with it.
#[derive(Debug)]
pub struct MeasCols {
    pub names: Vec<Vec<u8>>,
    pub idx: usize,
    pub prefix: Option<Vec<u8>>,
}

impl MeasCols {
    pub open spec fn names_view(&self) -> Seq<Seq<u8>> {
        self.names@.map_values(|n: Vec<u8>| n@)
    }

    pub open spec fn prefix_view(&self) -> Option<Seq<u8>> {
        match self.prefix {
            Some(p) => Some(p@),
            None => None,
        }
    }

    pub fn new(names: Vec<Vec<u8>>, data_prefix: Option<Vec<u8>>) -> (r: MeasCols)
        ensures r.names@ == names@, r.idx == 0, r.prefix == data_prefix,
    {
        MeasCols { names, idx: 0, prefix: data_prefix }
    }

    fn is_chosen(&self, k: usize) -> (r: bool)
        requires k < self.names@.len(),
        ensures r == chosen(self.names_view()[k as int], self.prefix_view()),
    {
        match &self.prefix {
            Some(p) => {
                let name = &self.names[k];
                if p.len() > name.len() {
                    return false;
                }
                let mut j: usize = 0;
                assert(name@ == self.names_view()[k as int]);
                while j < p.len()
                    invariant
                        name@ == self.names_view()[k as int],
                        self.prefix_view() == Some(p@),
                        p@.len() <= name@.len(),
                        j <= p@.len(),
                        forall|t: int| 0 <= t < j ==> name@[t] == p@[t],
                    decreases p@.len() - j,
                {
                    if name[j] != p[j] {
                        assert(name@.subrange(0, p@.len() as int)[j as int] != p@[j as int]);
                        return false;
                    }
                    j = j + 1;
                }
                assert(name@.subrange(0, p@.len() as int) =~= p@);
                true
            },
            None => true,
        }
    }

    /// The next chosen column: its index (and so its name); afterwards the
    /// columns after it remain.
    pub fn next(&mut self) -> (r: Option<usize>)
        ensures
            final(self).names == old(self).names,
            final(self).prefix == old(self).prefix,
            match next_from(old(self).names_view(), old(self).prefix_view(), old(self).idx as int) {
                Some(k) => r == Some(k as usize) && final(self).idx == k + 1,
                None => r is None && final(self).idx == if old(self).idx <= old(self).names@.len() {
                    old(self).names@.len() as usize
                } else {
                    old(self).idx
                },
            },
    {
        let ghost start = self.idx;
        while self.idx < self.names.len()
            invariant
                self.names == old(self).names,
                self.prefix == old(self).prefix,
                start == old(self).idx,
                start <= self.idx,
                start <= self.names@.len() ==> self.idx <= self.names@.len(),
                start > self.names@.len() ==> self.idx == start,
                next_from(self.names_view(), self.prefix_view(), self.idx as int)
                    == next_from(self.names_view(), self.prefix_view(), start as int),
            decreases self.names@.len() - self.idx,
        {
            let i = self.idx;
            self.idx = self.idx + 1;
            if self.is_chosen(i) {
                return Some(i);
            }
        }
        None
    }
}

} // verus!
