//! Frequency tables: how often each value was seen.

use std::collections::BTreeMap;
use vstd::prelude::*;
use vstd::std_specs::btree::{axiom_increasing_seq_meaning, increasing_seq};
use vstd::std_specs::cmp::OrdSpec;
use vstd::std_specs::iter::IteratorSpec;

verus! {

/// How often `value` occurs according to `table`: zero for a value that the
/// table does not list.
pub open spec fn frequency(table: Map<usize, usize>, value: usize) -> nat {
    if table.contains_key(value) {
        table[value] as nat
    } else {
        0
    }
}

/// `rows` lists `table`: every listed value once, with its frequency, the
/// values ascending.
pub open spec fn lists(rows: Seq<(usize, usize)>, table: Map<usize, usize>) -> bool {
    &&& forall|i: int|
        0 <= i < rows.len() ==> table.contains_key(#[trigger] rows[i].0) && table[rows[i].0]
            == rows[i].1
    &&& forall|i: int, j: int| 0 <= i < j < rows.len() ==> rows[i].0 < rows[j].0
    &&& forall|value: usize|
        table.contains_key(value) ==> exists|i: int|
            0 <= i < rows.len() && #[trigger] rows[i].0 == value
}

/// `mode` is the most frequent value of `table`: among the values of highest
/// frequency the smallest one, and zero for a table that lists nothing.
pub open spec fn is_mode(table: Map<usize, usize>, mode: usize) -> bool {
    if exists|value: usize| table.contains_key(value) {
        &&& table.contains_key(mode)
        &&& forall|value: usize| table.contains_key(value) ==> table[value] <= table[mode]
        &&& forall|value: usize|
            table.contains_key(value) && table[value] == table[mode] ==> mode <= value
    } else {
        mode == 0
    }
}

/// Two values that both are the mode of one table are the same value.
pub proof fn lemma_mode_is_unique(table: Map<usize, usize>, a: usize, b: usize)
    requires
        is_mode(table, a),
        is_mode(table, b),
    ensures
        a == b,
{
}

/// A table of frequencies, keyed by the value counted.
pub struct Histogram {
    bins: BTreeMap<usize, usize>,
}

impl View for Histogram {
    type V = Map<usize, usize>;

    closed spec fn view(&self) -> Map<usize, usize> {
        self.bins@
    }
}

impl Histogram {
    /// Every value that the table lists was seen at least once.
    pub open spec fn wf(&self) -> bool {
        forall|value: usize| self@.contains_key(value) ==> self@[value] >= 1
    }

    /// How often `value` was seen.
    pub open spec fn frequency(&self, value: usize) -> nat {
        frequency(self@, value)
    }

    /// The table that has seen nothing.
    pub fn new() -> (r: Histogram)
        ensures
            r.wf(),
            r@ == Map::<usize, usize>::empty(),
    {
        Histogram { bins: BTreeMap::new() }
    }

    /// How often `value` was seen.
    pub fn get(&self, value: usize) -> (r: usize)
        ensures
            r == self.frequency(value),
    {
        match self.bins.get(&value) {
            Some(seen) => *seen,
            None => 0,
        }
    }

    /// Counts one more occurrence of `value`.
    pub fn add(&mut self, value: usize)
        requires
            old(self).wf(),
            old(self).frequency(value) < usize::MAX,
        ensures
            final(self).wf(),
            final(self)@ == old(self)@.insert(value, (old(self).frequency(value) + 1) as usize),
    {
        let seen = self.get(value);
        self.bins.insert(value, seen + 1);
    }

    /// The table row by row, the values ascending.
    pub fn rows(&self) -> (r: Vec<(usize, usize)>)
        requires
            self.wf(),
        ensures
            lists(r@, self@),
            forall|i: int| 0 <= i < r@.len() ==> (#[trigger] r@[i]).1 >= 1,
    {
        let mut out: Vec<(usize, usize)> = Vec::new();
        let ghost all = self.bins.iter().remaining();
        for entry in it: self.bins.iter()
            invariant
                it.seq() == all,
                out@.len() == it.index(),
                forall|i: int|
                    0 <= i < out@.len() ==> out@[i] == (*it.seq()[i].0, *it.seq()[i].1),
        {
            out.push((*entry.0, *entry.1));
        }
        proof {
            let keys = all.map_values(|entry: (&usize, &usize)| *entry.0);
            assert forall|i: int, j: int| 0 <= i < j < out@.len() implies out@[i].0
                < out@[j].0 by {
                axiom_increasing_seq_meaning(keys);
                assert(keys[i].cmp_spec(&keys[j]) is Less);
            }
            assert forall|value: usize| self@.contains_key(value) implies exists|i: int|
                0 <= i < out@.len() && #[trigger] out@[i].0 == value by {
                assert(all.contains((&value, &self.bins@[value])));
                let i = choose|i: int| 0 <= i < all.len() && all[i] == (&value, &self.bins@[value]);
                assert(out@[i].0 == value);
            }
            assert forall|i: int| 0 <= i < out@.len() implies (#[trigger] out@[i]).1 >= 1 by {
                assert(self@.contains_key(out@[i].0));
            }
        }
        out
    }

    /// The most frequent value: among the values seen most often the smallest
    /// one, and zero where nothing was seen.
    pub fn mode(&self) -> (r: usize)
        requires
            self.wf(),
        ensures
            is_mode(self@, r),
    {
        let rows = self.rows();
        if rows.len() == 0 {
            return 0;
        }
        let mut best: (usize, usize) = rows[0];
        let mut i: usize = 1;
        while i < rows.len()
            invariant
                1 <= i <= rows.len(),
                lists(rows@, self@),
                exists|b: int| 0 <= b < i && rows@[b] == best,
                forall|j: int| 0 <= j < i ==> (#[trigger] rows@[j]).1 <= best.1,
                forall|j: int|
                    0 <= j < i && (#[trigger] rows@[j]).1 == best.1 ==> best.0 <= rows@[j].0,
            decreases rows.len() - i,
        {
            if rows[i].1 > best.1 {
                best = rows[i];
            }
            i += 1;
        }
        proof {
            assert forall|value: usize| self@.contains_key(value) implies self@[value]
                <= self@[best.0] && (self@[value] == self@[best.0] ==> best.0 <= value) by {
                let j = choose|j: int| 0 <= j < rows@.len() && #[trigger] rows@[j].0 == value;
                assert(rows@[j].1 <= best.1);
            }
        }
        best.0
    }
}

} // verus!
