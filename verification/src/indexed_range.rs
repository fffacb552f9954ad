//! A stepped range whose iterator decorates every value with its
//! zero-based position.

use vstd::prelude::*;
use crate::basic_range::{BasicRange, BasicRangeIter, IteratorOps, StepOps, fits_extended};
use crate::range_spec::{range_invalid, range_dist, range_count, range_seq};

verus! {

/// Pair every value of a sequence with its position.
pub open spec fn with_positions(s: Seq<int>) -> Seq<(int, int)> {
    Seq::new(s.len(), |k: int| (k, s[k]))
}

/// Law: decorating a sequence with positions keeps its length, and the
/// k-th element carries exactly position k and the k-th value.
pub proof fn lemma_with_positions(s: Seq<int>)
    ensures
        with_positions(s).len() == s.len(),
        forall|k: int| 0 <= k < s.len() ==> #[trigger] with_positions(s)[k] == (k, s[k]),
{
}

/// A stepped range that will yield `(position, value)` pairs.
pub struct IndexedRange<T> where T: IteratorOps {
    basic_range: BasicRange<T>,
}

impl<T> View for IndexedRange<T> where T: IteratorOps {
    type V = Seq<int>;

    closed spec fn view(&self) -> Seq<int> {
        self.basic_range@
    }
}

impl<T> IndexedRange<T> where T: IteratorOps {
    /// The underlying range is well formed and short enough for the
    /// position counter.
    pub closed spec fn wf(self) -> bool {
        &&& self.basic_range.wf()
        &&& self.basic_range@.len() <= usize::MAX
    }

    /// Build the descriptor; the contract is the one of the underlying
    /// range, plus one machine limit: every position must fit the
    /// pointer-sized counter.
    pub fn new(start: T, end: T, step: T::Step, inclusive: bool) -> (r: Self)
        requires
            step.sval() != 0,
            fits_extended::<T>(start.tval()),
            fits_extended::<T>(end.tval()),
            fits_extended::<T>(-step.sval()),
            !range_invalid(start.tval(), end.tval(), step.sval()) ==> fits_extended::<T>(
                range_dist(start.tval(), end.tval(), step.sval()),
            ),
            range_count(start.tval(), end.tval(), step.sval(), inclusive) <= usize::MAX,
        ensures
            r.wf(),
            r@ == range_seq(start.tval(), end.tval(), step.sval(), inclusive),
    {
        IndexedRange { basic_range: BasicRange::<T>::new(start, end, step, inclusive) }
    }

    /// Derive the iterator, its position counter starting at zero.
    pub fn into_iter(self) -> (it: IndexedRangeIter<T>)
        requires
            self.wf(),
        ensures
            it.wf(),
            it@ == with_positions(self@),
    {
        let it = IndexedRangeIter {
            basic_range_iter: BasicRangeIter {
                current: self.basic_range.start,
                end: self.basic_range.end,
                step: self.basic_range.step,
                inclusive_or_not_on_step: self.basic_range.inclusive_or_not_on_step,
                invalid_range: self.basic_range.invalid_range,
                remaining: Ghost(self.basic_range@),
            },
            index: 0,
        };
        proof {
            assert(it@ =~= with_positions(self@));
        }
        it
    }
}

impl<T> IndexedRange<T> where T: IteratorOps {
    /// Pull the range to exhaustion: the produced pairs carry the
    /// positions 0, 1, 2, … and, at each position, exactly the value
    /// of the underlying range there.
    pub fn into_vec(self) -> (out: Vec<(usize, T)>)
        requires
            self.wf(),
        ensures
            out@.len() == self@.len(),
            forall|i: int|
                0 <= i < out@.len() ==> (#[trigger] out@[i]).0 == i && out@[i].1.tval()
                    == self@[i],
    {
        let ghost vals: Seq<int> = self@;
        let mut it = self.into_iter();
        let mut out: Vec<(usize, T)> = Vec::new();
        proof {
            lemma_with_positions(vals);
        }
        loop
            invariant
                it.wf(),
                out@.len() + it@.len() == vals.len(),
                forall|i: int|
                    0 <= i < out@.len() ==> (#[trigger] out@[i]).0 == i && out@[i].1.tval()
                        == vals[i],
                forall|j: int|
                    0 <= j < it@.len() ==> #[trigger] it@[j] == (out@.len() + j, vals[out@.len() + j]),
            ensures
                out@.len() == vals.len(),
                forall|i: int|
                    0 <= i < out@.len() ==> (#[trigger] out@[i]).0 == i && out@[i].1.tval()
                        == vals[i],
            decreases it@.len(),
        {
            match it.next() {
                Some(pair) => {
                    out.push(pair);
                },
                None => {
                    break ;
                },
            }
        }
        out
    }
}

/// Mutable cursor yielding `(position, value)` pairs.
pub struct IndexedRangeIter<T> where T: IteratorOps {
    basic_range_iter: BasicRangeIter<T>,
    index: usize,
}

impl<T> View for IndexedRangeIter<T> where T: IteratorOps {
    type V = Seq<(int, int)>;

    closed spec fn view(&self) -> Seq<(int, int)> {
        Seq::new(
            self.basic_range_iter@.len(),
            |k: int| (self.index + k, self.basic_range_iter@[k]),
        )
    }
}

impl<T> IndexedRangeIter<T> where T: IteratorOps {
    /// The inner iterator is well formed and no position can overflow
    /// the counter.
    pub closed spec fn wf(self) -> bool {
        &&& self.basic_range_iter.wf()
        &&& self.index + self.basic_range_iter@.len() <= usize::MAX
    }

    /// Yield the next value with its position: positions come out as
    /// 0, 1, 2, … exactly in step with the values of the underlying
    /// range.
    pub fn next(&mut self) -> (r: Option<(usize, T)>)
        requires
            old(self).wf(),
        ensures
            final(self).wf(),
            old(self)@.len() == 0 ==> r is None && final(self)@ == old(self)@,
            old(self)@.len() > 0 ==> (match r {
                Some(p) => {
                    &&& p.0 as int == old(self)@[0].0
                    &&& p.1.tval() == old(self)@[0].1
                    &&& final(self)@ == old(self)@.skip(1)
                },
                None => false,
            }),
    {
        match self.basic_range_iter.next() {
            Some(t) => {
                let result = (self.index, t);
                self.index = self.index + 1;
                proof {
                    assert(self@ =~= old(self)@.skip(1));
                }
                Some(result)
            },
            None => {
                proof {
                    assert(self@ =~= old(self)@);
                }
                None
            },
        }
    }
}

} // verus!
