use vstd::prelude::*;
use super::FuriSequence;
use crate::furi::segment::AsSegment;

verus! {

/// A cursor over the segments of a sequence.
pub struct SeqIter<'s, T> {
    seq: &'s FuriSequence<T>,
    pos: usize,
}

/// A segment borrowed from a sequence.
#[derive(Clone, Copy, Debug, PartialEq, Eq, PartialOrd, Ord)]
pub struct IterItem<'s, T>(pub &'s T);

impl<'s, T: AsSegment> SeqIter<'s, T> {
    /// The segments that are still to come.
    pub closed spec fn rest(&self) -> Seq<T> {
        if self.pos <= self.seq.parts().len() {
            self.seq.parts().skip(self.pos as int)
        } else {
            Seq::empty()
        }
    }

    /// Creates a cursor at the first segment of `seq`.
    pub fn new(seq: &'s FuriSequence<T>) -> (r: Self)
        ensures
            r.rest() == seq.parts(),
    {
        let r = Self { seq, pos: 0 };
        assert(r.rest() =~= seq.parts());
        r
    }

    /// Moves to the next segment and returns it; `None` behind the last.
    pub fn next(&mut self) -> (r: Option<IterItem<'s, T>>)
        ensures
            match r {
                Some(item) => old(self).rest().len() > 0 && *item.0 == old(self).rest()[0]
                    && final(self).rest() == old(self).rest().skip(1),
                None => old(self).rest().len() == 0 && final(self).rest().len() == 0,
            },
    {
        if self.pos >= self.seq.len() {
            return None;
        }
        match self.seq.part_at(self.pos) {
            Some(item) => {
                self.pos += 1;
                assert(self.rest() =~= old(self).rest().skip(1));
                Some(IterItem(item))
            },
            None => None,
        }
    }
}

impl<'s, T> IterItem<'s, T> {
    /// The segment.
    pub fn as_ref(&self) -> (r: &'s T)
        ensures
            r == self.0,
    {
        self.0
    }
}

} // verus!
