//! Comparing segments and sequences.
use vstd::prelude::*;
use crate::furi::model::{compare};
use crate::furi::segment::encode::{push_kana, push_main};
use crate::furi::segment::iter::flatten::{flatten_into};
use crate::furi::segment::traits::same_segment;
use crate::furi::segment::{AsSegment, Segment};
use crate::furi::seq::{views, FuriSequence};
use crate::text::same_text;

verus! {

/// Compares segments and sequences, either by what each literal reads as or
/// by how the whole is read and written.
pub struct FuriComparator {
    lit_match: bool,
}

/// Whether two lists of segments hold the same, one by one.
fn same_segments(a: &Vec<Segment>, b: &Vec<Segment>) -> (r: bool)
    ensures
        r == (views(a@) == views(b@)),
{
    if a.len() != b.len() {
        assert(views(a@).len() != views(b@).len());
        return false;
    }
    let mut i: usize = 0;
    while i < a.len()
        invariant
            i <= a.len(),
            a.len() == b.len(),
            forall|j: int| 0 <= j < i ==> views(a@)[j] == views(b@)[j],
        decreases a.len() - i,
    {
        if !same_segment(&a[i], &b[i]) {
            assert(views(a@)[i as int] != views(b@)[i as int]);
            return false;
        }
        i += 1;
    }
    assert(views(a@) =~= views(b@));
    true
}

impl FuriComparator {
    /// Whether each literal must carry the same reading on both sides.
    pub closed spec fn lit_match(&self) -> bool {
        self.lit_match
    }

    /// Creates a comparator. With `lit_match` each literal must carry the
    /// same reading on both sides.
    pub fn new(lit_match: bool) -> (r: Self)
        ensures
            r.lit_match() == lit_match,
    {
        Self { lit_match }
    }

    /// Whether two sequences are taken for equal.
    pub fn eq_seq<L: AsSegment, R: AsSegment>(
        &self,
        left: &FuriSequence<L>,
        right: &FuriSequence<R>,
    ) -> (r: bool)
        ensures
            r == compare(left@, right@, self.lit_match()),
    {
        if self.lit_match {
            self.eq_seq_lit_match(left, right)
        } else {
            self.eq_seq_no_lit_match(left, right)
        }
    }

    /// Whether two segments are taken for equal: as two sequences of one
    /// segment each would be.
    pub fn eq<L: AsSegment, R: AsSegment>(&self, left: &L, right: &R) -> (r: bool)
        ensures
            r == compare(seq![left.seg()], seq![right.seg()], self.lit_match()),
    {
        proof {
            crate::furi::model::lemma_compare_one(left.seg(), right.seg(), self.lit_match);
        }
        if self.lit_match {
            let mut l: Vec<Segment> = Vec::new();
            let mut r: Vec<Segment> = Vec::new();
            flatten_into(&mut l, left);
            flatten_into(&mut r, right);
            assert(views(l@) =~= left.seg().flatten());
            assert(views(r@) =~= right.seg().flatten());
            same_segments(&l, &r)
        } else {
            let mut lk = String::new();
            let mut rk = String::new();
            push_kana(&mut lk, left, true);
            push_kana(&mut rk, right, true);
            assert(lk@ =~= left.seg().kana(true));
            assert(rk@ =~= right.seg().kana(true));
            let mut lm = String::new();
            let mut rm = String::new();
            push_main(&mut lm, left);
            push_main(&mut rm, right);
            assert(lm@ =~= left.seg().main_reading());
            assert(rm@ =~= right.seg().main_reading());
            same_text(lk.as_str(), rk.as_str()) && same_text(lm.as_str(), rm.as_str())
        }
    }

    /// Whether both sequences are read alike and written alike.
    fn eq_seq_no_lit_match<L: AsSegment, R: AsSegment>(
        &self,
        left: &FuriSequence<L>,
        right: &FuriSequence<R>,
    ) -> (r: bool)
        ensures
            r == compare(left@, right@, false),
    {
        let lk = left.as_kana();
        let rk = right.as_kana();
        if !same_text(lk.as_str(), rk.as_str()) {
            return false;
        }
        let lm = left.as_kanji();
        let rm = right.as_kanji();
        same_text(lm.as_str(), rm.as_str())
    }

    /// Whether both sequences, taken apart, give the same segments.
    fn eq_seq_lit_match<L: AsSegment, R: AsSegment>(
        &self,
        left: &FuriSequence<L>,
        right: &FuriSequence<R>,
    ) -> (r: bool)
        ensures
            r == compare(left@, right@, true),
    {
        let l = left.flattened_iter();
        let r = right.flattened_iter();
        same_segments(&l, &r)
    }
}

} // verus!
