use vstd::prelude::*;
use super::flatten::FlattenKanjiIter;
use crate::furi::model::SegmentView;
use crate::furi::segment::kanji::{kanji_view, literal_pairs, AsKanjiSegment};
use crate::furi::segment::traits::AsSegment;

verus! {

/// A cursor over the literals of a kanji segment and their readings: each
/// literal with its reading where there is one for each, all literals with
/// all readings as one otherwise.
pub struct LitReadingsIter<'a, K> {
    inner: FlattenKanjiIter<'a, K>,
}

/// The pairs of literals and reading of the segments.
pub open spec fn pairs_of(segs: Seq<SegmentView>) -> Seq<(Seq<char>, Seq<char>)> {
    Seq::new(segs.len(), |i: int| (segs[i].main_reading(), segs[i].full_reading()))
}

impl<'a, K: AsKanjiSegment> LitReadingsIter<'a, K> {
    /// The pairs that are still to come.
    pub closed spec fn rest(&self) -> Seq<(Seq<char>, Seq<char>)> {
        pairs_of(self.inner.rest())
    }

    /// The cursor is in order.
    pub closed spec fn wf(&self) -> bool {
        self.inner.wf()
    }

    /// Creates a cursor at the first pair.
    pub fn new(kanji: &'a K) -> (r: Self)
        ensures
            r.wf(),
            r.rest() == literal_pairs(kanji_view(kanji)),
    {
        let r = Self { inner: FlattenKanjiIter::new(kanji) };
        assert(r.rest() =~= literal_pairs(kanji_view(kanji)));
        r
    }

    /// Moves to the next pair of literals and reading and returns it; `None`
    /// behind the last.
    pub fn next(&mut self) -> (r: Option<(String, String)>)
        requires
            old(self).wf(),
        ensures
            final(self).wf(),
            match r {
                Some((lit, reading)) => old(self).rest().len() > 0 && (lit@, reading@) == old(
                    self,
                ).rest()[0] && final(self).rest() == old(self).rest().skip(1),
                None => old(self).rest().len() == 0 && final(self).rest().len() == 0,
            },
    {
        match self.inner.next() {
            Some(seg) => {
                let lit = String::from_str(seg.main_reading().as_str());
                let reading = seg.get_kana_reading();
                assert(self.rest() =~= old(self).rest().skip(1));
                Some((lit, reading))
            },
            None => None,
        }
    }
}

} // verus!
