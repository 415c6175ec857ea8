//! Taking segments apart.
pub mod flatten;
pub mod lit_readings;

use vstd::prelude::*;
use self::flatten::FlattenIter;
pub use self::lit_readings::LitReadingsIter;
use crate::furi::model::SegmentView;
use crate::furi::segment::traits::AsSegment;
use crate::reading::{Reading, ReadingView};

verus! {

/// The readings of the segments.
pub open spec fn readings_of_all(segs: Seq<SegmentView>) -> Seq<ReadingView> {
    Seq::new(segs.len(), |i: int| segs[i].reading())
}

/// A cursor over the readings that a segment falls into: a kana segment is
/// one reading, a kanji segment one for each literal where there is a
/// reading for each, and one for all otherwise.
pub struct SegmentIter<'a, S: AsSegment> {
    flat: FlattenIter<'a, S::StrType, S::KanjiType>,
}

impl<'a, S: AsSegment> SegmentIter<'a, S> {
    /// The readings that are still to come.
    pub closed spec fn rest(&self) -> Seq<ReadingView> {
        readings_of_all(self.flat.rest())
    }

    /// The cursor is in order.
    pub closed spec fn wf(&self) -> bool {
        self.flat.wf()
    }

    /// Creates a cursor at the first reading.
    pub fn new(segment: &'a S) -> (r: Self)
        ensures
            r.wf(),
            r.rest() == readings_of_all(segment.seg().flatten()),
    {
        Self { flat: FlattenIter::new(segment) }
    }

    /// Moves to the next reading and returns it; `None` behind the last.
    pub fn next(&mut self) -> (r: Option<Reading>)
        requires
            old(self).wf(),
        ensures
            final(self).wf(),
            match r {
                Some(reading) => old(self).rest().len() > 0 && reading@ == old(self).rest()[0]
                    && final(self).rest() == old(self).rest().skip(1),
                None => old(self).rest().len() == 0 && final(self).rest().len() == 0,
            },
    {
        match self.flat.next() {
            Some(seg) => {
                assert(self.rest() =~= old(self).rest().skip(1));
                Some(seg.to_reading())
            },
            None => None,
        }
    }
}

/// A cursor over the readings of a segment as pairs: the text of a kana
/// segment alone, the literals of a kanji segment with their reading.
pub struct ReadingIter<'a, P: AsSegment> {
    flat: FlattenIter<'a, P::StrType, P::KanjiType>,
}

/// The segments as pairs of text and reading.
pub open spec fn reading_pairs(segs: Seq<SegmentView>) -> Seq<(Seq<char>, Option<Seq<char>>)> {
    Seq::new(
        segs.len(),
        |i: int|
            match segs[i] {
                SegmentView::Kana(t) => (t, None),
                SegmentView::Kanji { literals, .. } => (literals, Some(segs[i].full_reading())),
            },
    )
}

impl<'a, P: AsSegment> ReadingIter<'a, P> {
    /// The pairs that are still to come.
    pub closed spec fn rest(&self) -> Seq<(Seq<char>, Option<Seq<char>>)> {
        reading_pairs(self.flat.rest())
    }

    /// The cursor is in order.
    pub closed spec fn wf(&self) -> bool {
        self.flat.wf()
    }

    /// Creates a cursor at the first pair.
    pub fn new(part: &'a P) -> (r: Self)
        ensures
            r.wf(),
            r.rest() == reading_pairs(part.seg().flatten()),
    {
        Self { flat: FlattenIter::new(part) }
    }

    /// Moves to the next pair and returns it; `None` behind the last.
    pub fn next(&mut self) -> (r: Option<(String, Option<String>)>)
        requires
            old(self).wf(),
        ensures
            final(self).wf(),
            match r {
                Some((text, reading)) => {
                    &&& old(self).rest().len() > 0
                    &&& text@ == old(self).rest()[0].0
                    &&& reading is Some == old(self).rest()[0].1 is Some
                    &&& reading is Some ==> reading.unwrap()@ == old(self).rest()[0].1.unwrap()
                    &&& final(self).rest() == old(self).rest().skip(1)
                },
                None => old(self).rest().len() == 0 && final(self).rest().len() == 0,
            },
    {
        match self.flat.next() {
            Some(seg) => {
                assert(self.rest() =~= old(self).rest().skip(1));
                let text = String::from_str(seg.main_reading().as_str());
                if seg.is_kanji() {
                    Some((text, Some(seg.get_kana_reading())))
                } else {
                    Some((text, None))
                }
            },
            None => None,
        }
    }
}

} // verus!
