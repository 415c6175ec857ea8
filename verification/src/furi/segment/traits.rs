//! What segments, owned or borrowed, have in common.
use vstd::prelude::*;
use crate::furi::model::{is_detailed, SegmentView};
use crate::furi::segment::encode::push_kanji;
use crate::furi::segment::kanji::{kanji_view, same_kanji, AsKanjiSegment};
use crate::furi::segment::s_ref::SegmentRef;
use crate::reading::traits::AsReadingRef;
use crate::reading::Reading;
use crate::text::{same_text, texts, AsText};

verus! {

/// A segment of an annotated text: plain kana, or kanji with readings.
pub trait AsSegment {
    /// The string type that the segment holds.
    type StrType: AsText;

    /// The type of its kanji part.
    type KanjiType: AsKanjiSegment<StrType = Self::StrType>;

    /// What the segment holds.
    spec fn seg(&self) -> SegmentView;

    /// Whether the segment is a kana segment.
    fn is_kana(&self) -> (r: bool)
        ensures
            r == self.seg() is Kana,
    ;

    /// Whether the segment is a kanji segment.
    fn is_kanji(&self) -> (r: bool)
        ensures
            r == self.seg() is Kanji,
    ;

    /// The text of a kana segment.
    fn as_kana(&self) -> (r: Option<&Self::StrType>)
        ensures
            match r {
                Some(k) => self.seg() == SegmentView::Kana(k.text()),
                None => self.seg() is Kanji,
            },
    ;

    /// The kanji part of a kanji segment.
    fn as_kanji(&self) -> (r: Option<&Self::KanjiType>)
        ensures
            match r {
                Some(k) => self.seg() == kanji_view(k),
                None => self.seg() is Kana,
            },
    ;

    /// The kana of the segment: its text, or all its readings written as one.
    fn get_kana_reading(&self) -> (r: String)
        ensures
            r@ == self.seg().full_reading(),
    {
        match self.as_kana() {
            Some(kana) => String::from_str(kana.as_text()),
            None => match self.as_kanji() {
                Some(kanji) => kanji.full_reading(),
                None => String::new(),
            },
        }
    }

    /// The kana of the segment: its text, or all its readings written as one.
    fn kana_reading(&self) -> (r: String)
        ensures
            r@ == self.seg().full_reading(),
    {
        self.get_kana_reading()
    }

    /// The readings of a kanji segment.
    fn readings(&self) -> (r: Option<&[Self::StrType]>)
        ensures
            match r {
                Some(rs) => self.seg() is Kanji && texts(rs@) == self.seg()->readings,
                None => self.seg() is Kana,
            },
    {
        match self.as_kanji() {
            Some(kanji) => Some(kanji.readings()),
            None => None,
        }
    }

    /// Whether a kanji segment has a reading for each literal; `None` for a
    /// kana segment.
    fn detailed_readings(&self) -> (r: Option<bool>)
        ensures
            match r {
                Some(d) => self.seg() is Kanji && d == is_detailed(
                    self.seg()->literals,
                    self.seg()->readings,
                ),
                None => self.seg() is Kana,
            },
    {
        match self.as_kanji() {
            Some(kanji) => Some(kanji.is_detailed()),
            None => None,
        }
    }

    /// The segment as a reading.
    fn to_reading(&self) -> (r: Reading)
        ensures
            r@ == self.seg().reading(),
    {
        match self.as_kana() {
            Some(kana) => Reading::new(String::from_str(kana.as_text())),
            None => match self.as_kanji() {
                Some(kanji) => kanji.to_reading(),
                None => Reading::new(String::new()),
            },
        }
    }

    /// Whether the segment has no text, or no literals.
    fn is_empty(&self) -> (r: bool)
        ensures
            r == self.seg().is_empty(),
    {
        match self.as_kana() {
            Some(kana) => kana.as_text().is_empty(),
            None => match self.as_kanji() {
                Some(kanji) => kanji.is_empty(),
                None => true,
            },
        }
    }

    /// Appends the segment in the notation to `buf`.
    fn encode_into(&self, buf: &mut String)
        ensures
            final(buf)@ == old(buf)@ + self.seg().encode(),
    {
        match self.as_kana() {
            Some(kana) => buf.append(kana.as_text()),
            None => match self.as_kanji() {
                Some(kanji) => push_kanji(buf, kanji),
                None => {},
            },
        }
    }

    /// The segment in the notation.
    fn encode(&self) -> (r: String)
        ensures
            r@ == self.seg().encode(),
    {
        let mut buf = String::new();
        self.encode_into(&mut buf);
        assert(buf@ =~= self.seg().encode());
        buf
    }

    /// The text as it is written: the literals of a kanji segment, the text
    /// of a kana segment.
    fn main_reading(&self) -> (r: &Self::StrType)
        ensures
            r.text() == self.seg().main_reading(),
    {
        match self.as_kana() {
            Some(kana) => kana,
            None => match self.as_kanji() {
                Some(kanji) => kanji.literals(),
                None => vstd::pervasive::unreached(),
            },
        }
    }

    /// Whether the segment, taken as a reading, is `reading`.
    fn eq_reading<R: AsReadingRef>(&self, reading: R) -> (r: bool)
        ensures
            r == (self.seg().reading() == reading.reading()),
    {
        let reading = reading.as_reading_ref();
        match self.as_kana() {
            Some(kana) => same_text(kana.as_text(), reading.kana()) && !reading.has_kanji(),
            None => match self.as_kanji() {
                Some(kanji) => match reading.kanji() {
                    Some(reading_kanji) => {
                        let full = kanji.full_reading();
                        same_text(kanji.literals().as_text(), reading_kanji) && same_text(
                            full.as_str(),
                            reading.kana(),
                        )
                    },
                    None => false,
                },
                None => false,
            },
        }
    }
}

impl<T: AsSegment> AsSegment for &T {
    type StrType = T::StrType;

    type KanjiType = T::KanjiType;

    open spec fn seg(&self) -> SegmentView {
        (**self).seg()
    }

    fn is_kana(&self) -> (r: bool) {
        (**self).is_kana()
    }

    fn is_kanji(&self) -> (r: bool) {
        (**self).is_kanji()
    }

    fn as_kana(&self) -> (r: Option<&Self::StrType>) {
        (**self).as_kana()
    }

    fn as_kanji(&self) -> (r: Option<&Self::KanjiType>) {
        (**self).as_kanji()
    }
}

/// Whether two segments hold the same: both kana with the same text, or
/// both kanji with the same literals and the same readings.
pub fn same_segment<A: AsSegment, B: AsSegment>(a: &A, b: &B) -> (r: bool)
    ensures
        r == (a.seg() == b.seg()),
{
    match (a.as_kana(), b.as_kana()) {
        (Some(x), Some(y)) => same_text(x.as_text(), y.as_text()),
        (None, None) => match (a.as_kanji(), b.as_kanji()) {
            (Some(x), Some(y)) => same_kanji(x, y),
            _ => false,
        },
        _ => false,
    }
}

/// The segment with other kanji: a kana segment becomes a kanji segment
/// with its text as the one reading.
pub open spec fn with_kanji(seg: SegmentView, kanji: Seq<char>) -> SegmentView {
    match seg {
        SegmentView::Kana(k) => SegmentView::Kanji { literals: kanji, readings: seq![k] },
        SegmentView::Kanji { readings, .. } => SegmentView::Kanji { literals: kanji, readings },
    }
}

/// The segment with other kana; a kanji segment stays as it is.
pub open spec fn with_kana(seg: SegmentView, kana: Seq<char>) -> SegmentView {
    match seg {
        SegmentView::Kana(_) => SegmentView::Kana(kana),
        SegmentView::Kanji { .. } => seg,
    }
}

/// The segment with one more reading; a kana segment stays as it is.
pub open spec fn with_reading(seg: SegmentView, reading: Seq<char>) -> SegmentView {
    match seg {
        SegmentView::Kana(_) => seg,
        SegmentView::Kanji { literals, readings } => SegmentView::Kanji {
            literals,
            readings: readings.push(reading),
        },
    }
}

/// Segments that can be changed in place.
pub trait AsSegmentMut: AsSegment {
    /// Sets the kanji. A kana segment becomes a kanji segment that reads as
    /// its text.
    fn set_kanji(&mut self, s: Self::StrType)
        ensures
            final(self).seg() == with_kanji(old(self).seg(), s.text()),
    ;

    /// Sets the text of a kana segment; a kanji segment stays as it is.
    fn set_kana(&mut self, s: Self::StrType)
        ensures
            final(self).seg() == with_kana(old(self).seg(), s.text()),
    ;

    /// Adds a reading to a kanji segment; a kana segment stays as it is.
    fn add_reading(&mut self, r: Self::StrType)
        ensures
            final(self).seg() == with_reading(old(self).seg(), r.text()),
    ;
}

/// Segments from which a borrowed segment can be had.
pub trait AsSegmentRef<'a> {
    /// What the segment holds.
    spec fn ref_seg(&self) -> SegmentView;

    /// The segment in borrowed form.
    fn as_seg_ref(&self) -> (r: SegmentRef<'a>)
        ensures
            r.seg() == self.ref_seg(),
    ;
}

} // verus!
