//! Sequences of parsed segments.
pub mod iter;
pub mod reading;

use vstd::prelude::*;
use self::iter::SeqIter;
use self::reading::SReading;
use crate::furi::model::{
    concat_map, encode, has_kanji, kana_reading, kanji_reading, lemma_concat_map_next,
    parse_lenient, sequence_reading, strict_error, byte_offset, SegmentView,
};
use crate::furi::parse::{FuriParser, ParseError};
use crate::furi::segment::encode::{push_kana, push_main, sequence};
use crate::furi::segment::{AsSegment, Segment, SegmentRef};
use crate::furi::Furigana;
use crate::reading::Reading;
use vstd::std_specs::convert::FromSpecImpl;

verus! {

/// A sequence of parsed segments, in reading order. Use it where the
/// segments are looked at often; [`Furigana`] keeps the text as it is and
/// needs no room for segments.
#[derive(Debug, Clone, PartialEq, Eq, Hash)]
pub struct FuriSequence<T> {
    parts: Vec<T>,
}

/// What each of the segments holds.
pub open spec fn views<T: AsSegment>(parts: Seq<T>) -> Seq<SegmentView> {
    Seq::new(parts.len(), |i: int| parts[i].seg())
}

impl<T: AsSegment> View for FuriSequence<T> {
    type V = Seq<SegmentView>;

    closed spec fn view(&self) -> Seq<SegmentView> {
        views(self.parts@)
    }
}

impl<T: AsSegment> FuriSequence<T> {
    /// The segments themselves.
    pub closed spec fn parts(&self) -> Seq<T> {
        self.parts@
    }

    /// Creates a sequence without segments.
    pub fn new() -> (r: Self)
        ensures
            r@ == Seq::<SegmentView>::empty(),
    {
        let r = Self { parts: Vec::new() };
        assert(r@ =~= Seq::<SegmentView>::empty());
        r
    }

    /// Creates a sequence of the given segments.
    pub fn new_with_parts(parts: Vec<T>) -> (r: Self)
        ensures
            r@ == views(parts@),
            r.parts() == parts@,
    {
        Self { parts }
    }

    /// Creates a sequence without segments, with room for `capacity` of them.
    pub fn with_capacity(capacity: usize) -> (r: Self)
        ensures
            r@ == Seq::<SegmentView>::empty(),
    {
        let r = Self { parts: Vec::with_capacity(capacity) };
        assert(r@ =~= Seq::<SegmentView>::empty());
        r
    }

    /// The number of segments.
    pub fn len(&self) -> (r: usize)
        ensures
            r == self@.len(),
            r == self.parts().len(),
    {
        self.parts.len()
    }

    /// Whether the sequence has no segment.
    pub fn is_empty(&self) -> (r: bool)
        ensures
            r == (self@.len() == 0),
    {
        self.parts.len() == 0
    }

    /// The sequence as it is read.
    pub fn kana_reading(&self) -> (r: SReading<'_, T>)
        ensures
            r.text() == kana_reading(self@, true),
            r.is_kana(),
            r.sequence() == self@,
    {
        SReading::new(self, true)
    }

    /// The whole sequence as kana: `[音楽|おん|がく]が[好|す]き` gives
    /// `おんがくがすき`. Literals stand in for readings that are empty.
    pub fn as_kana(&self) -> (r: String)
        ensures
            r@ == kana_reading(self@, true),
    {
        let ghost f = |s: SegmentView| s.kana(true);
        let mut out = String::new();
        let mut i: usize = 0;
        assert(concat_map(self@.take(0), f) =~= Seq::<char>::empty());
        assert(out@ =~= concat_map(self@.take(0), f));
        while i < self.parts.len()
            invariant
                i <= self.parts.len(),
                f == (|s: SegmentView| s.kana(true)),
                out@ == concat_map(self@.take(i as int), f),
            decreases self.parts.len() - i,
        {
            proof {
                lemma_concat_map_next(self@, i as int, f);
            }
            push_kana(&mut out, &self.parts[i], true);
            i += 1;
        }
        assert(self@.take(i as int) =~= self@);
        out
    }

    /// The sequence as it is written.
    pub fn kanji_reading(&self) -> (r: SReading<'_, T>)
        ensures
            r.text() == kanji_reading(self@),
            !r.is_kana(),
            r.sequence() == self@,
    {
        SReading::new(self, false)
    }

    /// The whole sequence as it is written: `[音楽|おん|がく]が[好|す]き` gives
    /// `音楽が好き`.
    pub fn as_kanji(&self) -> (r: String)
        ensures
            r@ == kanji_reading(self@),
    {
        let ghost f = |s: SegmentView| s.main_reading();
        let mut out = String::new();
        let mut i: usize = 0;
        assert(concat_map(self@.take(0), f) =~= Seq::<char>::empty());
        assert(out@ =~= concat_map(self@.take(0), f));
        while i < self.parts.len()
            invariant
                i <= self.parts.len(),
                f == (|s: SegmentView| s.main_reading()),
                out@ == concat_map(self@.take(i as int), f),
            decreases self.parts.len() - i,
        {
            proof {
                lemma_concat_map_next(self@, i as int, f);
            }
            push_main(&mut out, &self.parts[i]);
            i += 1;
        }
        assert(self@.take(i as int) =~= self@);
        out
    }

    /// The segment at `pos`, or `None` behind the end.
    pub fn part_at(&self, pos: usize) -> (r: Option<&T>)
        ensures
            match r {
                Some(p) => pos < self@.len() && *p == self.parts()[pos as int] && p.seg()
                    == self@[pos as int],
                None => pos >= self@.len(),
            },
    {
        if pos < self.parts.len() {
            Some(&self.parts[pos])
        } else {
            None
        }
    }

    /// Adds a segment at the end.
    pub fn push_part(&mut self, part: T)
        ensures
            final(self)@ == old(self)@.push(part.seg()),
            final(self).parts() == old(self).parts().push(part),
    {
        self.parts.push(part);
        assert(self@ =~= old(self)@.push(part.seg()));
    }

    /// A cursor over the segments.
    pub fn iter(&self) -> (r: SeqIter<'_, T>)
        ensures
            r.rest() == self.parts(),
    {
        SeqIter::new(self)
    }

    /// The segments as a slice.
    pub fn as_slice(&self) -> (r: &[T])
        ensures
            r@ == self.parts(),
    {
        self.parts.as_slice()
    }

    /// The segments taken apart: every kanji segment with one reading for
    /// each literal becomes one segment for each literal.
    pub fn flattened_iter(&self) -> (r: Vec<Segment>)
        ensures
            views(r@) == crate::furi::model::flatten(self@),
    {
        crate::furi::segment::iter::flatten::flatten_all(self.parts.as_slice())
    }

    /// The segments of the sequence.
    pub fn into_parts(self) -> (r: Vec<T>)
        ensures
            r@ == self.parts(),
            views(r@) == self@,
    {
        self.parts
    }

    /// The sequence in the notation.
    pub fn encode(&self) -> (r: Furigana<String>)
        ensures
            r.0@ == encode(self@),
    {
        sequence(self.parts.as_slice())
    }

    /// Adds all the segments at the end.
    pub fn extend(&mut self, parts: Vec<T>)
        ensures
            final(self)@ == old(self)@ + views(parts@),
            final(self).parts() == old(self).parts() + parts@,
    {
        let ghost added = parts@;
        let mut parts = parts;
        self.parts.append(&mut parts);
        assert(self@ =~= old(self)@ + views(added));
    }

    /// The sequence in the notation, as a string.
    pub fn to_string(&self) -> (r: String)
        ensures
            r@ == encode(self@),
    {
        self.encode().into_inner()
    }

    /// Whether the sequence has a kanji segment.
    pub fn has_kanji(&self) -> (r: bool)
        ensures
            r == has_kanji(self@),
    {
        let mut i: usize = 0;
        while i < self.parts.len()
            invariant
                i <= self.parts.len(),
                forall|j: int| 0 <= j < i ==> !(self@[j] is Kanji),
            decreases self.parts.len() - i,
        {
            if self.parts[i].is_kanji() {
                assert(self@[i as int] is Kanji);
                return true;
            }
            i += 1;
        }
        false
    }

    /// The reading of the sequence: its kana, and its kanji text where it
    /// has a kanji segment.
    pub fn to_reading(&self) -> (r: Reading)
        ensures
            r@ == sequence_reading(self@),
    {
        if self.has_kanji() {
            Reading::new_with_kanji(self.as_kana(), self.as_kanji())
        } else {
            Reading::new(self.as_kana())
        }
    }
}

impl<'a> FuriSequence<SegmentRef<'a>> {
    /// Parses a text strictly into borrowed segments.
    pub fn parse_ref(s: &'a str) -> (r: Result<FuriSequence<SegmentRef<'a>>, ParseError>)
        ensures
            match r {
                Ok(seq) => strict_error(s@) is None && seq@ == parse_lenient(s@),
                Err(e) => strict_error(s@) is Some && e.kind == strict_error(s@).unwrap().0
                    && e.offset == byte_offset(s@, strict_error(s@).unwrap().1) as usize,
            },
    {
        match FuriParser::new(s).to_vec() {
            Ok(parts) => Ok(FuriSequence { parts }),
            Err(e) => Err(e),
        }
    }

    /// An owned copy of the sequence.
    pub fn to_owned(&self) -> (r: FuriSequence<Segment>)
        ensures
            r@ == self@,
    {
        let mut parts: Vec<Segment> = Vec::new();
        let mut i: usize = 0;
        while i < self.parts.len()
            invariant
                i <= self.parts.len(),
                parts.len() == i,
                views(parts@) == self@.take(i as int),
            decreases self.parts.len() - i,
        {
            let ghost before = parts@;
            parts.push(self.parts[i].to_owned());
            i += 1;
            proof {
                assert forall|j: int| 0 <= j < i implies views(parts@)[j] == self@.take(
                    i as int,
                )[j] by {
                    if j < i - 1 {
                        assert(views(before)[j] == self@.take(i - 1)[j]);
                    }
                }
                assert(views(parts@) =~= self@.take(i as int));
            }
        }
        assert(self@.take(i as int) =~= self@);
        FuriSequence { parts }
    }
}

impl FuriSequence<Segment> {
    /// Parses a text strictly into owned segments.
    pub fn from_str(s: &str) -> (r: Result<FuriSequence<Segment>, ParseError>)
        ensures
            match r {
                Ok(seq) => strict_error(s@) is None && seq@ == parse_lenient(s@),
                Err(e) => strict_error(s@) is Some && e.kind == strict_error(s@).unwrap().0
                    && e.offset == byte_offset(s@, strict_error(s@).unwrap().1) as usize,
            },
    {
        match FuriSequence::parse_ref(s) {
            Ok(seq) => Ok(seq.to_owned()),
            Err(e) => Err(e),
        }
    }
}

impl<T: AsSegment> From<Vec<T>> for FuriSequence<T> {
    /// The sequence of the given segments.
    fn from(parts: Vec<T>) -> (r: Self)
        ensures
            r@ == views(parts@) && r.parts() == parts@,
    {
        Self::new_with_parts(parts)
    }
}

impl<T: AsSegment> FromSpecImpl<Vec<T>> for FuriSequence<T> {
    open spec fn obeys_from_spec() -> bool {
        false
    }

    open spec fn from_spec(parts: Vec<T>) -> Self {
        arbitrary()
    }
}

impl<T: AsSegment> Default for FuriSequence<T> {
    /// A sequence without segments.
    fn default() -> (r: Self)
        ensures
            r@ == Seq::<SegmentView>::empty(),
    {
        Self::new()
    }
}

} // verus!
