//! Readings: a kana text, and sometimes the same word written with kanji.
pub mod r_owned;
pub mod r_ref;
pub mod traits;

use vstd::prelude::*;
pub use self::r_owned::ReadingOwned;
pub use self::r_ref::ReadingRef;
use self::traits::AsReadingRef;
use crate::furi::model;
use crate::furi::model::{
    concat_map, lemma_concat_map_next, lemma_has_kanji_next, sequence_reading, SegmentView,
};
use crate::furi::segment::encode::{push_kana, push_main};
use crate::furi::segment::AsSegment;
use crate::furi::seq::views;
use crate::text::same_text;
use vstd::std_specs::cmp::PartialEqSpecImpl;
use vstd::std_specs::convert::FromSpecImpl;
use crate::furi::segment::Segment;
use crate::furi::seq::FuriSequence;
use crate::furi::Furigana;
use crate::text::AsText;

verus! {

/// What a reading holds.
pub struct ReadingView {
    /// The kana text.
    pub kana: Seq<char>,
    /// The text written with kanji, if there is one.
    pub kanji: Option<Seq<char>>,
}

/// A Japanese reading: always a kana text, sometimes also a way to write the
/// same word with kanji. This type owns its text; see [`ReadingRef`] for the
/// borrowed form.
#[derive(Debug, Clone, Eq, Default)]
pub struct Reading {
    kana: String,
    kanji: Option<String>,
}

impl View for Reading {
    type V = ReadingView;

    closed spec fn view(&self) -> ReadingView {
        ReadingView {
            kana: self.kana@,
            kanji: match self.kanji {
                Some(k) => Some(k@),
                None => None,
            },
        }
    }
}

impl Reading {
    /// Creates a kana reading.
    pub fn new(kana: String) -> (r: Self)
        ensures
            r@ == (ReadingView { kana: kana@, kanji: None }),
    {
        Self { kana, kanji: None }
    }

    /// Creates a reading with a kanji text.
    pub fn new_with_kanji(kana: String, kanji: String) -> (r: Self)
        ensures
            r@ == (ReadingView { kana: kana@, kanji: Some(kanji@) }),
    {
        Self { kana, kanji: Some(kanji) }
    }

    /// Creates a reading from a kana text and an optional kanji text.
    pub fn new_raw(kana: String, kanji: Option<String>) -> (r: Self)
        ensures
            r@.kana == kana@,
            r@.kanji is Some == kanji is Some,
            kanji is Some ==> r@.kanji == Some(kanji.unwrap()@),
    {
        Self { kana, kanji }
    }

    /// Whether the reading has a kanji text.
    pub fn has_kanji(&self) -> (r: bool)
        ensures
            r == self@.kanji is Some,
    {
        self.kanji.is_some()
    }

    /// The kanji text if there is one, the kana text otherwise.
    pub fn kanji_or_kana(&self) -> (r: &str)
        ensures
            r@ == (match self@.kanji {
                Some(k) => k,
                None => self@.kana,
            }),
    {
        match &self.kanji {
            Some(k) => k.as_str(),
            None => self.kana.as_str(),
        }
    }

    /// The kanji text, if there is one.
    pub fn kanji(&self) -> (r: Option<&str>)
        ensures
            r is Some == self@.kanji is Some,
            r is Some ==> r.unwrap()@ == self@.kanji.unwrap(),
    {
        match &self.kanji {
            Some(k) => Some(k.as_str()),
            None => None,
        }
    }

    /// The kana text.
    pub fn kana(&self) -> (r: &str)
        ensures
            r@ == self@.kana,
    {
        self.kana.as_str()
    }
}

impl Reading {
    /// The reading of a run of segments: what they read as, and what they
    /// are written as where one of them is a kanji segment. Literals stand
    /// in for readings that are empty.
    pub fn from_segments<S: AsSegment>(segments: &[S]) -> (r: Reading)
        ensures
            r@ == sequence_reading(views(segments@)),
    {
        let ghost v = views(segments@);
        let ghost fk = |s: SegmentView| s.kana(true);
        let ghost fm = |s: SegmentView| s.main_reading();
        let mut kana = String::new();
        let mut kanji = String::new();
        let mut has_kanji = false;
        let mut i: usize = 0;
        proof {
            assert(concat_map(v.take(0), fk) =~= Seq::<char>::empty());
            assert(concat_map(v.take(0), fm) =~= Seq::<char>::empty());
        }
        while i < segments.len()
            invariant
                i <= segments.len(),
                v == views(segments@),
                fk == (|s: SegmentView| s.kana(true)),
                fm == (|s: SegmentView| s.main_reading()),
                kana@ == concat_map(v.take(i as int), fk),
                has_kanji == model::has_kanji(v.take(i as int)),
                has_kanji ==> kanji@ == concat_map(v.take(i as int), fm),
                !has_kanji ==> concat_map(v.take(i as int), fm) == kana@,
            decreases segments.len() - i,
        {
            let seg = &segments[i];
            proof {
                lemma_concat_map_next(v, i as int, fk);
                lemma_concat_map_next(v, i as int, fm);
                lemma_has_kanji_next(v, i as int);
            }
            if seg.is_kanji() {
                if !has_kanji {
                    // The kanji text starts out as the kana read so far.
                    kanji = kana.clone();
                    has_kanji = true;
                }
                push_main(&mut kanji, seg);
            } else if has_kanji {
                push_main(&mut kanji, seg);
            }
            push_kana(&mut kana, seg, true);
            i += 1;
        }
        assert(v.take(i as int) =~= v);
        if has_kanji {
            Reading::new_with_kanji(kana, kanji)
        } else {
            Reading::new(kana)
        }
    }
}

/// Whether two readings hold the same kana and the same kanji text.
pub fn same_reading(a: ReadingRef<'_>, b: ReadingRef<'_>) -> (r: bool)
    ensures
        r == (a@ == b@),
{
    if !same_text(a.kana(), b.kana()) {
        return false;
    }
    match (a.kanji(), b.kanji()) {
        (Some(x), Some(y)) => same_text(x, y),
        (None, None) => true,
        _ => false,
    }
}

impl PartialEq for Reading {
    fn eq(&self, other: &Reading) -> (r: bool) {
        same_reading(self.as_reading_ref(), other.as_reading_ref())
    }
}

impl PartialEqSpecImpl for Reading {
    open spec fn obeys_eq_spec() -> bool {
        true
    }

    open spec fn eq_spec(&self, other: &Reading) -> bool {
        self@ == other@
    }
}

impl<'a> PartialEq<ReadingRef<'a>> for Reading {
    fn eq(&self, other: &ReadingRef<'a>) -> (r: bool) {
        same_reading(self.as_reading_ref(), *other)
    }
}

impl<'a> PartialEqSpecImpl<ReadingRef<'a>> for Reading {
    open spec fn obeys_eq_spec() -> bool {
        true
    }

    open spec fn eq_spec(&self, other: &ReadingRef<'a>) -> bool {
        self@ == other@
    }
}

impl AsReadingRef for Reading {
    open spec fn reading(&self) -> ReadingView {
        self@
    }

    fn as_reading_ref(&self) -> (r: ReadingRef<'_>) {
        ReadingRef::new_raw(self.kana(), self.kanji())
    }
}

impl From<&FuriSequence<Segment>> for Reading {
    /// The reading of the sequence.
    fn from(value: &FuriSequence<Segment>) -> (r: Self)
        ensures
            r@ == sequence_reading(value@),
    {
        value.to_reading()
    }
}

impl FromSpecImpl<&FuriSequence<Segment>> for Reading {
    open spec fn obeys_from_spec() -> bool {
        false
    }

    open spec fn from_spec(value: &FuriSequence<Segment>) -> Self {
        arbitrary()
    }
}

impl<T: AsText> From<&Furigana<T>> for Reading {
    /// The reading of the annotated text.
    fn from(value: &Furigana<T>) -> (r: Self)
        ensures
            r@ == model::reading_projection(value.text()),
    {
        value.to_reading()
    }
}

impl<T: AsText> FromSpecImpl<&Furigana<T>> for Reading {
    open spec fn obeys_from_spec() -> bool {
        false
    }

    open spec fn from_spec(value: &Furigana<T>) -> Self {
        arbitrary()
    }
}

} // verus!
