use vstd::prelude::*;
use super::FuriSequence;
use crate::furi::model::{kana_reading, kanji_reading, SegmentView};
use crate::furi::segment::AsSegment;

verus! {

/// One of the two readings of a sequence: as it is read, or as it is written.
pub struct SReading<'a, T> {
    r: &'a FuriSequence<T>,
    kana: bool,
}

impl<'a, T: AsSegment> SReading<'a, T> {
    /// The sequence that is read.
    pub closed spec fn sequence(&self) -> Seq<SegmentView> {
        self.r@
    }

    /// Whether this is the reading in kana.
    pub closed spec fn is_kana(&self) -> bool {
        self.kana
    }

    /// The text of the reading.
    pub open spec fn text(&self) -> Seq<char> {
        if self.is_kana() {
            kana_reading(self.sequence(), true)
        } else {
            kanji_reading(self.sequence())
        }
    }

    /// Creates the kana reading of `r` if `kana` is set, the kanji reading
    /// otherwise.
    pub fn new(r: &'a FuriSequence<T>, kana: bool) -> (s: Self)
        ensures
            s.sequence() == r@,
            s.is_kana() == kana,
    {
        Self { r, kana }
    }

    /// The text of the reading.
    pub fn to_string(&self) -> (s: String)
        ensures
            s@ == self.text(),
    {
        if self.kana {
            self.r.as_kana()
        } else {
            self.r.as_kanji()
        }
    }

    /// The length of the text in bytes.
    pub fn len(&self) -> (n: usize)
        ensures
            n == vstd::utf8::encode_utf8(self.text()).len() as usize,
    {
        self.to_string().as_str().len()
    }

    /// Whether the sequence has no segment.
    pub fn is_empty(&self) -> (b: bool)
        ensures
            b == (self.sequence().len() == 0),
    {
        self.r.is_empty()
    }

    /// The number of characters of the text.
    pub fn str_len(&self) -> (n: usize)
        ensures
            n == self.text().len(),
    {
        self.to_string().as_str().unicode_len()
    }
}

} // verus!
