//! Kanji segments: literals with the readings assigned to them.
use vstd::prelude::*;
use crate::furi::model::{is_detailed, SegmentView};
use crate::furi::segment::readings::{Readings, ReadingsRef};
use crate::reading::{Reading, ReadingView};
use crate::text::{concat, join_texts, lemma_join_empty, same_text, texts, AsText};
use vstd::std_specs::cmp::PartialEqSpecImpl;

verus! {

/// What kanji segments, owned or borrowed, have in common.
pub trait AsKanjiSegment {
    /// The string type that the segment holds.
    type StrType: AsText;

    /// The literals as a sequence of characters.
    spec fn literals_text(&self) -> Seq<char>;

    /// The readings as sequences of characters.
    spec fn readings_text(&self) -> Seq<Seq<char>>;

    /// The kanji literals of the segment.
    fn literals(&self) -> (r: &Self::StrType)
        ensures
            r.text() == self.literals_text(),
    ;

    /// The readings of the literals.
    fn readings(&self) -> (r: &[Self::StrType])
        ensures
            texts(r@) == self.readings_text(),
    ;

    /// All readings written as one.
    fn full_reading(&self) -> (r: String)
        ensures
            r@ == concat(self.readings_text()),
    {
        proof {
            reveal_strlit("");
            lemma_join_empty(self.readings_text());
            assert(""@ =~= Seq::<char>::empty());
        }
        join_texts(self.readings(), "")
    }

    /// The segment as a reading.
    fn to_reading(&self) -> (r: Reading)
        ensures
            r@ == (ReadingView {
                kana: concat(self.readings_text()),
                kanji: Some(self.literals_text()),
            }),
    {
        Reading::new_with_kanji(
            self.full_reading(),
            String::from_str(self.literals().as_text()),
        )
    }

    /// Whether there are as many readings as literals.
    fn is_detailed(&self) -> (r: bool)
        ensures
            r == is_detailed(self.literals_text(), self.readings_text()),
    {
        self.lit_count() == self.reading_count()
    }

    /// Whether the segment has no literals.
    fn is_empty(&self) -> (r: bool)
        ensures
            r == (self.literals_text().len() == 0),
    {
        self.literals().as_text().is_empty()
    }

    /// The number of literals.
    fn lit_count(&self) -> (r: usize)
        ensures
            r == self.literals_text().len(),
    {
        self.literals().as_text().unicode_len()
    }

    /// The number of readings.
    fn reading_count(&self) -> (r: usize)
        ensures
            r == self.readings_text().len(),
    {
        self.readings().len()
    }

    /// Whether the segment holds a single literal.
    fn is_single(&self) -> (r: bool)
        ensures
            r == (self.literals_text().len() == 1),
    {
        self.lit_count() == 1
    }

    /// Whether the segment has literals and either one reading for each of
    /// them or one reading for all of them.
    fn is_valid(&self) -> (r: bool)
        ensures
            r == (self.literals_text().len() > 0 && (is_detailed(
                self.literals_text(),
                self.readings_text(),
            ) || self.readings_text().len() == 1)),
    {
        !self.is_empty() && (self.is_detailed() || self.reading_count() == 1)
    }
}

/// The pairs of literals and reading that a kanji segment falls into.
pub open spec fn literal_pairs(seg: SegmentView) -> Seq<(Seq<char>, Seq<char>)> {
    Seq::new(
        seg.flatten().len(),
        |i: int| (seg.flatten()[i].main_reading(), seg.flatten()[i].full_reading()),
    )
}

/// The segment that a kanji segment stands for.
pub open spec fn kanji_view<K: AsKanjiSegment>(k: &K) -> SegmentView {
    SegmentView::Kanji { literals: k.literals_text(), readings: k.readings_text() }
}

impl<T: AsKanjiSegment> AsKanjiSegment for &T {
    type StrType = T::StrType;

    open spec fn literals_text(&self) -> Seq<char> {
        (**self).literals_text()
    }

    open spec fn readings_text(&self) -> Seq<Seq<char>> {
        (**self).readings_text()
    }

    fn literals(&self) -> (r: &Self::StrType) {
        (**self).literals()
    }

    fn readings(&self) -> (r: &[Self::StrType]) {
        (**self).readings()
    }
}

/// An owned kanji segment.
#[derive(Clone, Debug, Eq, Hash)]
pub struct Kanji {
    lit: String,
    readings: Readings,
}

/// A borrowed kanji segment.
#[derive(Clone, Debug, Eq, Hash)]
pub struct KanjiRef<'a> {
    lit: &'a str,
    readings: ReadingsRef<'a>,
}

impl AsKanjiSegment for Kanji {
    type StrType = String;

    closed spec fn literals_text(&self) -> Seq<char> {
        self.lit@
    }

    closed spec fn readings_text(&self) -> Seq<Seq<char>> {
        self.readings@
    }

    fn literals(&self) -> (r: &String) {
        &self.lit
    }

    fn readings(&self) -> (r: &[String]) {
        self.readings.as_slice()
    }
}

impl<'a> AsKanjiSegment for KanjiRef<'a> {
    type StrType = &'a str;

    closed spec fn literals_text(&self) -> Seq<char> {
        self.lit@
    }

    closed spec fn readings_text(&self) -> Seq<Seq<char>> {
        self.readings@
    }

    fn literals(&self) -> (r: &&'a str) {
        assert(self.lit.text() == self.lit@);
        &self.lit
    }

    fn readings(&self) -> (r: &[&'a str]) {
        self.readings.as_slice()
    }
}

/// Kanji segments from which a borrowed kanji segment can be had.
pub trait AsKanjiRef<'a> {
    /// The literals as a sequence of characters.
    spec fn ref_literals(&self) -> Seq<char>;

    /// The readings as sequences of characters.
    spec fn ref_readings(&self) -> Seq<Seq<char>>;

    /// The segment in borrowed form.
    fn as_kanji_ref(&self) -> (r: KanjiRef<'a>)
        ensures
            r.literals_text() == self.ref_literals(),
            r.readings_text() == self.ref_readings(),
    ;
}

impl Kanji {
    /// Creates a kanji segment from literals and their readings.
    pub fn new(lit: String, readings: &[String]) -> (r: Self)
        ensures
            r.literals_text() == lit@,
            r.readings_text() == texts(readings@),
    {
        let mut list = Readings::new();
        let mut i: usize = 0;
        while i < readings.len()
            invariant
                i <= readings.len(),
                list@ == texts(readings@).take(i as int),
            decreases readings.len() - i,
        {
            list.push(readings[i].clone());
            i += 1;
            assert(texts(readings@).take(i as int) =~= texts(readings@).take(i - 1).push(
                readings@[i - 1]@,
            ));
        }
        assert(texts(readings@).take(i as int) =~= texts(readings@));
        Self { lit, readings: list }
    }

    /// Creates a kanji segment from literals and a ready list of readings.
    pub(crate) fn new_raw(lit: String, readings: Readings) -> (r: Self)
        ensures
            r.literals_text() == lit@,
            r.readings_text() == readings@,
    {
        Self { lit, readings }
    }

    /// The same readings with other literals.
    pub(crate) fn with_literals(self, lit: String) -> (r: Self)
        ensures
            r.literals_text() == lit@,
            r.readings_text() == self.readings_text(),
    {
        Self { lit, readings: self.readings }
    }

    /// The same segment with one more reading.
    pub(crate) fn with_reading(self, reading: String) -> (r: Self)
        ensures
            r.literals_text() == self.literals_text(),
            r.readings_text() == self.readings_text().push(reading@),
    {
        let mut readings = self.readings;
        readings.push(reading);
        Self { lit: self.lit, readings }
    }

    /// The segment in borrowed form.
    pub fn as_ref(&self) -> (r: KanjiRef<'_>)
        ensures
            r.literals_text() == self.literals_text(),
            r.readings_text() == self.readings_text(),
    {
        let rs = self.readings.as_slice();
        let mut list = ReadingsRef::new();
        let mut i: usize = 0;
        while i < rs.len()
            invariant
                i <= rs.len(),
                list@ == texts(rs@).take(i as int),
            decreases rs.len() - i,
        {
            list.push(rs[i].as_str());
            i += 1;
            assert(texts(rs@).take(i as int) =~= texts(rs@).take(i - 1).push(rs@[i - 1]@));
        }
        assert(texts(rs@).take(i as int) =~= texts(rs@));
        KanjiRef { lit: self.lit.as_str(), readings: list }
    }
}

impl<'a> KanjiRef<'a> {
    /// Creates a kanji segment from literals and their readings.
    pub fn new(lit: &'a str, readings: &[&'a str]) -> (r: Self)
        ensures
            r.literals_text() == lit@,
            r.readings_text() == texts(readings@),
    {
        let mut list = ReadingsRef::new();
        let mut i: usize = 0;
        while i < readings.len()
            invariant
                i <= readings.len(),
                list@ == texts(readings@).take(i as int),
            decreases readings.len() - i,
        {
            list.push(readings[i]);
            i += 1;
            assert(texts(readings@).take(i as int) =~= texts(readings@).take(i - 1).push(
                readings@[i - 1]@,
            ));
        }
        assert(texts(readings@).take(i as int) =~= texts(readings@));
        Self { lit, readings: list }
    }

    /// Creates a kanji segment from literals and a ready list of readings.
    pub(crate) fn new_raw(lit: &'a str, readings: ReadingsRef<'a>) -> (r: Self)
        ensures
            r.literals_text() == lit@,
            r.readings_text() == readings@,
    {
        Self { lit, readings }
    }

    /// The same readings with other literals.
    pub(crate) fn with_literals(self, lit: &'a str) -> (r: Self)
        ensures
            r.literals_text() == lit@,
            r.readings_text() == self.readings_text(),
    {
        Self { lit, readings: self.readings }
    }

    /// The same segment with one more reading.
    pub(crate) fn with_reading(self, reading: &'a str) -> (r: Self)
        ensures
            r.literals_text() == self.literals_text(),
            r.readings_text() == self.readings_text().push(reading@),
    {
        let mut readings = self.readings;
        readings.push(reading);
        Self { lit: self.lit, readings }
    }

    /// An owned copy of the segment.
    pub fn to_owned(&self) -> (r: Kanji)
        ensures
            r.literals_text() == self.literals_text(),
            r.readings_text() == self.readings_text(),
    {
        let rs = self.readings.as_slice();
        let mut list = Readings::new();
        let mut i: usize = 0;
        while i < rs.len()
            invariant
                i <= rs.len(),
                list@ == texts(rs@).take(i as int),
            decreases rs.len() - i,
        {
            list.push(String::from_str(rs[i]));
            i += 1;
            assert(texts(rs@).take(i as int) =~= texts(rs@).take(i - 1).push(rs@[i - 1]@));
        }
        assert(texts(rs@).take(i as int) =~= texts(rs@));
        Kanji { lit: String::from_str(self.lit), readings: list }
    }
}

impl<'a> AsKanjiRef<'a> for KanjiRef<'a> {
    open spec fn ref_literals(&self) -> Seq<char> {
        self.literals_text()
    }

    open spec fn ref_readings(&self) -> Seq<Seq<char>> {
        self.readings_text()
    }

    fn as_kanji_ref(&self) -> (r: KanjiRef<'a>) {
        KanjiRef { lit: self.lit, readings: self.readings.clone() }
    }
}

impl<'a> AsKanjiRef<'a> for &'a Kanji {
    open spec fn ref_literals(&self) -> Seq<char> {
        (**self).literals_text()
    }

    open spec fn ref_readings(&self) -> Seq<Seq<char>> {
        (**self).readings_text()
    }

    fn as_kanji_ref(&self) -> (r: KanjiRef<'a>) {
        (*self).as_ref()
    }
}

/// Whether two kanji segments hold the same literals and the same readings.
pub fn same_kanji<A: AsKanjiSegment, B: AsKanjiSegment>(a: &A, b: &B) -> (r: bool)
    ensures
        r == (kanji_view(a) == kanji_view(b)),
{
    let ra = a.readings();
    let rb = b.readings();
    if !same_text(a.literals().as_text(), b.literals().as_text()) {
        return false;
    }
    if ra.len() != rb.len() {
        assert(texts(ra@).len() != texts(rb@).len());
        return false;
    }
    let mut i: usize = 0;
    while i < ra.len()
        invariant
            i <= ra.len(),
            ra.len() == rb.len(),
            texts(ra@) == a.readings_text(),
            texts(rb@) == b.readings_text(),
            a.literals_text() == b.literals_text(),
            forall|j: int| 0 <= j < i ==> texts(ra@)[j] == texts(rb@)[j],
        decreases ra.len() - i,
    {
        if !same_text(ra[i].as_text(), rb[i].as_text()) {
            assert(texts(ra@)[i as int] != texts(rb@)[i as int]);
            return false;
        }
        i += 1;
    }
    assert(texts(ra@) =~= texts(rb@));
    true
}

impl PartialEq for Kanji {
    fn eq(&self, other: &Kanji) -> (r: bool) {
        same_kanji(self, other)
    }
}

impl PartialEqSpecImpl for Kanji {
    open spec fn obeys_eq_spec() -> bool {
        true
    }

    open spec fn eq_spec(&self, other: &Kanji) -> bool {
        kanji_view(self) == kanji_view(other)
    }
}

impl<'a> PartialEq<KanjiRef<'a>> for Kanji {
    fn eq(&self, other: &KanjiRef<'a>) -> (r: bool) {
        same_kanji(self, other)
    }
}

impl<'a> PartialEqSpecImpl<KanjiRef<'a>> for Kanji {
    open spec fn obeys_eq_spec() -> bool {
        true
    }

    open spec fn eq_spec(&self, other: &KanjiRef<'a>) -> bool {
        kanji_view(self) == kanji_view(other)
    }
}

impl<'a> PartialEq for KanjiRef<'a> {
    fn eq(&self, other: &KanjiRef<'a>) -> (r: bool) {
        same_kanji(self, other)
    }
}

impl<'a> PartialEqSpecImpl for KanjiRef<'a> {
    open spec fn obeys_eq_spec() -> bool {
        true
    }

    open spec fn eq_spec(&self, other: &KanjiRef<'a>) -> bool {
        kanji_view(self) == kanji_view(other)
    }
}

impl<'a> PartialEq<Kanji> for KanjiRef<'a> {
    fn eq(&self, other: &Kanji) -> (r: bool) {
        same_kanji(self, other)
    }
}

impl<'a> PartialEqSpecImpl<Kanji> for KanjiRef<'a> {
    open spec fn obeys_eq_spec() -> bool {
        true
    }

    open spec fn eq_spec(&self, other: &Kanji) -> bool {
        kanji_view(self) == kanji_view(other)
    }
}

} // verus!
