use vstd::prelude::*;
use crate::furi::model::{parse_span, span_error, ParseErrorKind, SegmentView, Span};
use crate::furi::parse::{check_fields, lemma_block_fields, whole_span, ParseError};
use crate::furi::scan::{cut, split_fields};
use crate::furi::segment::kanji::{kanji_view, AsKanjiRef, AsKanjiSegment, Kanji};
use crate::furi::segment::readings::Readings;
use crate::furi::segment::s_ref::SegmentRef;
use crate::furi::segment::traits::{
    same_segment, with_reading, AsSegment, AsSegmentMut, AsSegmentRef,
};
use vstd::std_specs::cmp::PartialEqSpecImpl;
use vstd::std_specs::convert::FromSpecImpl;
use crate::text::{string_of, texts, to_chars};

verus! {

/// One segment of an annotated text, owning its text: plain kana, or kanji
/// with the readings assigned to them.
#[derive(Clone, Debug, Eq, Hash)]
pub enum Segment {
    /// Text without annotation.
    Kana(String),
    /// Kanji literals with their readings.
    Kanji(Kanji),
}

impl Segment {
    /// Creates a kana segment.
    pub fn new_kana(kana: String) -> (r: Self)
        ensures
            r.seg() == SegmentView::Kana(kana@),
    {
        Self::Kana(kana)
    }

    /// Creates a kanji segment.
    pub fn new_kanji(lits: String, readings: &[String]) -> (r: Self)
        ensures
            r.seg() == (SegmentView::Kanji { literals: lits@, readings: texts(readings@) }),
    {
        Self::Kanji(Kanji::new(lits, readings))
    }

    /// Makes a segment of the span `v[a..b]`. With `checked` a block that
    /// strict parsing objects to is refused.
    pub(crate) fn parse_range(v: &Vec<char>, a: usize, b: usize, kanji: bool, checked: bool) -> (r:
        Result<Segment, ParseErrorKind>)
        requires
            a <= b <= v.len(),
            kanji ==> a + 2 <= b,
        ensures
            ({
                let span = Span {
                    start: a as int,
                    text: v@.subrange(a as int, b as int),
                    bracketed: kanji,
                };
                match r {
                    Ok(seg) => seg.seg() == parse_span(span) && (checked ==> span_error(
                        span,
                        false,
                    ) is None),
                    Err(k) => checked && span_error(span, false) == Some(k),
                }
            }),
    {
        if !kanji {
            return Ok(Segment::Kana(string_of(v, a, b)));
        }
        let fs = split_fields(v, a + 1, b - 1);
        proof {
            lemma_block_fields(v@, a as int, b as int);
        }
        let ghost f = cut(v@, fs@);
        if checked {
            if let Some(k) = check_fields(v, &fs) {
                return Err(k);
            }
        }
        let lit = string_of(v, fs[0].0, fs[0].1);
        let mut list = Readings::new();
        if fs.len() == 1 {
            list.push(String::new());
            assert(list@ =~= seq![Seq::<char>::empty()]);
        } else {
            let mut i: usize = 1;
            while i < fs.len()
                invariant
                    1 <= i <= fs.len(),
                    f == cut(v@, fs@),
                    forall|j: int|
                        0 <= j < fs.len() ==> (#[trigger] fs@[j]).0 <= fs@[j].1 <= v.len(),
                    list@ == f.skip(1).take(i - 1),
                decreases fs.len() - i,
            {
                list.push(string_of(v, fs[i].0, fs[i].1));
                i += 1;
                assert(f.skip(1).take(i - 1) =~= f.skip(1).take(i - 2).push(f[i - 1]));
            }
            assert(f.skip(1).take(i - 1) =~= f.skip(1));
        }
        Ok(Segment::Kanji(Kanji::new_raw(lit, list)))
    }

    /// Parses one segment: a block if the text starts with `[` and ends with
    /// `]`, plain kana otherwise. A block that strict parsing objects to is
    /// refused.
    pub fn from_str(s: &str) -> (r: Result<Segment, ParseError>)
        ensures
            match r {
                Ok(seg) => seg.seg() == parse_span(whole_span(s@)) && span_error(
                    whole_span(s@),
                    false,
                ) is None,
                Err(e) => span_error(whole_span(s@), false) == Some(e.kind) && e.offset == 0,
            },
    {
        let v = to_chars(s);
        let n = v.len();
        let kanji = n >= 2 && v[0] == '[' && v[n - 1] == ']';
        assert(v@.subrange(0, n as int) =~= s@);
        match Self::parse_range(&v, 0, n, kanji, true) {
            Ok(seg) => Ok(seg),
            Err(kind) => Err(ParseError { kind, offset: 0 }),
        }
    }

    /// Parses one segment without refusing anything: a block if the text
    /// starts with `[` and ends with `]`, plain kana otherwise.
    pub fn from_str_unchecked(s: &str) -> (r: Segment)
        ensures
            r.seg() == parse_span(whole_span(s@)),
    {
        let v = to_chars(s);
        let n = v.len();
        let kanji = n >= 2 && v[0] == '[' && v[n - 1] == ']';
        assert(v@.subrange(0, n as int) =~= s@);
        match Self::parse_range(&v, 0, n, kanji, false) {
            Ok(seg) => seg,
            Err(_) => Segment::Kana(String::from_str(s)),
        }
    }

    /// The segment in borrowed form.
    pub fn as_ref_part(&self) -> (r: SegmentRef<'_>)
        ensures
            r.seg() == self.seg(),
    {
        self.as_ref()
    }

    /// The segment in borrowed form.
    pub fn as_ref(&self) -> (r: SegmentRef<'_>)
        ensures
            r.seg() == self.seg(),
    {
        match self {
            Segment::Kana(k) => SegmentRef::Kana(k.as_str()),
            Segment::Kanji(k) => SegmentRef::Kanji(k.as_ref()),
        }
    }
}

impl AsSegment for Segment {
    type StrType = String;

    type KanjiType = Kanji;

    open spec fn seg(&self) -> SegmentView {
        match self {
            Segment::Kana(k) => SegmentView::Kana(k@),
            Segment::Kanji(k) => kanji_view(k),
        }
    }

    fn is_kana(&self) -> (r: bool) {
        matches!(self, Self::Kana(..))
    }

    fn is_kanji(&self) -> (r: bool) {
        matches!(self, Self::Kanji(..))
    }

    fn as_kana(&self) -> (r: Option<&String>) {
        match self {
            Self::Kana(v) => Some(v),
            Self::Kanji(_) => None,
        }
    }

    fn as_kanji(&self) -> (r: Option<&Kanji>) {
        match self {
            Self::Kanji(v) => Some(v),
            Self::Kana(_) => None,
        }
    }
}

impl AsSegmentMut for Segment {
    fn set_kanji(&mut self, new_kanji: String) {
        let mut taken = Segment::Kana(String::new());
        core::mem::swap(self, &mut taken);
        *self = match taken {
            Segment::Kana(k) => {
                let mut list = Readings::new();
                list.push(k);
                assert(list@ =~= seq![k@]);
                Segment::Kanji(Kanji::new_raw(new_kanji, list))
            },
            Segment::Kanji(k) => Segment::Kanji(k.with_literals(new_kanji)),
        };
    }

    fn set_kana(&mut self, s: String) {
        if self.is_kana() {
            *self = Segment::Kana(s);
        }
    }

    fn add_reading(&mut self, r: String) {
        let mut taken = Segment::Kana(String::new());
        core::mem::swap(self, &mut taken);
        *self = match taken {
            Segment::Kana(k) => Segment::Kana(k),
            Segment::Kanji(k) => Segment::Kanji(k.with_reading(r)),
        };
    }
}

impl<'a> AsSegmentRef<'a> for &'a Segment {
    open spec fn ref_seg(&self) -> SegmentView {
        (**self).seg()
    }

    fn as_seg_ref(&self) -> (r: SegmentRef<'a>) {
        match self {
            Segment::Kana(k) => SegmentRef::Kana(k.as_str()),
            Segment::Kanji(k) => SegmentRef::Kanji(k.as_kanji_ref()),
        }
    }
}

impl PartialEq for Segment {
    fn eq(&self, other: &Segment) -> (r: bool) {
        same_segment(self, other)
    }
}

impl PartialEqSpecImpl for Segment {
    open spec fn obeys_eq_spec() -> bool {
        true
    }

    open spec fn eq_spec(&self, other: &Segment) -> bool {
        self.seg() == other.seg()
    }
}

impl<'a> PartialEq<SegmentRef<'a>> for Segment {
    fn eq(&self, other: &SegmentRef<'a>) -> (r: bool) {
        same_segment(self, other)
    }
}

impl<'a> PartialEqSpecImpl<SegmentRef<'a>> for Segment {
    open spec fn obeys_eq_spec() -> bool {
        true
    }

    open spec fn eq_spec(&self, other: &SegmentRef<'a>) -> bool {
        self.seg() == other.seg()
    }
}

/// The segment of literals with one reading, or plain kana where there is
/// no reading.
pub open spec fn optional_reading(text: Seq<char>, reading: Option<Seq<char>>) -> SegmentView {
    match reading {
        Some(kana) => SegmentView::Kanji { literals: text, readings: seq![kana] },
        None => SegmentView::Kana(text),
    }
}

/// The segment of literals with readings, or plain kana where there is no
/// reading.
pub open spec fn listed_readings(text: Seq<char>, readings: Seq<Seq<char>>) -> SegmentView {
    if readings.len() == 0 {
        SegmentView::Kana(text)
    } else {
        SegmentView::Kanji { literals: text, readings }
    }
}

/// A kanji segment with a single reading.
fn one_reading(kanji: String, kana: String) -> (r: Segment)
    ensures
        r.seg() == (SegmentView::Kanji { literals: kanji@, readings: seq![kana@] }),
{
    let mut list = Readings::new();
    list.push(kana);
    assert(list@ =~= seq![kana@]);
    Segment::Kanji(Kanji::new_raw(kanji, list))
}

impl From<String> for Segment {
    /// A kana segment.
    fn from(s: String) -> (r: Self)
        ensures
            r.seg() == SegmentView::Kana(s@),
    {
        Self::new_kana(s)
    }
}

impl FromSpecImpl<String> for Segment {
    open spec fn obeys_from_spec() -> bool {
        false
    }

    open spec fn from_spec(s: String) -> Self {
        arbitrary()
    }
}

impl From<&str> for Segment {
    /// A kana segment.
    fn from(s: &str) -> (r: Self)
        ensures
            r.seg() == SegmentView::Kana(s@),
    {
        Self::new_kana(String::from_str(s))
    }
}

impl FromSpecImpl<&str> for Segment {
    open spec fn obeys_from_spec() -> bool {
        false
    }

    open spec fn from_spec(s: &str) -> Self {
        arbitrary()
    }
}

impl From<(String, String)> for Segment {
    /// A kanji segment of literals and one reading.
    fn from(s: (String, String)) -> (r: Self)
        ensures
            r.seg() == (SegmentView::Kanji { literals: s.0@, readings: seq![s.1@] }),
    {
        one_reading(s.0, s.1)
    }
}

impl FromSpecImpl<(String, String)> for Segment {
    open spec fn obeys_from_spec() -> bool {
        false
    }

    open spec fn from_spec(s: (String, String)) -> Self {
        arbitrary()
    }
}

impl From<(&str, &str)> for Segment {
    /// A kanji segment of literals and one reading.
    fn from(s: (&str, &str)) -> (r: Self)
        ensures
            r.seg() == (SegmentView::Kanji { literals: s.0@, readings: seq![s.1@] }),
    {
        one_reading(String::from_str(s.0), String::from_str(s.1))
    }
}

impl FromSpecImpl<(&str, &str)> for Segment {
    open spec fn obeys_from_spec() -> bool {
        false
    }

    open spec fn from_spec(s: (&str, &str)) -> Self {
        arbitrary()
    }
}

impl From<(String, Option<String>)> for Segment {
    /// A kanji segment of literals and their reading, or plain kana where there
    /// is no reading.
    fn from(s: (String, Option<String>)) -> (r: Self)
        ensures
            r.seg() == optional_reading(
                s.0@,
                match s.1 {
                    Some(k) => Some(k@),
                    None => None,
                },
            ),
    {
        match s.1 {
            Some(kana) => one_reading(s.0, kana),
            None => Self::Kana(s.0),
        }
    }
}

impl FromSpecImpl<(String, Option<String>)> for Segment {
    open spec fn obeys_from_spec() -> bool {
        false
    }

    open spec fn from_spec(s: (String, Option<String>)) -> Self {
        arbitrary()
    }
}

impl From<(&str, Option<&str>)> for Segment {
    /// A kanji segment of literals and their reading, or plain kana where there
    /// is no reading.
    fn from(s: (&str, Option<&str>)) -> (r: Self)
        ensures
            r.seg() == optional_reading(
                s.0@,
                match s.1 {
                    Some(k) => Some(k@),
                    None => None,
                },
            ),
    {
        match s.1 {
            Some(kana) => one_reading(String::from_str(s.0), String::from_str(kana)),
            None => Self::Kana(String::from_str(s.0)),
        }
    }
}

impl FromSpecImpl<(&str, Option<&str>)> for Segment {
    open spec fn obeys_from_spec() -> bool {
        false
    }

    open spec fn from_spec(s: (&str, Option<&str>)) -> Self {
        arbitrary()
    }
}

impl From<(&str, Vec<&str>)> for Segment {
    /// A kanji segment of literals and their readings, or plain kana where
    /// there is no reading.
    fn from(s: (&str, Vec<&str>)) -> (r: Self)
        ensures
            r.seg() == listed_readings(s.0@, texts(s.1@)),
    {
        if s.1.len() == 0 {
            Self::new_kana(String::from_str(s.0))
        } else {
            SegmentRef::new_kanji(s.0, s.1.as_slice()).to_owned()
        }
    }
}

impl FromSpecImpl<(&str, Vec<&str>)> for Segment {
    open spec fn obeys_from_spec() -> bool {
        false
    }

    open spec fn from_spec(s: (&str, Vec<&str>)) -> Self {
        arbitrary()
    }
}

} // verus!
