use vstd::prelude::*;
use crate::furi::model::{parse_span, span_error, ParseErrorKind, SegmentView, Span};
use crate::furi::parse::{check_fields, lemma_block_fields, whole_span, ParseError};
use crate::furi::scan::{cut, split_fields};
use crate::furi::segment::kanji::{kanji_view, AsKanjiSegment, KanjiRef};
use crate::furi::segment::readings::ReadingsRef;
use crate::furi::segment::s_owned::{optional_reading, Segment};
use crate::furi::segment::traits::{same_segment, AsSegment, AsSegmentMut};
use vstd::std_specs::cmp::PartialEqSpecImpl;
use vstd::std_specs::convert::FromSpecImpl;
use crate::text::{texts, to_chars, AsText};

verus! {

/// One segment of an annotated text, borrowing its text.
#[derive(Clone, Debug, Eq, Hash)]
pub enum SegmentRef<'a> {
    /// Text without annotation.
    Kana(&'a str),
    /// Kanji literals with their readings.
    Kanji(KanjiRef<'a>),
}

impl<'a> SegmentRef<'a> {
    /// Creates a kana segment.
    pub fn new_kana(kana: &'a str) -> (r: Self)
        ensures
            r.seg() == SegmentView::Kana(kana@),
    {
        Self::Kana(kana)
    }

    /// Creates a kanji segment.
    pub fn new_kanji(lits: &'a str, readings: &[&'a str]) -> (r: Self)
        ensures
            r.seg() == (SegmentView::Kanji { literals: lits@, readings: texts(readings@) }),
    {
        Self::Kanji(KanjiRef::new(lits, readings))
    }

    /// Creates a kanji segment with several readings.
    pub fn new_kanji_mult(kanji: &'a str, readings: &[&'a str]) -> (r: Self)
        ensures
            r.seg() == (SegmentView::Kanji { literals: kanji@, readings: texts(readings@) }),
    {
        Self::new_kanji(kanji, readings)
    }

    /// Makes a segment of the span `v[a..b]` of the text `s`. With `checked`
    /// a block that strict parsing objects to is refused.
    pub(crate) fn parse_range(
        s: &'a str,
        v: &Vec<char>,
        a: usize,
        b: usize,
        kanji: bool,
        checked: bool,
    ) -> (r: Result<SegmentRef<'a>, ParseErrorKind>)
        requires
            v@ == s@,
            a <= b <= v.len(),
            kanji ==> a + 2 <= b,
        ensures
            ({
                let span = Span {
                    start: a as int,
                    text: v@.subrange(a as int, b as int),
                    bracketed: kanji,
                };
                match r {
                    Ok(seg) => seg.seg() == parse_span(span) && (checked ==> span_error(
                        span,
                        false,
                    ) is None),
                    Err(k) => checked && span_error(span, false) == Some(k),
                }
            }),
    {
        if !kanji {
            return Ok(SegmentRef::Kana(s.substring_char(a, b)));
        }
        let fs = split_fields(v, a + 1, b - 1);
        proof {
            lemma_block_fields(v@, a as int, b as int);
        }
        let ghost f = cut(v@, fs@);
        if checked {
            if let Some(k) = check_fields(v, &fs) {
                return Err(k);
            }
        }
        let lit = s.substring_char(fs[0].0, fs[0].1);
        let mut list = ReadingsRef::new();
        if fs.len() == 1 {
            list.push(s.substring_char(a, a));
            assert(s@.subrange(a as int, a as int) =~= Seq::<char>::empty());
            assert(list@ =~= seq![Seq::<char>::empty()]);
        } else {
            let mut i: usize = 1;
            while i < fs.len()
                invariant
                    1 <= i <= fs.len(),
                    v@ == s@,
                    f == cut(v@, fs@),
                    forall|j: int|
                        0 <= j < fs.len() ==> (#[trigger] fs@[j]).0 <= fs@[j].1 <= v.len(),
                    list@ == f.skip(1).take(i - 1),
                decreases fs.len() - i,
            {
                list.push(s.substring_char(fs[i].0, fs[i].1));
                i += 1;
                assert(f.skip(1).take(i - 1) =~= f.skip(1).take(i - 2).push(f[i - 1]));
            }
            assert(f.skip(1).take(i - 1) =~= f.skip(1));
        }
        Ok(SegmentRef::Kanji(KanjiRef::new_raw(lit, list)))
    }

    /// Parses one segment, with a hint whether it is a block. With `checked`
    /// a block that strict parsing objects to is refused.
    pub(crate) fn parse_str(str: &'a str, kanji: bool, checked: bool) -> (r: Result<
        SegmentRef<'a>,
        ParseError,
    >)
        requires
            kanji ==> str@.len() >= 2,
        ensures
            ({
                let span = Span { start: 0, text: str@, bracketed: kanji };
                match r {
                    Ok(seg) => seg.seg() == parse_span(span) && (checked ==> span_error(
                        span,
                        false,
                    ) is None),
                    Err(e) => checked && span_error(span, false) == Some(e.kind) && e.offset == 0,
                }
            }),
    {
        let v = to_chars(str);
        assert(v@.subrange(0, v.len() as int) =~= str@);
        match Self::parse_range(str, &v, 0, v.len(), kanji, checked) {
            Ok(seg) => Ok(seg),
            Err(kind) => Err(ParseError { kind, offset: 0 }),
        }
    }

    /// Parses one segment: a block if the text starts with `[` and ends with
    /// `]`, plain kana otherwise. A block that strict parsing objects to is
    /// refused.
    pub fn from_str_checked(str: &'a str) -> (r: Result<SegmentRef<'a>, ParseError>)
        ensures
            match r {
                Ok(seg) => seg.seg() == parse_span(whole_span(str@)) && span_error(
                    whole_span(str@),
                    false,
                ) is None,
                Err(e) => span_error(whole_span(str@), false) == Some(e.kind) && e.offset == 0,
            },
    {
        let v = to_chars(str);
        let n = v.len();
        let kanji = n >= 2 && v[0] == '[' && v[n - 1] == ']';
        assert(v@.subrange(0, n as int) =~= str@);
        match Self::parse_range(str, &v, 0, n, kanji, true) {
            Ok(seg) => Ok(seg),
            Err(kind) => Err(ParseError { kind, offset: 0 }),
        }
    }

    /// Parses one segment without refusing anything: a block if the text
    /// starts with `[` and ends with `]`, plain kana otherwise.
    pub fn from_str_unchecked(str: &'a str) -> (r: SegmentRef<'a>)
        ensures
            r.seg() == parse_span(whole_span(str@)),
    {
        let v = to_chars(str);
        let n = v.len();
        let kanji = n >= 2 && v[0] == '[' && v[n - 1] == ']';
        assert(v@.subrange(0, n as int) =~= str@);
        match Self::parse_range(str, &v, 0, n, kanji, false) {
            Ok(seg) => seg,
            Err(_) => SegmentRef::Kana(str),
        }
    }

    /// An owned copy of the segment.
    pub fn to_owned(&self) -> (r: Segment)
        ensures
            r.seg() == self.seg(),
    {
        match self {
            SegmentRef::Kana(k) => Segment::Kana(String::from_str(k)),
            SegmentRef::Kanji(k) => Segment::Kanji(k.to_owned()),
        }
    }

    /// The segment as plain text: a kanji segment gives its literals.
    pub fn convert_to_kana(self) -> (r: Self)
        ensures
            r.seg() == SegmentView::Kana(self.seg().main_reading()),
    {
        match self {
            SegmentRef::Kana(k) => SegmentRef::Kana(k),
            SegmentRef::Kanji(k) => {
                let lit: &'a str = *k.literals();
                SegmentRef::Kana(lit)
            },
        }
    }
}

impl<'a> AsSegment for SegmentRef<'a> {
    type StrType = &'a str;

    type KanjiType = KanjiRef<'a>;

    open spec fn seg(&self) -> SegmentView {
        match self {
            SegmentRef::Kana(k) => SegmentView::Kana(k@),
            SegmentRef::Kanji(k) => kanji_view(k),
        }
    }

    fn is_kana(&self) -> (r: bool) {
        matches!(self, Self::Kana(..))
    }

    fn is_kanji(&self) -> (r: bool) {
        matches!(self, Self::Kanji(..))
    }

    fn as_kana(&self) -> (r: Option<&&'a str>) {
        match self {
            Self::Kana(v) => {
                assert(v.text() == v@);
                Some(v)
            },
            Self::Kanji(_) => None,
        }
    }

    fn as_kanji(&self) -> (r: Option<&KanjiRef<'a>>) {
        match self {
            Self::Kanji(v) => Some(v),
            Self::Kana(_) => None,
        }
    }
}

impl<'a> AsSegmentMut for SegmentRef<'a> {
    fn set_kanji(&mut self, s: &'a str) {
        let mut taken = SegmentRef::Kana(s);
        core::mem::swap(self, &mut taken);
        *self = match taken {
            SegmentRef::Kana(k) => {
                let mut list = ReadingsRef::new();
                list.push(k);
                assert(list@ =~= seq![k@]);
                SegmentRef::Kanji(KanjiRef::new_raw(s, list))
            },
            SegmentRef::Kanji(k) => SegmentRef::Kanji(k.with_literals(s)),
        };
    }

    fn set_kana(&mut self, s: &'a str) {
        if self.is_kana() {
            *self = SegmentRef::Kana(s);
        }
    }

    fn add_reading(&mut self, r: &'a str) {
        let mut taken = SegmentRef::Kana(r);
        core::mem::swap(self, &mut taken);
        *self = match taken {
            SegmentRef::Kana(k) => SegmentRef::Kana(k),
            SegmentRef::Kanji(k) => SegmentRef::Kanji(k.with_reading(r)),
        };
    }
}

impl<'a> PartialEq for SegmentRef<'a> {
    fn eq(&self, other: &SegmentRef<'a>) -> (r: bool) {
        same_segment(self, other)
    }
}

impl<'a> PartialEqSpecImpl for SegmentRef<'a> {
    open spec fn obeys_eq_spec() -> bool {
        true
    }

    open spec fn eq_spec(&self, other: &SegmentRef<'a>) -> bool {
        self.seg() == other.seg()
    }
}

impl<'a> PartialEq<Segment> for SegmentRef<'a> {
    fn eq(&self, other: &Segment) -> (r: bool) {
        same_segment(self, other)
    }
}

impl<'a> PartialEqSpecImpl<Segment> for SegmentRef<'a> {
    open spec fn obeys_eq_spec() -> bool {
        true
    }

    open spec fn eq_spec(&self, other: &Segment) -> bool {
        self.seg() == other.seg()
    }
}

impl<'a> From<&'a Segment> for SegmentRef<'a> {
    /// The segment in borrowed form.
    fn from(s: &'a Segment) -> (r: Self)
        ensures
            r.seg() == s.seg(),
    {
        s.as_ref()
    }
}

impl<'a> FromSpecImpl<&'a Segment> for SegmentRef<'a> {
    open spec fn obeys_from_spec() -> bool {
        false
    }

    open spec fn from_spec(s: &'a Segment) -> Self {
        arbitrary()
    }
}

impl<'a> From<&'a str> for SegmentRef<'a> {
    /// A kana segment.
    fn from(s: &'a str) -> (r: Self)
        ensures
            r.seg() == SegmentView::Kana(s@),
    {
        Self::new_kana(s)
    }
}

impl<'a> FromSpecImpl<&'a str> for SegmentRef<'a> {
    open spec fn obeys_from_spec() -> bool {
        false
    }

    open spec fn from_spec(s: &'a str) -> Self {
        arbitrary()
    }
}

impl<'a> From<(&'a str, &'a str)> for SegmentRef<'a> {
    /// A kanji segment of literals and one reading.
    fn from(s: (&'a str, &'a str)) -> (r: Self)
        ensures
            r.seg() == (SegmentView::Kanji { literals: s.0@, readings: seq![s.1@] }),
    {
        let mut list = ReadingsRef::new();
        list.push(s.1);
        assert(list@ =~= seq![s.1@]);
        SegmentRef::Kanji(KanjiRef::new_raw(s.0, list))
    }
}

impl<'a> FromSpecImpl<(&'a str, &'a str)> for SegmentRef<'a> {
    open spec fn obeys_from_spec() -> bool {
        false
    }

    open spec fn from_spec(s: (&'a str, &'a str)) -> Self {
        arbitrary()
    }
}

impl<'a> From<(&'a str, Option<&'a str>)> for SegmentRef<'a> {
    /// A kanji segment of literals and their reading, or plain kana where there
    /// is no reading.
    fn from(s: (&'a str, Option<&'a str>)) -> (r: Self)
        ensures
            r.seg() == optional_reading(
                s.0@,
                match s.1 {
                    Some(k) => Some(k@),
                    None => None,
                },
            ),
    {
        match s.1 {
            Some(kana) => SegmentRef::from((s.0, kana)),
            None => Self::Kana(s.0),
        }
    }
}

impl<'a> FromSpecImpl<(&'a str, Option<&'a str>)> for SegmentRef<'a> {
    open spec fn obeys_from_spec() -> bool {
        false
    }

    open spec fn from_spec(s: (&'a str, Option<&'a str>)) -> Self {
        arbitrary()
    }
}

impl<'a> From<(&'a str, Vec<&'a str>)> for SegmentRef<'a> {
    /// A kanji segment of literals and their readings.
    fn from(s: (&'a str, Vec<&'a str>)) -> (r: Self)
        ensures
            r.seg() == (SegmentView::Kanji { literals: s.0@, readings: texts(s.1@) }),
    {
        Self::new_kanji_mult(s.0, s.1.as_slice())
    }
}

impl<'a> FromSpecImpl<(&'a str, Vec<&'a str>)> for SegmentRef<'a> {
    open spec fn obeys_from_spec() -> bool {
        false
    }

    open spec fn from_spec(s: (&'a str, Vec<&'a str>)) -> Self {
        arbitrary()
    }
}

} // verus!
