//! Parsing annotated text.
pub mod gen;
pub mod reading;
pub mod unchecked;

use vstd::prelude::*;
pub use self::gen::FuriParserGen;
use self::unchecked::UncheckedFuriParser;
pub use crate::furi::model::ParseErrorKind;
use crate::furi::model::{
    byte_offset, error_position, fields, fields_error, first_error, is_valid,
    lemma_find_contains, parse_span, parse_spans, sequence_reading, span_error, spans,
    spans_error, strict_error, Span,
};
use crate::furi::scan::{cut, find_char_until};
use crate::furi::segment::{AsSegment, SegmentRef};
use crate::furi::seq::views;
use crate::reading::Reading;
use crate::text::AsText;

verus! {

/// The refusal of strict parsing.
#[derive(Clone, Copy, Debug, PartialEq, Eq, Structural)]
pub struct ParseError {
    /// What was wrong.
    pub kind: ParseErrorKind,
    /// The byte offset in the text at which it was found.
    pub offset: usize,
}

/// A whole text taken as one span: a block if it starts with `[` and ends
/// with `]`, plain text otherwise.
pub open spec fn whole_span(t: Seq<char>) -> Span {
    Span { start: 0, text: t, bracketed: t.len() >= 2 && t[0] == '[' && t[t.len() - 1] == ']' }
}

/// What strict parsing objects to in the fields of a block.
pub(crate) fn check_fields(v: &Vec<char>, fs: &Vec<(usize, usize)>) -> (r: Option<ParseErrorKind>)
    requires
        fs.len() >= 1,
        forall|i: int| 0 <= i < fs.len() ==> (#[trigger] fs@[i]).0 <= fs@[i].1 <= v.len(),
    ensures
        r == fields_error(cut(v@, fs@)),
{
    let lits = fs[0].1 - fs[0].0;
    assert(cut(v@, fs@)[0].len() == lits);
    if fs.len() == 1 {
        Some(ParseErrorKind::MissingReading)
    } else if lits == 0 {
        Some(ParseErrorKind::EmptyLiteral)
    } else if fs.len() > 2 && fs.len() - 1 != lits {
        Some(ParseErrorKind::ReadingCountMismatch)
    } else {
        None
    }
}

/// The fields of the block `v[a..b]` are the fields of its inner text.
pub proof fn lemma_block_fields(v: Seq<char>, a: int, b: int)
    requires
        0 <= a,
        a + 2 <= b <= v.len(),
    ensures
        fields(v.subrange(a, b)) == crate::text::split(v.subrange(a + 1, b - 1), '|'),
{
    assert(v.subrange(a, b).subrange(1, b - a - 1) =~= v.subrange(a + 1, b - 1));
}

/// A cursor over an annotated text that parses each span strictly.
pub struct FuriParser<'a> {
    gen_parser: FuriParserGen<'a>,
}

impl<'a> FuriParser<'a> {
    /// The text that the cursor runs over.
    pub closed spec fn source(&self) -> Seq<char> {
        self.gen_parser.source()
    }

    /// The spans that are still to come.
    pub closed spec fn remaining(&self) -> Seq<Span> {
        self.gen_parser.remaining()
    }

    /// The cursor is in order.
    pub closed spec fn wf(&self) -> bool {
        self.gen_parser.wf()
    }

    /// Creates a strict parser at the start of `str`.
    pub fn new(str: &'a str) -> (r: Self)
        ensures
            r.wf(),
            r.source() == str@,
            r.remaining() == spans(str@),
    {
        Self { gen_parser: FuriParserGen::new(str) }
    }

    /// The same cursor, parsing leniently from here on: what cannot be read
    /// as it should is taken as well as it can be.
    pub fn unchecked(self) -> (r: UncheckedFuriParser<'a>)
        requires
            self.wf(),
        ensures
            r.wf(),
            r.source() == self.source(),
            r.remaining() == self.remaining(),
    {
        UncheckedFuriParser::new(self.gen_parser)
    }

    /// Parses the text of a single span strictly.
    pub fn from_seg_str(txt: &'a str, kanji: bool) -> (r: Result<SegmentRef<'a>, ParseError>)
        requires
            kanji ==> txt@.len() >= 2,
        ensures
            ({
                let span = Span { start: 0, text: txt@, bracketed: kanji };
                match r {
                    Ok(seg) => seg.seg() == parse_span(span) && span_error(span, false) is None,
                    Err(e) => span_error(span, false) == Some(e.kind) && e.offset == 0,
                }
            }),
    {
        SegmentRef::parse_str(txt, kanji, true)
    }

    /// Whether strict parsing accepts the text.
    pub fn check<S: AsText>(s: S) -> (r: bool)
        ensures
            r == is_valid(s.text()),
    {
        Self::validate(s.as_text()).is_ok()
    }

    /// Parses the text strictly for its first refusal alone.
    pub fn validate(s: &str) -> (r: Result<(), ParseError>)
        ensures
            match r {
                Ok(_) => is_valid(s@),
                Err(e) => strict_error(s@) is Some && e.kind == strict_error(s@).unwrap().0
                    && e.offset == byte_offset(s@, strict_error(s@).unwrap().1) as usize,
            },
    {
        let mut parser = FuriParser::new(s);
        let ghost sp = parser.remaining();
        let ghost mut i: int = 0;
        loop
            invariant_except_break
                parser.remaining() == sp.skip(i),
                first_error(sp, 0) == first_error(sp, i),
            invariant
                parser.wf(),
                parser.source() == s@,
                sp == spans(s@),
                0 <= i <= sp.len(),
            ensures
                first_error(sp, 0) == sp.len(),
            decreases sp.len() - i,
        {
            match parser.next() {
                None => {
                    break ;
                },
                Some(Err(e)) => {
                    return Err(e);
                },
                Some(Ok(_)) => {
                    proof {
                        assert(sp.skip(i).skip(1) =~= sp.skip(i + 1));
                        i = i + 1;
                    }
                },
            }
        }
        Ok(())
    }

    /// Moves to the next span and returns the segment it holds, or why
    /// strict parsing refuses it; `None` when the text is used up.
    pub fn next(&mut self) -> (r: Option<Result<SegmentRef<'a>, ParseError>>)
        requires
            old(self).wf(),
        ensures
            final(self).wf(),
            final(self).source() == old(self).source(),
            match r {
                None => old(self).remaining().len() == 0 && final(self).remaining().len() == 0,
                Some(res) => {
                    let span = old(self).remaining()[0];
                    let last = old(self).remaining().len() == 1;
                    &&& old(self).remaining().len() > 0
                    &&& final(self).remaining() == old(self).remaining().skip(1)
                    &&& match res {
                        Ok(seg) => span_error(span, last) is None && seg.seg() == parse_span(span),
                        Err(e) => span_error(span, last) == Some(e.kind) && e.offset
                            == byte_offset(old(self).source(), error_position(span)) as usize,
                    }
                },
            },
    {
        match self.gen_parser.advance() {
            None => None,
            Some((a, b, bracketed)) => {
                let s = self.gen_parser.text();
                let v = self.gen_parser.chars();
                if !bracketed && b == v.len() {
                    let i = find_char_until(v, '[', a, b);
                    proof {
                        lemma_find_contains(v@.subrange(a as int, b as int), '[');
                    }
                    if i < b {
                        let offset = s.substring_char(0, i).len();
                        return Some(Err(ParseError { kind: ParseErrorKind::UnterminatedBlock, offset }));
                    }
                }
                match SegmentRef::parse_range(s, v, a, b, bracketed, true) {
                    Ok(seg) => Some(Ok(seg)),
                    Err(kind) => {
                        let offset = s.substring_char(0, a).len();
                        Some(Err(ParseError { kind, offset }))
                    },
                }
            },
        }
    }

    /// Parses the rest of the text strictly into segments.
    pub fn to_vec(self) -> (r: Result<Vec<SegmentRef<'a>>, ParseError>)
        requires
            self.wf(),
        ensures
            match r {
                Ok(v) => spans_error(self.remaining()) is None && views(v@) == parse_spans(
                    self.remaining(),
                ),
                Err(e) => spans_error(self.remaining()) is Some && e.kind == spans_error(
                    self.remaining(),
                ).unwrap().0 && e.offset == byte_offset(
                    self.source(),
                    spans_error(self.remaining()).unwrap().1,
                ) as usize,
            },
    {
        let mut parser = self;
        let ghost sp = parser.remaining();
        let mut out: Vec<SegmentRef<'a>> = Vec::new();
        loop
            invariant_except_break
                parser.remaining() == sp.skip(out.len() as int),
                first_error(sp, 0) == first_error(sp, out.len() as int),
            invariant
                parser.wf(),
                parser.source() == self.source(),
                sp == self.remaining(),
                out.len() <= sp.len(),
                forall|j: int| 0 <= j < out.len() ==> (#[trigger] out@[j]).seg() == parse_span(sp[j]),
            ensures
                first_error(sp, 0) == sp.len(),
                out.len() == sp.len(),
            decreases sp.len() - out.len(),
        {
            let ghost i = out.len() as int;
            match parser.next() {
                None => {
                    break ;
                },
                Some(Err(e)) => {
                    return Err(e);
                },
                Some(Ok(seg)) => {
                    out.push(seg);
                    proof {
                        assert(sp.skip(i).skip(1) =~= sp.skip(i + 1));
                    }
                },
            }
        }
        assert(views(out@) =~= parse_spans(sp));
        Ok(out)
    }

    /// Parses the rest of the text strictly into a reading.
    pub fn to_reading(self) -> (r: Result<Reading, ParseError>)
        requires
            self.wf(),
        ensures
            match r {
                Ok(reading) => spans_error(self.remaining()) is None && reading@
                    == sequence_reading(parse_spans(self.remaining())),
                Err(e) => spans_error(self.remaining()) is Some && e.kind == spans_error(
                    self.remaining(),
                ).unwrap().0 && e.offset == byte_offset(
                    self.source(),
                    spans_error(self.remaining()).unwrap().1,
                ) as usize,
            },
    {
        match self.to_vec() {
            Ok(v) => Ok(Reading::from_segments(v.as_slice())),
            Err(e) => Err(e),
        }
    }
}

} // verus!
