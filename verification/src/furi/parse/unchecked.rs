use vstd::prelude::*;
use super::gen::FuriParserGen;
use crate::furi::model::{parse_span, parse_spans, sequence_reading, Span};
use crate::furi::segment::{AsSegment, SegmentRef};
use crate::furi::seq::views;
use crate::reading::Reading;

verus! {

/// A cursor over an annotated text that parses each span leniently: it
/// refuses nothing.
pub struct UncheckedFuriParser<'a> {
    gen_parser: FuriParserGen<'a>,
}

impl<'a> UncheckedFuriParser<'a> {
    /// The text that the cursor runs over.
    pub closed spec fn source(&self) -> Seq<char> {
        self.gen_parser.source()
    }

    /// The spans that are still to come.
    pub closed spec fn remaining(&self) -> Seq<Span> {
        self.gen_parser.remaining()
    }

    /// The cursor is in order.
    pub closed spec fn wf(&self) -> bool {
        self.gen_parser.wf()
    }

    /// Creates a lenient parser on top of a span cursor.
    pub(crate) fn new(gen_parser: FuriParserGen<'a>) -> (r: Self)
        requires
            gen_parser.wf(),
        ensures
            r.wf(),
            r.source() == gen_parser.source(),
            r.remaining() == gen_parser.remaining(),
    {
        Self { gen_parser }
    }

    /// Moves to the next span and returns the segment it holds; `None` when
    /// the text is used up.
    pub fn next(&mut self) -> (r: Option<SegmentRef<'a>>)
        requires
            old(self).wf(),
        ensures
            final(self).wf(),
            final(self).source() == old(self).source(),
            match r {
                None => old(self).remaining().len() == 0 && final(self).remaining().len() == 0,
                Some(seg) => {
                    &&& old(self).remaining().len() > 0
                    &&& final(self).remaining() == old(self).remaining().skip(1)
                    &&& seg.seg() == parse_span(old(self).remaining()[0])
                },
            },
    {
        match self.gen_parser.advance() {
            None => None,
            Some((a, b, bracketed)) => {
                let s = self.gen_parser.text();
                let v = self.gen_parser.chars();
                match SegmentRef::parse_range(s, v, a, b, bracketed, false) {
                    Ok(seg) => Some(seg),
                    Err(_) => None,
                }
            },
        }
    }

    /// Parses the rest of the text into segments.
    pub fn to_vec(self) -> (r: Vec<SegmentRef<'a>>)
        requires
            self.wf(),
        ensures
            views(r@) == parse_spans(self.remaining()),
    {
        let mut parser = self;
        let ghost sp = parser.remaining();
        let mut out: Vec<SegmentRef<'a>> = Vec::new();
        loop
            invariant_except_break
                parser.remaining() == sp.skip(out.len() as int),
            invariant
                parser.wf(),
                sp == self.remaining(),
                out.len() <= sp.len(),
                forall|j: int| 0 <= j < out.len() ==> (#[trigger] out@[j]).seg() == parse_span(sp[j]),
            ensures
                out.len() == sp.len(),
            decreases sp.len() - out.len(),
        {
            let ghost i = out.len() as int;
            match parser.next() {
                None => {
                    break ;
                },
                Some(seg) => {
                    out.push(seg);
                    proof {
                        assert(sp.skip(i).skip(1) =~= sp.skip(i + 1));
                    }
                },
            }
        }
        assert(views(out@) =~= parse_spans(sp));
        out
    }

    /// Parses the rest of the text into a reading.
    pub fn to_reading(self) -> (r: Reading)
        requires
            self.wf(),
        ensures
            r@ == sequence_reading(parse_spans(self.remaining())),
    {
        let v = self.to_vec();
        Reading::from_segments(v.as_slice())
    }

    /// Parses the text of a single span.
    pub fn from_seg_str(txt: &'a str, kanji: bool) -> (r: SegmentRef<'a>)
        requires
            kanji ==> txt@.len() >= 2,
        ensures
            r.seg() == parse_span(Span { start: 0, text: txt@, bracketed: kanji }),
    {
        match SegmentRef::parse_str(txt, kanji, false) {
            Ok(seg) => seg,
            Err(_) => SegmentRef::Kana(txt),
        }
    }
}

} // verus!
