//! The bracketed furigana notation: parsing, projections, comparison and
//! normalisation.
pub mod cformat;
pub mod compare;
pub mod laws;
pub mod lemmas;
pub mod model;
pub mod parse;
pub mod scan;
pub mod segment;
pub mod seq;

use vstd::prelude::*;
use self::model::{
    byte_offset, concat_map, has_block, is_valid, kana_projection, kanji_projection,
    lemma_concat_map_next, parse_lenient, parse_span, reading_projection, spans, strict_error,
    SegmentView, Span,
};
use self::parse::reading::FuriToReadingParser;
use self::parse::unchecked::UncheckedFuriParser;
use self::parse::{FuriParser, FuriParserGen, ParseError};
use self::segment::encode::encode_reading;
use self::segment::{AsSegment, Segment, SegmentRef};
use self::seq::{views, FuriSequence};
use crate::reading::traits::AsReadingRef;
use crate::reading::{Reading, ReadingView};
use crate::text::{find_char, lemma_find_from_bounds, push_chars, same_text, to_chars, AsText};
use vstd::std_specs::cmp::PartialEqSpecImpl;
use vstd::std_specs::convert::FromSpecImpl;

verus! {

/// An annotated text in the bracketed notation, such as
/// `[拝金主義|はい|きん|しゅ|ぎ]は[問題|もん|だい]です。`. The text is kept as
/// it is; wrap any string directly, or use [`Furigana::new`] to have it
/// checked first.
#[derive(Clone, Copy, Hash, Default, Debug)]
pub struct Furigana<T>(pub T);

/// The text of a span of `s` after every segment that reads as `src` has
/// been replaced by `with` in the notation.
pub open spec fn replaced(s: Seq<char>, src: ReadingView, with: ReadingView) -> Seq<char> {
    concat_map(
        spans(s),
        |sp: Span|
            if parse_span(sp).reading() == src {
                encode_reading(with)
            } else {
                sp.text
            },
    )
}

/// The segments from `start` up to but not including `end`, as far as there
/// are any.
pub open spec fn clamp_range(segs: Seq<SegmentView>, start: int, end: int) -> Seq<SegmentView> {
    let lo = if start < segs.len() {
        start
    } else {
        segs.len() as int
    };
    let hi = if end < lo {
        lo
    } else if end < segs.len() {
        end
    } else {
        segs.len() as int
    };
    segs.subrange(lo, hi)
}

impl<T: AsText> Furigana<T> {
    /// The annotated text.
    pub open spec fn text(&self) -> Seq<char> {
        self.0.text()
    }

    /// Wraps an annotated text that strict parsing accepts.
    pub fn new(furi: T) -> (r: Result<Self, ParseError>)
        ensures
            match r {
                Ok(f) => is_valid(furi.text()) && f.0 == furi,
                Err(e) => strict_error(furi.text()) is Some && e.kind == strict_error(
                    furi.text(),
                ).unwrap().0 && e.offset == byte_offset(
                    furi.text(),
                    strict_error(furi.text()).unwrap().1,
                ) as usize,
            },
    {
        match FuriParser::validate(furi.as_text()) {
            Ok(_) => Ok(Self::new_unchecked(furi)),
            Err(e) => Err(e),
        }
    }

    /// Whether the text is empty.
    pub fn is_empty(&self) -> (r: bool)
        ensures
            r == (self.text().len() == 0),
    {
        self.raw().is_empty()
    }

    /// The annotated text as it is.
    pub fn raw(&self) -> (r: &str)
        ensures
            r@ == self.text(),
    {
        self.0.as_text()
    }

    /// A cursor over the spans of the text.
    pub fn gen_parser(&self) -> (r: FuriParserGen<'_>)
        ensures
            r.wf(),
            r.source() == self.text(),
            r.remaining() == spans(self.text()),
    {
        FuriParserGen::new(self.raw())
    }

    /// A parser that reads the text as kana.
    pub fn kana(&self) -> (r: FuriToReadingParser<'_>)
        ensures
            r.source() == self.text(),
            r.to_kana(),
            r.fallback(),
    {
        FuriToReadingParser::new(self.raw(), true)
    }

    /// The text as it is read.
    pub fn kana_str(&self) -> (r: String)
        ensures
            r@ == kana_projection(self.text()),
    {
        self.kana().parse()
    }

    /// A parser that reads the text as kanji.
    pub fn kanji(&self) -> (r: FuriToReadingParser<'_>)
        ensures
            r.source() == self.text(),
            !r.to_kana(),
            r.fallback(),
    {
        FuriToReadingParser::new(self.raw(), false)
    }

    /// The text as it is written.
    pub fn kanji_str(&self) -> (r: String)
        ensures
            r@ == kanji_projection(self.text()),
    {
        self.kanji().parse()
    }

    /// Whether the text has a span of plain text.
    pub fn has_kana(&self) -> (r: bool)
        ensures
            r == (exists|i: int|
                0 <= i < spans(self.text()).len() && !(#[trigger] spans(
                    self.text(),
                )[i]).bracketed),
    {
        self.has_span(false)
    }

    /// Whether the text has a bracketed block.
    pub fn has_kanji(&self) -> (r: bool)
        ensures
            r == has_block(self.text()),
    {
        self.has_span(true)
    }

    /// Whether the text has a span that is a block, or one that is none.
    fn has_span(&self, bracketed: bool) -> (r: bool)
        ensures
            r == (exists|i: int|
                0 <= i < spans(self.text()).len() && (#[trigger] spans(
                    self.text(),
                )[i]).bracketed == bracketed),
    {
        let mut gen = self.gen_parser();
        let ghost sp = spans(self.text());
        let ghost mut i: int = 0;
        assert(sp.skip(0) =~= sp);
        loop
            invariant_except_break
                gen.remaining() == sp.skip(i),
            invariant
                gen.wf(),
                sp == spans(self.text()),
                0 <= i <= sp.len(),
                forall|j: int| 0 <= j < i ==> (#[trigger] sp[j]).bracketed != bracketed,
            ensures
                i == sp.len(),
            decreases sp.len() - i,
        {
            match gen.advance() {
                None => {
                    break ;
                },
                Some((_, _, b)) => {
                    proof {
                        assert(sp.skip(i).skip(1) =~= sp.skip(i + 1));
                        assert(sp.skip(i)[0] == sp[i]);
                    }
                    if b == bracketed {
                        assert(spans(self.text())[i].bracketed == bracketed);
                        return true;
                    }
                    proof {
                        i = i + 1;
                    }
                },
            }
        }
        false
    }

    /// Whether the character stands anywhere in the text.
    pub fn contains_kanji(&self, kanji: char) -> (r: bool)
        ensures
            r == self.text().contains(kanji),
    {
        let v = to_chars(self.raw());
        let i = find_char(&v, kanji, 0);
        proof {
            lemma_find_from_bounds(v@, kanji, 0);
            if i < v.len() {
                assert(v@[i as int] == kanji);
            }
        }
        i < v.len()
    }

    /// The reading of the text: its kana, and its kanji text where it has a
    /// block.
    pub fn to_reading(&self) -> (r: Reading)
        ensures
            r@ == reading_projection(self.text()),
    {
        let (kana, kanji) = FuriToReadingParser::parse_kanji_and_kana(self.raw());
        Reading::new_raw(kana, kanji)
    }

    /// The text parsed leniently into a sequence of segments.
    pub fn to_seq(&self) -> (r: FuriSequence<SegmentRef<'_>>)
        ensures
            r@ == parse_lenient(self.text()),
    {
        FuriSequence::new_with_parts(self.as_segments_ref())
    }

    /// The kana segments of the text.
    pub fn kana_segments(&self) -> (r: Vec<SegmentRef<'_>>)
        ensures
            views(r@) == parse_lenient(self.text()).filter(|s: SegmentView| s is Kana),
    {
        self.segments_of(false)
    }

    /// The kanji segments of the text.
    pub fn kanji_segments(&self) -> (r: Vec<SegmentRef<'_>>)
        ensures
            views(r@) == parse_lenient(self.text()).filter(|s: SegmentView| s is Kanji),
    {
        self.segments_of(true)
    }

    /// The segments of one kind.
    fn segments_of(&self, kanji: bool) -> (r: Vec<SegmentRef<'_>>)
        ensures
            views(r@) == parse_lenient(self.text()).filter(
                if kanji {
                    |s: SegmentView| s is Kanji
                } else {
                    |s: SegmentView| s is Kana
                },
            ),
    {
        let ghost pred = if kanji {
            |s: SegmentView| s is Kanji
        } else {
            |s: SegmentView| s is Kana
        };
        let ghost sp = spans(self.text());
        let ghost segs = parse_lenient(self.text());
        let mut parser = self.segments();
        let mut out: Vec<SegmentRef<'_>> = Vec::new();
        let ghost mut i: int = 0;
        proof {
            reveal(Seq::filter);
            assert(sp.skip(0) =~= sp);
            assert(views(out@) =~= segs.take(0).filter(pred));
        }
        loop
            invariant_except_break
                parser.remaining() == sp.skip(i),
            invariant
                parser.wf(),
                sp == spans(self.text()),
                segs == parse_lenient(self.text()),
                0 <= i <= sp.len(),
                pred == (if kanji {
                    |s: SegmentView| s is Kanji
                } else {
                    |s: SegmentView| s is Kana
                }),
                views(out@) == segs.take(i).filter(pred),
            ensures
                i == sp.len(),
            decreases sp.len() - i,
        {
            match parser.next() {
                None => {
                    break ;
                },
                Some(seg) => {
                    proof {
                        reveal(Seq::filter);
                        assert(sp.skip(i).skip(1) =~= sp.skip(i + 1));
                        assert(sp.skip(i)[0] == sp[i]);
                        assert(segs.take(i + 1).drop_last() =~= segs.take(i));
                        assert(segs.take(i + 1).last() == seg.seg());
                    }
                    if seg.is_kanji() == kanji {
                        let ghost before = views(out@);
                        out.push(seg);
                        assert(views(out@) =~= before.push(seg.seg()));
                    }
                    proof {
                        i = i + 1;
                    }
                },
            }
        }
        assert(segs.take(i) =~= segs);
        out
    }

    /// A lenient parser over the segments of the text.
    pub fn segments(&self) -> (r: UncheckedFuriParser<'_>)
        ensures
            r.wf(),
            r.source() == self.text(),
            r.remaining() == spans(self.text()),
    {
        FuriParser::new(self.raw()).unchecked()
    }

    /// The number of segments.
    pub fn segment_count(&self) -> (r: usize)
        ensures
            r == spans(self.text()).len(),
    {
        let mut gen = self.gen_parser();
        let ghost sp = spans(self.text());
        let total = gen.chars().len();
        let mut n: usize = 0;
        proof {
            assert(sp.skip(0) =~= sp);
            model::lemma_span_count(self.text());
        }
        loop
            invariant_except_break
                gen.remaining() == sp.skip(n as int),
            invariant
                gen.wf(),
                gen.source() == self.text(),
                sp == spans(self.text()),
                0 <= n <= sp.len() <= total,
            ensures
                n == sp.len(),
            decreases sp.len() - n,
        {
            match gen.advance() {
                None => {
                    break ;
                },
                Some((a, b, _)) => {
                    proof {
                        assert(sp.skip(n as int).skip(1) =~= sp.skip(n + 1));
                    }
                    n += 1;
                },
            }
        }
        n
    }

    /// The segments of the text, owned.
    pub fn as_segments(&self) -> (r: Vec<Segment>)
        ensures
            views(r@) == parse_lenient(self.text()),
    {
        self.to_seq().to_owned().into_parts()
    }

    /// The segment at `pos`, or `None` behind the end. Only that one segment
    /// is parsed.
    pub fn segment_at(&self, pos: usize) -> (r: Option<SegmentRef<'_>>)
        ensures
            match r {
                Some(seg) => pos < parse_lenient(self.text()).len() && seg.seg() == parse_lenient(
                    self.text(),
                )[pos as int],
                None => pos >= parse_lenient(self.text()).len(),
            },
    {
        let mut gen = self.gen_parser();
        let ghost sp = spans(self.text());
        let mut n: usize = 0;
        assert(sp.skip(0) =~= sp);
        loop
            invariant
                gen.wf(),
                gen.source() == self.text(),
                sp == spans(self.text()),
                0 <= n <= sp.len(),
                n <= pos,
                gen.remaining() == sp.skip(n as int),
            decreases sp.len() - n,
        {
            match gen.advance() {
                None => {
                    return None;
                },
                Some((a, b, bracketed)) => {
                    proof {
                        assert(sp.skip(n as int).skip(1) =~= sp.skip(n + 1));
                        assert(sp.skip(n as int)[0] == sp[n as int]);
                    }
                    if n == pos {
                        let seg = SegmentRef::parse_range(
                            gen.text(),
                            gen.chars(),
                            a,
                            b,
                            bracketed,
                            false,
                        );
                        return match seg {
                            Ok(seg) => Some(seg),
                            Err(_) => None,
                        };
                    }
                    n += 1;
                },
            }
        }
    }

    /// The segments from `start` up to but not including `end`, as far as
    /// there are any.
    pub fn segment_range(&self, r: core::ops::Range<usize>) -> (segments: Vec<SegmentRef<'_>>)
        ensures
            views(segments@) == clamp_range(
                parse_lenient(self.text()),
                r.start as int,
                r.end as int,
            ),
    {
        let start = r.start;
        let end = r.end;
        let mut all = self.as_segments_ref();
        let ghost segs = views(all@);
        let n = all.len();
        let lo = if start < n {
            start
        } else {
            n
        };
        let hi = if end < lo {
            lo
        } else if end < n {
            end
        } else {
            n
        };
        all.truncate(hi);
        let out = all.split_off(lo);
        assert(views(out@) =~= segs.subrange(lo as int, hi as int));
        out
    }

    /// The segments of the text, borrowed.
    pub fn as_segments_ref(&self) -> (r: Vec<SegmentRef<'_>>)
        ensures
            views(r@) == parse_lenient(self.text()),
    {
        self.segments().to_vec()
    }

    /// The text with every segment that reads as `src` replaced by `with`.
    pub fn replace_seg<SR: AsReadingRef, WR: AsReadingRef>(&self, src: SR, with: WR) -> (r:
        Furigana<String>)
        ensures
            r.0@ == replaced(self.text(), src.reading(), with.reading()),
    {
        let src = src.as_reading_ref();
        let with = with.as_reading_ref();
        let ghost f = |sp: Span|
            if parse_span(sp).reading() == src@ {
                encode_reading(with@)
            } else {
                sp.text
            };
        let mut out_buf = String::new();
        let mut gen = self.gen_parser();
        let ghost sp = spans(self.text());
        let ghost mut i: int = 0;
        proof {
            assert(concat_map(sp.take(0), f) =~= Seq::<char>::empty());
            assert(sp.skip(0) =~= sp);
        }
        loop
            invariant_except_break
                gen.remaining() == sp.skip(i),
            invariant
                gen.wf(),
                gen.source() == self.text(),
                sp == spans(self.text()),
                0 <= i <= sp.len(),
                f == (|sp: Span|
                    if parse_span(sp).reading() == src@ {
                        encode_reading(with@)
                    } else {
                        sp.text
                    }),
                out_buf@ == concat_map(sp.take(i), f),
            ensures
                i == sp.len(),
            decreases sp.len() - i,
        {
            match gen.advance() {
                None => {
                    break ;
                },
                Some((a, b, bracketed)) => {
                    proof {
                        lemma_concat_map_next(sp, i, f);
                        assert(sp.skip(i).skip(1) =~= sp.skip(i + 1));
                        assert(sp.skip(i)[0] == sp[i]);
                    }
                    let seg = SegmentRef::parse_range(
                        gen.text(),
                        gen.chars(),
                        a,
                        b,
                        bracketed,
                        false,
                    );
                    let hit = match &seg {
                        Ok(seg) => seg.eq_reading(src),
                        Err(_) => false,
                    };
                    if hit {
                        let mut enc = segment::encode::FuriEncoder::new(&mut out_buf);
                        enc.write_reading(with);
                    } else {
                        push_chars(&mut out_buf, gen.chars(), a, b);
                    }
                    proof {
                        i = i + 1;
                    }
                },
            }
        }
        assert(sp.take(i) =~= sp);
        Furigana(out_buf)
    }

    /// The same text in a `String` of its own.
    pub fn as_owned(&self) -> (r: Furigana<String>)
        ensures
            r.0@ == self.text(),
    {
        Furigana(String::from_str(self.raw()))
    }
}

impl<T: AsText> Furigana<T> {
    /// A formatter that rewrites the text into other forms of the notation.
    pub fn code_formatter(&self) -> (r: cformat::CodeFormatter<'_, T>)
        ensures
            r.source() == self.text(),
            r.output() == Seq::<char>::empty(),
            !r.applied(),
            !r.is_lossy(),
    {
        cformat::CodeFormatter::new(self)
    }
}

impl<T> Furigana<T> {
    /// The same text, borrowed.
    pub fn as_ref(&self) -> (r: Furigana<&T>)
        ensures
            *r.0 == self.0,
    {
        Furigana(&self.0)
    }

    /// The text inside.
    pub fn into_inner(self) -> (r: T)
        ensures
            r == self.0,
    {
        self.0
    }

    /// Wraps an annotated text as it is, unchecked.
    pub fn new_unchecked(furi: T) -> (r: Self)
        ensures
            r.0 == furi,
    {
        Self(furi)
    }
}

impl Furigana<String> {
    /// The same text as a string slice.
    pub fn as_deref(&self) -> (r: Furigana<&str>)
        ensures
            r.0@ == self.0@,
    {
        Furigana(self.0.as_str())
    }

    /// Adds a segment at the end of the text.
    pub fn push_segment<S: AsSegment>(&mut self, seg: S)
        ensures
            final(self).0@ == old(self).0@ + seg.seg().encode(),
    {
        seg.encode_into(&mut self.0);
    }

    /// Adds every segment of the run at the end of the text.
    pub fn extend<S: AsSegment>(&mut self, segments: &[S])
        ensures
            final(self).0@ == old(self).0@ + model::encode(views(segments@)),
    {
        let all = segment::encode::sequence(segments);
        self.0.append(all.raw());
    }

    /// Adds annotated text at the end, if strict parsing accepts it; the
    /// text stays as it was if not.
    pub fn push_str<S: AsText>(&mut self, seg: S) -> (r: Result<(), ParseError>)
        ensures
            match r {
                Ok(_) => is_valid(seg.text()) && final(self).0@ == old(self).0@ + seg.text(),
                Err(e) => !is_valid(seg.text()) && final(self).0@ == old(self).0@ && e.kind
                    == strict_error(seg.text()).unwrap().0 && e.offset == byte_offset(
                    seg.text(),
                    strict_error(seg.text()).unwrap().1,
                ) as usize,
            },
    {
        match FuriParser::validate(seg.as_text()) {
            Ok(_) => {
                self.push_str_unchecked(seg);
                Ok(())
            },
            Err(e) => Err(e),
        }
    }

    /// Adds text at the end without checking it.
    pub fn push_str_unchecked<S: AsText>(&mut self, seg: S)
        ensures
            final(self).0@ == old(self).0@ + seg.text(),
    {
        self.0.append(seg.as_text());
    }
}

impl<T: AsText, S: AsText> PartialEq<Furigana<S>> for Furigana<T> {
    fn eq(&self, other: &Furigana<S>) -> (r: bool) {
        same_text(self.raw(), other.raw())
    }
}

impl<T: AsText, S: AsText> PartialEqSpecImpl<Furigana<S>> for Furigana<T> {
    open spec fn obeys_eq_spec() -> bool {
        true
    }

    open spec fn eq_spec(&self, other: &Furigana<S>) -> bool {
        self.text() == other.text()
    }
}

impl<T: AsText> PartialEq<String> for Furigana<T> {
    fn eq(&self, other: &String) -> (r: bool) {
        same_text(self.raw(), other.as_str())
    }
}

impl<T: AsText> PartialEqSpecImpl<String> for Furigana<T> {
    open spec fn obeys_eq_spec() -> bool {
        true
    }

    open spec fn eq_spec(&self, other: &String) -> bool {
        self.text() == other@
    }
}

impl<'b, T: AsText> PartialEq<&'b str> for Furigana<T> {
    fn eq(&self, other: &&'b str) -> (r: bool) {
        same_text(self.raw(), *other)
    }
}

impl<'b, T: AsText> PartialEqSpecImpl<&'b str> for Furigana<T> {
    open spec fn obeys_eq_spec() -> bool {
        true
    }

    open spec fn eq_spec(&self, other: &&'b str) -> bool {
        self.text() == other@
    }
}

impl<T: AsSegment> From<FuriSequence<T>> for Furigana<String> {
    /// The sequence in the notation.
    fn from(value: FuriSequence<T>) -> (r: Self)
        ensures
            r.0@ == model::encode(value@),
    {
        value.encode()
    }
}

impl<T: AsSegment> FromSpecImpl<FuriSequence<T>> for Furigana<String> {
    open spec fn obeys_from_spec() -> bool {
        false
    }

    open spec fn from_spec(value: FuriSequence<T>) -> Self {
        arbitrary()
    }
}

} // verus!
