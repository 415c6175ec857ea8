use vstd::prelude::*;
use super::gen::FuriParserGen;
use super::lemma_block_fields;
use crate::furi::model::{
    concat_map, kana_projection_with, kanji_projection, lemma_concat_map_next,
    reading_projection, span_kana, span_kanji, spans, Span,
};
use crate::furi::scan::find_char_until;
use crate::text::{concat, lemma_concat_add, push_chars, split};

verus! {

/// Appends the fields of `v[from..to]` to `out`, one after the other and
/// without the `|` between them. Tells whether anything was appended.
fn push_fields(out: &mut String, v: &Vec<char>, from: usize, to: usize) -> (any: bool)
    requires
        from <= to <= v.len(),
    ensures
        final(out)@ == old(out)@ + concat(split(v@.subrange(from as int, to as int), '|')),
        any == (concat(split(v@.subrange(from as int, to as int), '|')).len() > 0),
{
    let ghost all = split(v@.subrange(from as int, to as int), '|');
    let ghost mut done: Seq<Seq<char>> = Seq::empty();
    let mut any = false;
    let mut start: usize = from;
    proof {
        assert(done + all =~= all);
        assert(concat(done) =~= Seq::<char>::empty());
        assert(out@ =~= old(out)@ + concat(done));
    }
    loop
        invariant_except_break
            all == done + split(v@.subrange(start as int, to as int), '|'),
        invariant
            from <= start <= to <= v.len(),
            all == split(v@.subrange(from as int, to as int), '|'),
            out@ == old(out)@ + concat(done),
            any == (concat(done).len() > 0),
        ensures
            done == all,
        decreases to - start,
    {
        let i = find_char_until(v, '|', start, to);
        let ghost sub = v@.subrange(start as int, to as int);
        let ghost field = v@.subrange(start as int, i as int);
        push_chars(out, v, start, i);
        if i > start {
            any = true;
        }
        proof {
            assert(sub.subrange(0, i - start) =~= field);
            lemma_concat_add(done, seq![field]);
            assert(seq![field].drop_last() =~= Seq::<Seq<char>>::empty());
            assert(concat(seq![field].drop_last()) =~= Seq::<char>::empty());
            assert(concat(seq![field]) =~= field);
            assert(out@ =~= old(out)@ + concat(done + seq![field]));
        }
        if i >= to {
            proof {
                assert(sub =~= field);
                done = done + seq![field];
            }
            break ;
        }
        proof {
            assert(sub.subrange(i - start + 1, sub.len() as int) =~= v@.subrange(i + 1, to as int));
            assert(all =~= (done + seq![field]) + split(v@.subrange(i + 1, to as int), '|'));
            done = done + seq![field];
        }
        start = i + 1;
    }
    any
}

/// Appends to `out` what the span `v[a..b]` adds to the kanji projection.
pub(crate) fn push_span_kanji(out: &mut String, v: &Vec<char>, a: usize, b: usize, bracketed: bool)
    requires
        a <= b <= v.len(),
        bracketed ==> a + 2 <= b,
    ensures
        final(out)@ == old(out)@ + span_kanji(
            Span { start: a as int, text: v@.subrange(a as int, b as int), bracketed },
        ),
{
    if bracketed {
        let end = find_char_until(v, '|', a + 1, b - 1);
        proof {
            lemma_block_fields(v@, a as int, b as int);
            let inner = v@.subrange(a + 1, b - 1);
            assert(inner.subrange(0, end - a - 1) =~= v@.subrange(a + 1, end as int));
            assert(inner =~= inner.subrange(0, inner.len() as int));
        }
        push_chars(out, v, a + 1, end);
    } else {
        push_chars(out, v, a, b);
    }
}

/// Appends to `out` what the span `v[a..b]` adds to the kana projection.
pub(crate) fn push_span_kana(
    out: &mut String,
    v: &Vec<char>,
    a: usize,
    b: usize,
    bracketed: bool,
    fallback: bool,
)
    requires
        a <= b <= v.len(),
        bracketed ==> a + 2 <= b,
    ensures
        final(out)@ == old(out)@ + span_kana(
            Span { start: a as int, text: v@.subrange(a as int, b as int), bracketed },
            fallback,
        ),
{
    if !bracketed {
        push_chars(out, v, a, b);
        return ;
    }
    let end = find_char_until(v, '|', a + 1, b - 1);
    let ghost inner = v@.subrange(a + 1, b - 1);
    let ghost f = split(inner, '|');
    proof {
        lemma_block_fields(v@, a as int, b as int);
        assert(inner.subrange(0, end - a - 1) =~= v@.subrange(a + 1, end as int));
        assert(inner =~= inner.subrange(0, inner.len() as int));
    }
    let mut pushed = false;
    if end < b - 1 {
        proof {
            assert(inner.subrange(end - a, inner.len() as int) =~= v@.subrange(end + 1, b - 1));
            assert(f.skip(1) =~= split(v@.subrange(end + 1, b - 1), '|'));
        }
        pushed = push_fields(out, v, end + 1, b - 1);
    } else {
        proof {
            assert(f.skip(1) =~= Seq::<Seq<char>>::empty());
            assert(concat(f.skip(1)) =~= Seq::<char>::empty());
            assert(out@ =~= old(out)@ + concat(f.skip(1)));
        }
    }
    if fallback && !pushed {
        assert(out@ =~= old(out)@);
        push_chars(out, v, a + 1, end);
    }
}

/// Reads an annotated text as kana or as kanji, straight from the notation
/// and without building segments.
#[derive(Clone, Copy)]
pub struct FuriToReadingParser<'a> {
    str: &'a str,
    to_kana: bool,
    kanji_fallback: bool,
}

impl<'a> FuriToReadingParser<'a> {
    /// The annotated text.
    pub closed spec fn source(&self) -> Seq<char> {
        self.str@
    }

    /// Whether the text is read as kana.
    pub closed spec fn to_kana(&self) -> bool {
        self.to_kana
    }

    /// Whether literals stand in for readings that are empty.
    pub closed spec fn fallback(&self) -> bool {
        self.kanji_fallback
    }

    /// The text that parsing gives.
    pub open spec fn text(&self) -> Seq<char> {
        if self.to_kana() {
            kana_projection_with(self.source(), self.fallback())
        } else {
            kanji_projection(self.source())
        }
    }

    /// Creates a parser that reads `str` as kana if `to_kana` is set, as
    /// kanji otherwise.
    pub fn new(str: &'a str, to_kana: bool) -> (r: Self)
        ensures
            r.source() == str@,
            r.to_kana() == to_kana,
            r.fallback(),
    {
        Self { str, to_kana, kanji_fallback: true }
    }

    /// The same parser, but a block whose readings are empty adds nothing to
    /// the kana.
    pub fn no_kanji_fallback(self) -> (r: Self)
        ensures
            r.source() == self.source(),
            r.to_kana() == self.to_kana(),
            !r.fallback(),
    {
        Self { str: self.str, to_kana: self.to_kana, kanji_fallback: false }
    }

    /// Whether parsing gives an empty text.
    pub fn is_empty(&self) -> (r: bool)
        ensures
            r == (self.text().len() == 0),
    {
        self.parse().as_str().is_empty()
    }

    /// The number of characters of the text that parsing gives.
    pub fn char_count(&self) -> (r: usize)
        ensures
            r == self.text().len(),
    {
        self.parse().as_str().unicode_len()
    }

    /// The number of bytes of the text that parsing gives.
    pub fn len(&self) -> (r: usize)
        ensures
            r == vstd::utf8::encode_utf8(self.text()).len() as usize,
    {
        self.parse().as_str().len()
    }

    /// Reads the text as kana or as kanji.
    pub fn parse(&self) -> (r: String)
        ensures
            r@ == self.text(),
    {
        let mut buf = String::new();
        self.run(&mut buf);
        assert(buf@ =~= self.text());
        buf
    }

    /// Reads the text as kana or as kanji.
    pub fn to_string(&self) -> (r: String)
        ensures
            r@ == self.text(),
    {
        self.parse()
    }

    /// Reads the text as kana and as kanji in one pass. The kanji text is
    /// there only where the text has a block.
    pub fn parse_kanji_and_kana(furi: &str) -> (r: (String, Option<String>))
        ensures
            r.0@ == reading_projection(furi@).kana,
            r.1 is Some == reading_projection(furi@).kanji is Some,
            r.1 is Some ==> r.1.unwrap()@ == reading_projection(furi@).kanji.unwrap(),
    {
        let ghost fk = |sp: Span| span_kana(sp, true);
        let ghost fm = |sp: Span| span_kanji(sp);
        let mut kana_buf = String::new();
        let mut kanji_buf = String::new();
        let mut has_kanji = false;
        let mut gen = FuriParserGen::new(furi);
        let ghost sp = spans(furi@);
        let ghost mut i: int = 0;
        proof {
            assert(concat_map(sp.take(0), fk) =~= Seq::<char>::empty());
            assert(concat_map(sp.take(0), fm) =~= Seq::<char>::empty());
            assert(sp.skip(0) =~= sp);
        }
        loop
            invariant_except_break
                gen.remaining() == sp.skip(i),
            invariant
                gen.wf(),
                gen.source() == furi@,
                sp == spans(furi@),
                0 <= i <= sp.len(),
                fk == (|sp: Span| span_kana(sp, true)),
                fm == (|sp: Span| span_kanji(sp)),
                kana_buf@ == concat_map(sp.take(i), fk),
                has_kanji == (exists|j: int| 0 <= j < i && (#[trigger] sp[j]).bracketed),
                has_kanji ==> kanji_buf@ == concat_map(sp.take(i), fm),
                !has_kanji ==> concat_map(sp.take(i), fm) == kana_buf@,
            ensures
                i == sp.len(),
            decreases sp.len() - i,
        {
            match gen.advance() {
                None => {
                    break ;
                },
                Some((a, b, bracketed)) => {
                    proof {
                        lemma_concat_map_next(sp, i, fk);
                        lemma_concat_map_next(sp, i, fm);
                        assert(sp.skip(i).skip(1) =~= sp.skip(i + 1));
                        assert(sp.skip(i)[0] == sp[i]);
                    }
                    let v = gen.chars();
                    if bracketed {
                        if !has_kanji {
                            // The kanji text starts out as the kana read so far.
                            has_kanji = true;
                            kanji_buf = kana_buf.clone();
                        }
                        push_span_kanji(&mut kanji_buf, v, a, b, bracketed);
                    } else if has_kanji {
                        push_span_kanji(&mut kanji_buf, v, a, b, bracketed);
                    }
                    push_span_kana(&mut kana_buf, v, a, b, bracketed, true);
                    proof {
                        i = i + 1;
                    }
                },
            }
        }
        proof {
            assert(sp.take(i) =~= sp);
            if has_kanji {
                let j = choose|j: int| 0 <= j < i && (#[trigger] sp[j]).bracketed;
                assert(spans(furi@)[j].bracketed);
            }
        }
        if has_kanji {
            (kana_buf, Some(kanji_buf))
        } else {
            (kana_buf, None)
        }
    }

    /// Runs over the spans and appends what each adds to `out`.
    fn run(&self, out: &mut String)
        ensures
            final(out)@ == old(out)@ + self.text(),
    {
        let ghost f = if self.to_kana {
            |sp: Span| span_kana(sp, self.kanji_fallback)
        } else {
            |sp: Span| span_kanji(sp)
        };
        let mut gen = FuriParserGen::new(self.str);
        let ghost sp = spans(self.str@);
        let ghost mut i: int = 0;
        proof {
            assert(concat_map(sp.take(0), f) =~= Seq::<char>::empty());
            assert(out@ =~= old(out)@ + concat_map(sp.take(0), f));
            assert(sp.skip(0) =~= sp);
        }
        loop
            invariant_except_break
                gen.remaining() == sp.skip(i),
            invariant
                gen.wf(),
                gen.source() == self.str@,
                sp == spans(self.str@),
                0 <= i <= sp.len(),
                f == (if self.to_kana {
                    |sp: Span| span_kana(sp, self.kanji_fallback)
                } else {
                    |sp: Span| span_kanji(sp)
                }),
                out@ == old(out)@ + concat_map(sp.take(i), f),
            ensures
                i == sp.len(),
            decreases sp.len() - i,
        {
            match gen.advance() {
                None => {
                    break ;
                },
                Some((a, b, bracketed)) => {
                    proof {
                        lemma_concat_map_next(sp, i, f);
                        assert(sp.skip(i).skip(1) =~= sp.skip(i + 1));
                        assert(sp.skip(i)[0] == sp[i]);
                    }
                    let ghost before = out@;
                    if bracketed {
                        self.accept_kanji(gen.chars(), a, b, out);
                    } else {
                        self.accept_kana(gen.chars(), a, b, out);
                    }
                    proof {
                        assert(out@ =~= old(out)@ + concat_map(sp.take(i + 1), f));
                        i = i + 1;
                    }
                },
            }
        }
        assert(sp.take(i) =~= sp);
    }

    /// Appends a plain span to `out`.
    fn accept_kana(&self, v: &Vec<char>, a: usize, b: usize, out: &mut String)
        requires
            a <= b <= v.len(),
        ensures
            final(out)@ == old(out)@ + v@.subrange(a as int, b as int),
    {
        push_chars(out, v, a, b);
    }

    /// Appends to `out` what a block adds: its readings for kana, its
    /// literals for kanji.
    fn accept_kanji(&self, v: &Vec<char>, a: usize, b: usize, out: &mut String)
        requires
            a + 2 <= b <= v.len(),
        ensures
            ({
                let span = Span {
                    start: a as int,
                    text: v@.subrange(a as int, b as int),
                    bracketed: true,
                };
                final(out)@ == old(out)@ + (if self.to_kana() {
                    span_kana(span, self.fallback())
                } else {
                    span_kanji(span)
                })
            }),
    {
        if self.to_kana {
            self.parse_kana_part(v, a, b, out);
        } else {
            self.parse_kanji(v, a, b, out);
        }
    }

    /// Appends the literals of a block to `out`.
    fn parse_kanji(&self, v: &Vec<char>, a: usize, b: usize, out: &mut String)
        requires
            a + 2 <= b <= v.len(),
        ensures
            final(out)@ == old(out)@ + span_kanji(
                Span { start: a as int, text: v@.subrange(a as int, b as int), bracketed: true },
            ),
    {
        push_span_kanji(out, v, a, b, true);
    }

    /// Appends the readings of a block to `out`, or its literals where the
    /// readings are empty and the fallback is on.
    fn parse_kana_part(&self, v: &Vec<char>, a: usize, b: usize, out: &mut String)
        requires
            a + 2 <= b <= v.len(),
        ensures
            final(out)@ == old(out)@ + span_kana(
                Span { start: a as int, text: v@.subrange(a as int, b as int), bracketed: true },
                self.fallback(),
            ),
    {
        push_span_kana(out, v, a, b, true, self.kanji_fallback);
    }
}

} // verus!
