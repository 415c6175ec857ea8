use vstd::prelude::*;
use crate::furi::model::{lemma_next_block, lemma_spans_nonempty, spans, spans_from, Span};
use crate::furi::scan::next_span;
use crate::text::to_chars;

verus! {

/// A cursor over the spans of an annotated text. It hands out each span as
/// text with a flag that tells whether it is a bracketed block, and reads
/// nothing into what the brackets hold.
pub struct FuriParserGen<'a> {
    str: &'a str,
    chars: Vec<char>,
    pos: usize,
    pending: Option<(usize, usize)>,
}

impl<'a> FuriParserGen<'a> {
    /// The text that the cursor runs over.
    pub closed spec fn source(&self) -> Seq<char> {
        self.str@
    }

    /// The spans that are still to come.
    pub closed spec fn remaining(&self) -> Seq<Span> {
        match self.pending {
            Some((p, c)) => seq![
                Span {
                    start: p as int,
                    text: self.chars@.subrange(p as int, c + 1),
                    bracketed: true,
                },
            ] + spans_from(self.chars@, self.pos as int),
            None => spans_from(self.chars@, self.pos as int),
        }
    }

    /// The cursor is in order.
    pub closed spec fn wf(&self) -> bool {
        &&& self.chars@ == self.str@
        &&& self.pos <= self.chars.len()
        &&& match self.pending {
            Some((p, c)) => p < c < self.chars.len() && c + 1 == self.pos,
            None => true,
        }
    }

    /// Creates a cursor at the start of `str`.
    pub fn new(str: &'a str) -> (r: Self)
        ensures
            r.wf(),
            r.source() == str@,
            r.remaining() == spans(str@),
    {
        Self { str, chars: to_chars(str), pos: 0, pending: None }
    }

    /// The decoded text.
    pub(crate) fn chars(&self) -> (r: &Vec<char>)
        requires
            self.wf(),
        ensures
            r@ == self.source(),
    {
        &self.chars
    }

    /// The text itself.
    pub(crate) fn text(&self) -> (r: &'a str)
        ensures
            r@ == self.source(),
    {
        self.str
    }

    /// Moves to the next span and returns where it lies in the text.
    pub(crate) fn advance(&mut self) -> (r: Option<(usize, usize, bool)>)
        requires
            old(self).wf(),
        ensures
            final(self).wf(),
            final(self).source() == old(self).source(),
            match r {
                None => old(self).remaining().len() == 0 && final(self).remaining().len() == 0,
                Some((a, b, bracketed)) => {
                    &&& a < b <= old(self).source().len()
                    &&& bracketed ==> a + 2 <= b
                    &&& old(self).remaining().len() > 0
                    &&& old(self).remaining()[0] == Span {
                        start: a as int,
                        text: old(self).source().subrange(a as int, b as int),
                        bracketed,
                    }
                    &&& final(self).remaining() == old(self).remaining().skip(1)
                    &&& (final(self).remaining().len() == 0) == (b == old(self).source().len())
                },
            },
    {
        let ghost s = self.chars@;
        let ghost before = self.remaining();
        if let Some((p, c)) = self.pending {
            self.pending = None;
            assert(self.remaining() =~= before.skip(1));
            proof {
                if c + 1 < s.len() {
                    lemma_spans_nonempty(s, c + 1);
                }
            }
            return Some((p, c + 1, true));
        }
        let k = self.pos;
        if k >= self.chars.len() {
            return None;
        }
        proof {
            lemma_next_block(s, k as int);
        }
        match next_span(&self.chars, k) {
            None => {
                self.pos = self.chars.len();
                assert(self.remaining() =~= before.skip(1));
                Some((k, self.chars.len(), false))
            },
            Some((p, c)) => {
                self.pos = c + 1;
                proof {
                    if c + 1 < s.len() {
                        lemma_spans_nonempty(s, c + 1);
                    }
                }
                if p > k {
                    self.pending = Some((p, c));
                    assert(self.remaining() =~= before.skip(1));
                    Some((k, p, false))
                } else {
                    assert(self.remaining() =~= before.skip(1));
                    Some((p, c + 1, true))
                }
            },
        }
    }

    /// Moves to the next span and returns its text and whether it is a
    /// bracketed block; `None` when the text is used up.
    pub fn next(&mut self) -> (r: Option<(&'a str, bool)>)
        requires
            old(self).wf(),
        ensures
            final(self).wf(),
            final(self).source() == old(self).source(),
            match r {
                None => old(self).remaining().len() == 0 && final(self).remaining().len() == 0,
                Some((text, bracketed)) => {
                    &&& old(self).remaining().len() > 0
                    &&& text@ == old(self).remaining()[0].text
                    &&& bracketed == old(self).remaining()[0].bracketed
                    &&& final(self).remaining() == old(self).remaining().skip(1)
                },
            },
    {
        match self.advance() {
            None => None,
            Some((a, b, bracketed)) => Some((self.str.substring_char(a, b), bracketed)),
        }
    }
}

} // verus!
