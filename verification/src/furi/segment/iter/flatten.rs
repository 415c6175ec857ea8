use vstd::prelude::*;
use crate::furi::model::{flatten, lemma_flatten_next, SegmentView};
use crate::furi::segment::kanji::{kanji_view, AsKanjiSegment, Kanji};
use crate::furi::segment::readings::Readings;
use crate::furi::segment::traits::AsSegment;
use crate::furi::segment::s_owned::Segment;
use crate::furi::seq::views;
use crate::text::{concat, texts, to_chars, AsText};

verus! {

/// Appends to `out` the segments that a kanji segment falls into.
pub fn flatten_kanji_into<K: AsKanjiSegment>(out: &mut Vec<Segment>, kanji: &K)
    ensures
        views(final(out)@) == views(old(out)@) + kanji_view(kanji).flatten(),
{
    let ghost lit = kanji.literals_text();
    let ghost rs = kanji.readings_text();
    let ghost fl = kanji_view(kanji).flatten();
    if !kanji.is_detailed() {
        let mut list = Readings::new();
        list.push(kanji.full_reading());
        out.push(
            Segment::Kanji(Kanji::new_raw(String::from_str(kanji.literals().as_text()), list)),
        );
        assert(list@ =~= seq![concat(rs)]);
        assert(views(out@) =~= views(old(out)@) + fl);
    } else {
        let lits = to_chars(kanji.literals().as_text());
        let readings = kanji.readings();
        let mut i: usize = 0;
        assert(views(out@) =~= views(old(out)@) + fl.take(0));
        while i < lits.len()
            invariant
                i <= lits.len(),
                lits@ == lit,
                texts(readings@) == rs,
                lit.len() == rs.len(),
                fl == (SegmentView::Kanji { literals: lit, readings: rs }).flatten(),
                views(out@) == views(old(out)@) + fl.take(i as int),
            decreases lits.len() - i,
        {
            let mut one = String::new();
            crate::text::push_char(&mut one, lits[i]);
            let mut list = Readings::new();
            list.push(String::from_str(readings[i].as_text()));
            let ghost before = out@;
            out.push(Segment::Kanji(Kanji::new_raw(one, list)));
            proof {
                assert(one@ =~= seq![lit[i as int]]);
                assert(list@ =~= seq![rs[i as int]]);
                assert(fl.take(i + 1) =~= fl.take(i as int).push(fl[i as int]));
                assert(views(out@) =~= views(before).push(fl[i as int]));
            }
            i += 1;
        }
        assert(fl.take(i as int) =~= fl);
    }
}

/// Appends to `out` the segments that `segment` falls into.
pub fn flatten_into<S: AsSegment>(out: &mut Vec<Segment>, segment: &S)
    ensures
        views(final(out)@) == views(old(out)@) + segment.seg().flatten(),
{
    match segment.as_kana() {
        Some(kana) => {
            out.push(Segment::new_kana(String::from_str(kana.as_text())));
            assert(views(out@) =~= views(old(out)@) + segment.seg().flatten());
        },
        None => match segment.as_kanji() {
            Some(kanji) => flatten_kanji_into(out, kanji),
            None => {},
        },
    }
}

/// A cursor over the segments that a kanji segment falls into: one for
/// each literal where there is a reading for each, one for all otherwise.
pub struct FlattenKanjiIter<'a, K> {
    kanji: &'a K,
    items: Vec<Segment>,
    pos: usize,
}

impl<'a, K: AsKanjiSegment> FlattenKanjiIter<'a, K> {
    /// The segments that are still to come.
    pub closed spec fn rest(&self) -> Seq<SegmentView> {
        views(self.items@).skip(self.pos as int)
    }

    /// The kanji segment that the cursor runs over.
    pub closed spec fn source(&self) -> &'a K {
        self.kanji
    }

    /// The cursor is in order.
    pub closed spec fn wf(&self) -> bool {
        self.pos <= self.items.len()
    }

    /// Creates a cursor at the first of the segments.
    pub fn new(kanji: &'a K) -> (r: Self)
        ensures
            r.wf(),
            r.source() == kanji,
            r.rest() == kanji_view(kanji).flatten(),
    {
        let mut items: Vec<Segment> = Vec::new();
        flatten_kanji_into(&mut items, kanji);
        let r = Self { kanji, items, pos: 0 };
        assert(r.rest() =~= kanji_view(kanji).flatten());
        r
    }

    /// The kanji segment that the cursor runs over.
    pub fn kanji(&self) -> (r: &'a K)
        ensures
            r == self.source(),
    {
        self.kanji
    }

    /// Moves to the next segment and returns it; `None` behind the last.
    pub fn next(&mut self) -> (r: Option<Segment>)
        requires
            old(self).wf(),
        ensures
            final(self).wf(),
            final(self).source() == old(self).source(),
            match r {
                Some(seg) => old(self).rest().len() > 0 && seg.seg() == old(self).rest()[0]
                    && final(self).rest() == old(self).rest().skip(1),
                None => old(self).rest().len() == 0 && final(self).rest().len() == 0,
            },
    {
        if self.pos >= self.items.len() {
            return None;
        }
        let seg = self.items[self.pos].as_ref().to_owned();
        self.pos += 1;
        assert(self.rest() =~= old(self).rest().skip(1));
        Some(seg)
    }
}

/// A cursor over the segments that a segment falls into.
pub enum FlattenIter<'a, S, K> {
    /// A kana segment, and whether it has been handed out.
    Kana((&'a S, bool)),
    /// A kanji segment.
    Kanji(FlattenKanjiIter<'a, K>),
}

impl<'a, S: AsText, K: AsKanjiSegment> FlattenIter<'a, S, K> {
    /// The segments that are still to come.
    pub open spec fn rest(&self) -> Seq<SegmentView> {
        match self {
            FlattenIter::Kana((s, did)) => if *did {
                Seq::empty()
            } else {
                seq![SegmentView::Kana(s.text())]
            },
            FlattenIter::Kanji(k) => k.rest(),
        }
    }

    /// The cursor is in order.
    pub open spec fn wf(&self) -> bool {
        match self {
            FlattenIter::Kana(_) => true,
            FlattenIter::Kanji(k) => k.wf(),
        }
    }

    /// Creates a cursor at the first of the segments.
    pub fn new<A: AsSegment<StrType = S, KanjiType = K>>(seg: &'a A) -> (r: Self)
        ensures
            r.wf(),
            r.rest() == seg.seg().flatten(),
    {
        match seg.as_kanji() {
            Some(kanji) => FlattenIter::Kanji(FlattenKanjiIter::new(kanji)),
            None => match seg.as_kana() {
                Some(kana) => FlattenIter::Kana((kana, false)),
                None => vstd::pervasive::unreached(),
            },
        }
    }

    /// Moves to the next segment and returns it; `None` behind the last.
    pub fn next(&mut self) -> (r: Option<Segment>)
        requires
            old(self).wf(),
        ensures
            final(self).wf(),
            match r {
                Some(seg) => old(self).rest().len() > 0 && seg.seg() == old(self).rest()[0]
                    && final(self).rest() == old(self).rest().skip(1),
                None => old(self).rest().len() == 0 && final(self).rest().len() == 0,
            },
    {
        match self {
            FlattenIter::Kanji(k) => k.next(),
            FlattenIter::Kana((s, did)) => {
                if *did {
                    return None;
                }
                let seg = Segment::new_kana(String::from_str(s.as_text()));
                let kana: &'a S = *s;
                *self = FlattenIter::Kana((kana, true));
                assert(self.rest() =~= old(self).rest().skip(1));
                Some(seg)
            },
        }
    }
}

/// All segments taken apart, in order.
pub fn flatten_all<S: AsSegment>(segments: &[S]) -> (r: Vec<Segment>)
    ensures
        views(r@) == flatten(views(segments@)),
{
    let ghost v = views(segments@);
    let mut out: Vec<Segment> = Vec::new();
    let mut i: usize = 0;
    assert(flatten(v.take(0)) =~= Seq::<SegmentView>::empty());
    assert(views(out@) =~= flatten(v.take(0)));
    while i < segments.len()
        invariant
            i <= segments.len(),
            v == views(segments@),
            views(out@) == flatten(v.take(i as int)),
        decreases segments.len() - i,
    {
        proof {
            lemma_flatten_next(v, i as int);
        }
        flatten_into(&mut out, &segments[i]);
        i += 1;
    }
    assert(v.take(i as int) =~= v);
    out
}

} // verus!
