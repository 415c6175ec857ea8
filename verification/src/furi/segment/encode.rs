//! Writing segments in the notation.
use vstd::prelude::*;
use crate::furi::model::{
    block, concat_map, encode, encode_readings, is_detailed, lemma_concat_map_next, SegmentView,
};
use crate::furi::seq::views;
use crate::furi::Furigana;
use crate::furi::segment::kanji::{kanji_view, AsKanjiSegment};
use crate::furi::segment::traits::AsSegment;
use crate::reading::traits::AsReadingRef;
use crate::reading::ReadingView;
use crate::text::{concat, join, join_texts, push_char, texts, AsText};

verus! {

/// A reading in the notation: a block where it has a kanji text, plain kana
/// otherwise.
pub open spec fn encode_reading(r: ReadingView) -> Seq<char> {
    match r.kanji {
        Some(k) => block(k, r.kana),
        None => r.kana,
    }
}

/// Appends the block `[kanji|kana]` to `out`.
pub fn push_block(out: &mut String, kanji: &str, kana: &str)
    ensures
        final(out)@ == old(out)@ + block(kanji@, kana@),
{
    push_char(out, '[');
    out.append(kanji);
    push_char(out, '|');
    out.append(kana);
    push_char(out, ']');
    assert(out@ =~= old(out)@ + block(kanji@, kana@));
}

/// Appends a kanji segment to `out`.
pub fn push_kanji<K: AsKanjiSegment>(out: &mut String, kanji: &K)
    ensures
        final(out)@ == old(out)@ + kanji_view(kanji).encode(),
{
    let detailed = kanji.is_detailed();
    let readings = kanji.readings();
    let ghost lit = kanji.literals_text();
    let ghost rs = kanji.readings_text();
    let ghost sep = seq!['|'];
    push_char(out, '[');
    out.append(kanji.literals().as_text());
    push_char(out, '|');
    let ghost head = out@;
    assert(head =~= old(out)@ + seq!['['] + lit + seq!['|']);
    let mut pos: usize = 0;
    while pos < readings.len()
        invariant
            pos <= readings.len(),
            texts(readings@) == rs,
            sep == seq!['|'],
            out@ == head + (if detailed {
                join(rs.take(pos as int), sep)
            } else {
                concat(rs.take(pos as int))
            }),
        decreases readings.len() - pos,
    {
        let ghost before = out@;
        let ghost t = readings@[pos as int].text();
        if pos > 0 && detailed {
            push_char(out, '|');
        }
        out.append(readings[pos].as_text());
        pos += 1;
        proof {
            if pos > 1 && detailed {
                assert(out@ =~= before + sep + t);
            } else {
                assert(out@ =~= before + t);
            }
            assert(rs.take(pos as int).drop_last() =~= rs.take(pos - 1));
            assert(rs.take(pos as int).last() == readings@[pos - 1].text());
            if detailed {
                let now = rs.take(pos as int);
                if pos == 1 {
                    assert(join(rs.take(0), sep) =~= Seq::<char>::empty());
                    assert(join(now, sep) == now[0]);
                } else {
                    assert(join(now, sep) == join(now.drop_last(), sep) + sep + now.last());
                }
                assert(out@ =~= head + join(rs.take(pos as int), sep));
            } else {
                assert(out@ =~= head + concat(rs.take(pos as int)));
            }
        }
    }
    push_char(out, ']');
    proof {
        assert(rs.take(pos as int) =~= rs);
        assert(out@ =~= old(out)@ + block(lit, encode_readings(lit, rs)));
    }
}

/// Appends the segment as it is read to `out`. A kanji segment whose
/// readings are all empty gives its literals with `fallback`, nothing
/// without.
pub fn push_kana<S: AsSegment>(out: &mut String, segment: &S, fallback: bool)
    ensures
        final(out)@ == old(out)@ + segment.seg().kana(fallback),
{
    match segment.as_kana() {
        Some(kana) => out.append(kana.as_text()),
        None => match segment.as_kanji() {
            Some(kanji) => {
                let readings = kanji.readings();
                let ghost rs = kanji.readings_text();
                let mut pushed = false;
                let mut i: usize = 0;
                assert(concat(rs.take(0)) =~= Seq::<char>::empty());
                assert(out@ =~= old(out)@ + concat(rs.take(0)));
                while i < readings.len()
                    invariant
                        i <= readings.len(),
                        texts(readings@) == rs,
                        out@ == old(out)@ + concat(rs.take(i as int)),
                        pushed == (concat(rs.take(i as int)).len() > 0),
                    decreases readings.len() - i,
                {
                    let r = readings[i].as_text();
                    if !r.is_empty() {
                        pushed = true;
                    }
                    out.append(r);
                    i += 1;
                    proof {
                        assert(rs.take(i as int).drop_last() =~= rs.take(i - 1));
                        assert(out@ =~= old(out)@ + concat(rs.take(i as int)));
                    }
                }
                assert(rs.take(i as int) =~= rs);
                if fallback && !pushed {
                    assert(out@ =~= old(out)@);
                    out.append(kanji.literals().as_text());
                }
            },
            None => {},
        },
    }
}

/// Appends the segment as it is written to `out`.
pub fn push_main<S: AsSegment>(out: &mut String, segment: &S)
    ensures
        final(out)@ == old(out)@ + segment.seg().main_reading(),
{
    out.append(segment.main_reading().as_text());
}

/// A reading in the notation: a block if `kanji` is there, the kana as it
/// is if not.
pub fn reading<A: AsText, B: AsText>(kana: A, kanji: Option<B>) -> (r: String)
    ensures
        r@ == (match kanji {
            Some(k) => block(k.text(), kana.text()),
            None => kana.text(),
        }),
{
    match kanji {
        Some(kanji) => single_block(kanji, kana),
        None => String::from_str(kana.as_text()),
    }
}

/// The block `[kanji|kana]`.
pub fn single_block<A: AsText, B: AsText>(kanji: A, kana: B) -> (r: String)
    ensures
        r@ == block(kanji.text(), kana.text()),
{
    let mut out = String::new();
    push_block(&mut out, kanji.as_text(), kana.as_text());
    assert(out@ =~= block(kanji.text(), kana.text()));
    out
}

/// The block of kanji with a reading for each, the readings kept apart by
/// `|`.
pub fn multi_block<A: AsText, S: AsText>(kanji: A, readings: &[S]) -> (r: String)
    ensures
        r@ == block(kanji.text(), join(texts(readings@), seq!['|'])),
{
    proof {
        reveal_strlit("|");
        assert("|"@ =~= seq!['|']);
    }
    let readings = join_texts(readings, "|");
    single_block(kanji, readings)
}

/// A run of segments in the notation.
pub fn sequence<P: AsSegment>(parts: &[P]) -> (r: Furigana<String>)
    ensures
        r.0@ == encode(views(parts@)),
{
    let ghost f = |s: SegmentView| s.encode();
    let ghost v = views(parts@);
    let mut out = String::new();
    let mut i: usize = 0;
    assert(concat_map(v.take(0), f) =~= Seq::<char>::empty());
    assert(out@ =~= concat_map(v.take(0), f));
    while i < parts.len()
        invariant
            i <= parts.len(),
            v == views(parts@),
            f == (|s: SegmentView| s.encode()),
            out@ == concat_map(v.take(i as int), f),
        decreases parts.len() - i,
    {
        proof {
            lemma_concat_map_next(v, i as int, f);
        }
        parts[i].encode_into(&mut out);
        i += 1;
    }
    assert(v.take(i as int) =~= v);
    Furigana(out)
}

/// Writes segments in the notation to the end of a string.
pub struct FuriEncoder<'a> {
    /// The string that is written to.
    pub out: &'a mut String,
}

impl<'a> FuriEncoder<'a> {
    /// Creates an encoder that writes to the end of `out`.
    pub fn new(out: &'a mut String) -> (r: Self)
        ensures
            r.out@ == old(out)@,
            *final(r.out) == *final(out),
    {
        Self { out }
    }

    /// Writes a segment.
    pub fn write_seg<S: AsSegment>(&mut self, segment: S)
        ensures
            final(self).out@ == old(self).out@ + segment.seg().encode(),
            *final(final(self).out) == *final(old(self).out),
    {
        segment.encode_into(self.out);
    }

    /// Writes plain kana.
    pub fn write_kana(&mut self, kana: &str)
        ensures
            final(self).out@ == old(self).out@ + kana@,
            *final(final(self).out) == *final(old(self).out),
    {
        self.out.append(kana);
    }

    /// Writes the block `[kanji|kana]`.
    pub fn write_block(&mut self, kanji: &str, kana: &str)
        ensures
            final(self).out@ == old(self).out@ + block(kanji@, kana@),
            *final(final(self).out) == *final(old(self).out),
    {
        push_block(self.out, kanji, kana);
    }

    /// Writes a reading: a block where it has a kanji text, kana otherwise.
    pub fn write_reading<R: AsReadingRef>(&mut self, r: R)
        ensures
            final(self).out@ == old(self).out@ + encode_reading(r.reading()),
            *final(final(self).out) == *final(old(self).out),
    {
        let r = r.as_reading_ref();
        match r.kanji() {
            Some(kanji) => self.write_block(kanji, r.kana()),
            None => self.write_kana(r.kana()),
        }
    }

    /// Writes every segment of the run.
    pub fn extend<S: AsSegment>(&mut self, segments: &[S])
        ensures
            final(self).out@ == old(self).out@ + encode(views(segments@)),
            *final(final(self).out) == *final(old(self).out),
    {
        let all = sequence(segments);
        self.out.append(all.raw());
    }

    /// Writes a kanji segment.
    pub fn write_kanji<K: AsKanjiSegment>(&mut self, kanji: &K)
        ensures
            final(self).out@ == old(self).out@ + kanji_view(kanji).encode(),
            *final(final(self).out) == *final(old(self).out),
    {
        push_kanji(self.out, kanji);
    }
}

} // verus!
