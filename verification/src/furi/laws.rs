//! What holds of parsing, encoding, projecting and comparing, for every
//! input.
use vstd::prelude::*;
use crate::furi::lemmas::{
    all_clean, blind, blind_pred, clean, head_text, in_order, lead, lemma_block_joined,
    lemma_block_roundtrip, lemma_block_segment_clean, lemma_block_single, lemma_concat_map_pairs,
    lemma_encoded_block, lemma_first_error_none, lemma_plain_unclosed, lemma_prepend,
    lemma_prepend_fold, lemma_prepend_lead, lemma_projections_blind, lemma_rewrite,
    lemma_settled_step, lemma_spans_empty, lemma_spans_order, lemma_spans_partition,
    lemma_spans_shape, piece, piece_fits, plain_through, settled_seq, span_in, unclosed,
};
use crate::furi::model::{
    Run, SegmentView, Span, close_run, compare, concat_map, emit_unmerged, encode, extend_run,
    fix_malformed_blocks, has_block, has_kanji, is_block, is_detailed, is_unread, is_valid,
    kana_projection, kana_projection_with, kana_reading, kanji_projection, kanji_reading,
    merge_spans, mergeable, normalize, normalize_all, parse_lenient, parse_span, parse_spans,
    parse_strict, reading_projection, remove_empty_kanji, sequence_reading, span_error, span_kana,
    span_kanji, spans, without_empty,
};
use crate::text::concat;

verus! {

/// The spans of a text make up the text: written one after the other they
/// are the text; each is a stretch of the text that is not empty and lies
/// right behind the one before it; a block has its brackets at both ends
/// and none between; in plain text nothing closes a `[`, and no two plain
/// spans are neighbours.
pub proof fn law_spans(s: Seq<char>)
    ensures
        concat_map(spans(s), |x: Span| x.text) == s,
        in_order(spans(s), 0, s.len() as int),
        forall|i: int| 0 <= i < spans(s).len() ==> span_in(s, #[trigger] spans(s)[i]),
        forall|i: int|
            0 <= i < spans(s).len() && !(#[trigger] spans(s)[i]).bracketed ==> unclosed(
                spans(s)[i].text,
            ),
{
    lemma_spans_partition(s, 0);
    assert(s.subrange(0, s.len() as int) =~= s);
    lemma_spans_order(s, 0);
    lemma_spans_shape(s, 0);
    lemma_plain_unclosed(s, 0);
}

/// A text that strict parsing accepts has no empty segment: no kana segment
/// without text, no kanji segment without literals.
pub proof fn law_strict_segments(s: Seq<char>)
    requires
        is_valid(s),
    ensures
        forall|i: int|
            0 <= i < parse_lenient(s).len() ==> !(#[trigger] parse_lenient(s)[i]).is_empty(),
{
    let sp = spans(s);
    lemma_first_error_none(sp, 0);
    lemma_spans_shape(s, 0);
    assert forall|i: int| 0 <= i < parse_lenient(s).len() implies !(#[trigger] parse_lenient(
        s,
    )[i]).is_empty() by {
        assert(span_error(sp[i], i == sp.len() - 1) is None);
        assert(span_in(s, sp[i]));
    }
}

/// Round trip: a text that strict parsing accepts is written back, from its
/// segments, exactly as it was.
pub proof fn law_round_trip(s: Seq<char>)
    requires
        is_valid(s),
    ensures
        parse_strict(s) is Ok,
        encode(parse_strict(s)->Ok_0) == s,
{
    let sp = spans(s);
    let segs = parse_spans(sp);
    let enc = |v: SegmentView| v.encode();
    let txt = |x: Span| x.text;
    lemma_first_error_none(sp, 0);
    lemma_spans_shape(s, 0);
    assert forall|i: int| 0 <= i < segs.len() implies enc(#[trigger] segs[i]) == txt(sp[i]) by {
        assert(span_error(sp[i], i == sp.len() - 1) is None);
        if sp[i].bracketed {
            lemma_block_roundtrip(sp[i]);
        }
    }
    lemma_concat_map_pairs(segs, sp, enc, txt);
    lemma_spans_partition(s, 0);
    assert(s.subrange(0, s.len() as int) =~= s);
}

/// Every span adds to the projections what its segment adds to the readings
/// of the sequence.
pub proof fn lemma_span_projection(x: Span)
    ensures
        span_kana(x, true) == parse_span(x).kana(true),
        span_kana(x, false) == parse_span(x).kana(false),
        span_kanji(x) == parse_span(x).main_reading(),
{
    if x.bracketed {
        let f = crate::furi::model::fields(x.text);
        if f.len() == 1 {
            let one = seq![Seq::<char>::empty()];
            assert(one.drop_last() =~= Seq::<Seq<char>>::empty());
            assert(concat(one.drop_last()) =~= Seq::<char>::empty());
            assert(concat(one) =~= Seq::<char>::empty());
            assert(f.skip(1) =~= Seq::<Seq<char>>::empty());
            assert(concat(f.skip(1)) =~= Seq::<char>::empty());
        }
    }
}

/// Projection consistency: reading a text straight from the notation gives
/// what the text gives once it is parsed leniently into a sequence, as kana
/// and as kanji.
pub proof fn law_projection_consistency(s: Seq<char>)
    ensures
        kana_projection(s) == kana_reading(parse_lenient(s), true),
        kanji_projection(s) == kanji_reading(parse_lenient(s)),
        has_block(s) == has_kanji(parse_lenient(s)),
        reading_projection(s) == sequence_reading(parse_lenient(s)),
{
    let sp = spans(s);
    let segs = parse_lenient(s);
    assert forall|i: int| 0 <= i < sp.len() implies (|x: Span| span_kana(x, true))(#[trigger] sp[i])
        == (|v: SegmentView| v.kana(true))(segs[i]) by {
        lemma_span_projection(sp[i]);
    }
    lemma_concat_map_pairs(sp, segs, |x: Span| span_kana(x, true), |v: SegmentView| v.kana(true));
    assert forall|i: int| 0 <= i < sp.len() implies (|x: Span| span_kanji(x))(#[trigger] sp[i])
        == (|v: SegmentView| v.main_reading())(segs[i]) by {
        lemma_span_projection(sp[i]);
    }
    lemma_concat_map_pairs(sp, segs, |x: Span| span_kanji(x), |v: SegmentView| v.main_reading());
    if has_block(s) {
        let i = choose|i: int| 0 <= i < sp.len() && sp[i].bracketed;
        assert(segs[i] is Kanji);
    }
    if has_kanji(segs) {
        let i = choose|i: int| 0 <= i < segs.len() && #[trigger] segs[i] is Kanji;
        assert(sp[i].bracketed);
    }
}

/// The comparator is reflexive: a sequence equals itself, in either mode.
pub proof fn law_compare_reflexive(a: Seq<SegmentView>, lit_match: bool)
    ensures
        compare(a, a, lit_match),
{
}

/// The comparator is symmetric, in either mode.
pub proof fn law_compare_symmetric(a: Seq<SegmentView>, b: Seq<SegmentView>, lit_match: bool)
    ensures
        compare(a, b, lit_match) == compare(b, a, lit_match),
{
}

/// Whether the pass that removes empty blocks keeps the span as a block:
/// it is a block with a known reading.
pub open spec fn kept_block(x: Span) -> bool {
    x.bracketed && !is_unread(parse_span(x))
}

/// Whether no `[` of plain text gets closed once the blocks without a known
/// reading are plain text: in every stretch of plain text and such blocks,
/// taken by their literals, no `]` stands anywhere behind a `[`.
pub open spec fn settled(s: Seq<char>) -> bool {
    settled_seq(spans(s), |x: Span| without_empty(x), |x: Span| kept_block(x))
}

/// Nothing closes a `[` in the plain text between two blocks of a text.
proof fn lemma_spans_settled(s: Seq<char>, g: spec_fn(Span) -> Seq<char>)
    requires
        plain_through(g),
    ensures
        settled_seq(spans(s), g, |x: Span| x.bracketed),
{
    let sp = spans(s);
    let blk = |x: Span| x.bracketed;
    lemma_spans_order(s, 0);
    lemma_plain_unclosed(s, 0);
    assert forall|i: int| 0 <= i <= sp.len() implies unclosed(#[trigger] lead(sp.skip(i), g, blk)) by {
        let here = sp.skip(i);
        if i < sp.len() && !sp[i].bracketed {
            let next = here.skip(1);
            assert(here[0] == sp[i]);
            if next.len() > 0 {
                assert(next[0] == sp[i + 1]);
            }
            assert(lead(next, g, blk) =~= Seq::<char>::empty());
            assert(lead(here, g, blk) =~= sp[i].text);
        }
    }
}

/// Writing every block afresh keeps what a text reads as and is written as.
pub proof fn law_fix_keeps_reading(s: Seq<char>, fallback: bool)
    ensures
        kana_projection_with(fix_malformed_blocks(s), fallback) == kana_projection_with(s, fallback),
        kanji_projection(fix_malformed_blocks(s)) == kanji_projection(s),
{
    let sp = spans(s);
    let g = |x: Span| parse_span(x).encode();
    let blk = |x: Span| x.bracketed;
    let fk = |x: Span| span_kana(x, fallback);
    let fm = |x: Span| span_kanji(x);
    lemma_projections_blind(fallback);
    lemma_spans_shape(s, 0);
    assert forall|i: int| 0 <= i < sp.len() implies piece_fits(#[trigger] sp[i], g, blk, fk)
        && piece_fits(sp[i], g, blk, fm) by {
        let x = sp[i];
        if x.bracketed {
            lemma_block_segment_clean(x);
            lemma_encoded_block(parse_span(x), fallback);
            lemma_span_projection(x);
        }
    }
    assert(plain_through(g));
    lemma_spans_settled(s, g);
    lemma_rewrite(sp, g, blk, fk);
    lemma_rewrite(sp, g, blk, fm);
}

/// Turning blocks without a known reading into plain text keeps what a
/// text reads as and is written as, where no `[` of plain text gets closed
/// by it.
pub proof fn law_remove_empty_keeps_reading(s: Seq<char>)
    requires
        settled(s),
    ensures
        kana_projection(remove_empty_kanji(s)) == kana_projection(s),
        kanji_projection(remove_empty_kanji(s)) == kanji_projection(s),
{
    let sp = spans(s);
    let g = |x: Span| without_empty(x);
    let blk = |x: Span| kept_block(x);
    let fk = |x: Span| span_kana(x, true);
    let fm = |x: Span| span_kanji(x);
    lemma_projections_blind(true);
    lemma_spans_shape(s, 0);
    assert forall|i: int| 0 <= i < sp.len() implies piece_fits(#[trigger] sp[i], g, blk, fk)
        && piece_fits(sp[i], g, blk, fm) by {
        let x = sp[i];
        if x.bracketed {
            lemma_block_segment_clean(x);
            lemma_encoded_block(parse_span(x), true);
            lemma_span_projection(x);
            let seg = parse_span(x);
            if is_unread(seg) {
                let rs = seg->readings;
                assert(rs.drop_last() =~= Seq::<Seq<char>>::empty());
                assert(concat(rs.drop_last()) =~= Seq::<char>::empty());
                assert(concat(rs) =~= rs[0]);
            }
        }
    }
    lemma_rewrite(sp, g, blk, fk);
    lemma_rewrite(sp, g, blk, fm);
}

/// Whether the segment is a kanji segment with one reading for each of its
/// several literals, all of them empty.
pub open spec fn is_hollow(seg: SegmentView) -> bool {
    match seg {
        SegmentView::Kana(_) => false,
        SegmentView::Kanji { literals, readings } => readings.len() >= 2 && is_detailed(
            literals,
            readings,
        ) && concat(readings).len() == 0,
    }
}

/// Whether no two spans that lossless merging puts into one run differ in
/// being hollow: of two neighbours that both join a run, both are hollow or
/// neither is.
pub open spec fn even_spans(sp: Seq<Span>) -> bool {
    forall|i: int|
        0 <= i < sp.len() - 1 && mergeable(parse_span(#[trigger] sp[i]), false) && mergeable(
            parse_span(sp[i + 1]),
            false,
        ) ==> is_hollow(parse_span(sp[i])) == is_hollow(parse_span(sp[i + 1]))
}

/// Whether lossless merging never puts a hollow block into one run with a
/// block that is not hollow.
pub open spec fn even_runs(s: Seq<char>) -> bool {
    even_spans(spans(s))
}

/// What an open run reads as: its readings, or its literals where all its
/// readings are empty.
pub open spec fn run_kana(run: Option<Run>) -> Seq<char> {
    match run {
        Some(r) => if concat(r.readings).len() == 0 {
            r.literals
        } else {
            concat(r.readings)
        },
        None => Seq::empty(),
    }
}

/// What an open run is written as.
pub open spec fn run_literals(run: Option<Run>) -> Seq<char> {
    match run {
        Some(r) => r.literals,
        None => Seq::empty(),
    }
}

/// Whether an open run is one that lossless merging can have built.
pub open spec fn run_fits(run: Option<Run>) -> bool {
    match run {
        Some(r) => {
            &&& clean(r.literals)
            &&& all_clean(r.readings)
            &&& r.readings.len() >= 1
            &&& !r.undetailed
            &&& !(r.readings.len() == 1 && r.readings[0].len() == 0)
        },
        None => true,
    }
}

/// Whether the first span, if it joins the open run, is hollow exactly if
/// the run is.
pub open spec fn run_even(run: Option<Run>, sp: Seq<Span>) -> bool {
    match run {
        Some(r) => sp.len() > 0 && mergeable(parse_span(sp[0]), false) ==> is_hollow(
            parse_span(sp[0]),
        ) == (concat(r.readings).len() == 0),
        None => true,
    }
}

/// Whether the spans are as the spans of a text are: blocks shaped as
/// blocks; plain spans not empty, with nothing that closes a `[`, and
/// followed by a block if by anything.
pub open spec fn spans_fit(sp: Seq<Span>) -> bool {
    forall|i: int|
        0 <= i < sp.len() ==> if (#[trigger] sp[i]).bracketed {
            is_block(sp[i].text)
        } else {
            &&& sp[i].text.len() > 0
            &&& unclosed(sp[i].text)
            &&& i + 1 < sp.len() ==> sp[i + 1].bracketed
        }
}

/// A kanji segment that joins a lossless run is hollow exactly if all its
/// readings are empty.
proof fn lemma_member_reads(seg: SegmentView)
    requires
        mergeable(seg, false),
        seg->readings.len() >= 1,
    ensures
        is_hollow(seg) == (concat(seg->readings).len() == 0),
{
    let rs = seg->readings;
    if rs.len() == 1 {
        assert(rs.drop_last() =~= Seq::<Seq<char>>::empty());
        assert(concat(rs.drop_last()) =~= Seq::<char>::empty());
        assert(concat(rs) =~= rs[0]);
    }
}

/// A run with one more member is again a run that lossless merging can have
/// built, and is written as the run followed by the member; it reads as the
/// run followed by the member if both are hollow or neither is.
proof fn lemma_extend_run(run: Option<Run>, x: Span)
    requires
        run_fits(run),
        x.bracketed,
        is_block(x.text),
        mergeable(parse_span(x), false),
    ensures
        run_fits(Some(extend_run(run, parse_span(x)))),
        run_literals(Some(extend_run(run, parse_span(x)))) == run_literals(run) + span_kanji(x),
        run_even(run, seq![x]) ==> {
            &&& run_kana(Some(extend_run(run, parse_span(x)))) == run_kana(run) + span_kana(
                x,
                true,
            )
            &&& is_hollow(parse_span(x)) == (concat(extend_run(run, parse_span(x)).readings).len()
                == 0)
        },
{
    let seg = parse_span(x);
    lemma_block_segment_clean(x);
    lemma_member_reads(seg);
    lemma_span_projection(x);
    let lit = seg->literals;
    let rs = seg->readings;
    match run {
        None => {
            assert(run_kana(run) + span_kana(x, true) =~= span_kana(x, true));
            assert(run_literals(run) + span_kanji(x) =~= lit);
        },
        Some(r) => {
            assert(seq![x][0] == x);
            crate::text::lemma_concat_add(r.readings, rs);
            crate::text::lemma_contains_add(r.literals, lit, '[');
            crate::text::lemma_contains_add(r.literals, lit, ']');
            crate::text::lemma_contains_add(r.literals, lit, '|');
            let all = r.readings + rs;
            assert forall|i: int| 0 <= i < all.len() implies clean(#[trigger] all[i]) by {
                if i < r.readings.len() {
                    assert(all[i] == r.readings[i]);
                } else {
                    assert(all[i] == rs[i - r.readings.len()]);
                }
            }
        },
    }
}

/// The two functions of the pass that removes empty blocks look only at the
/// text and the kind of a span.
proof fn lemma_removal_blind()
    ensures
        blind(|x: Span| without_empty(x)),
        blind_pred(|x: Span| kept_block(x)),
{
}

/// The block that a run is written as, in front of a text.
proof fn lemma_close_run(run: Option<Run>, rest: Seq<char>)
    requires
        run_fits(run),
    ensures
        kana_projection(close_run(run) + rest) == run_kana(run) + kana_projection(rest),
        kanji_projection(close_run(run) + rest) == run_literals(run) + kanji_projection(rest),
        run is Some ==> head_text(spans(close_run(run) + rest)).len() == 0 && lead(
            spans(close_run(run) + rest),
            |x: Span| without_empty(x),
            |x: Span| kept_block(x),
        ).len() == 0,
        run is Some ==> settled(close_run(run) + rest) == settled(rest),
        run is None ==> close_run(run) + rest == rest,
{
    let g = |x: Span| without_empty(x);
    let blk = |x: Span| kept_block(x);
    lemma_projections_blind(true);
    lemma_removal_blind();
    match run {
        None => {
            assert(close_run(run) + rest =~= rest);
            assert(run_kana(run) + kana_projection(rest) =~= kana_projection(rest));
            assert(run_literals(run) + kanji_projection(rest) =~= kanji_projection(rest));
        },
        Some(r) => {
            lemma_block_joined(r.literals, r.readings, true);
            let b = close_run(run);
            lemma_prepend(b, true, rest);
            lemma_prepend_fold(b, true, rest, |x: Span| span_kana(x, true));
            lemma_prepend_fold(b, true, rest, |x: Span| span_kanji(x));
            lemma_prepend_lead(b, true, rest, g, blk);
            let rs = parse_span(piece(b, true))->readings;
            assert(rs =~= r.readings);
            assert(kept_block(piece(b, true)));
            assert(unclosed(Seq::<char>::empty()));
        },
    }
}

/// What lossless merging writes for a span that joins no run, in front of
/// the text that follows it.
proof fn lemma_unmerged_first(x: Span, tail: Seq<char>)
    requires
        !mergeable(parse_span(x), false),
        x.bracketed ==> is_block(x.text),
        !x.bracketed ==> x.text.len() > 0 && unclosed(x.text) && head_text(spans(tail)).len() == 0,
    ensures
        kana_projection(emit_unmerged(x) + tail) == span_kana(x, true) + kana_projection(tail),
        kanji_projection(emit_unmerged(x) + tail) == span_kanji(x) + kanji_projection(tail),
        head_text(spans(emit_unmerged(x) + tail)) == head_text(seq![x]),
        lead(spans(emit_unmerged(x) + tail), |x: Span| without_empty(x), |x: Span| kept_block(x))
            == (if kept_block(x) {
            Seq::<char>::empty()
        } else {
            without_empty(x) + lead(
                spans(tail),
                |x: Span| without_empty(x),
                |x: Span| kept_block(x),
            )
        }),
        settled(emit_unmerged(x) + tail) == (unclosed(
            lead(
                spans(emit_unmerged(x) + tail),
                |x: Span| without_empty(x),
                |x: Span| kept_block(x),
            ),
        ) && settled(tail)),
{
    let fk = |x: Span| span_kana(x, true);
    let fm = |x: Span| span_kanji(x);
    let g = |x: Span| without_empty(x);
    let blk = |x: Span| kept_block(x);
    let e = Seq::<char>::empty();
    let seg = parse_span(x);
    let text = emit_unmerged(x);
    let pc = piece(text, x.bracketed);
    lemma_projections_blind(true);
    lemma_removal_blind();
    if x.bracketed {
        lemma_block_segment_clean(x);
        lemma_span_projection(x);
        if is_unread(seg) {
            let rs = seg->readings;
            assert(rs.drop_last() =~= Seq::<Seq<char>>::empty());
            assert(concat(rs.drop_last()) =~= Seq::<char>::empty());
            assert(concat(rs) =~= rs[0]);
            assert(clean(e)) by {
                assert forall|c: char| !e.contains(c) by {
                    if e.contains(c) {
                        let i = choose|i: int| 0 <= i < e.len() && e[i] == c;
                    }
                }
            }
            lemma_block_single(seg->literals, e, true);
            let again = parse_span(pc);
            assert(again->readings =~= seq![e]);
            assert(is_unread(again));
            assert(without_empty(pc) == without_empty(x));
        }
    }
    lemma_prepend(text, x.bracketed, tail);
    lemma_prepend_fold(text, x.bracketed, tail, fk);
    lemma_prepend_fold(text, x.bracketed, tail, fm);
    lemma_prepend_lead(text, x.bracketed, tail, g, blk);
    assert(seq![x][0] == x);
    assert(fk(pc) == fk(x));
    assert(fm(pc) == fm(x));
    assert(blk(pc) == blk(x));
    assert(!blk(x) ==> g(pc) == g(x));
}

#[verifier::rlimit(40)]
/// Lossless merging over spans with an open run is written as the run
/// followed by the spans, and reads as them where no run mixes hollow
/// blocks with others; it opens with a block if a run is open, and with
/// what the spans open with if none is; and it is settled if the spans are.
proof fn lemma_merge(sp: Seq<Span>, run: Option<Run>)
    requires
        run_fits(run),
        spans_fit(sp),
    ensures
        kanji_projection(merge_spans(sp, false, run)) == run_literals(run) + concat_map(
            sp,
            |x: Span| span_kanji(x),
        ),
        even_spans(sp) && run_even(run, sp) ==> kana_projection(merge_spans(sp, false, run))
            == run_kana(run) + concat_map(sp, |x: Span| span_kana(x, true)),
        head_text(spans(merge_spans(sp, false, run))) == (if run is Some {
            Seq::<char>::empty()
        } else {
            head_text(sp)
        }),
        lead(
            spans(merge_spans(sp, false, run)),
            |x: Span| without_empty(x),
            |x: Span| kept_block(x),
        ) == (if run is Some {
            Seq::<char>::empty()
        } else {
            lead(sp, |x: Span| without_empty(x), |x: Span| kept_block(x))
        }),
        settled_seq(sp, |x: Span| without_empty(x), |x: Span| kept_block(x)) ==> settled(
            merge_spans(sp, false, run),
        ),
    decreases sp.len(),
{
    let fk = |x: Span| span_kana(x, true);
    let fm = |x: Span| span_kanji(x);
    let g = |x: Span| without_empty(x);
    let blk = |x: Span| kept_block(x);
    let e = Seq::<char>::empty();
    let whole = merge_spans(sp, false, run);
    if sp.len() == 0 {
        lemma_close_run(run, e);
        lemma_spans_empty();
        assert(close_run(run) + e =~= close_run(run));
        assert(run_kana(run) + kana_projection(e) =~= run_kana(run) + concat_map(sp, fk));
        assert(run_literals(run) + kanji_projection(e) =~= run_literals(run) + concat_map(
            sp,
            fm,
        ));
        assert(settled(e)) by {
            assert forall|i: int| 0 <= i <= spans(e).len() implies unclosed(
                #[trigger] lead(spans(e).skip(i), g, blk),
            ) by {}
        }
    } else {
        let x = sp[0];
        let seg = parse_span(x);
        let rest = sp.skip(1);
        assert forall|i: int| 0 <= i < rest.len() implies if (#[trigger] rest[i]).bracketed {
            is_block(rest[i].text)
        } else {
            &&& rest[i].text.len() > 0
            &&& unclosed(rest[i].text)
            &&& i + 1 < rest.len() ==> rest[i + 1].bracketed
        } by {
            assert(rest[i] == sp[i + 1]);
            if i + 1 < rest.len() {
                assert(rest[i + 1] == sp[i + 2]);
            }
        }
        if even_spans(sp) {
            assert forall|i: int|
                0 <= i < rest.len() - 1 && mergeable(parse_span(#[trigger] rest[i]), false)
                    && mergeable(parse_span(rest[i + 1]), false) implies is_hollow(
                parse_span(rest[i]),
            ) == is_hollow(parse_span(rest[i + 1])) by {
                assert(rest[i] == sp[i + 1]);
                assert(rest[i + 1] == sp[i + 2]);
            }
        }
        lemma_settled_step(sp, g, blk);
        if mergeable(seg, false) {
            let next = Some(extend_run(run, seg));
            assert(seq![x][0] == x);
            lemma_extend_run(run, x);
            if even_spans(sp) && run_even(run, sp) {
                if rest.len() > 0 && mergeable(parse_span(rest[0]), false) {
                    assert(rest[0] == sp[1]);
                    assert(is_hollow(parse_span(sp[0])) == is_hollow(parse_span(sp[1])));
                }
                assert(run_even(next, rest));
            }
            lemma_merge(rest, next);
            assert(run_literals(next) + concat_map(rest, fm) =~= run_literals(run) + concat_map(
                sp,
                fm,
            ));
            if even_spans(sp) && run_even(run, sp) {
                assert(run_kana(next) + concat_map(rest, fk) =~= run_kana(run) + concat_map(
                    sp,
                    fk,
                ));
            }
            assert(kept_block(x));
        } else {
            lemma_merge(rest, None);
            let tail = merge_spans(rest, false, None);
            let text = emit_unmerged(x);
            assert(run_kana(None) + concat_map(rest, fk) =~= concat_map(rest, fk));
            assert(run_literals(None) + concat_map(rest, fm) =~= concat_map(rest, fm));
            if !x.bracketed && rest.len() > 0 {
                assert(rest[0] == sp[1]);
            }
            lemma_unmerged_first(x, tail);
            lemma_close_run(run, text + tail);
            assert(whole =~= close_run(run) + (text + tail));
            assert(seq![x][0] == x);
            assert(run_literals(run) + kanji_projection(text + tail) =~= run_literals(run)
                + concat_map(sp, fm));
            if even_spans(sp) && run_even(run, sp) {
                assert(run_kana(run) + kana_projection(text + tail) =~= run_kana(run)
                    + concat_map(sp, fk));
            }
        }
    }
}

/// The spans of a text are as lossless merging takes them to be.
proof fn lemma_spans_fit(s: Seq<char>)
    ensures
        spans_fit(spans(s)),
{
    lemma_spans_shape(s, 0);
    lemma_plain_unclosed(s, 0);
    lemma_spans_order(s, 0);
}

/// Merging without loss keeps what a text is written as; it keeps what the
/// text reads as where no run mixes hollow blocks with others; and where no
/// `[` of plain text gets closed once the empty blocks are plain text, the
/// same holds of the merged text.
pub proof fn law_merge_keeps_reading(s: Seq<char>)
    ensures
        kanji_projection(normalize(s, false)) == kanji_projection(s),
        even_runs(s) ==> kana_projection(normalize(s, false)) == kana_projection(s),
        settled(s) ==> settled(normalize(s, false)),
{
    let sp = spans(s);
    lemma_spans_fit(s);
    lemma_merge(sp, None);
    assert(run_kana(None) + kana_projection(s) =~= kana_projection(s));
    assert(run_literals(None) + kanji_projection(s) =~= kanji_projection(s));
}

/// The normaliser keeps the reading: after merging without loss, removing
/// empty blocks and fixing malformed ones, a text reads as before and is
/// written as before. This holds of every text in which no run mixes hollow
/// blocks with others, and in which no `[` of plain text gets closed once
/// the empty blocks are plain text.
pub proof fn law_normalize_keeps_reading(s: Seq<char>)
    requires
        even_runs(s),
        settled(s),
    ensures
        kana_projection(normalize_all(s, false)) == kana_projection(s),
        kanji_projection(normalize_all(s, false)) == kanji_projection(s),
{
    law_merge_keeps_reading(s);
    let merged = normalize(s, false);
    law_remove_empty_keeps_reading(merged);
    law_fix_keeps_reading(remove_empty_kanji(merged), true);
}

} // verus!
