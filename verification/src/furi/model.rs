//! The mathematical model of the furigana notation.
//!
//! An annotated text is a sequence of characters. It falls into spans: a
//! bracketed span is a `[`, then characters that are no brackets, then a `]`;
//! everything else is plain text. A bracketed span is cut at every `|` into
//! fields: the kanji literals first, then the readings.
use vstd::prelude::*;
use vstd::utf8::encode_utf8;
use crate::reading::ReadingView;
use crate::text::{concat, find_from, join, lemma_find_from_bounds, rfind_before, split};

verus! {

/// One stretch of an annotated text.
pub struct Span {
    /// The position of its first character in the text.
    pub start: int,
    /// The characters of the span, brackets included.
    pub text: Seq<char>,
    /// Whether the span is a bracketed block.
    pub bracketed: bool,
}

/// What a segment holds.
pub enum SegmentView {
    /// Text without annotation.
    Kana(Seq<char>),
    /// Kanji literals with the readings assigned to them.
    Kanji { literals: Seq<char>, readings: Seq<Seq<char>> },
}

/// Why strict parsing refuses a text.
#[derive(Clone, Copy, Debug, PartialEq, Eq, Structural)]
pub enum ParseErrorKind {
    /// A `[` is never followed by a `]`.
    UnterminatedBlock,
    /// A block holds no `|`, and so no reading at all.
    MissingReading,
    /// A block has several readings, but not one for each literal.
    ReadingCountMismatch,
    /// A block has no literal.
    EmptyLiteral,
}

/// The next block at or after `k`, as the positions of its two brackets:
/// take the first `[`, then the first `]` behind it; the block opens at the
/// last `[` before that `]`.
pub open spec fn next_block(s: Seq<char>, k: int) -> Option<(int, int)> {
    let open = find_from(s, '[', k);
    let close = find_from(s, ']', open);
    if close >= s.len() {
        None
    } else {
        Some((rfind_before(s, '[', close), close))
    }
}

/// The spans of `s` from position `k` on.
pub open spec fn spans_from(s: Seq<char>, k: int) -> Seq<Span>
    decreases s.len() - k,
{
    if k < 0 || k >= s.len() {
        Seq::empty()
    } else {
        match next_block(s, k) {
            None => seq![Span { start: k, text: s.subrange(k, s.len() as int), bracketed: false }],
            Some((p, c)) => {
                proof {
                    lemma_next_block(s, k);
                }
                let block = Span { start: p, text: s.subrange(p, c + 1), bracketed: true };
                let rest = seq![block] + spans_from(s, c + 1);
                if p > k {
                    seq![Span { start: k, text: s.subrange(k, p), bracketed: false }] + rest
                } else {
                    rest
                }
            },
        }
    }
}

/// The spans of a whole text.
pub open spec fn spans(s: Seq<char>) -> Seq<Span> {
    spans_from(s, 0)
}

/// Whether `s` holds a bracket.
pub open spec fn has_bracket(s: Seq<char>) -> bool {
    exists|i: int| 0 <= i < s.len() && (s[i] == '[' || s[i] == ']')
}

/// The shape of a bracketed span: brackets at both ends and none between.
pub open spec fn is_block(t: Seq<char>) -> bool {
    &&& t.len() >= 2
    &&& t[0] == '['
    &&& t[t.len() - 1] == ']'
    &&& !has_bracket(t.subrange(1, t.len() - 1))
}

/// The fields of a bracketed span.
pub open spec fn fields(block: Seq<char>) -> Seq<Seq<char>> {
    split(block.subrange(1, block.len() - 1), '|')
}

/// The segment that lenient parsing makes of a span. A block without any `|`
/// gets one empty reading; otherwise the readings are kept as written, also
/// where their number does not fit the literals.
pub open spec fn parse_span(span: Span) -> SegmentView {
    if span.bracketed {
        let f = fields(span.text);
        SegmentView::Kanji {
            literals: f[0],
            readings: if f.len() == 1 {
                seq![Seq::<char>::empty()]
            } else {
                f.skip(1)
            },
        }
    } else {
        SegmentView::Kana(span.text)
    }
}

/// The segments that lenient parsing makes of spans: one for each.
pub open spec fn parse_spans(sp: Seq<Span>) -> Seq<SegmentView> {
    Seq::new(sp.len(), |i: int| parse_span(sp[i]))
}

/// The segments that lenient parsing makes of a text: one for each span.
pub open spec fn parse_lenient(s: Seq<char>) -> Seq<SegmentView> {
    parse_spans(spans(s))
}

/// What strict parsing objects to in the fields of a block, if anything:
/// that there is no reading, else that there is no literal, else that
/// several readings are not one for each literal.
pub open spec fn fields_error(f: Seq<Seq<char>>) -> Option<ParseErrorKind> {
    if f.len() <= 1 {
        Some(ParseErrorKind::MissingReading)
    } else if f[0].len() == 0 {
        Some(ParseErrorKind::EmptyLiteral)
    } else if f.len() > 2 && f.len() - 1 != f[0].len() {
        Some(ParseErrorKind::ReadingCountMismatch)
    } else {
        None
    }
}

/// What strict parsing objects to in a span, if anything. Plain text is
/// refused only where it holds a `[` that nothing closes, which can happen
/// in the last span alone.
pub open spec fn span_error(span: Span, last: bool) -> Option<ParseErrorKind> {
    if span.bracketed {
        fields_error(fields(span.text))
    } else if last && span.text.contains('[') {
        Some(ParseErrorKind::UnterminatedBlock)
    } else {
        None
    }
}

/// Where the refusal of a span points: at the `[` that opens the block, or
/// at the first `[` of the plain text.
pub open spec fn error_position(span: Span) -> int {
    if span.bracketed {
        span.start
    } else {
        span.start + find_from(span.text, '[', 0)
    }
}

/// The index of the first span that strict parsing refuses, or the number of
/// spans if it accepts them all.
pub open spec fn first_error(sp: Seq<Span>, from: int) -> int
    decreases sp.len() - from,
{
    if from < 0 || from >= sp.len() {
        sp.len() as int
    } else if span_error(sp[from], from == sp.len() - 1) is Some {
        from
    } else {
        first_error(sp, from + 1)
    }
}

/// The first refusal of strict parsing among the spans: its kind and the
/// character position it points at.
pub open spec fn spans_error(sp: Seq<Span>) -> Option<(ParseErrorKind, int)> {
    let e = first_error(sp, 0);
    if e == sp.len() {
        None
    } else {
        Some((span_error(sp[e], e == sp.len() - 1).unwrap(), error_position(sp[e])))
    }
}

/// The first refusal of strict parsing in a text.
pub open spec fn strict_error(s: Seq<char>) -> Option<(ParseErrorKind, int)> {
    spans_error(spans(s))
}

/// Whether strict parsing accepts the text.
pub open spec fn is_valid(s: Seq<char>) -> bool {
    strict_error(s) is None
}

/// Strict parsing: the segments of the text, or its first refusal.
pub open spec fn parse_strict(s: Seq<char>) -> Result<Seq<SegmentView>, (ParseErrorKind, int)> {
    match strict_error(s) {
        None => Ok(parse_lenient(s)),
        Some(e) => Err(e),
    }
}

/// The number of bytes that the first `position` characters of `s` take in
/// UTF-8.
pub open spec fn byte_offset(s: Seq<char>, position: int) -> nat {
    encode_utf8(s.take(position)).len()
}

/// `rfind_before` answers with `-1` or with an index before `before` at
/// which `c` stands, and no `c` stands behind it.
pub proof fn lemma_rfind_before(s: Seq<char>, c: char, before: int)
    requires
        0 <= before <= s.len(),
    ensures
        -1 <= rfind_before(s, c, before) < before,
        rfind_before(s, c, before) >= 0 ==> s[rfind_before(s, c, before)] == c,
        forall|j: int| rfind_before(s, c, before) < j < before ==> s[j] != c,
    decreases before,
{
    if before > 0 && s[before - 1] != c {
        lemma_rfind_before(s, c, before - 1);
    }
}

/// The block that `next_block` finds lies at or after `k`, has its brackets
/// at both ends and none between; before it, no `]` follows a `[`.
pub proof fn lemma_next_block(s: Seq<char>, k: int)
    requires
        0 <= k <= s.len(),
    ensures
        match next_block(s, k) {
            Some((p, c)) => {
                &&& k <= p < c < s.len()
                &&& s[p] == '['
                &&& s[c] == ']'
                &&& forall|j: int| p < j < c ==> s[j] != '[' && s[j] != ']'
                &&& forall|i: int, j: int| k <= i < j < p ==> !(s[i] == '[' && s[j] == ']')
            },
            None => forall|i: int, j: int| k <= i < j < s.len() ==> !(s[i] == '[' && s[j] == ']'),
        },
{
    let open = find_from(s, '[', k);
    lemma_find_from_bounds(s, '[', k);
    lemma_find_from_bounds(s, ']', open);
    let close = find_from(s, ']', open);
    if close < s.len() {
        lemma_rfind_before(s, '[', close);
    }
}

/// Whether there is exactly one reading for each literal.
pub open spec fn is_detailed(literals: Seq<char>, readings: Seq<Seq<char>>) -> bool {
    literals.len() == readings.len()
}

/// The readings as they stand between `|` and `]` in the notation: kept apart
/// by `|` where there is one for each literal, written as one otherwise.
pub open spec fn encode_readings(literals: Seq<char>, readings: Seq<Seq<char>>) -> Seq<char> {
    if is_detailed(literals, readings) {
        join(readings, seq!['|'])
    } else {
        concat(readings)
    }
}

/// A block of the notation: `[`, the literals, `|`, the reading text, `]`.
pub open spec fn block(literals: Seq<char>, reading: Seq<char>) -> Seq<char> {
    seq!['['] + literals + seq!['|'] + reading + seq![']']
}

impl SegmentView {
    /// Whether the segment has nothing in it: no text, or no literals.
    pub open spec fn is_empty(self) -> bool {
        match self {
            SegmentView::Kana(t) => t.len() == 0,
            SegmentView::Kanji { literals, .. } => literals.len() == 0,
        }
    }

    /// All readings of the segment written as one text.
    pub open spec fn full_reading(self) -> Seq<char> {
        match self {
            SegmentView::Kana(t) => t,
            SegmentView::Kanji { readings, .. } => concat(readings),
        }
    }

    /// The text as it is written: the literals of a kanji segment, the text
    /// of a kana segment.
    pub open spec fn main_reading(self) -> Seq<char> {
        match self {
            SegmentView::Kana(t) => t,
            SegmentView::Kanji { literals, .. } => literals,
        }
    }

    /// The text as it is read. A kanji segment whose readings are all empty
    /// has no known reading; with `fallback` its literals stand in.
    pub open spec fn kana(self, fallback: bool) -> Seq<char> {
        match self {
            SegmentView::Kana(t) => t,
            SegmentView::Kanji { literals, readings } => {
                if fallback && concat(readings).len() == 0 {
                    literals
                } else {
                    concat(readings)
                }
            },
        }
    }

    /// The segment in the notation.
    pub open spec fn encode(self) -> Seq<char> {
        match self {
            SegmentView::Kana(t) => t,
            SegmentView::Kanji { literals, readings } => block(
                literals,
                encode_readings(literals, readings),
            ),
        }
    }

    /// The segment as a reading.
    pub open spec fn reading(self) -> ReadingView {
        match self {
            SegmentView::Kana(t) => ReadingView { kana: t, kanji: None },
            SegmentView::Kanji { literals, readings } => ReadingView {
                kana: concat(readings),
                kanji: Some(literals),
            },
        }
    }

    /// The segment taken apart: a kanji segment with one reading for each
    /// literal gives one segment for each literal; any other kanji segment
    /// gives one segment with all its readings written as one.
    pub open spec fn flatten(self) -> Seq<SegmentView> {
        match self {
            SegmentView::Kana(_) => seq![self],
            SegmentView::Kanji { literals, readings } => {
                if is_detailed(literals, readings) {
                    Seq::new(
                        literals.len(),
                        |i: int|
                            SegmentView::Kanji {
                                literals: seq![literals[i]],
                                readings: seq![readings[i]],
                            },
                    )
                } else {
                    seq![
                        SegmentView::Kanji {
                            literals,
                            readings: seq![concat(readings)],
                        },
                    ]
                }
            },
        }
    }
}

/// The texts that `f` makes of the items, written one after the other.
pub open spec fn concat_map<A>(items: Seq<A>, f: spec_fn(A) -> Seq<char>) -> Seq<char>
    decreases items.len(),
{
    if items.len() == 0 {
        Seq::empty()
    } else {
        f(items[0]) + concat_map(items.skip(1), f)
    }
}

/// A sequence of segments in the notation.
pub open spec fn encode(segs: Seq<SegmentView>) -> Seq<char> {
    concat_map(segs, |s: SegmentView| s.encode())
}

/// A sequence of segments as it is read.
pub open spec fn kana_reading(segs: Seq<SegmentView>, fallback: bool) -> Seq<char> {
    concat_map(segs, |s: SegmentView| s.kana(fallback))
}

/// A sequence of segments as it is written.
pub open spec fn kanji_reading(segs: Seq<SegmentView>) -> Seq<char> {
    concat_map(segs, |s: SegmentView| s.main_reading())
}

/// Whether one of the segments is a kanji segment.
pub open spec fn has_kanji(segs: Seq<SegmentView>) -> bool {
    exists|i: int| 0 <= i < segs.len() && #[trigger] segs[i] is Kanji
}

/// The reading of a sequence of segments. The kanji text is there only where
/// the sequence has a kanji segment.
pub open spec fn sequence_reading(segs: Seq<SegmentView>) -> ReadingView {
    ReadingView {
        kana: kana_reading(segs, true),
        kanji: if has_kanji(segs) {
            Some(kanji_reading(segs))
        } else {
            None
        },
    }
}

/// All segments taken apart, in order.
pub open spec fn flatten(segs: Seq<SegmentView>) -> Seq<SegmentView>
    decreases segs.len(),
{
    if segs.len() == 0 {
        Seq::empty()
    } else {
        segs[0].flatten() + flatten(segs.skip(1))
    }
}

/// Whether two sequences of segments are taken for equal. With `lit_match`
/// each literal must carry the same reading on both sides; without it the
/// two need only be read and written alike as a whole.
pub open spec fn compare(a: Seq<SegmentView>, b: Seq<SegmentView>, lit_match: bool) -> bool {
    if lit_match {
        flatten(a) == flatten(b)
    } else {
        kana_reading(a, true) == kana_reading(b, true) && kanji_reading(a) == kanji_reading(b)
    }
}

/// What a span adds to the kana projection: plain text as it is; of a block
/// the reading fields, or with `fallback` the literals where those are empty.
pub open spec fn span_kana(span: Span, fallback: bool) -> Seq<char> {
    if span.bracketed {
        let f = fields(span.text);
        let r = concat(f.skip(1));
        if fallback && r.len() == 0 {
            f[0]
        } else {
            r
        }
    } else {
        span.text
    }
}

/// What a span adds to the kanji projection: plain text as it is; of a block
/// the first field.
pub open spec fn span_kanji(span: Span) -> Seq<char> {
    if span.bracketed {
        fields(span.text)[0]
    } else {
        span.text
    }
}

/// The text as it is read, taken straight from the notation.
pub open spec fn kana_projection_with(s: Seq<char>, fallback: bool) -> Seq<char> {
    concat_map(spans(s), |sp: Span| span_kana(sp, fallback))
}

/// The text as it is read, with literals standing in for empty readings.
pub open spec fn kana_projection(s: Seq<char>) -> Seq<char> {
    kana_projection_with(s, true)
}

/// The text as it is written, taken straight from the notation.
pub open spec fn kanji_projection(s: Seq<char>) -> Seq<char> {
    concat_map(spans(s), |sp: Span| span_kanji(sp))
}

/// Whether the text has a bracketed span.
pub open spec fn has_block(s: Seq<char>) -> bool {
    exists|i: int| 0 <= i < spans(s).len() && spans(s)[i].bracketed
}

/// Both projections at once. The kanji text is there only where the text has
/// a block.
pub open spec fn reading_projection(s: Seq<char>) -> ReadingView {
    ReadingView {
        kana: kana_projection(s),
        kanji: if has_block(s) {
            Some(kanji_projection(s))
        } else {
            None
        },
    }
}

/// `concat_map` over two sequences written one after the other.
pub proof fn lemma_concat_map_add<A>(a: Seq<A>, b: Seq<A>, f: spec_fn(A) -> Seq<char>)
    ensures
        concat_map(a + b, f) == concat_map(a, f) + concat_map(b, f),
    decreases a.len(),
{
    if a.len() == 0 {
        assert(a + b =~= b);
        assert(concat_map(a, f) + concat_map(b, f) =~= concat_map(b, f));
    } else {
        lemma_concat_map_add(a.skip(1), b, f);
        assert((a + b).skip(1) =~= a.skip(1) + b);
        assert(concat_map(a + b, f) =~= concat_map(a, f) + concat_map(b, f));
    }
}

/// `concat_map` over a single item.
pub proof fn lemma_concat_map_one<A>(x: A, f: spec_fn(A) -> Seq<char>)
    ensures
        concat_map(seq![x], f) == f(x),
{
    assert(seq![x].skip(1) =~= Seq::<A>::empty());
    assert(concat_map(seq![x].skip(1), f) =~= Seq::<char>::empty());
    assert(concat_map(seq![x], f) =~= f(x));
}

/// `concat_map` over the first `i + 1` items is that over the first `i`,
/// followed by the text of item `i`.
pub proof fn lemma_concat_map_next<A>(items: Seq<A>, i: int, f: spec_fn(A) -> Seq<char>)
    requires
        0 <= i < items.len(),
    ensures
        concat_map(items.take(i + 1), f) == concat_map(items.take(i), f) + f(items[i]),
{
    assert(items.take(i + 1) =~= items.take(i) + seq![items[i]]);
    lemma_concat_map_add(items.take(i), seq![items[i]], f);
    lemma_concat_map_one(items[i], f);
}

/// From any position before the end there is at least one span.
pub proof fn lemma_spans_nonempty(s: Seq<char>, k: int)
    requires
        0 <= k < s.len(),
    ensures
        spans_from(s, k).len() > 0,
{
    lemma_next_block(s, k);
}

/// A text holds `c` exactly if `find_from` finds it.
pub proof fn lemma_find_contains(t: Seq<char>, c: char)
    ensures
        t.contains(c) <==> find_from(t, c, 0) < t.len(),
{
    lemma_find_from_bounds(t, c, 0);
    let i = find_from(t, c, 0);
    if i < t.len() {
        assert(t[i] == c);
    }
}

/// Taking apart two sequences written one after the other.
pub proof fn lemma_flatten_add(a: Seq<SegmentView>, b: Seq<SegmentView>)
    ensures
        flatten(a + b) == flatten(a) + flatten(b),
    decreases a.len(),
{
    if a.len() == 0 {
        assert(a + b =~= b);
        assert(flatten(a) + flatten(b) =~= flatten(b));
    } else {
        lemma_flatten_add(a.skip(1), b);
        assert((a + b).skip(1) =~= a.skip(1) + b);
        assert(flatten(a + b) =~= flatten(a) + flatten(b));
    }
}

/// Taking apart the first `i + 1` segments gives what the first `i` give,
/// followed by what segment `i` gives.
pub proof fn lemma_flatten_next(segs: Seq<SegmentView>, i: int)
    requires
        0 <= i < segs.len(),
    ensures
        flatten(segs.take(i + 1)) == flatten(segs.take(i)) + segs[i].flatten(),
{
    let one = seq![segs[i]];
    assert(segs.take(i + 1) =~= segs.take(i) + one);
    lemma_flatten_add(segs.take(i), one);
    assert(one.skip(1) =~= Seq::<SegmentView>::empty());
    assert(flatten(one.skip(1)) =~= Seq::<SegmentView>::empty());
    assert(flatten(one) =~= segs[i].flatten());
}

/// The first `i + 1` segments have a kanji segment exactly if the first `i`
/// have one or segment `i` is one.
pub proof fn lemma_has_kanji_next(segs: Seq<SegmentView>, i: int)
    requires
        0 <= i < segs.len(),
    ensures
        has_kanji(segs.take(i + 1)) == (has_kanji(segs.take(i)) || segs[i] is Kanji),
{
    let a = segs.take(i);
    let b = segs.take(i + 1);
    if has_kanji(b) {
        let j = choose|j: int| 0 <= j < b.len() && #[trigger] b[j] is Kanji;
        if j < i {
            assert(a[j] is Kanji);
        }
    }
    if has_kanji(a) {
        let j = choose|j: int| 0 <= j < a.len() && #[trigger] a[j] is Kanji;
        assert(b[j] is Kanji);
    }
    if segs[i] is Kanji {
        assert(b[i] is Kanji);
    }
}

/// From position `k` on there are at most as many spans as characters.
pub proof fn lemma_spans_len(s: Seq<char>, k: int)
    requires
        0 <= k <= s.len(),
    ensures
        spans_from(s, k).len() <= s.len() - k,
    decreases s.len() - k,
{
    if k < s.len() {
        lemma_next_block(s, k);
        match next_block(s, k) {
            None => {},
            Some((p, c)) => {
                lemma_spans_len(s, c + 1);
            },
        }
    }
}

/// A text has at most as many spans as characters.
pub proof fn lemma_span_count(s: Seq<char>)
    ensures
        spans(s).len() <= s.len(),
{
    lemma_spans_len(s, 0);
}

/// A run of kanji segments that are being merged into one block.
pub struct Run {
    /// The literals of all members.
    pub literals: Seq<char>,
    /// The readings of all members.
    pub readings: Seq<Seq<char>>,
    /// Whether a member has no reading for each of its literals.
    pub undetailed: bool,
}

/// Whether the segment is a kanji segment without a known reading: a single
/// reading, and that one empty.
pub open spec fn is_unread(seg: SegmentView) -> bool {
    match seg {
        SegmentView::Kana(_) => false,
        SegmentView::Kanji { readings, .. } => readings.len() == 1 && readings[0].len() == 0,
    }
}

/// Whether the segment joins a run: a kanji segment with a known reading
/// that has one reading for each literal, or in lossy mode any number.
pub open spec fn mergeable(seg: SegmentView, lossy: bool) -> bool {
    match seg {
        SegmentView::Kana(_) => false,
        SegmentView::Kanji { literals, readings } => !is_unread(seg) && (is_detailed(
            literals,
            readings,
        ) || lossy),
    }
}

/// The run with one more member.
pub open spec fn extend_run(run: Option<Run>, seg: SegmentView) -> Run
    recommends
        seg is Kanji,
{
    let literals = seg->literals;
    let readings = seg->readings;
    match run {
        None => Run { literals, readings, undetailed: !is_detailed(literals, readings) },
        Some(r) => Run {
            literals: r.literals + literals,
            readings: r.readings + readings,
            undetailed: r.undetailed || !is_detailed(literals, readings),
        },
    }
}

/// The block that a run is written as: all literals, then the readings,
/// kept apart by `|` unless a member was undetailed.
pub open spec fn close_run(run: Option<Run>) -> Seq<char> {
    match run {
        None => Seq::empty(),
        Some(r) => block(
            r.literals,
            if r.undetailed {
                concat(r.readings)
            } else {
                join(r.readings, seq!['|'])
            },
        ),
    }
}

/// What merging writes for a span that joins no run: plain text and
/// undetailed blocks as they are, a block without a known reading as its
/// literals with one empty reading.
pub open spec fn emit_unmerged(span: Span) -> Seq<char> {
    let seg = parse_span(span);
    if is_unread(seg) {
        block(seg->literals, Seq::empty())
    } else {
        span.text
    }
}

/// Merging over spans, with the run that is open before the first of them:
/// each longest stretch of spans that join a run is written as one block,
/// every other span by itself.
pub open spec fn merge_spans(sp: Seq<Span>, lossy: bool, run: Option<Run>) -> Seq<char>
    decreases sp.len(),
{
    if sp.len() == 0 {
        close_run(run)
    } else {
        let seg = parse_span(sp[0]);
        if mergeable(seg, lossy) {
            merge_spans(sp.skip(1), lossy, Some(extend_run(run, seg)))
        } else {
            close_run(run) + emit_unmerged(sp[0]) + merge_spans(sp.skip(1), lossy, None)
        }
    }
}

/// The text with neighbouring kanji blocks merged: blocks that stand side by
/// side and have one reading for each literal become one block. In lossy
/// mode other blocks are merged too, and the readings of such a run are
/// written as one.
pub open spec fn normalize(s: Seq<char>, lossy: bool) -> Seq<char> {
    merge_spans(spans(s), lossy, None)
}

/// What a span becomes when blocks without a known reading are turned into
/// plain text.
pub open spec fn without_empty(span: Span) -> Seq<char> {
    let seg = parse_span(span);
    if is_unread(seg) {
        seg->literals
    } else {
        seg.encode()
    }
}

/// The text with every block that has no known reading turned into plain
/// text.
pub open spec fn remove_empty_kanji(s: Seq<char>) -> Seq<char> {
    concat_map(spans(s), |sp: Span| without_empty(sp))
}

/// The text with every block written afresh: where the readings fit neither
/// the literals nor are a single one, they are written as one.
pub open spec fn fix_malformed_blocks(s: Seq<char>) -> Seq<char> {
    concat_map(spans(s), |sp: Span| parse_span(sp).encode())
}

/// Merging, then removing empty blocks, then fixing malformed ones.
pub open spec fn normalize_all(s: Seq<char>, lossy: bool) -> Seq<char> {
    fix_malformed_blocks(remove_empty_kanji(normalize(s, lossy)))
}

/// Comparing two sequences of one segment each comes down to the two
/// segments.
pub proof fn lemma_compare_one(a: SegmentView, b: SegmentView, lit_match: bool)
    ensures
        compare(seq![a], seq![b], lit_match) == (if lit_match {
            a.flatten() == b.flatten()
        } else {
            a.kana(true) == b.kana(true) && a.main_reading() == b.main_reading()
        }),
{
    let e = Seq::<SegmentView>::empty();
    assert(seq![a].skip(1) =~= e);
    assert(seq![b].skip(1) =~= e);
    assert(flatten(e) =~= e);
    assert(flatten(seq![a]) =~= a.flatten());
    assert(flatten(seq![b]) =~= b.flatten());
    lemma_concat_map_one(a, |s: SegmentView| s.kana(true));
    lemma_concat_map_one(b, |s: SegmentView| s.kana(true));
    lemma_concat_map_one(a, |s: SegmentView| s.main_reading());
    lemma_concat_map_one(b, |s: SegmentView| s.main_reading());
}

} // verus!
