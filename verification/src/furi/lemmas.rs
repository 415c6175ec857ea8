//! Facts about spans and about folding texts over them.
use vstd::prelude::*;
use crate::furi::model::{
    SegmentView, Span, block, concat_map, encode_readings, fields, fields_error, first_error,
    has_bracket, is_block, is_detailed, lemma_concat_map_add, lemma_concat_map_one,
    lemma_next_block, next_block, parse_span, span_error, span_kana, span_kanji, spans,
    spans_from,
};
use crate::text::{
    concat, find_from, join, lemma_find_from_bounds, lemma_join_first, lemma_join_split,
    rfind_before,
};

verus! {

/// Two folds agree where their functions agree item by item.
pub proof fn lemma_concat_map_pairs<A, B>(
    a: Seq<A>,
    b: Seq<B>,
    f: spec_fn(A) -> Seq<char>,
    g: spec_fn(B) -> Seq<char>,
)
    requires
        a.len() == b.len(),
        forall|i: int| 0 <= i < a.len() ==> f(#[trigger] a[i]) == g(b[i]),
    ensures
        concat_map(a, f) == concat_map(b, g),
    decreases a.len(),
{
    if a.len() > 0 {
        assert(f(a[0]) == g(b[0]));
        assert forall|i: int| 0 <= i < a.skip(1).len() implies f(#[trigger] a.skip(1)[i]) == g(
            b.skip(1)[i],
        ) by {
            assert(a.skip(1)[i] == a[i + 1]);
        }
        lemma_concat_map_pairs(a.skip(1), b.skip(1), f, g);
    }
}

/// What holds of every span of a text `s`: it is a stretch of `s` that is
/// not empty; a block has its brackets at both ends and none between.
pub open spec fn span_in(s: Seq<char>, x: Span) -> bool {
    &&& 0 <= x.start
    &&& x.text.len() > 0
    &&& x.start + x.text.len() <= s.len()
    &&& x.text == s.subrange(x.start, x.start + x.text.len())
    &&& x.bracketed ==> is_block(x.text)
}

/// Every span from `k` on is a stretch of the text, and a block is shaped
/// as one.
pub proof fn lemma_spans_shape(s: Seq<char>, k: int)
    requires
        0 <= k <= s.len(),
    ensures
        forall|i: int| 0 <= i < spans_from(s, k).len() ==> span_in(s, #[trigger] spans_from(s, k)[i]),
    decreases s.len() - k,
{
    if k < s.len() {
        lemma_next_block(s, k);
        match next_block(s, k) {
            None => {},
            Some((p, c)) => {
                lemma_spans_shape(s, c + 1);
                let b = s.subrange(p, c + 1);
                let inner = b.subrange(1, b.len() - 1);
                if has_bracket(inner) {
                    let j = choose|j: int|
                        0 <= j < inner.len() && (inner[j] == '[' || inner[j] == ']');
                    assert(s[p + 1 + j] == inner[j]);
                }
                let rest = spans_from(s, c + 1);
                let blk = Span { start: p, text: b, bracketed: true };
                let all = spans_from(s, k);
                assert forall|i: int| 0 <= i < all.len() implies span_in(s, #[trigger] all[i]) by {
                    if p > k {
                        if i >= 2 {
                            assert(all[i] == rest[i - 2]);
                        }
                    } else {
                        if i >= 1 {
                            assert(all[i] == rest[i - 1]);
                        }
                    }
                }
            },
        }
    }
}

/// Whether the spans lie one behind the other from `k` up to `end`, and no
/// two plain spans are neighbours.
pub open spec fn in_order(sp: Seq<Span>, k: int, end: int) -> bool {
    &&& sp.len() == 0 ==> k == end
    &&& sp.len() > 0 ==> sp[0].start == k && sp[sp.len() - 1].start + sp[sp.len() - 1].text.len()
        == end
    &&& forall|i: int|
        0 <= i < sp.len() - 1 ==> (#[trigger] sp[i]).start + sp[i].text.len() == sp[i + 1].start
    &&& forall|i: int| 0 <= i < sp.len() - 1 && !(#[trigger] sp[i]).bracketed ==> sp[i + 1].bracketed
}

/// The spans from `k` on lie one behind the other up to the end of the
/// text, and no two plain spans are neighbours.
pub proof fn lemma_spans_order(s: Seq<char>, k: int)
    requires
        0 <= k <= s.len(),
    ensures
        in_order(spans_from(s, k), k, s.len() as int),
    decreases s.len() - k,
{
    if k < s.len() {
        lemma_next_block(s, k);
        match next_block(s, k) {
            None => {},
            Some((p, c)) => {
                lemma_spans_order(s, c + 1);
                let rest = spans_from(s, c + 1);
                let all = spans_from(s, k);
                let n = if p > k {
                    2int
                } else {
                    1int
                };
                assert forall|i: int| n <= i < all.len() implies all[i] == rest[i - n] by {}
                assert forall|i: int| 0 <= i < all.len() - 1 implies (#[trigger] all[i]).start
                    + all[i].text.len() == all[i + 1].start by {
                    if i >= n {
                        assert(all[i] == rest[i - n]);
                        assert(all[i + 1] == rest[i + 1 - n]);
                    } else if i + 1 >= n {
                        assert(all[i + 1] == rest[i + 1 - n]);
                    }
                }
                assert forall|i: int|
                    0 <= i < all.len() - 1 && !(#[trigger] all[i]).bracketed implies all[i
                    + 1].bracketed by {
                    if i >= n {
                        assert(all[i] == rest[i - n]);
                        assert(all[i + 1] == rest[i + 1 - n]);
                    }
                }
                if rest.len() > 0 {
                    assert(all[all.len() - 1] == rest[rest.len() - 1]);
                }
            },
        }
    }
}

/// The spans from `k` on, written one after the other, are the text from
/// `k` on.
pub proof fn lemma_spans_partition(s: Seq<char>, k: int)
    requires
        0 <= k <= s.len(),
    ensures
        concat_map(spans_from(s, k), |x: Span| x.text) == s.subrange(k, s.len() as int),
    decreases s.len() - k,
{
    let f = |x: Span| x.text;
    let n = s.len() as int;
    if k < s.len() {
        lemma_next_block(s, k);
        match next_block(s, k) {
            None => {
                let one = seq![Span { start: k, text: s.subrange(k, n), bracketed: false }];
                crate::furi::model::lemma_concat_map_one(one[0], f);
            },
            Some((p, c)) => {
                lemma_spans_partition(s, c + 1);
                let rest = spans_from(s, c + 1);
                let blk = Span { start: p, text: s.subrange(p, c + 1), bracketed: true };
                let tail = seq![blk] + rest;
                assert(tail.skip(1) =~= rest);
                assert(concat_map(tail, f) =~= s.subrange(p, n));
                if p > k {
                    let all = spans_from(s, k);
                    assert(all.skip(1) =~= tail);
                    assert(concat_map(all, f) =~= s.subrange(k, n));
                }
            },
        }
    } else {
        assert(s.subrange(k, n) =~= Seq::<char>::empty());
    }
}

/// Where strict parsing finds no refusal from `from` on, no span from there
/// on has one.
pub proof fn lemma_first_error_none(sp: Seq<Span>, from: int)
    requires
        0 <= from,
        first_error(sp, from) == sp.len(),
    ensures
        forall|i: int| from <= i < sp.len() ==> span_error(#[trigger] sp[i], i == sp.len() - 1) is None,
    decreases sp.len() - from,
{
    if from < sp.len() {
        lemma_first_error_none(sp, from + 1);
    }
}

/// A block that strict parsing accepts is written back as it was.
pub proof fn lemma_block_roundtrip(x: Span)
    requires
        x.bracketed,
        is_block(x.text),
        fields_error(fields(x.text)) is None,
    ensures
        parse_span(x).encode() == x.text,
{
    let t = x.text;
    let inner = t.subrange(1, t.len() - 1);
    let f = fields(t);
    let sep = seq!['|'];
    lemma_join_split(inner, '|');
    lemma_join_first(f, sep);
    let rs = f.skip(1);
    if f.len() == 2 {
        assert(rs.drop_last() =~= Seq::<Seq<char>>::empty());
        assert(concat(rs.drop_last()) =~= Seq::<char>::empty());
        assert(concat(rs) =~= rs[0]);
        assert(join(rs, sep) == rs[0]);
        assert(encode_readings(f[0], rs) == rs[0]);
    } else {
        assert(is_detailed(f[0], rs));
    }
    assert(t =~= seq!['['] + inner + seq![']']);
    assert(parse_span(x).encode() =~= t);
}

/// `find_from` finds the index `j` if `c` stands there and nowhere from
/// `from` up to it.
pub proof fn lemma_find_from_is(s: Seq<char>, c: char, from: int, j: int)
    requires
        0 <= from <= j <= s.len(),
        j < s.len() ==> s[j] == c,
        forall|i: int| from <= i < j ==> s[i] != c,
    ensures
        find_from(s, c, from) == j,
    decreases j - from,
{
    if from < j {
        lemma_find_from_is(s, c, from + 1, j);
    }
}

/// `rfind_before` finds the index `j` if `c` stands there and nowhere
/// between it and `before`.
pub proof fn lemma_rfind_before_is(s: Seq<char>, c: char, before: int, j: int)
    requires
        0 <= j < before <= s.len(),
        s[j] == c,
        forall|i: int| j < i < before ==> s[i] != c,
    ensures
        rfind_before(s, c, before) == j,
    decreases before - j,
{
    if j + 1 < before {
        lemma_rfind_before_is(s, c, before - 1, j);
    }
}

/// The next block behind a prefix lies where it lies without the prefix,
/// moved by the length of the prefix.
pub proof fn lemma_next_block_shift(p: Seq<char>, r: Seq<char>, k: int)
    requires
        0 <= k <= r.len(),
    ensures
        next_block(p + r, p.len() + k) == (match next_block(r, k) {
            Some((a, b)) => Some((p.len() + a, p.len() + b)),
            None => None,
        }),
{
    let s = p + r;
    let n = p.len() as int;
    let open = find_from(r, '[', k);
    lemma_find_from_bounds(r, '[', k);
    assert forall|i: int| 0 <= i < r.len() implies s[n + i] == r[i] by {}
    lemma_find_from_is(s, '[', n + k, n + open);
    let close = find_from(r, ']', open);
    lemma_find_from_bounds(r, ']', open);
    lemma_find_from_is(s, ']', n + open, n + close);
    if close < r.len() {
        lemma_next_block(r, k);
        let start = rfind_before(r, '[', close);
        lemma_rfind_before_is(s, '[', n + close, n + start);
    }
}

/// Two runs of spans that hold the same texts of the same kinds, wherever
/// they lie.
pub open spec fn alike(a: Seq<Span>, b: Seq<Span>) -> bool {
    &&& a.len() == b.len()
    &&& forall|i: int|
        0 <= i < a.len() ==> (#[trigger] a[i]).text == b[i].text && a[i].bracketed
            == b[i].bracketed
}

/// The spans behind a prefix are the spans without the prefix.
pub proof fn lemma_spans_shift(p: Seq<char>, r: Seq<char>, k: int)
    requires
        0 <= k <= r.len(),
    ensures
        alike(spans_from(p + r, p.len() + k), spans_from(r, k)),
    decreases r.len() - k,
{
    let s = p + r;
    let n = p.len() as int;
    if k < r.len() {
        lemma_next_block_shift(p, r, k);
        lemma_next_block(r, k);
        match next_block(r, k) {
            None => {
                assert(s.subrange(n + k, s.len() as int) =~= r.subrange(k, r.len() as int));
            },
            Some((a, b)) => {
                lemma_spans_shift(p, r, b + 1);
                assert(s.subrange(n + a, n + b + 1) =~= r.subrange(a, b + 1));
                assert(s.subrange(n + k, n + a) =~= r.subrange(k, a));
                let x = spans_from(s, n + k);
                let y = spans_from(r, k);
                let xr = spans_from(s, n + b + 1);
                let yr = spans_from(r, b + 1);
                assert forall|i: int| 0 <= i < x.len() implies (#[trigger] x[i]).text == y[i].text
                    && x[i].bracketed == y[i].bracketed by {
                    if a > k {
                        if i >= 2 {
                            assert(x[i] == xr[i - 2]);
                            assert(y[i] == yr[i - 2]);
                        }
                    } else {
                        if i >= 1 {
                            assert(x[i] == xr[i - 1]);
                            assert(y[i] == yr[i - 1]);
                        }
                    }
                }
            },
        }
    }
}

/// Whether no `[` of the text has a `]` anywhere behind it.
pub open spec fn unclosed(t: Seq<char>) -> bool {
    forall|i: int, j: int| 0 <= i < j < t.len() ==> !(t[i] == '[' && t[j] == ']')
}

/// Whether the function looks only at the text and the kind of a span, not
/// at where it lies.
pub open spec fn blind(f: spec_fn(Span) -> Seq<char>) -> bool {
    forall|x: Span, y: Span|
        x.text == y.text && x.bracketed == y.bracketed ==> #[trigger] f(x) == #[trigger] f(y)
}

/// Whether the predicate looks only at the text and the kind of a span, not
/// at where it lies.
pub open spec fn blind_pred(q: spec_fn(Span) -> bool) -> bool {
    forall|x: Span, y: Span|
        x.text == y.text && x.bracketed == y.bracketed ==> #[trigger] q(x) == #[trigger] q(y)
}

/// Whether the function hands plain spans back as their text.
pub open spec fn plain_through(f: spec_fn(Span) -> Seq<char>) -> bool {
    forall|x: Span| !x.bracketed ==> #[trigger] f(x) == x.text
}

/// A span of the given text and kind, wherever it may lie.
pub open spec fn piece(text: Seq<char>, bracketed: bool) -> Span {
    Span { start: 0, text, bracketed }
}

/// The plain text that the spans start with, if they start with any.
pub open spec fn head_text(sp: Seq<Span>) -> Seq<char> {
    if sp.len() > 0 && !sp[0].bracketed {
        sp[0].text
    } else {
        Seq::empty()
    }
}

/// Folds over runs of spans that are alike agree.
pub proof fn lemma_alike(a: Seq<Span>, b: Seq<Span>, f: spec_fn(Span) -> Seq<char>)
    requires
        alike(a, b),
        blind(f),
    ensures
        concat_map(a, f) == concat_map(b, f),
{
    assert forall|i: int| 0 <= i < a.len() implies f(#[trigger] a[i]) == f(b[i]) by {
        assert(a[i].text == b[i].text);
    }
    lemma_concat_map_pairs(a, b, f, f);
}

/// Runs of spans that are alike stay alike without their first spans.
pub proof fn lemma_alike_skip(a: Seq<Span>, b: Seq<Span>, n: int)
    requires
        alike(a, b),
        0 <= n <= a.len(),
    ensures
        alike(a.skip(n), b.skip(n)),
{
    assert forall|i: int| 0 <= i < a.skip(n).len() implies (#[trigger] a.skip(n)[i]).text == b.skip(
        n,
    )[i].text && a.skip(n)[i].bracketed == b.skip(n)[i].bracketed by {
        assert(a[i + n].text == b[i + n].text);
    }
}

/// The plain span `s[k..p]` before a block, if it is not empty.
pub open spec fn plain_before(s: Seq<char>, k: int, p: int) -> Seq<Span> {
    if p > k {
        seq![Span { start: k, text: s.subrange(k, p), bracketed: false }]
    } else {
        Seq::empty()
    }
}

/// The spans from `k` on, taken one step apart.
pub proof fn lemma_spans_step(s: Seq<char>, k: int)
    requires
        0 <= k < s.len(),
    ensures
        spans_from(s, k) == (match next_block(s, k) {
            None => seq![Span { start: k, text: s.subrange(k, s.len() as int), bracketed: false }],
            Some((p, c)) => plain_before(s, k, p) + seq![
                Span { start: p, text: s.subrange(p, c + 1), bracketed: true },
            ] + spans_from(s, c + 1),
        }),
{
    lemma_next_block(s, k);
    match next_block(s, k) {
        None => {},
        Some((p, c)) => {
            let blk = Span { start: p, text: s.subrange(p, c + 1), bracketed: true };
            assert(spans_from(s, k) =~= plain_before(s, k, p) + seq![blk] + spans_from(s, c + 1));
        },
    }
}

/// The block that lies at `p..=c` is the next block from `k` on, if it has
/// its brackets at both ends and none between, and before it nothing closes
/// a `[`.
pub proof fn lemma_next_block_is(s: Seq<char>, k: int, p: int, c: int)
    requires
        0 <= k <= p < c < s.len(),
        s[p] == '[',
        s[c] == ']',
        forall|j: int| p < j < c ==> s[j] != '[' && s[j] != ']',
        forall|i: int, j: int| k <= i < j < p ==> !(s[i] == '[' && s[j] == ']'),
    ensures
        next_block(s, k) == Some((p, c)),
{
    lemma_find_from_bounds(s, '[', k);
    let open = find_from(s, '[', k);
    assert(open <= p);
    assert forall|j: int| open <= j < c implies s[j] != ']' by {
        if j < p {
            if j > open {
                assert(!(s[open] == '[' && s[j] == ']'));
            }
        }
    }
    lemma_find_from_is(s, ']', open, c);
    lemma_rfind_before_is(s, '[', c, p);
}

/// In a text in which nothing closes a `[` there is no block.
pub proof fn lemma_no_block(s: Seq<char>, k: int)
    requires
        0 <= k <= s.len(),
        unclosed(s),
    ensures
        next_block(s, k) is None,
{
    lemma_next_block(s, k);
}

/// A text that starts with a block has that block as its first span, and
/// behind it the spans of the rest.
pub proof fn lemma_block_first(b: Seq<char>, r: Seq<char>)
    requires
        is_block(b),
    ensures
        alike(spans(b + r), seq![piece(b, true)] + spans(r)),
{
    let s = b + r;
    let n = b.len() as int;
    let inner = b.subrange(1, n - 1);
    assert forall|j: int| 0 < j < n - 1 implies s[j] != '[' && s[j] != ']' by {
        assert(inner[j - 1] == s[j]);
    }
    lemma_next_block_is(s, 0, 0, n - 1);
    lemma_spans_step(s, 0);
    assert(s.subrange(0, n) =~= b);
    lemma_spans_shift(b, r, 0);
    let x = spans(s);
    let y = seq![piece(b, true)] + spans(r);
    let xr = spans_from(s, n);
    assert(x =~= seq![Span { start: 0, text: b, bracketed: true }] + xr);
    assert forall|i: int| 0 <= i < x.len() implies (#[trigger] x[i]).text == y[i].text
        && x[i].bracketed == y[i].bracketed by {
        if i > 0 {
            assert(x[i] == xr[i - 1]);
            assert(y[i] == spans(r)[i - 1]);
        }
    }
}

/// Plain text in front of a text joins the plain text that the text starts
/// with, if nothing closes a `[` in the two together; the other spans stay
/// as they are.
pub proof fn lemma_plain_first(p: Seq<char>, r: Seq<char>)
    requires
        p.len() > 0,
        unclosed(p + head_text(spans(r))),
    ensures
        alike(
            spans(p + r),
            seq![piece(p + head_text(spans(r)), false)] + (if head_text(spans(r)).len() > 0 {
                spans(r).skip(1)
            } else {
                spans(r)
            }),
        ),
{
    let s = p + r;
    let n = p.len() as int;
    let h = head_text(spans(r));
    let x = spans(s);
    lemma_spans_step(s, 0);
    if r.len() == 0 {
        assert(s =~= p);
        assert(p + h =~= p);
        lemma_no_block(s, 0);
        assert(s.subrange(0, s.len() as int) =~= p);
    } else {
        lemma_spans_step(r, 0);
        lemma_next_block(r, 0);
        match next_block(r, 0) {
            None => {
                assert(r.subrange(0, r.len() as int) =~= r);
                assert(h == r);
                lemma_no_block(s, 0);
                assert(s.subrange(0, s.len() as int) =~= p + r);
                assert(spans(r).skip(1) =~= Seq::<Span>::empty());
            },
            Some((a, b)) => {
                let front = r.subrange(0, a);
                assert(h =~= front);
                assert(s.subrange(0, n + a) =~= p + front);
                assert forall|i: int, j: int| 0 <= i < j < n + a implies !(s[i] == '[' && s[j]
                    == ']') by {
                    assert((p + front)[i] == s[i]);
                    assert((p + front)[j] == s[j]);
                }
                assert forall|j: int| n + a < j < n + b implies s[j] != '[' && s[j] != ']' by {
                    assert(s[j] == r[j - n]);
                }
                lemma_next_block_is(s, 0, n + a, n + b);
                lemma_spans_shift(p, r, b + 1);
                assert(s.subrange(n + a, n + b + 1) =~= r.subrange(a, b + 1));
                let xr = spans_from(s, n + b + 1);
                let yr = spans_from(r, b + 1);
                let blk_r = Span { start: a, text: r.subrange(a, b + 1), bracketed: true };
                let tail = if h.len() > 0 {
                    spans(r).skip(1)
                } else {
                    spans(r)
                };
                assert(tail =~= seq![blk_r] + yr);
                let y = seq![piece(p + h, false)] + tail;
                assert forall|i: int| 0 <= i < x.len() implies (#[trigger] x[i]).text == y[i].text
                    && x[i].bracketed == y[i].bracketed by {
                    if i >= 2 {
                        assert(x[i] == xr[i - 2]);
                        assert(y[i] == yr[i - 2]);
                    }
                }
            },
        }
    }
}

/// In no plain span from `k` on does anything close a `[`.
pub proof fn lemma_plain_unclosed(s: Seq<char>, k: int)
    requires
        0 <= k <= s.len(),
    ensures
        forall|i: int|
            0 <= i < spans_from(s, k).len() && !(#[trigger] spans_from(s, k)[i]).bracketed
                ==> unclosed(spans_from(s, k)[i].text),
    decreases s.len() - k,
{
    if k < s.len() {
        lemma_next_block(s, k);
        match next_block(s, k) {
            None => {},
            Some((p, c)) => {
                lemma_plain_unclosed(s, c + 1);
                let rest = spans_from(s, c + 1);
                let all = spans_from(s, k);
                assert forall|i: int| 0 <= i < all.len() && !(#[trigger] all[i]).bracketed implies unclosed(
                    all[i].text,
                ) by {
                    if p > k {
                        if i >= 2 {
                            assert(all[i] == rest[i - 2]);
                        }
                    } else {
                        if i >= 1 {
                            assert(all[i] == rest[i - 1]);
                        }
                    }
                }
            },
        }
    }
}

/// Whether the text holds none of `[`, `]` and `|`.
pub open spec fn clean(t: Seq<char>) -> bool {
    !t.contains('[') && !t.contains(']') && !t.contains('|')
}

/// Whether each of the texts is clean.
pub open spec fn all_clean(ts: Seq<Seq<char>>) -> bool {
    forall|i: int| 0 <= i < ts.len() ==> clean(#[trigger] ts[i])
}

/// A text has a bracket exactly if it holds `[` or `]`.
pub proof fn lemma_has_bracket(t: Seq<char>)
    ensures
        has_bracket(t) == (t.contains('[') || t.contains(']')),
{
    if has_bracket(t) {
        let i = choose|i: int| 0 <= i < t.len() && (t[i] == '[' || t[i] == ']');
        assert(t.contains(t[i]));
    }
    if t.contains('[') {
        let i = choose|i: int| 0 <= i < t.len() && t[i] == '[';
    }
    if t.contains(']') {
        let i = choose|i: int| 0 <= i < t.len() && t[i] == ']';
    }
}

/// The fields of a block are clean.
pub proof fn lemma_fields_clean(t: Seq<char>)
    requires
        is_block(t),
    ensures
        fields(t).len() >= 1,
        all_clean(fields(t)),
{
    let inner = t.subrange(1, t.len() - 1);
    lemma_has_bracket(inner);
    lemma_join_split(inner, '|');
    crate::text::lemma_split_fields_clean(inner, '|');
    crate::text::lemma_split_fields_within(inner, '|', '[');
    crate::text::lemma_split_fields_within(inner, '|', ']');
}

/// The segment of a block has clean literals and clean readings, at least
/// one of them.
pub proof fn lemma_block_segment_clean(x: Span)
    requires
        x.bracketed,
        is_block(x.text),
    ensures
        parse_span(x) is Kanji,
        clean(parse_span(x)->literals),
        all_clean(parse_span(x)->readings),
        parse_span(x)->readings.len() >= 1,
{
    lemma_fields_clean(x.text);
    let f = fields(x.text);
    let rs = parse_span(x)->readings;
    if f.len() == 1 {
        let e = Seq::<char>::empty();
        assert(rs[0] == e);
        assert forall|c: char| !e.contains(c) by {
            if e.contains(c) {
                let i = choose|i: int| 0 <= i < e.len() && e[i] == c;
            }
        }
    } else {
        assert forall|i: int| 0 <= i < rs.len() implies clean(#[trigger] rs[i]) by {
            assert(rs[i] == f[i + 1]);
        }
    }
}

/// A block written from clean literals and one clean reading text: what it
/// is and what it adds to the projections.
pub proof fn lemma_block_single(lit: Seq<char>, reading: Seq<char>, fallback: bool)
    requires
        clean(lit),
        clean(reading),
    ensures
        is_block(block(lit, reading)),
        fields(block(lit, reading)) == seq![lit, reading],
        span_kana(Span { start: 0, text: block(lit, reading), bracketed: true }, fallback) == (
        if fallback && reading.len() == 0 {
            lit
        } else {
            reading
        }),
        span_kanji(Span { start: 0, text: block(lit, reading), bracketed: true }) == lit,
{
    let b = block(lit, reading);
    let inner = b.subrange(1, b.len() - 1);
    assert(inner =~= lit + seq!['|'] + reading);
    crate::text::lemma_split_first(lit, reading, '|');
    crate::text::lemma_split_none(reading, '|');
    assert(fields(b) =~= seq![lit, reading]);
    let rs = fields(b).skip(1);
    assert(rs =~= seq![reading]);
    assert(rs.drop_last() =~= Seq::<Seq<char>>::empty());
    assert(concat(rs.drop_last()) =~= Seq::<char>::empty());
    assert(concat(rs) =~= reading);
    crate::text::lemma_contains_add(lit, seq!['|'], '[');
    crate::text::lemma_contains_add(lit + seq!['|'], reading, '[');
    crate::text::lemma_contains_add(lit, seq!['|'], ']');
    crate::text::lemma_contains_add(lit + seq!['|'], reading, ']');
    lemma_has_bracket(inner);
    assert(!seq!['|'].contains('[')) by {
        if seq!['|'].contains('[') {
            let i = choose|i: int| 0 <= i < seq!['|'].len() && seq!['|'][i] == '[';
        }
    }
    assert(!seq!['|'].contains(']')) by {
        if seq!['|'].contains(']') {
            let i = choose|i: int| 0 <= i < seq!['|'].len() && seq!['|'][i] == ']';
        }
    }
}

/// A block written from clean literals and clean readings kept apart by
/// `|`: what it is and what it adds to the projections.
pub proof fn lemma_block_joined(lit: Seq<char>, rs: Seq<Seq<char>>, fallback: bool)
    requires
        clean(lit),
        all_clean(rs),
        rs.len() >= 1,
    ensures
        is_block(block(lit, join(rs, seq!['|']))),
        fields(block(lit, join(rs, seq!['|']))) == seq![lit] + rs,
        span_kana(
            Span { start: 0, text: block(lit, join(rs, seq!['|'])), bracketed: true },
            fallback,
        ) == (if fallback && concat(rs).len() == 0 {
            lit
        } else {
            concat(rs)
        }),
        span_kanji(Span { start: 0, text: block(lit, join(rs, seq!['|'])), bracketed: true })
            == lit,
{
    let sep = seq!['|'];
    let joined = join(rs, sep);
    let b = block(lit, joined);
    let inner = b.subrange(1, b.len() - 1);
    assert(inner =~= lit + sep + joined);
    crate::text::lemma_split_first(lit, joined, '|');
    crate::text::lemma_split_join(rs, '|');
    assert(fields(b) =~= seq![lit] + rs);
    assert(fields(b).skip(1) =~= rs);
    assert(!sep.contains('[')) by {
        if sep.contains('[') {
            let i = choose|i: int| 0 <= i < sep.len() && sep[i] == '[';
        }
    }
    assert(!sep.contains(']')) by {
        if sep.contains(']') {
            let i = choose|i: int| 0 <= i < sep.len() && sep[i] == ']';
        }
    }
    crate::text::lemma_join_free(rs, sep, '[');
    crate::text::lemma_join_free(rs, sep, ']');
    crate::text::lemma_contains_add(lit, sep, '[');
    crate::text::lemma_contains_add(lit + sep, joined, '[');
    crate::text::lemma_contains_add(lit, sep, ']');
    crate::text::lemma_contains_add(lit + sep, joined, ']');
    lemma_has_bracket(inner);
}

/// A kanji segment with clean literals and clean readings, written in the
/// notation, is a block that adds to the projections what the segment reads
/// and is written as.
pub proof fn lemma_encoded_block(seg: SegmentView, fallback: bool)
    requires
        seg is Kanji,
        clean(seg->literals),
        all_clean(seg->readings),
        seg->readings.len() >= 1,
    ensures
        is_block(seg.encode()),
        span_kana(Span { start: 0, text: seg.encode(), bracketed: true }, fallback) == seg.kana(
            fallback,
        ),
        span_kanji(Span { start: 0, text: seg.encode(), bracketed: true }) == seg.main_reading(),
{
    let lit = seg->literals;
    let rs = seg->readings;
    if is_detailed(lit, rs) {
        lemma_block_joined(lit, rs, fallback);
    } else {
        crate::text::lemma_concat_free(rs, '[');
        crate::text::lemma_concat_free(rs, ']');
        crate::text::lemma_concat_free(rs, '|');
        lemma_block_single(lit, concat(rs), fallback);
    }
}

/// The empty text has no spans.
pub proof fn lemma_spans_empty()
    ensures
        spans(Seq::<char>::empty()) == Seq::<Span>::empty(),
{
}

/// The plain text that a run of pieces starts with: what `g` writes for the
/// spans up to the first one that it writes a block for.
pub open spec fn lead(
    sp: Seq<Span>,
    g: spec_fn(Span) -> Seq<char>,
    blk: spec_fn(Span) -> bool,
) -> Seq<char>
    decreases sp.len(),
{
    if sp.len() == 0 || blk(sp[0]) {
        Seq::empty()
    } else {
        g(sp[0]) + lead(sp.skip(1), g, blk)
    }
}

/// Whether nothing closes a `[` in any stretch of plain text that `g`
/// writes between two blocks.
pub open spec fn settled_seq(
    sp: Seq<Span>,
    g: spec_fn(Span) -> Seq<char>,
    blk: spec_fn(Span) -> bool,
) -> bool {
    forall|i: int| 0 <= i <= sp.len() ==> unclosed(#[trigger] lead(sp.skip(i), g, blk))
}

/// Settledness of a run of spans comes down to its first stretch and the
/// rest.
pub proof fn lemma_settled_step(
    sp: Seq<Span>,
    g: spec_fn(Span) -> Seq<char>,
    blk: spec_fn(Span) -> bool,
)
    requires
        sp.len() > 0,
    ensures
        settled_seq(sp, g, blk) == (unclosed(lead(sp, g, blk)) && settled_seq(sp.skip(1), g, blk)),
{
    let rest = sp.skip(1);
    assert(sp.skip(0) =~= sp);
    if settled_seq(sp, g, blk) {
        assert(unclosed(lead(sp.skip(0), g, blk)));
        assert forall|i: int| 0 <= i <= rest.len() implies unclosed(
            #[trigger] lead(rest.skip(i), g, blk),
        ) by {
            assert(rest.skip(i) =~= sp.skip(i + 1));
            assert(unclosed(lead(sp.skip(i + 1), g, blk)));
        }
    }
    if unclosed(lead(sp, g, blk)) && settled_seq(rest, g, blk) {
        assert forall|i: int| 0 <= i <= sp.len() implies unclosed(
            #[trigger] lead(sp.skip(i), g, blk),
        ) by {
            if i > 0 {
                assert(rest.skip(i - 1) =~= sp.skip(i));
                assert(unclosed(lead(rest.skip(i - 1), g, blk)));
            }
        }
    }
}

/// Runs of spans that are alike start with the same plain text and are
/// settled alike.
pub proof fn lemma_alike_lead(
    a: Seq<Span>,
    b: Seq<Span>,
    g: spec_fn(Span) -> Seq<char>,
    blk: spec_fn(Span) -> bool,
)
    requires
        alike(a, b),
        blind(g),
        blind_pred(blk),
    ensures
        lead(a, g, blk) == lead(b, g, blk),
        settled_seq(a, g, blk) == settled_seq(b, g, blk),
        head_text(a) == head_text(b),
    decreases a.len(),
{
    if a.len() > 0 {
        assert(a[0].text == b[0].text);
        assert(g(a[0]) == g(b[0]));
        assert(blk(a[0]) == blk(b[0]));
        lemma_alike_skip(a, b, 1);
        lemma_alike_lead(a.skip(1), b.skip(1), g, blk);
        lemma_settled_step(a, g, blk);
        lemma_settled_step(b, g, blk);
    } else {
        assert(a.skip(0) =~= a);
        assert(b.skip(0) =~= b);
        assert(settled_seq(a, g, blk) == unclosed(lead(a, g, blk))) by {
            if unclosed(lead(a, g, blk)) {
                assert forall|i: int| 0 <= i <= a.len() implies unclosed(
                    #[trigger] lead(a.skip(i), g, blk),
                ) by {
                    assert(a.skip(i) =~= a);
                }
            }
        }
        assert(settled_seq(b, g, blk) == unclosed(lead(b, g, blk))) by {
            if unclosed(lead(b, g, blk)) {
                assert forall|i: int| 0 <= i <= b.len() implies unclosed(
                    #[trigger] lead(b.skip(i), g, blk),
                ) by {
                    assert(b.skip(i) =~= b);
                }
            }
        }
    }
}

/// Whether what `g` writes for the span fits it: a block that adds to the
/// fold `f` what the span adds where `blk` says so, and else plain text that
/// is what the span adds.
pub open spec fn piece_fits(
    x: Span,
    g: spec_fn(Span) -> Seq<char>,
    blk: spec_fn(Span) -> bool,
    f: spec_fn(Span) -> Seq<char>,
) -> bool {
    if blk(x) {
        is_block(g(x)) && f(piece(g(x), true)) == f(x)
    } else {
        g(x) == f(x)
    }
}

/// Writing every span afresh with `g` keeps the fold `f` over the spans,
/// where each piece that `g` writes fits its span and nothing closes a `[`
/// in the plain text that `g` writes between two blocks.
pub proof fn lemma_rewrite(
    sp: Seq<Span>,
    g: spec_fn(Span) -> Seq<char>,
    blk: spec_fn(Span) -> bool,
    f: spec_fn(Span) -> Seq<char>,
)
    requires
        blind(f),
        plain_through(f),
        forall|i: int| 0 <= i < sp.len() ==> piece_fits(#[trigger] sp[i], g, blk, f),
        settled_seq(sp, g, blk),
    ensures
        concat_map(spans(concat_map(sp, g)), f) == concat_map(sp, f),
        head_text(spans(concat_map(sp, g))) == lead(sp, g, blk),
    decreases sp.len(),
{
    if sp.len() == 0 {
        lemma_spans_empty();
    } else {
        let x = sp[0];
        let rest = sp.skip(1);
        assert forall|i: int| 0 <= i < rest.len() implies piece_fits(
            #[trigger] rest[i],
            g,
            blk,
            f,
        ) by {
            assert(rest[i] == sp[i + 1]);
        }
        lemma_settled_step(sp, g, blk);
        lemma_rewrite(rest, g, blk, f);
        let t = concat_map(rest, g);
        let whole = spans(g(x) + t);
        assert(piece_fits(x, g, blk, f));
        if blk(x) {
            lemma_block_first(g(x), t);
            let other = seq![piece(g(x), true)] + spans(t);
            lemma_alike(whole, other, f);
            lemma_concat_map_add(seq![piece(g(x), true)], spans(t), f);
            lemma_concat_map_one(piece(g(x), true), f);
            assert(whole[0].bracketed == other[0].bracketed);
        } else if g(x).len() == 0 {
            assert(g(x) + t =~= t);
            assert(g(x) + lead(rest, g, blk) =~= lead(rest, g, blk));
            assert(f(x) + concat_map(rest, f) =~= concat_map(rest, f));
        } else {
            let h = head_text(spans(t));
            lemma_plain_first(g(x), t);
            let tail = if h.len() > 0 {
                spans(t).skip(1)
            } else {
                spans(t)
            };
            let other = seq![piece(g(x) + h, false)] + tail;
            lemma_alike(whole, other, f);
            lemma_concat_map_add(seq![piece(g(x) + h, false)], tail, f);
            lemma_concat_map_one(piece(g(x) + h, false), f);
            assert(whole[0].text == other[0].text);
            if h.len() > 0 {
                lemma_concat_map_one(spans(t)[0], f);
                lemma_concat_map_add(seq![spans(t)[0]], tail, f);
                assert(seq![spans(t)[0]] + tail =~= spans(t));
                assert(concat_map(whole, f) =~= g(x) + concat_map(spans(t), f));
            } else {
                assert(g(x) + h =~= g(x));
            }
        }
    }
}

/// The projections look only at the text and the kind of a span, and hand
/// plain spans back as they are.
pub proof fn lemma_projections_blind(fallback: bool)
    ensures
        blind(|x: Span| span_kana(x, fallback)),
        plain_through(|x: Span| span_kana(x, fallback)),
        blind(|x: Span| span_kanji(x)),
        plain_through(|x: Span| span_kanji(x)),
{
}

/// A piece in front of a text is the first span of the two together, and
/// the spans of the text follow it: a block always, plain text if nothing
/// closes a `[` in it and the text does not start with plain text.
pub proof fn lemma_prepend(t: Seq<char>, bracketed: bool, tail: Seq<char>)
    requires
        bracketed ==> is_block(t),
        !bracketed ==> t.len() > 0 && unclosed(t) && head_text(spans(tail)).len() == 0,
    ensures
        alike(spans(t + tail), seq![piece(t, bracketed)] + spans(tail)),
{
    if bracketed {
        lemma_block_first(t, tail);
    } else {
        assert(t + head_text(spans(tail)) =~= t);
        lemma_plain_first(t, tail);
    }
}

/// What a fold makes of a piece in front of a text.
pub proof fn lemma_prepend_fold(
    t: Seq<char>,
    bracketed: bool,
    tail: Seq<char>,
    f: spec_fn(Span) -> Seq<char>,
)
    requires
        alike(spans(t + tail), seq![piece(t, bracketed)] + spans(tail)),
        blind(f),
    ensures
        concat_map(spans(t + tail), f) == f(piece(t, bracketed)) + concat_map(spans(tail), f),
{
    let pc = piece(t, bracketed);
    lemma_alike(spans(t + tail), seq![pc] + spans(tail), f);
    lemma_concat_map_add(seq![pc], spans(tail), f);
    lemma_concat_map_one(pc, f);
}

/// How a piece in front of a text settles with it.
pub proof fn lemma_prepend_lead(
    t: Seq<char>,
    bracketed: bool,
    tail: Seq<char>,
    g: spec_fn(Span) -> Seq<char>,
    blk: spec_fn(Span) -> bool,
)
    requires
        alike(spans(t + tail), seq![piece(t, bracketed)] + spans(tail)),
        blind(g),
        blind_pred(blk),
    ensures
        lead(spans(t + tail), g, blk) == (if blk(piece(t, bracketed)) {
            Seq::<char>::empty()
        } else {
            g(piece(t, bracketed)) + lead(spans(tail), g, blk)
        }),
        settled_seq(spans(t + tail), g, blk) == (unclosed(lead(spans(t + tail), g, blk))
            && settled_seq(spans(tail), g, blk)),
        head_text(spans(t + tail)) == (if bracketed {
            Seq::<char>::empty()
        } else {
            t
        }),
{
    let pc = piece(t, bracketed);
    let other = seq![pc] + spans(tail);
    lemma_alike_lead(spans(t + tail), other, g, blk);
    assert(other.skip(1) =~= spans(tail));
    lemma_settled_step(other, g, blk);
}

} // verus!
