//! Rewriting annotated text into other forms of the notation that read the
//! same.
use vstd::prelude::*;
use crate::furi::model::{
    block, close_run, concat_map, emit_unmerged, extend_run, fix_malformed_blocks, is_detailed,
    is_unread, lemma_concat_map_next, merge_spans, mergeable, normalize, normalize_all,
    parse_span, remove_empty_kanji, spans, without_empty, Run, Span,
};
use crate::furi::parse::{lemma_block_fields, FuriParserGen};
use crate::furi::scan::{cut, split_fields};
use crate::furi::Furigana;
use crate::text::{concat, join, push_char, push_chars, AsText};

verus! {

/// Appends the texts that the index pairs cut out of `v` to `out`, kept
/// apart by `|` if `separate` is set.
fn push_joined(out: &mut String, v: &Vec<char>, ranges: &Vec<(usize, usize)>, separate: bool)
    requires
        forall|j: int| 0 <= j < ranges.len() ==> (#[trigger] ranges@[j]).0 <= ranges@[j].1 <= v.len(),
    ensures
        final(out)@ == old(out)@ + (if separate {
            join(cut(v@, ranges@), seq!['|'])
        } else {
            concat(cut(v@, ranges@))
        }),
{
    let ghost rs = cut(v@, ranges@);
    let ghost sep = seq!['|'];
    let mut pos: usize = 0;
    proof {
        assert(join(rs.take(0), sep) =~= Seq::<char>::empty());
        assert(concat(rs.take(0)) =~= Seq::<char>::empty());
        assert(out@ =~= old(out)@ + Seq::<char>::empty());
    }
    while pos < ranges.len()
        invariant
            pos <= ranges.len(),
            rs == cut(v@, ranges@),
            sep == seq!['|'],
            forall|j: int|
                0 <= j < ranges.len() ==> (#[trigger] ranges@[j]).0 <= ranges@[j].1 <= v.len(),
            out@ == old(out)@ + (if separate {
                join(rs.take(pos as int), sep)
            } else {
                concat(rs.take(pos as int))
            }),
        decreases ranges.len() - pos,
    {
        let ghost before = out@;
        let ghost t = rs[pos as int];
        if pos > 0 && separate {
            push_char(out, '|');
        }
        push_chars(out, v, ranges[pos].0, ranges[pos].1);
        pos += 1;
        proof {
            if pos > 1 && separate {
                assert(out@ =~= before + sep + t);
            } else {
                assert(out@ =~= before + t);
            }
            let now = rs.take(pos as int);
            assert(now.drop_last() =~= rs.take(pos - 1));
            assert(now.last() == t);
            if separate {
                if pos == 1 {
                    assert(join(now, sep) == now[0]);
                } else {
                    assert(join(now, sep) == join(now.drop_last(), sep) + sep + now.last());
                }
                assert(out@ =~= old(out)@ + join(now, sep));
            } else {
                assert(out@ =~= old(out)@ + concat(now));
            }
        }
    }
    assert(rs.take(pos as int) =~= rs);
}

/// Appends a segment written afresh to `out`: plain text as it is, a block
/// with its readings kept apart where there is one for each literal and
/// written as one otherwise.
fn push_encoded(out: &mut String, v: &Vec<char>, a: usize, b: usize, bracketed: bool)
    requires
        a <= b <= v.len(),
        bracketed ==> a + 2 <= b,
    ensures
        final(out)@ == old(out)@ + parse_span(
            Span { start: a as int, text: v@.subrange(a as int, b as int), bracketed },
        ).encode(),
{
    if !bracketed {
        push_chars(out, v, a, b);
        return ;
    }
    let mut fs = split_fields(v, a + 1, b - 1);
    proof {
        lemma_block_fields(v@, a as int, b as int);
    }
    let ghost f = cut(v@, fs@);
    let lit = fs[0];
    let lits = lit.1 - lit.0;
    assert(f[0] == v@.subrange(lit.0 as int, lit.1 as int));
    push_char(out, '[');
    push_chars(out, v, lit.0, lit.1);
    push_char(out, '|');
    let ghost head = out@;
    if fs.len() == 1 {
        // No reading at all stands for one empty reading.
        proof {
            let rs = seq![Seq::<char>::empty()];
            assert(rs.drop_last() =~= Seq::<Seq<char>>::empty());
            assert(concat(rs.drop_last()) =~= Seq::<char>::empty());
            assert(concat(rs) =~= Seq::<char>::empty());
            assert(join(rs, seq!['|']) =~= Seq::<char>::empty());
        }
    } else {
        let detailed = lits == fs.len() - 1;
        let rest = fs.split_off(1);
        assert(cut(v@, rest@) =~= f.skip(1));
        push_joined(out, v, &rest, detailed);
    }
    push_char(out, ']');
    proof {
        let seg = parse_span(
            Span { start: a as int, text: v@.subrange(a as int, b as int), bracketed },
        );
        assert(head =~= old(out)@ + seq!['['] + f[0] + seq!['|']);
        assert(out@ =~= old(out)@ + seg.encode());
    }
}

/// What of an open run already stands in the output: `[` and the literals.
pub open spec fn run_head(run: Option<Run>) -> Seq<char> {
    match run {
        Some(r) => seq!['['] + r.literals,
        None => Seq::empty(),
    }
}

/// What closes an open run: `|`, the readings and `]`.
pub open spec fn run_tail(run: Option<Run>) -> Seq<char> {
    match run {
        Some(r) => seq!['|'] + (if r.undetailed {
            concat(r.readings)
        } else {
            join(r.readings, seq!['|'])
        }) + seq![']'],
        None => Seq::empty(),
    }
}

/// Whether the readings kept back and the flag stand for the open run.
pub open spec fn holds_run(
    s: Seq<char>,
    pending: Seq<(usize, usize)>,
    has_undetailed: bool,
    run: Option<Run>,
) -> bool {
    &&& run is Some == (pending.len() > 0)
    &&& forall|j: int|
        0 <= j < pending.len() ==> (#[trigger] pending[j]).0 <= pending[j].1 <= s.len()
    &&& match run {
        Some(r) => cut(s, pending) == r.readings && has_undetailed == r.undetailed,
        None => !has_undetailed,
    }
}

/// Head and tail of a run make up the block that the run is written as.
pub proof fn lemma_run_closed(run: Option<Run>)
    ensures
        run_head(run) + run_tail(run) == close_run(run),
{
    match run {
        Some(r) => {
            assert(run_head(run) + run_tail(run) =~= close_run(run));
        },
        None => {
            assert(run_head(run) + run_tail(run) =~= close_run(run));
        },
    }
}

/// Looks at the span `v[a..b]`: where its fields lie, whether it is a block
/// without a known reading, and whether it has one reading for each literal.
fn classify(v: &Vec<char>, a: usize, b: usize, bracketed: bool) -> (r: (
    Vec<(usize, usize)>,
    bool,
    bool,
))
    requires
        a <= b <= v.len(),
        bracketed ==> a + 2 <= b,
    ensures
        ({
            let seg = parse_span(
                Span { start: a as int, text: v@.subrange(a as int, b as int), bracketed },
            );
            &&& r.1 == is_unread(seg)
            &&& bracketed ==> {
                &&& r.2 == is_detailed(seg->literals, seg->readings)
                &&& r.0.len() >= 1
                &&& forall|j: int|
                    0 <= j < r.0.len() ==> (#[trigger] r.0@[j]).0 <= r.0@[j].1 <= v.len()
                &&& seg->literals == v@.subrange(r.0@[0].0 as int, r.0@[0].1 as int)
                &&& !r.1 ==> r.0.len() >= 2 && seg->readings == cut(v@, r.0@).skip(1)
            }
        }),
{
    if !bracketed {
        return (Vec::new(), false, false);
    }
    let fs = split_fields(v, a + 1, b - 1);
    proof {
        lemma_block_fields(v@, a as int, b as int);
        assert(cut(v@, fs@)[0] == v@.subrange(fs@[0].0 as int, fs@[0].1 as int));
        if fs.len() >= 2 {
            assert(cut(v@, fs@).skip(1)[0] == cut(v@, fs@)[1]);
        }
    }
    let lits = fs[0].1 - fs[0].0;
    let unread = fs.len() == 1 || (fs.len() == 2 && fs[1].0 == fs[1].1);
    let detailed = if fs.len() == 1 {
        lits == 1
    } else {
        lits == fs.len() - 1
    };
    (fs, unread, detailed)
}

/// Closes the open run, if there is one: writes `|`, the readings kept back
/// and `]`.
fn flush(
    out: &mut String,
    v: &Vec<char>,
    pending: &mut Vec<(usize, usize)>,
    has_undetailed: bool,
    Ghost(run): Ghost<Option<Run>>,
)
    requires
        holds_run(v@, old(pending)@, has_undetailed, run),
    ensures
        final(out)@ == old(out)@ + run_tail(run),
        final(pending)@.len() == 0,
{
    if pending.len() > 0 {
        push_char(out, '|');
        push_joined(out, v, pending, !has_undetailed);
        push_char(out, ']');
        pending.clear();
        assert(out@ =~= old(out)@ + run_tail(run));
    } else {
        assert(out@ =~= old(out)@ + run_tail(run));
    }
}

/// Writes a span that joins no run.
fn push_unmerged(
    out: &mut String,
    v: &Vec<char>,
    a: usize,
    b: usize,
    bracketed: bool,
    fs: &Vec<(usize, usize)>,
    unread: bool,
)
    requires
        a <= b <= v.len(),
        ({
            let seg = parse_span(
                Span { start: a as int, text: v@.subrange(a as int, b as int), bracketed },
            );
            &&& unread == is_unread(seg)
            &&& unread ==> fs.len() >= 1 && fs@[0].0 <= fs@[0].1 <= v.len() && seg->literals
                == v@.subrange(fs@[0].0 as int, fs@[0].1 as int)
        }),
    ensures
        final(out)@ == old(out)@ + emit_unmerged(
            Span { start: a as int, text: v@.subrange(a as int, b as int), bracketed },
        ),
{
    if unread {
        push_char(out, '[');
        push_chars(out, v, fs[0].0, fs[0].1);
        push_char(out, '|');
        push_char(out, ']');
        assert(out@ =~= old(out)@ + block(
            v@.subrange(fs@[0].0 as int, fs@[0].1 as int),
            Seq::empty(),
        ));
    } else {
        push_chars(out, v, a, b);
    }
}

/// Adds a block to the run: opens the run if none is open, writes the
/// literals and keeps the readings back.
fn push_member(
    out: &mut String,
    v: &Vec<char>,
    fs: &mut Vec<(usize, usize)>,
    pending: &mut Vec<(usize, usize)>,
)
    requires
        old(fs).len() >= 2,
        forall|j: int| 0 <= j < old(fs).len() ==> (#[trigger] old(fs)@[j]).0 <= old(fs)@[j].1 <= v.len(),
        forall|j: int|
            0 <= j < old(pending).len() ==> (#[trigger] old(pending)@[j]).0 <= old(pending)@[j].1
                <= v.len(),
    ensures
        final(out)@ == old(out)@ + (if old(pending).len() == 0 {
            seq!['[']
        } else {
            Seq::<char>::empty()
        }) + v@.subrange(old(fs)@[0].0 as int, old(fs)@[0].1 as int),
        final(pending)@ == old(pending)@ + old(fs)@.skip(1),
        cut(v@, final(pending)@) == cut(v@, old(pending)@) + cut(v@, old(fs)@).skip(1),
{
    if pending.len() == 0 {
        push_char(out, '[');
    }
    push_chars(out, v, fs[0].0, fs[0].1);
    let mut rest = fs.split_off(1);
    assert(rest@ =~= old(fs)@.skip(1));
    pending.append(&mut rest);
    proof {
        assert(out@ =~= old(out)@ + (if old(pending).len() == 0 {
            seq!['[']
        } else {
            Seq::<char>::empty()
        }) + v@.subrange(old(fs)@[0].0 as int, old(fs)@[0].1 as int));
        assert(cut(v@, pending@) =~= cut(v@, old(pending)@) + cut(v@, old(fs)@).skip(1));
    }
}

/// Merging over spans, taken one step apart.
pub proof fn lemma_merge_step(sp: Seq<Span>, lossy: bool, run: Option<Run>)
    requires
        sp.len() > 0,
    ensures
        merge_spans(sp, lossy, run) == (if mergeable(parse_span(sp[0]), lossy) {
            merge_spans(sp.skip(1), lossy, Some(extend_run(run, parse_span(sp[0]))))
        } else {
            close_run(run) + emit_unmerged(sp[0]) + merge_spans(sp.skip(1), lossy, None)
        }),
{
}

/// Takes one span into the merged output: adds it to the open run, or
/// closes the run and writes the span by itself. Answers with the run that
/// is open afterwards and the text that is settled.
fn merge_step(
    out: &mut String,
    v: &Vec<char>,
    pending: &mut Vec<(usize, usize)>,
    has_undetailed: &mut bool,
    a: usize,
    b: usize,
    bracketed: bool,
    lossy: bool,
    Ghost(run): Ghost<Option<Run>>,
    Ghost(done): Ghost<Seq<char>>,
) -> (r: Ghost<(Option<Run>, Seq<char>)>)
    requires
        a <= b <= v.len(),
        bracketed ==> a + 2 <= b,
        holds_run(v@, old(pending)@, *old(has_undetailed), run),
        old(out)@ == done + run_head(run),
    ensures
        ({
            let span = Span { start: a as int, text: v@.subrange(a as int, b as int), bracketed };
            let seg = parse_span(span);
            &&& holds_run(v@, final(pending)@, *final(has_undetailed), r@.0)
            &&& final(out)@ == r@.1 + run_head(r@.0)
            &&& if mergeable(seg, lossy) {
                r@.0 == Some(extend_run(run, seg)) && r@.1 == done
            } else {
                r@.0 is None && r@.1 == done + close_run(run) + emit_unmerged(span)
            }
        }),
{
    let ghost span = Span { start: a as int, text: v@.subrange(a as int, b as int), bracketed };
    let (mut fs, unread, detailed) = classify(v, a, b, bracketed);
    if bracketed && !unread && (detailed || lossy) {
        let ghost next = extend_run(run, parse_span(span));
        if !detailed {
            *has_undetailed = true;
        }
        push_member(out, v, &mut fs, pending);
        proof {
            assert(out@ =~= done + run_head(Some(next)));
        }
        Ghost((Some(next), done))
    } else {
        flush(out, v, pending, *has_undetailed, Ghost(run));
        *has_undetailed = false;
        push_unmerged(out, v, a, b, bracketed, &fs, unread);
        proof {
            lemma_run_closed(run);
            assert(out@ =~= done + close_run(run) + emit_unmerged(span));
            assert(out@ =~= out@ + run_head(None));
        }
        Ghost((None, out@))
    }
}

/// Rewrites an annotated text into another form of the notation, pass by
/// pass. Each pass works on what the pass before it has written; the first
/// one works on the text that the formatter was made for.
pub struct CodeFormatter<'a, T> {
    src_furi: &'a Furigana<T>,
    buf: String,
    applied: bool,
    lossy: bool,
}

impl<'a, T: AsText> CodeFormatter<'a, T> {
    /// The text that the formatter was made for.
    pub closed spec fn source(&self) -> Seq<char> {
        self.src_furi.text()
    }

    /// What the passes so far have written; empty before the first pass.
    pub closed spec fn output(&self) -> Seq<char> {
        self.buf@
    }

    /// Whether a pass has been applied.
    pub closed spec fn applied(&self) -> bool {
        self.applied
    }

    /// Whether passes may lose how readings belong to literals.
    pub closed spec fn is_lossy(&self) -> bool {
        self.lossy
    }

    /// The text that the next pass works on.
    pub open spec fn current(&self) -> Seq<char> {
        if self.applied() {
            self.output()
        } else {
            self.source()
        }
    }

    /// Creates a formatter for `furi`.
    pub fn new(furi: &'a Furigana<T>) -> (r: Self)
        ensures
            r.source() == furi.text(),
            r.output() == Seq::<char>::empty(),
            !r.applied(),
            !r.is_lossy(),
    {
        Self { buf: String::new(), src_furi: furi, applied: false, lossy: false }
    }

    /// The same formatter in lossy mode.
    pub fn lossy(self) -> (r: Self)
        ensures
            r.source() == self.source(),
            r.output() == self.output(),
            r.applied() == self.applied(),
            r.is_lossy(),
    {
        Self { buf: self.buf, src_furi: self.src_furi, applied: self.applied, lossy: true }
    }

    /// Ends the formatting and returns what the passes have written.
    pub fn finish(self) -> (r: Furigana<String>)
        ensures
            r.0@ == self.output(),
    {
        Furigana(self.buf)
    }

    /// Applies all passes: merging, removing empty blocks, fixing malformed
    /// blocks.
    pub fn apply_all(self) -> (r: Furigana<String>)
        ensures
            r.0@ == normalize_all(self.current(), self.is_lossy()),
    {
        self.merge_kanji_parts().remove_empty_kanji().fix_kanji_blocks().finish()
    }

    /// Writes every block afresh, so that readings which fit neither the
    /// literals nor are a single one become one reading:
    /// `[音楽大|おんがく|だい]` becomes `[音楽大|おんがくだい]`.
    pub fn fix_kanji_blocks(self) -> (r: Self)
        ensures
            r.source() == self.source(),
            r.is_lossy() == self.is_lossy(),
            r.applied(),
            r.output() == fix_malformed_blocks(self.current()),
    {
        let ghost f = |sp: Span| parse_span(sp).encode();
        let ghost s = self.current();
        let mut out = String::new();
        let mut gen = FuriParserGen::new(self.get_src());
        let ghost sp = spans(s);
        let ghost mut i: int = 0;
        proof {
            assert(concat_map(sp.take(0), f) =~= Seq::<char>::empty());
            assert(sp.skip(0) =~= sp);
        }
        loop
            invariant_except_break
                gen.remaining() == sp.skip(i),
            invariant
                gen.wf(),
                gen.source() == s,
                sp == spans(s),
                0 <= i <= sp.len(),
                f == (|sp: Span| parse_span(sp).encode()),
                out@ == concat_map(sp.take(i), f),
            ensures
                i == sp.len(),
            decreases sp.len() - i,
        {
            match gen.advance() {
                None => {
                    break ;
                },
                Some((a, b, bracketed)) => {
                    proof {
                        lemma_concat_map_next(sp, i, f);
                        assert(sp.skip(i).skip(1) =~= sp.skip(i + 1));
                        assert(sp.skip(i)[0] == sp[i]);
                    }
                    push_encoded(&mut out, gen.chars(), a, b, bracketed);
                    proof {
                        i = i + 1;
                    }
                },
            }
        }
        assert(sp.take(i) =~= sp);
        Self { buf: out, src_furi: self.src_furi, applied: true, lossy: self.lossy }
    }

    /// Turns every block without a known reading into plain text.
    pub fn remove_empty_kanji(self) -> (r: Self)
        ensures
            r.source() == self.source(),
            r.is_lossy() == self.is_lossy(),
            r.applied(),
            r.output() == remove_empty_kanji(self.current()),
    {
        let ghost f = |sp: Span| without_empty(sp);
        let ghost s = self.current();
        let mut out = String::new();
        let mut gen = FuriParserGen::new(self.get_src());
        let ghost sp = spans(s);
        let ghost mut i: int = 0;
        proof {
            assert(concat_map(sp.take(0), f) =~= Seq::<char>::empty());
            assert(sp.skip(0) =~= sp);
        }
        loop
            invariant_except_break
                gen.remaining() == sp.skip(i),
            invariant
                gen.wf(),
                gen.source() == s,
                sp == spans(s),
                0 <= i <= sp.len(),
                f == (|sp: Span| without_empty(sp)),
                out@ == concat_map(sp.take(i), f),
            ensures
                i == sp.len(),
            decreases sp.len() - i,
        {
            match gen.advance() {
                None => {
                    break ;
                },
                Some((a, b, bracketed)) => {
                    proof {
                        lemma_concat_map_next(sp, i, f);
                        assert(sp.skip(i).skip(1) =~= sp.skip(i + 1));
                        assert(sp.skip(i)[0] == sp[i]);
                    }
                    let v = gen.chars();
                    let mut unread = false;
                    if bracketed {
                        let fs = split_fields(v, a + 1, b - 1);
                        proof {
                            lemma_block_fields(v@, a as int, b as int);
                        }
                        if fs.len() == 1 || (fs.len() == 2 && fs[1].0 == fs[1].1) {
                            unread = true;
                            assert(cut(v@, fs@)[0] == v@.subrange(
                                fs@[0].0 as int,
                                fs@[0].1 as int,
                            ));
                            push_chars(&mut out, v, fs[0].0, fs[0].1);
                        } else {
                            assert(cut(v@, fs@).skip(1)[0] == cut(v@, fs@)[1]);
                        }
                    }
                    if !unread {
                        push_encoded(&mut out, v, a, b, bracketed);
                    }
                    proof {
                        i = i + 1;
                    }
                },
            }
        }
        assert(sp.take(i) =~= sp);
        Self { buf: out, src_furi: self.src_furi, applied: true, lossy: self.lossy }
    }

    /// Merges kanji blocks that stand side by side and have one reading for
    /// each literal into one block: `[大|だい][丈|じょう][夫|ぶ]` becomes
    /// `[大丈夫|だい|じょう|ぶ]`. In lossy mode blocks of any other form with
    /// a known reading are merged too, and a run that holds one of them is
    /// written with all its readings as one.
    pub fn merge_kanji_parts(self) -> (r: Self)
        ensures
            r.source() == self.source(),
            r.is_lossy() == self.is_lossy(),
            r.applied(),
            r.output() == normalize(self.current(), self.is_lossy()),
    {
        let lossy = self.lossy;
        let ghost s = self.current();
        let mut out = String::new();
        let mut pending: Vec<(usize, usize)> = Vec::new();
        let mut has_undetailed = false;
        let mut gen = FuriParserGen::new(self.get_src());
        let ghost sp = spans(s);
        let ghost goal = merge_spans(sp, lossy, None);
        let ghost mut i: int = 0;
        let ghost mut done: Seq<char> = Seq::empty();
        let ghost mut run: Option<Run> = None;
        proof {
            assert(sp.skip(0) =~= sp);
            assert(goal =~= done + merge_spans(sp.skip(0), lossy, run));
            assert(out@ =~= done + run_head(run));
        }
        loop
            invariant_except_break
                gen.remaining() == sp.skip(i),
            invariant
                gen.wf(),
                gen.source() == s,
                0 <= i <= sp.len(),
                goal == done + merge_spans(sp.skip(i), lossy, run),
                out@ == done + run_head(run),
                holds_run(s, pending@, has_undetailed, run),
            ensures
                i == sp.len(),
            decreases sp.len() - i,
        {
            match gen.advance() {
                None => {
                    break ;
                },
                Some((a, b, bracketed)) => {
                    proof {
                        assert(sp.skip(i).skip(1) =~= sp.skip(i + 1));
                        assert(sp.skip(i)[0] == sp[i]);
                        lemma_merge_step(sp.skip(i), lossy, run);
                    }
                    let next = merge_step(
                        &mut out,
                        gen.chars(),
                        &mut pending,
                        &mut has_undetailed,
                        a,
                        b,
                        bracketed,
                        lossy,
                        Ghost(run),
                        Ghost(done),
                    );
                    proof {
                        run = next@.0;
                        done = next@.1;
                        i = i + 1;
                    }
                },
            }
        }
        // Close the run that the last span has left open.
        flush(&mut out, gen.chars(), &mut pending, has_undetailed, Ghost(run));
        proof {
            lemma_run_closed(run);
            assert(sp.skip(i) =~= Seq::<Span>::empty());
            assert(out@ =~= done + close_run(run));
        }
        Self { buf: out, src_furi: self.src_furi, applied: true, lossy: self.lossy }
    }

    /// The text that the next pass works on.
    fn get_src(&self) -> (r: &str)
        ensures
            r@ == self.current(),
    {
        if self.applied {
            self.buf.as_str()
        } else {
            self.src_furi.raw()
        }
    }
}

} // verus!
