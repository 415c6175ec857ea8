//! Scanning decoded text for blocks and fields.
use vstd::prelude::*;
use crate::text::{find_char, find_from, lemma_find_from_bounds, rfind_before, split};
use crate::furi::model::{lemma_next_block, next_block};

verus! {

/// Index of the last `c` in `v[from..before]`, which the caller knows to be there.
fn rfind_char(v: &Vec<char>, c: char, from: usize, before: usize) -> (i: usize)
    requires
        from < before <= v.len(),
        v@[from as int] == c,
    ensures
        i == rfind_before(v@, c, before as int),
        from <= i < before,
{
    let mut i: usize = before - 1;
    while v[i] != c
        invariant
            from <= i < before <= v.len(),
            v@[from as int] == c,
            rfind_before(v@, c, before as int) == rfind_before(v@, c, i + 1),
        decreases i,
    {
        i -= 1;
    }
    i
}

/// The brackets of the next block at or after `k`.
pub fn next_span(v: &Vec<char>, k: usize) -> (r: Option<(usize, usize)>)
    requires
        k <= v.len(),
    ensures
        match r {
            Some((p, c)) => next_block(v@, k as int) == Some((p as int, c as int)) && k <= p < c
                < v.len(),
            None => next_block(v@, k as int) is None,
        },
{
    let open = find_char(v, '[', k);
    if open >= v.len() {
        proof {
            lemma_find_from_bounds(v@, ']', v.len() as int);
        }
        return None;
    }
    let close = find_char(v, ']', open);
    if close >= v.len() {
        return None;
    }
    proof {
        lemma_next_block(v@, k as int);
    }
    let p = rfind_char(v, '[', open, close);
    Some((p, close))
}

/// Index of the first `c` in `v[from..to]`, or `to`.
pub fn find_char_until(v: &Vec<char>, c: char, from: usize, to: usize) -> (i: usize)
    requires
        from <= to <= v.len(),
    ensures
        from <= i <= to,
        i - from == find_from(v@.subrange(from as int, to as int), c, 0),
{
    let ghost sub = v@.subrange(from as int, to as int);
    let mut i: usize = from;
    while i < to && v[i] != c
        invariant
            from <= i <= to <= v.len(),
            sub == v@.subrange(from as int, to as int),
            find_from(sub, c, 0) == find_from(sub, c, i - from),
        decreases to - i,
    {
        i += 1;
    }
    i
}

/// The texts that the index pairs cut out of `s`.
pub open spec fn cut(s: Seq<char>, ranges: Seq<(usize, usize)>) -> Seq<Seq<char>> {
    Seq::new(ranges.len(), |i: int| s.subrange(ranges[i].0 as int, ranges[i].1 as int))
}

/// Cuts `v[a..b]` at every `|` and returns where each field lies in `v`.
pub fn split_fields(v: &Vec<char>, a: usize, b: usize) -> (r: Vec<(usize, usize)>)
    requires
        a <= b <= v.len(),
    ensures
        r.len() >= 1,
        cut(v@, r@) == split(v@.subrange(a as int, b as int), '|'),
        forall|i: int| 0 <= i < r.len() ==> a <= (#[trigger] r@[i]).0 <= r@[i].1 <= b,
{
    let mut r: Vec<(usize, usize)> = Vec::new();
    let mut start: usize = a;
    loop
        invariant_except_break
            split(v@.subrange(a as int, b as int), '|') == cut(v@, r@) + split(
                v@.subrange(start as int, b as int),
                '|',
            ),
        invariant
            a <= start <= b <= v.len(),
            forall|i: int| 0 <= i < r.len() ==> a <= (#[trigger] r@[i]).0 <= r@[i].1 <= b,
        ensures
            r.len() >= 1,
            cut(v@, r@) == split(v@.subrange(a as int, b as int), '|'),
            forall|i: int| 0 <= i < r.len() ==> a <= (#[trigger] r@[i]).0 <= r@[i].1 <= b,
        decreases b - start,
    {
        let i = find_char_until(v, '|', start, b);
        let ghost sub = v@.subrange(start as int, b as int);
        let ghost before = r@;
        r.push((start, i));
        proof {
            assert(cut(v@, r@) =~= cut(v@, before) + seq![v@.subrange(start as int, i as int)]);
            assert(sub.subrange(0, i - start) =~= v@.subrange(start as int, i as int));
        }
        if i >= b {
            assert(sub =~= v@.subrange(start as int, i as int));
            break;
        }
        proof {
            assert(sub.subrange(i - start + 1, sub.len() as int) =~= v@.subrange(
                i + 1,
                b as int,
            ));
        }
        start = i + 1;
    }
    r
}

} // verus!
