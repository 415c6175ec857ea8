//! Character-level helpers shared by the whole crate.
//!
//! Every contract in this crate speaks about text as a `Seq<char>`, the view
//! that `vstd` gives to `str` and `String`. Scanning code decodes its input
//! once into a `Vec<char>` and then works with plain indices.
use vstd::prelude::*;
use itertools::Itertools;

verus! {

/// Anything that can hand out its text as a string slice.
pub trait AsText {
    /// The text as a sequence of characters.
    spec fn text(&self) -> Seq<char>;

    /// Borrows the text.
    fn as_text(&self) -> (r: &str)
        ensures
            r@ == self.text(),
    ;
}

impl AsText for String {
    open spec fn text(&self) -> Seq<char> {
        self@
    }

    fn as_text(&self) -> (r: &str) {
        self.as_str()
    }
}

impl<'a> AsText for &'a str {
    open spec fn text(&self) -> Seq<char> {
        (**self)@
    }

    fn as_text(&self) -> (r: &str) {
        *self
    }
}

impl<'a, T: AsText> AsText for &'a T {
    open spec fn text(&self) -> Seq<char> {
        (**self).text()
    }

    fn as_text(&self) -> (r: &str) {
        (**self).as_text()
    }
}

/// The text of each item.
pub open spec fn texts<S: AsText>(items: Seq<S>) -> Seq<Seq<char>> {
    Seq::new(items.len(), |i: int| items[i].text())
}

/// Concatenation of all the parts, in order.
pub open spec fn concat(parts: Seq<Seq<char>>) -> Seq<char>
    decreases parts.len(),
{
    if parts.len() == 0 {
        Seq::empty()
    } else {
        concat(parts.drop_last()) + parts.last()
    }
}

/// The parts with `sep` written between each two neighbours.
pub open spec fn join(parts: Seq<Seq<char>>, sep: Seq<char>) -> Seq<char>
    decreases parts.len(),
{
    if parts.len() == 0 {
        Seq::empty()
    } else if parts.len() == 1 {
        parts[0]
    } else {
        join(parts.drop_last(), sep) + sep + parts.last()
    }
}

/// Index of the first `c` in `s` at or after `from`, or `s.len()` if there is none.
pub open spec fn find_from(s: Seq<char>, c: char, from: int) -> int
    decreases s.len() - from,
{
    if from >= s.len() {
        s.len() as int
    } else if from >= 0 && s[from] == c {
        from
    } else {
        find_from(s, c, from + 1)
    }
}

/// Index of the last `c` in `s` strictly before `before`, or `-1` if there is none.
pub open spec fn rfind_before(s: Seq<char>, c: char, before: int) -> int
    decreases before,
{
    if before <= 0 {
        -1
    } else if before <= s.len() && s[before - 1] == c {
        before - 1
    } else {
        rfind_before(s, c, before - 1)
    }
}

/// `s` cut at every `sep`; the separators themselves are dropped. There is
/// always at least one field.
pub open spec fn split(s: Seq<char>, sep: char) -> Seq<Seq<char>>
    decreases s.len(),
{
    let i = find_from(s, sep, 0);
    if i >= s.len() {
        seq![s]
    } else {
        proof {
            lemma_find_from_bounds(s, sep, 0);
        }
        seq![s.subrange(0, i)] + split(s.subrange(i + 1, s.len() as int), sep)
    }
}

/// Appends one character to `buf` with `String::push`, which adds the
/// character at the end and leaves the rest untouched.
#[verifier::external_body]
pub(crate) fn push_char(buf: &mut String, c: char)
    ensures
        final(buf)@ == old(buf)@.push(c),
{
    buf.push(c)
}

/// `Itertools::join` on the texts of the items: every text in order, with
/// `sep` between each two neighbours and nothing around the whole.
#[verifier::external_body]
pub(crate) fn join_texts<S: AsText>(items: &[S], sep: &str) -> (r: String)
    ensures
        r@ == join(texts(items@), sep@),
{
    items.iter().map(|i| i.as_text()).join(sep)
}

/// Joining with nothing between the parts is concatenation.
pub proof fn lemma_join_empty(parts: Seq<Seq<char>>)
    ensures
        join(parts, Seq::empty()) == concat(parts),
    decreases parts.len(),
{
    if parts.len() == 1 {
        assert(concat(parts.drop_last()) =~= Seq::<char>::empty());
        assert(concat(parts) =~= parts[0]);
    } else if parts.len() > 1 {
        lemma_join_empty(parts.drop_last());
        assert(join(parts, Seq::empty()) =~= concat(parts));
    }
}

/// Concatenation of two lists written one after the other.
pub proof fn lemma_concat_add(a: Seq<Seq<char>>, b: Seq<Seq<char>>)
    ensures
        concat(a + b) == concat(a) + concat(b),
    decreases b.len(),
{
    if b.len() == 0 {
        assert(a + b =~= a);
        assert(concat(a) + concat(b) =~= concat(a));
    } else {
        lemma_concat_add(a, b.drop_last());
        assert((a + b).drop_last() =~= a + b.drop_last());
        assert(concat(a + b) =~= concat(a) + concat(b));
    }
}

/// Decodes a string slice into its characters.
pub fn to_chars(s: &str) -> (v: Vec<char>)
    ensures
        v@ == s@,
{
    let mut v: Vec<char> = Vec::new();
    for c in it: s.chars()
        invariant
            v@ == it.seq().take(it.index() as int),
            it.seq() == s@,
    {
        v.push(c);
    }
    v
}

/// Appends `v[from..to]` to `buf`.
pub fn push_chars(buf: &mut String, v: &Vec<char>, from: usize, to: usize)
    requires
        from <= to <= v.len(),
    ensures
        final(buf)@ == old(buf)@ + v@.subrange(from as int, to as int),
{
    let mut i: usize = from;
    while i < to
        invariant
            from <= i <= to <= v.len(),
            buf@ == old(buf)@ + v@.subrange(from as int, i as int),
        decreases to - i,
    {
        push_char(buf, v[i]);
        i += 1;
        assert(v@.subrange(from as int, i as int) == v@.subrange(from as int, i - 1).push(v@[i - 1]));
    }
}

/// The characters `v[from..to]` as a new string.
pub fn string_of(v: &Vec<char>, from: usize, to: usize) -> (s: String)
    requires
        from <= to <= v.len(),
    ensures
        s@ == v@.subrange(from as int, to as int),
{
    let mut s = String::new();
    push_chars(&mut s, v, from, to);
    s
}

/// Whether two string slices hold the same text.
pub fn same_text(a: &str, b: &str) -> (r: bool)
    ensures
        r == (a@ == b@),
{
    let x = a.as_bytes();
    let y = b.as_bytes();
    proof {
        // Texts are equal exactly if their bytes are.
        vstd::utf8::encode_utf8_decode_utf8(a@);
        vstd::utf8::encode_utf8_decode_utf8(b@);
    }
    if x.len() != y.len() {
        return false;
    }
    let mut i: usize = 0;
    while i < x.len()
        invariant
            i <= x.len(),
            x.len() == y.len(),
            x@ == vstd::utf8::encode_utf8(a@),
            y@ == vstd::utf8::encode_utf8(b@),
            forall|j: int| 0 <= j < i ==> x@[j] == y@[j],
        decreases x.len() - i,
    {
        if x[i] != y[i] {
            return false;
        }
        i += 1;
    }
    assert(x@ =~= y@);
    true
}

/// `find_from` answers with an index between `from` and the length; the
/// character there is `c`, and no `c` stands before it.
pub proof fn lemma_find_from_bounds(s: Seq<char>, c: char, from: int)
    requires
        0 <= from <= s.len(),
    ensures
        from <= find_from(s, c, from) <= s.len(),
        find_from(s, c, from) < s.len() ==> s[find_from(s, c, from)] == c,
        forall|j: int| from <= j < find_from(s, c, from) ==> s[j] != c,
    decreases s.len() - from,
{
    if from < s.len() && s[from] != c {
        lemma_find_from_bounds(s, c, from + 1);
    }
}

/// Index of the first `c` in `v` at or after `from`, or `v.len()`.
pub fn find_char(v: &Vec<char>, c: char, from: usize) -> (i: usize)
    requires
        from <= v.len(),
    ensures
        i == find_from(v@, c, from as int),
        from <= i <= v.len(),
        i < v.len() ==> v@[i as int] == c,
        forall|j: int| from <= j < i ==> v@[j] != c,
{
    let mut i: usize = from;
    while i < v.len() && v[i] != c
        invariant
            from <= i <= v.len(),
            find_from(v@, c, from as int) == find_from(v@, c, i as int),
            forall|j: int| from <= j < i ==> v@[j] != c,
        decreases v.len() - i,
    {
        i += 1;
    }
    i
}

/// Joining splits off the first part.
pub proof fn lemma_join_first(parts: Seq<Seq<char>>, sep: Seq<char>)
    requires
        parts.len() >= 2,
    ensures
        join(parts, sep) == parts[0] + sep + join(parts.skip(1), sep),
    decreases parts.len(),
{
    if parts.len() == 2 {
        assert(join(parts.drop_last(), sep) == parts.drop_last()[0]);
        assert(join(parts.skip(1), sep) == parts.skip(1)[0]);
        assert(join(parts, sep) == join(parts.drop_last(), sep) + sep + parts.last());
        assert(join(parts, sep) =~= parts[0] + sep + join(parts.skip(1), sep));
    } else {
        lemma_join_first(parts.drop_last(), sep);
        assert(parts.drop_last().skip(1) =~= parts.skip(1).drop_last());
        assert(join(parts, sep) == join(parts.drop_last(), sep) + sep + parts.last());
        assert(join(parts.skip(1), sep) == join(parts.skip(1).drop_last(), sep) + sep
            + parts.skip(1).last());
        assert(join(parts, sep) =~= parts[0] + sep + join(parts.skip(1), sep));
    }
}

/// Cutting a text at every `c` and joining the fields with `c` gives the
/// text back.
pub proof fn lemma_join_split(s: Seq<char>, c: char)
    ensures
        join(split(s, c), seq![c]) == s,
        split(s, c).len() >= 1,
    decreases s.len(),
{
    let i = find_from(s, c, 0);
    lemma_find_from_bounds(s, c, 0);
    if i < s.len() {
        let rest = s.subrange(i + 1, s.len() as int);
        lemma_join_split(rest, c);
        let parts = split(s, c);
        assert(parts.skip(1) =~= split(rest, c));
        lemma_join_first(parts, seq![c]);
        assert(s =~= s.subrange(0, i) + seq![c] + rest);
    }
}

/// No field that `split` cuts holds the separator.
pub proof fn lemma_split_fields_clean(s: Seq<char>, c: char)
    ensures
        forall|i: int| 0 <= i < split(s, c).len() ==> !(#[trigger] split(s, c)[i]).contains(c),
    decreases s.len(),
{
    let k = find_from(s, c, 0);
    lemma_find_from_bounds(s, c, 0);
    if k < s.len() {
        let rest = s.subrange(k + 1, s.len() as int);
        lemma_split_fields_clean(rest, c);
        let parts = split(s, c);
        assert forall|i: int| 0 <= i < parts.len() implies !(#[trigger] parts[i]).contains(c) by {
            if i > 0 {
                assert(parts[i] == split(rest, c)[i - 1]);
            } else {
                let head = s.subrange(0, k);
                if head.contains(c) {
                    let j = choose|j: int| 0 <= j < head.len() && head[j] == c;
                    assert(s[j] == c);
                }
            }
        }
    } else {
        if s.contains(c) {
            let j = choose|j: int| 0 <= j < s.len() && s[j] == c;
        }
    }
}

/// Every character of a field that `split` cuts is a character of the text.
pub proof fn lemma_split_fields_within(s: Seq<char>, c: char, d: char)
    requires
        !s.contains(d),
    ensures
        forall|i: int| 0 <= i < split(s, c).len() ==> !(#[trigger] split(s, c)[i]).contains(d),
    decreases s.len(),
{
    let k = find_from(s, c, 0);
    lemma_find_from_bounds(s, c, 0);
    if k < s.len() {
        let rest = s.subrange(k + 1, s.len() as int);
        if rest.contains(d) {
            let j = choose|j: int| 0 <= j < rest.len() && rest[j] == d;
            assert(s[k + 1 + j] == d);
        }
        lemma_split_fields_within(rest, c, d);
        let parts = split(s, c);
        assert forall|i: int| 0 <= i < parts.len() implies !(#[trigger] parts[i]).contains(d) by {
            if i > 0 {
                assert(parts[i] == split(rest, c)[i - 1]);
            } else {
                let head = s.subrange(0, k);
                if head.contains(d) {
                    let j = choose|j: int| 0 <= j < head.len() && head[j] == d;
                    assert(s[j] == d);
                }
            }
        }
    }
}

/// A text without the separator is its own single field.
pub proof fn lemma_split_none(s: Seq<char>, c: char)
    requires
        !s.contains(c),
    ensures
        split(s, c) == seq![s],
{
    lemma_find_from_bounds(s, c, 0);
    let i = find_from(s, c, 0);
    if i < s.len() {
        assert(s[i] == c);
    }
}

/// A text that starts with a field free of the separator, followed by the
/// separator, has that field first and then the fields of the rest.
pub proof fn lemma_split_first(a: Seq<char>, b: Seq<char>, c: char)
    requires
        !a.contains(c),
    ensures
        split(a + seq![c] + b, c) == seq![a] + split(b, c),
{
    let s = a + seq![c] + b;
    let n = a.len() as int;
    assert forall|i: int| 0 <= i < n implies s[i] != c by {
        assert(a[i] == s[i]);
        assert(a.contains(a[i]));
    }
    assert(s[n] == c);
    lemma_find_from_bounds(s, c, 0);
    let i = find_from(s, c, 0);
    assert(i == n);
    assert(s.subrange(0, n) =~= a);
    assert(s.subrange(n + 1, s.len() as int) =~= b);
}

/// Cutting what was joined gives the parts back, where no part holds the
/// separator.
pub proof fn lemma_split_join(parts: Seq<Seq<char>>, c: char)
    requires
        parts.len() >= 1,
        forall|i: int| 0 <= i < parts.len() ==> !(#[trigger] parts[i]).contains(c),
    ensures
        split(join(parts, seq![c]), c) == parts,
    decreases parts.len(),
{
    if parts.len() == 1 {
        lemma_split_none(parts[0], c);
        assert(seq![parts[0]] =~= parts);
    } else {
        let rest = parts.skip(1);
        assert forall|i: int| 0 <= i < rest.len() implies !(#[trigger] rest[i]).contains(c) by {
            assert(rest[i] == parts[i + 1]);
        }
        lemma_split_join(rest, c);
        lemma_join_first(parts, seq![c]);
        lemma_split_first(parts[0], join(rest, seq![c]), c);
        assert(seq![parts[0]] + rest =~= parts);
    }
}

/// A text holds a character if its first part or its second part does.
pub proof fn lemma_contains_add(a: Seq<char>, b: Seq<char>, d: char)
    ensures
        (a + b).contains(d) == (a.contains(d) || b.contains(d)),
{
    let s = a + b;
    if s.contains(d) {
        let i = choose|i: int| 0 <= i < s.len() && s[i] == d;
        if i < a.len() {
            assert(a[i] == d);
        } else {
            assert(b[i - a.len()] == d);
        }
    }
    if a.contains(d) {
        let i = choose|i: int| 0 <= i < a.len() && a[i] == d;
        assert(s[i] == d);
    }
    if b.contains(d) {
        let i = choose|i: int| 0 <= i < b.len() && b[i] == d;
        assert(s[a.len() + i] == d);
    }
}

/// What is concatenated from parts free of a character is free of it.
pub proof fn lemma_concat_free(parts: Seq<Seq<char>>, d: char)
    requires
        forall|i: int| 0 <= i < parts.len() ==> !(#[trigger] parts[i]).contains(d),
    ensures
        !concat(parts).contains(d),
    decreases parts.len(),
{
    if parts.len() > 0 {
        let init = parts.drop_last();
        assert forall|i: int| 0 <= i < init.len() implies !(#[trigger] init[i]).contains(d) by {
            assert(init[i] == parts[i]);
        }
        lemma_concat_free(init, d);
        lemma_contains_add(concat(init), parts.last(), d);
    } else {
        if concat(parts).contains(d) {
            let i = choose|i: int| 0 <= i < concat(parts).len() && concat(parts)[i] == d;
        }
    }
}

/// What is joined from parts free of a character, with a separator free of
/// it, is free of it.
pub proof fn lemma_join_free(parts: Seq<Seq<char>>, sep: Seq<char>, d: char)
    requires
        forall|i: int| 0 <= i < parts.len() ==> !(#[trigger] parts[i]).contains(d),
        !sep.contains(d),
    ensures
        !join(parts, sep).contains(d),
    decreases parts.len(),
{
    if parts.len() > 1 {
        let init = parts.drop_last();
        assert forall|i: int| 0 <= i < init.len() implies !(#[trigger] init[i]).contains(d) by {
            assert(init[i] == parts[i]);
        }
        lemma_join_free(init, sep, d);
        lemma_contains_add(join(init, sep), sep, d);
        lemma_contains_add(join(init, sep) + sep, parts.last(), d);
    } else if parts.len() == 0 {
        if join(parts, sep).contains(d) {
            let i = choose|i: int| 0 <= i < join(parts, sep).len() && join(parts, sep)[i] == d;
        }
    }
}

} // verus!
