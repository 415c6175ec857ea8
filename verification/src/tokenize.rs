//! Cutting text into words by the script of its characters.
use vstd::prelude::*;
use crate::alphabet::Alphabet;
use crate::text::{texts, to_chars};
use crate::trait_ext::{char_alphabet, JapaneseExt};

verus! {

/// Whether a character `c` ends the word that `first` has begun: its
/// alphabet is another one. With `kana_same` hiragana and katakana count as
/// one alphabet.
pub open spec fn breaks(first: char, c: char, kana_same: bool) -> bool {
    if kana_same {
        !char_alphabet(first).same_kana(char_alphabet(c))
    } else {
        !char_alphabet(first).matches(char_alphabet(c))
    }
}

/// Where the word that starts at `start` ends, looking from `j` on: at the
/// first character that breaks it, or at the end of the text.
pub open spec fn word_end(s: Seq<char>, start: int, j: int, kana_same: bool) -> int
    decreases s.len() - j,
{
    if j >= s.len() || j < 0 || start < 0 || start >= s.len() {
        s.len() as int
    } else if breaks(s[start], s[j], kana_same) {
        j
    } else {
        word_end(s, start, j + 1, kana_same)
    }
}

/// The words of `s` from position `k` on: each runs as far as the alphabet
/// of its first character goes.
pub open spec fn words_from(s: Seq<char>, k: int, kana_same: bool) -> Seq<Seq<char>>
    decreases s.len() - k,
{
    if k < 0 || k >= s.len() {
        Seq::empty()
    } else {
        let e = word_end(s, k, k + 1, kana_same);
        proof {
            lemma_word_end(s, k, k + 1, kana_same);
        }
        seq![s.subrange(k, e)] + words_from(s, e, kana_same)
    }
}

/// `word_end` answers with a position between `j` and the end of the text.
pub proof fn lemma_word_end(s: Seq<char>, start: int, j: int, kana_same: bool)
    requires
        0 <= start < j <= s.len(),
    ensures
        j <= word_end(s, start, j, kana_same) <= s.len(),
    decreases s.len() - j,
{
    if j < s.len() && !breaks(s[start], s[j], kana_same) {
        lemma_word_end(s, start, j + 1, kana_same);
    }
}

/// Cuts a text into words of one alphabet each. With `kana_same` hiragana
/// and katakana are not kept apart.
pub fn by_alphabet<'a>(kanji: &'a str, kana_same: bool) -> (r: Vec<&'a str>)
    ensures
        texts(r@) == words_from(kanji@, 0, kana_same),
{
    let v = to_chars(kanji);
    let mut out: Vec<&'a str> = Vec::new();
    let mut k: usize = 0;
    assert(texts(out@) + words_from(v@, 0, kana_same) =~= words_from(v@, 0, kana_same));
    while k < v.len()
        invariant
            k <= v.len(),
            v@ == kanji@,
            texts(out@) + words_from(v@, k as int, kana_same) == words_from(v@, 0, kana_same),
        decreases v.len() - k,
    {
        let first = v[k].get_alphabet();
        let mut e: usize = k + 1;
        while e < v.len() && !differs(first, v[e].get_alphabet(), kana_same)
            invariant
                k < e <= v.len(),
                first == char_alphabet(v@[k as int]),
                word_end(v@, k as int, k + 1, kana_same) == word_end(
                    v@,
                    k as int,
                    e as int,
                    kana_same,
                ),
            decreases v.len() - e,
        {
            e += 1;
        }
        let ghost before = texts(out@);
        out.push(kanji.substring_char(k, e));
        proof {
            assert(texts(out@) =~= before.push(v@.subrange(k as int, e as int)));
            assert(texts(out@) + words_from(v@, e as int, kana_same) =~= before + words_from(
                v@,
                k as int,
                kana_same,
            ));
        }
        k = e;
    }
    assert(texts(out@) + words_from(v@, k as int, kana_same) =~= texts(out@));
    out
}

/// Whether two alphabets differ, with or without keeping the kana apart.
fn differs(first: Alphabet, other: Alphabet, kana_same: bool) -> (r: bool)
    ensures
        r == (if kana_same {
            !first.same_kana(other)
        } else {
            !first.matches(other)
        }),
{
    if kana_same {
        !first.eq_both_kana(&other)
    } else {
        first != other
    }
}

/// Where the run of characters of the alphabet ends, looking from `j` on.
pub open spec fn run_end(s: Seq<char>, j: int, alphabet: Alphabet) -> int
    decreases s.len() - j,
{
    if j >= s.len() || j < 0 {
        s.len() as int
    } else if !char_alphabet(s[j]).matches(alphabet) {
        j
    } else {
        run_end(s, j + 1, alphabet)
    }
}

/// `run_end` answers with a position between `j` and the end of the text.
pub proof fn lemma_run_end(s: Seq<char>, j: int, alphabet: Alphabet)
    requires
        0 <= j <= s.len(),
    ensures
        j <= run_end(s, j, alphabet) <= s.len(),
    decreases s.len() - j,
{
    if j < s.len() && char_alphabet(s[j]).matches(alphabet) {
        lemma_run_end(s, j + 1, alphabet);
    }
}

/// The longest runs of characters of the alphabet in `s` from `k` on.
pub open spec fn runs_from(s: Seq<char>, k: int, alphabet: Alphabet) -> Seq<Seq<char>>
    decreases s.len() - k,
{
    if k < 0 || k >= s.len() {
        Seq::empty()
    } else if !char_alphabet(s[k]).matches(alphabet) {
        runs_from(s, k + 1, alphabet)
    } else {
        let e = run_end(s, k + 1, alphabet);
        proof {
            lemma_run_end(s, k + 1, alphabet);
        }
        seq![s.subrange(k, e)] + runs_from(s, e, alphabet)
    }
}

/// The text without the white space at its start and at its end, as
/// `str::trim` takes it off.
pub uninterp spec fn trimmed(s: Seq<char>) -> Seq<char>;

/// `str::trim`: the slice without leading and trailing white space.
#[verifier::external_body]
fn trim<'a>(s: &'a str) -> (r: &'a str)
    ensures
        r@ == trimmed(s@),
{
    s.trim()
}

/// The longest stretches of `inp` whose characters are all of the given
/// alphabet.
pub fn words_in<'a>(inp: &'a str, alphabet: Alphabet) -> (r: Vec<&'a str>)
    ensures
        texts(r@) == runs_from(inp@, 0, alphabet),
{
    let v = to_chars(inp);
    let mut out: Vec<&'a str> = Vec::new();
    let mut k: usize = 0;
    assert(texts(out@) + runs_from(v@, 0, alphabet) =~= runs_from(v@, 0, alphabet));
    while k < v.len()
        invariant
            k <= v.len(),
            v@ == inp@,
            texts(out@) + runs_from(v@, k as int, alphabet) == runs_from(v@, 0, alphabet),
        decreases v.len() - k,
    {
        if v[k].get_alphabet() != alphabet {
            k += 1;
        } else {
            let mut e: usize = k + 1;
            while e < v.len() && v[e].get_alphabet() == alphabet
                invariant
                    k < e <= v.len(),
                    run_end(v@, k + 1, alphabet) == run_end(v@, e as int, alphabet),
                decreases v.len() - e,
            {
                e += 1;
            }
            let ghost before = texts(out@);
            out.push(inp.substring_char(k, e));
            proof {
                assert(texts(out@) =~= before.push(v@.subrange(k as int, e as int)));
                assert(texts(out@) + runs_from(v@, e as int, alphabet) =~= before + runs_from(
                    v@,
                    k as int,
                    alphabet,
                ));
            }
            k = e;
        }
    }
    assert(texts(out@) + runs_from(v@, k as int, alphabet) =~= texts(out@));
    out
}

/// The longest stretches of `inp`, white space at its ends left aside,
/// whose characters are all of the given alphabet.
pub fn words_with_alphabet<'a>(inp: &'a str, alphabet: Alphabet) -> (r: Vec<&'a str>)
    ensures
        texts(r@) == runs_from(trimmed(inp@), 0, alphabet),
{
    words_in(trim(inp), alphabet)
}

} // verus!
