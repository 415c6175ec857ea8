//! Questions about the script of characters and strings.
use vstd::prelude::*;
use crate::alphabet::{Alphabet, Kana};
use crate::text::to_chars;

verus! {

/// A class of characters.
#[derive(Clone, Copy, Debug, PartialEq, Eq, Structural)]
pub enum CharClass {
    Hiragana,
    Katakana,
    /// Hiragana or katakana.
    Kana,
    Kanji,
    /// Japanese symbols and punctuation.
    Symbol,
    /// Full-width roman letters and related punctuation.
    Roman,
    /// Kana, kanji, symbols or roman letters.
    Japanese,
    SmallKatakana,
    SmallHiragana,
    /// One of the single-character particles.
    Particle,
}

/// Whether `c` is a hiragana character.
pub open spec fn is_hiragana_char(c: char) -> bool {
    '\u{3040}' <= c <= '\u{309F}'
}

/// Whether `c` is a katakana character.
pub open spec fn is_katakana_char(c: char) -> bool {
    '\u{30A0}' <= c <= '\u{30FF}'
}

/// Whether `c` is a kanji, a full-width digit or the iteration mark.
pub open spec fn is_kanji_char(c: char) -> bool {
    ||| '\u{3400}' <= c <= '\u{4DBF}'
    ||| '\u{4E00}' <= c <= '\u{9FFF}'
    ||| '\u{F900}' <= c <= '\u{FAFF}'
    ||| '\u{FF10}' <= c <= '\u{FF19}'
    ||| '\u{20000}' <= c <= '\u{2A6DF}'
    ||| c == '\u{29E8A}'
    ||| c == '\u{3005}'
}

/// Whether `c` is a symbol.
pub open spec fn is_symbol_char(c: char) -> bool {
    ||| ('\u{3000}' <= c <= '\u{303F}' && c != '\u{3005}')
    ||| '\u{0370}' <= c <= '\u{03FF}'
    ||| '\u{25A0}' <= c <= '\u{25FF}'
    ||| '\u{FF01}' <= c <= '\u{FF0F}'
    ||| '\u{FF1A}' <= c <= '\u{FF20}'
    ||| '\u{FF3B}' <= c <= '\u{FF40}'
    ||| '\u{FF5B}' <= c <= '\u{FF5E}'
    ||| c == '\u{002D}'
    ||| c == '\u{00D7}'
}

/// Whether `c` is a full-width roman letter or related punctuation.
pub open spec fn is_roman_char(c: char) -> bool {
    ||| '\u{FF01}' <= c <= '\u{FF5A}'
    ||| '\u{2000}' <= c <= '\u{206F}'
    ||| '\u{20000}' <= c <= '\u{2A6DF}'
    ||| c == '\u{2010}'
    ||| c == '\u{2212}'
}

/// Whether `c` is a small katakana letter.
pub open spec fn is_small_katakana_char(c: char) -> bool {
    ||| c == '\u{30E3}'
    ||| c == '\u{30E5}'
    ||| c == '\u{30E7}'
    ||| c == '\u{30A1}'
    ||| c == '\u{30A3}'
    ||| c == '\u{30A5}'
    ||| c == '\u{30A7}'
    ||| c == '\u{30A9}'
}

/// Whether `c` is a small hiragana letter.
pub open spec fn is_small_hiragana_char(c: char) -> bool {
    ||| c == '\u{3083}'
    ||| c == '\u{3085}'
    ||| c == '\u{3087}'
    ||| c == '\u{3041}'
    ||| c == '\u{3043}'
    ||| c == '\u{3045}'
    ||| c == '\u{3047}'
    ||| c == '\u{3049}'
}

/// Whether `c` is one of the particles を の に と が か は も で へ や.
pub open spec fn is_particle_char(c: char) -> bool {
    ||| c == 'を'
    ||| c == 'の'
    ||| c == 'に'
    ||| c == 'と'
    ||| c == 'が'
    ||| c == 'か'
    ||| c == 'は'
    ||| c == 'も'
    ||| c == 'で'
    ||| c == 'へ'
    ||| c == 'や'
}

/// The alphabet of a single character. Roman letters count as kanji.
pub open spec fn char_alphabet(c: char) -> Alphabet {
    if is_symbol_char(c) {
        Alphabet::Symbol
    } else if is_katakana_char(c) {
        Alphabet::Kana(Kana::Katakana)
    } else if is_hiragana_char(c) {
        Alphabet::Kana(Kana::Hiragana)
    } else if is_kanji_char(c) || is_roman_char(c) {
        Alphabet::Kanji
    } else {
        Alphabet::Other
    }
}

/// Whether `c` is a hiragana or katakana character.
fn in_kana(c: char) -> (r: bool)
    ensures
        r == (is_hiragana_char(c) || is_katakana_char(c)),
{
    (c >= '\u{3040}' && c <= '\u{309F}') || (c >= '\u{30A0}' && c <= '\u{30FF}')
}

/// Whether `c` is a kanji, a full-width digit or the iteration mark.
fn in_kanji(c: char) -> (r: bool)
    ensures
        r == is_kanji_char(c),
{
    (c >= '\u{3400}' && c <= '\u{4DBF}') || (c >= '\u{4E00}' && c <= '\u{9FFF}') || (c
        >= '\u{F900}' && c <= '\u{FAFF}') || (c >= '\u{FF10}' && c <= '\u{FF19}') || (c
        >= '\u{20000}' && c <= '\u{2A6DF}') || c == '\u{29E8A}' || c == '\u{3005}'
}

/// Whether `c` is a symbol.
fn in_symbol(c: char) -> (r: bool)
    ensures
        r == is_symbol_char(c),
{
    (c >= '\u{3000}' && c <= '\u{303F}' && c != '\u{3005}') || (c >= '\u{0370}' && c
        <= '\u{03FF}') || (c >= '\u{25A0}' && c <= '\u{25FF}') || (c >= '\u{FF01}' && c
        <= '\u{FF0F}') || (c >= '\u{FF1A}' && c <= '\u{FF20}') || (c >= '\u{FF3B}' && c
        <= '\u{FF40}') || (c >= '\u{FF5B}' && c <= '\u{FF5E}') || c == '\u{002D}' || c
        == '\u{00D7}'
}

/// Whether `c` is a full-width roman letter or related punctuation.
fn in_roman(c: char) -> (r: bool)
    ensures
        r == is_roman_char(c),
{
    (c >= '\u{FF01}' && c <= '\u{FF5A}') || (c >= '\u{2000}' && c <= '\u{206F}') || (c
        >= '\u{20000}' && c <= '\u{2A6DF}') || c == '\u{2010}' || c == '\u{2212}'
}

impl CharClass {
    /// Whether `c` belongs to the class.
    pub open spec fn holds(self, c: char) -> bool {
        match self {
            CharClass::Hiragana => is_hiragana_char(c),
            CharClass::Katakana => is_katakana_char(c),
            CharClass::Kana => is_hiragana_char(c) || is_katakana_char(c),
            CharClass::Kanji => is_kanji_char(c),
            CharClass::Symbol => is_symbol_char(c),
            CharClass::Roman => is_roman_char(c),
            CharClass::Japanese => is_hiragana_char(c) || is_katakana_char(c) || is_kanji_char(c)
                || is_symbol_char(c) || is_roman_char(c),
            CharClass::SmallKatakana => is_small_katakana_char(c),
            CharClass::SmallHiragana => is_small_hiragana_char(c),
            CharClass::Particle => is_particle_char(c),
        }
    }

    /// Whether `c` belongs to the class.
    pub fn contains(&self, c: char) -> (r: bool)
        ensures
            r == self.holds(c),
    {
        match self {
            CharClass::Hiragana => c >= '\u{3040}' && c <= '\u{309F}',
            CharClass::Katakana => c >= '\u{30A0}' && c <= '\u{30FF}',
            CharClass::Kana => in_kana(c),
            CharClass::Kanji => in_kanji(c),
            CharClass::Symbol => in_symbol(c),
            CharClass::Roman => in_roman(c),
            CharClass::Japanese => in_kana(c) || in_kanji(c) || in_symbol(c) || in_roman(c),
            CharClass::SmallKatakana => c == '\u{30E3}' || c == '\u{30E5}' || c == '\u{30E7}' || c
                == '\u{30A1}' || c == '\u{30A3}' || c == '\u{30A5}' || c == '\u{30A7}' || c
                == '\u{30A9}',
            CharClass::SmallHiragana => c == '\u{3083}' || c == '\u{3085}' || c == '\u{3087}' || c
                == '\u{3041}' || c == '\u{3043}' || c == '\u{3045}' || c == '\u{3047}' || c
                == '\u{3049}',
            CharClass::Particle => c == 'を' || c == 'の' || c == 'に' || c == 'と' || c == 'が'
                || c == 'か' || c == 'は' || c == 'も' || c == 'で' || c == 'へ' || c == 'や',
        }
    }
}

/// Whether every character of `s` belongs to the class.
pub open spec fn all_of(s: Seq<char>, class: CharClass) -> bool {
    forall|i: int| 0 <= i < s.len() ==> class.holds(#[trigger] s[i])
}

/// Whether some character of `s` belongs to the class.
pub open spec fn any_of(s: Seq<char>, class: CharClass) -> bool {
    exists|i: int| 0 <= i < s.len() && class.holds(#[trigger] s[i])
}

/// The number of characters of `s` that belong to the class.
pub open spec fn count_of(s: Seq<char>, class: CharClass) -> nat
    decreases s.len(),
{
    if s.len() == 0 {
        0
    } else {
        count_of(s.drop_last(), class) + if class.holds(s.last()) {
            1nat
        } else {
            0nat
        }
    }
}

/// The alphabet of a text: that of symbols, kanji, hiragana or katakana if
/// all its characters are of that kind, tried in this order.
pub open spec fn text_alphabet(s: Seq<char>) -> Alphabet {
    if all_of(s, CharClass::Symbol) {
        Alphabet::Symbol
    } else if all_of(s, CharClass::Kanji) {
        Alphabet::Kanji
    } else if all_of(s, CharClass::Hiragana) {
        Alphabet::Kana(Kana::Hiragana)
    } else if all_of(s, CharClass::Katakana) {
        Alphabet::Kana(Kana::Katakana)
    } else {
        Alphabet::Other
    }
}

/// Whether every character of `s` belongs to the class.
pub fn all_in(s: &str, class: CharClass) -> (r: bool)
    ensures
        r == all_of(s@, class),
{
    let v = to_chars(s);
    let mut i: usize = 0;
    while i < v.len()
        invariant
            i <= v.len(),
            v@ == s@,
            forall|j: int| 0 <= j < i ==> class.holds(#[trigger] v@[j]),
        decreases v.len() - i,
    {
        if !class.contains(v[i]) {
            return false;
        }
        i += 1;
    }
    true
}

/// Whether some character of `s` belongs to the class.
pub fn any_in(s: &str, class: CharClass) -> (r: bool)
    ensures
        r == any_of(s@, class),
{
    let v = to_chars(s);
    let mut i: usize = 0;
    while i < v.len()
        invariant
            i <= v.len(),
            v@ == s@,
            forall|j: int| 0 <= j < i ==> !class.holds(#[trigger] v@[j]),
        decreases v.len() - i,
    {
        if class.contains(v[i]) {
            return true;
        }
        i += 1;
    }
    false
}

/// The number of characters of `s` that belong to the class.
pub fn count_in(s: &str, class: CharClass) -> (r: usize)
    ensures
        r == count_of(s@, class),
{
    let v = to_chars(s);
    let mut n: usize = 0;
    let mut i: usize = 0;
    while i < v.len()
        invariant
            i <= v.len(),
            v@ == s@,
            n <= i,
            n == count_of(v@.take(i as int), class),
        decreases v.len() - i,
    {
        proof {
            assert(v@.take(i + 1).drop_last() =~= v@.take(i as int));
        }
        if class.contains(v[i]) {
            n += 1;
        }
        i += 1;
    }
    assert(v@.take(i as int) =~= v@);
    n
}

/// Questions about the script of a character or a string. A string is of a
/// kind if all its characters are, and has a kind if one of them is.
pub trait JapaneseExt {
    /// The characters that are asked about.
    spec fn chars(&self) -> Seq<char>;

    /// The alphabet of the value.
    spec fn alphabet(&self) -> Alphabet;

    /// Whether the value is of the given alphabet.
    fn is_in_alphabet(&self, a: Alphabet) -> (r: bool)
        ensures
            r == self.alphabet().matches(a),
    ;

    /// The alphabet of the value.
    fn get_alphabet(&self) -> (r: Alphabet)
        ensures
            r == self.alphabet(),
    ;

    /// Whether there is a kana character.
    fn has_kana(&self) -> (r: bool)
        ensures
            r == any_of(self.chars(), CharClass::Kana),
    ;

    /// Whether all is written in kana.
    fn is_kana(&self) -> (r: bool)
        ensures
            r == all_of(self.chars(), CharClass::Kana),
    ;

    /// Whether all is written in kanji.
    fn is_kanji(&self) -> (r: bool)
        ensures
            r == all_of(self.chars(), CharClass::Kanji),
    ;

    /// Whether there is a kanji.
    fn has_kanji(&self) -> (r: bool)
        ensures
            r == any_of(self.chars(), CharClass::Kanji),
    ;

    /// Whether all is Japanese: kana, kanji, symbols or roman letters.
    fn is_japanese(&self) -> (r: bool)
        ensures
            r == all_of(self.chars(), CharClass::Japanese),
    ;

    /// Whether there is a Japanese character.
    fn has_japanese(&self) -> (r: bool)
        ensures
            r == any_of(self.chars(), CharClass::Japanese),
    ;

    /// Whether all is written in katakana.
    fn is_katakana(&self) -> (r: bool)
        ensures
            r == all_of(self.chars(), CharClass::Katakana),
    ;

    /// Whether there is a katakana character.
    fn has_katakana(&self) -> (r: bool)
        ensures
            r == any_of(self.chars(), CharClass::Katakana),
    ;

    /// Whether all is written in hiragana.
    fn is_hiragana(&self) -> (r: bool)
        ensures
            r == all_of(self.chars(), CharClass::Hiragana),
    ;

    /// The number of kanji.
    fn kanji_count(&self) -> (r: usize)
        ensures
            r == count_of(self.chars(), CharClass::Kanji),
    ;

    /// Whether all characters are symbols.
    fn is_symbol(&self) -> (r: bool)
        ensures
            r == all_of(self.chars(), CharClass::Symbol),
    ;

    /// Whether there is a symbol.
    fn has_symbol(&self) -> (r: bool)
        ensures
            r == any_of(self.chars(), CharClass::Symbol),
    ;

    /// Whether there is a roman letter.
    fn has_roman_letter(&self) -> (r: bool)
        ensures
            r == any_of(self.chars(), CharClass::Roman),
    ;

    /// Whether all characters are roman letters.
    fn is_roman_letter(&self) -> (r: bool)
        ensures
            r == all_of(self.chars(), CharClass::Roman),
    ;

    /// Whether all characters are small katakana letters.
    fn is_small_katakana(&self) -> (r: bool)
        ensures
            r == all_of(self.chars(), CharClass::SmallKatakana),
    ;

    /// Whether all characters are small hiragana letters.
    fn is_small_hiragana(&self) -> (r: bool)
        ensures
            r == all_of(self.chars(), CharClass::SmallHiragana),
    ;

    /// Whether all characters are small katakana letters, or all are small
    /// hiragana letters.
    fn is_small_kana(&self) -> (r: bool)
        ensures
            r == (all_of(self.chars(), CharClass::SmallKatakana) || all_of(
                self.chars(),
                CharClass::SmallHiragana,
            )),
    ;

    /// Whether all characters are particles.
    fn is_particle(&self) -> (r: bool)
        ensures
            r == all_of(self.chars(), CharClass::Particle),
    ;

    /// Whether the first character is of the given alphabet.
    fn starts_with_alphabet(&self, a: Alphabet) -> (r: bool)
        ensures
            r == (self.chars().len() > 0 && char_alphabet(self.chars()[0]).matches(a)),
    ;

    /// The number of characters.
    fn real_len(&self) -> (r: usize)
        ensures
            r == self.chars().len(),
    ;
}

impl JapaneseExt for char {
    open spec fn chars(&self) -> Seq<char> {
        seq![*self]
    }

    open spec fn alphabet(&self) -> Alphabet {
        char_alphabet(*self)
    }

    fn is_in_alphabet(&self, a: Alphabet) -> (r: bool) {
        self.get_alphabet() == a
    }

    fn get_alphabet(&self) -> (r: Alphabet) {
        if CharClass::Symbol.contains(*self) {
            Alphabet::Symbol
        } else if CharClass::Katakana.contains(*self) {
            Alphabet::katakana()
        } else if CharClass::Hiragana.contains(*self) {
            Alphabet::hiragana()
        } else if CharClass::Kanji.contains(*self) || CharClass::Roman.contains(*self) {
            Alphabet::Kanji
        } else {
            Alphabet::Other
        }
    }

    fn has_kana(&self) -> (r: bool) {
        let r = CharClass::Kana.contains(*self);
        proof {
            lemma_single(*self, CharClass::Kana);
        }
        r
    }

    fn is_kana(&self) -> (r: bool) {
        let r = CharClass::Kana.contains(*self);
        proof {
            lemma_single(*self, CharClass::Kana);
        }
        r
    }

    fn is_kanji(&self) -> (r: bool) {
        let r = CharClass::Kanji.contains(*self);
        proof {
            lemma_single(*self, CharClass::Kanji);
        }
        r
    }

    fn has_kanji(&self) -> (r: bool) {
        let r = CharClass::Kanji.contains(*self);
        proof {
            lemma_single(*self, CharClass::Kanji);
        }
        r
    }

    fn is_japanese(&self) -> (r: bool) {
        let r = CharClass::Japanese.contains(*self);
        proof {
            lemma_single(*self, CharClass::Japanese);
        }
        r
    }

    fn has_japanese(&self) -> (r: bool) {
        let r = CharClass::Japanese.contains(*self);
        proof {
            lemma_single(*self, CharClass::Japanese);
        }
        r
    }

    fn is_katakana(&self) -> (r: bool) {
        let r = CharClass::Katakana.contains(*self);
        proof {
            lemma_single(*self, CharClass::Katakana);
        }
        r
    }

    fn has_katakana(&self) -> (r: bool) {
        let r = CharClass::Katakana.contains(*self);
        proof {
            lemma_single(*self, CharClass::Katakana);
        }
        r
    }

    fn is_hiragana(&self) -> (r: bool) {
        let r = CharClass::Hiragana.contains(*self);
        proof {
            lemma_single(*self, CharClass::Hiragana);
        }
        r
    }

    fn kanji_count(&self) -> (r: usize) {
        proof {
            lemma_single(*self, CharClass::Kanji);
        }
        if CharClass::Kanji.contains(*self) {
            1
        } else {
            0
        }
    }

    fn is_symbol(&self) -> (r: bool) {
        let r = CharClass::Symbol.contains(*self);
        proof {
            lemma_single(*self, CharClass::Symbol);
        }
        r
    }

    fn has_symbol(&self) -> (r: bool) {
        let r = CharClass::Symbol.contains(*self);
        proof {
            lemma_single(*self, CharClass::Symbol);
        }
        r
    }

    fn has_roman_letter(&self) -> (r: bool) {
        let r = CharClass::Roman.contains(*self);
        proof {
            lemma_single(*self, CharClass::Roman);
        }
        r
    }

    fn is_roman_letter(&self) -> (r: bool) {
        let r = CharClass::Roman.contains(*self);
        proof {
            lemma_single(*self, CharClass::Roman);
        }
        r
    }

    fn is_small_katakana(&self) -> (r: bool) {
        let r = CharClass::SmallKatakana.contains(*self);
        proof {
            lemma_single(*self, CharClass::SmallKatakana);
        }
        r
    }

    fn is_small_hiragana(&self) -> (r: bool) {
        let r = CharClass::SmallHiragana.contains(*self);
        proof {
            lemma_single(*self, CharClass::SmallHiragana);
        }
        r
    }

    fn is_small_kana(&self) -> (r: bool) {
        self.is_small_katakana() || self.is_small_hiragana()
    }

    fn is_particle(&self) -> (r: bool) {
        let r = CharClass::Particle.contains(*self);
        proof {
            lemma_single(*self, CharClass::Particle);
        }
        r
    }

    fn starts_with_alphabet(&self, a: Alphabet) -> (r: bool) {
        self.is_in_alphabet(a)
    }

    fn real_len(&self) -> (r: usize) {
        1
    }
}

impl JapaneseExt for str {
    open spec fn chars(&self) -> Seq<char> {
        self@
    }

    open spec fn alphabet(&self) -> Alphabet {
        text_alphabet(self@)
    }

    fn is_in_alphabet(&self, a: Alphabet) -> (r: bool) {
        self.get_alphabet() == a
    }

    fn get_alphabet(&self) -> (r: Alphabet) {
        if self.is_symbol() {
            Alphabet::Symbol
        } else if self.is_kanji() {
            Alphabet::Kanji
        } else if self.is_hiragana() {
            Alphabet::hiragana()
        } else if self.is_katakana() {
            Alphabet::katakana()
        } else {
            Alphabet::Other
        }
    }

    fn has_kana(&self) -> (r: bool) {
        any_in(self, CharClass::Kana)
    }

    fn is_kana(&self) -> (r: bool) {
        all_in(self, CharClass::Kana)
    }

    fn is_kanji(&self) -> (r: bool) {
        all_in(self, CharClass::Kanji)
    }

    fn has_kanji(&self) -> (r: bool) {
        any_in(self, CharClass::Kanji)
    }

    fn is_japanese(&self) -> (r: bool) {
        all_in(self, CharClass::Japanese)
    }

    fn has_japanese(&self) -> (r: bool) {
        any_in(self, CharClass::Japanese)
    }

    fn is_katakana(&self) -> (r: bool) {
        all_in(self, CharClass::Katakana)
    }

    fn has_katakana(&self) -> (r: bool) {
        any_in(self, CharClass::Katakana)
    }

    fn is_hiragana(&self) -> (r: bool) {
        all_in(self, CharClass::Hiragana)
    }

    fn kanji_count(&self) -> (r: usize) {
        count_in(self, CharClass::Kanji)
    }

    fn is_symbol(&self) -> (r: bool) {
        all_in(self, CharClass::Symbol)
    }

    fn has_symbol(&self) -> (r: bool) {
        any_in(self, CharClass::Symbol)
    }

    fn has_roman_letter(&self) -> (r: bool) {
        any_in(self, CharClass::Roman)
    }

    fn is_roman_letter(&self) -> (r: bool) {
        all_in(self, CharClass::Roman)
    }

    fn is_small_katakana(&self) -> (r: bool) {
        all_in(self, CharClass::SmallKatakana)
    }

    fn is_small_hiragana(&self) -> (r: bool) {
        all_in(self, CharClass::SmallHiragana)
    }

    fn is_small_kana(&self) -> (r: bool) {
        self.is_small_katakana() || self.is_small_hiragana()
    }

    fn is_particle(&self) -> (r: bool) {
        all_in(self, CharClass::Particle)
    }

    fn starts_with_alphabet(&self, a: Alphabet) -> (r: bool) {
        if self.is_empty() {
            false
        } else {
            self.get_char(0).is_in_alphabet(a)
        }
    }

    fn real_len(&self) -> (r: usize) {
        self.unicode_len()
    }
}

/// Of a single character, "all" and "some" both ask about that character.
pub proof fn lemma_single(c: char, class: CharClass)
    ensures
        all_of(seq![c], class) == class.holds(c),
        any_of(seq![c], class) == class.holds(c),
        count_of(seq![c], class) == (if class.holds(c) {
            1nat
        } else {
            0nat
        }),
{
    let s = seq![c];
    assert(s[0] == c);
    assert(s.drop_last() =~= Seq::<char>::empty());
    assert(count_of(s.drop_last(), class) == 0);
}

} // verus!
