//! The scripts that Japanese text is written in.
use vstd::prelude::*;
use vstd::std_specs::cmp::PartialEqSpecImpl;

verus! {

/// The script of a piece of text.
#[derive(Clone, Copy, Debug, Eq)]
pub enum Alphabet {
    Kana(Kana),
    Kanji,
    Symbol,
    Romaji,
    Other,
}

/// The kind of kana.
#[derive(Clone, Copy, Debug, Eq)]
pub enum Kana {
    Hiragana,
    Katakana,
    /// Stands for either of the two when compared.
    Both,
}

impl Alphabet {
    /// Whether the alphabet is hiragana.
    pub fn is_hiragana(&self) -> (r: bool)
        ensures
            r == (*self matches Alphabet::Kana(k) && k is Hiragana),
    {
        match self {
            Alphabet::Kana(k) => k.is_hiragana(),
            _ => false,
        }
    }

    /// Whether the alphabet is katakana.
    pub fn is_katakana(&self) -> (r: bool)
        ensures
            r == (*self matches Alphabet::Kana(k) && k is Katakana),
    {
        match self {
            Alphabet::Kana(k) => k.is_katakana(),
            _ => false,
        }
    }

    /// Whether the alphabet is one of the two kana alphabets.
    pub fn is_kana(&self) -> (r: bool)
        ensures
            r == (*self matches Alphabet::Kana(k) && (k is Hiragana || k is Katakana)),
    {
        self.is_hiragana() || self.is_katakana()
    }

    /// Whether the alphabet is kanji.
    pub fn is_kanji(&self) -> (r: bool)
        ensures
            r == (*self is Kanji),
    {
        matches!(self, Self::Kanji)
    }

    /// Whether the alphabet is hiragana, katakana or kanji.
    pub fn is_japanese(&self) -> (r: bool)
        ensures
            r == (*self is Kanji || (*self matches Alphabet::Kana(k) && (k is Hiragana
                || k is Katakana))),
    {
        self.is_kana() || self.is_kanji()
    }

    /// Whether the alphabet is that of symbols.
    pub fn is_symbol(&self) -> (r: bool)
        ensures
            r == (*self is Symbol),
    {
        matches!(self, Self::Symbol)
    }

    /// Whether the alphabet is romaji.
    pub fn is_romaji(&self) -> (r: bool)
        ensures
            r == (*self is Romaji),
    {
        matches!(self, Self::Romaji)
    }

    /// Whether the alphabet is none of the others.
    pub fn is_other(&self) -> (r: bool)
        ensures
            r == (*self is Other),
    {
        matches!(self, Self::Other)
    }

    /// The hiragana alphabet.
    pub fn hiragana() -> (r: Self)
        ensures
            r == Alphabet::Kana(Kana::Hiragana),
    {
        Self::Kana(Kana::Hiragana)
    }

    /// The katakana alphabet.
    pub fn katakana() -> (r: Self)
        ensures
            r == Alphabet::Kana(Kana::Katakana),
    {
        Self::Kana(Kana::Katakana)
    }

    /// The kana alphabet, hiragana and katakana alike.
    pub fn kana() -> (r: Self)
        ensures
            r == Alphabet::Kana(Kana::Both),
    {
        Self::Kana(Kana::Both)
    }

    /// Whether the two alphabets are equal, with any kana alphabet on the
    /// left taken for equal to hiragana and to katakana on the right.
    pub fn eq_both_kana(&self, other: &Self) -> (r: bool)
        ensures
            r == self.same_kana(*other),
    {
        match self {
            Alphabet::Kana(_) => other.is_kana(),
            _ => *self == *other,
        }
    }

    /// What [`Alphabet::eq_both_kana`] answers.
    pub open spec fn same_kana(self, other: Alphabet) -> bool {
        match self {
            Alphabet::Kana(_) => other matches Alphabet::Kana(k) && (k is Hiragana
                || k is Katakana),
            _ => self.matches(other),
        }
    }

    /// Whether the two alphabets are equal; two kana alphabets are if their
    /// kinds are.
    pub open spec fn matches(self, other: Alphabet) -> bool {
        match (self, other) {
            (Alphabet::Kana(a), Alphabet::Kana(b)) => a.matches(b),
            (Alphabet::Kanji, Alphabet::Kanji) => true,
            (Alphabet::Symbol, Alphabet::Symbol) => true,
            (Alphabet::Romaji, Alphabet::Romaji) => true,
            (Alphabet::Other, Alphabet::Other) => true,
            _ => false,
        }
    }
}

impl PartialEq for Alphabet {
    fn eq(&self, other: &Self) -> (r: bool) {
        match (self, other) {
            (Alphabet::Kana(a), Alphabet::Kana(b)) => *a == *b,
            (Alphabet::Kanji, Alphabet::Kanji) => true,
            (Alphabet::Symbol, Alphabet::Symbol) => true,
            (Alphabet::Romaji, Alphabet::Romaji) => true,
            (Alphabet::Other, Alphabet::Other) => true,
            _ => false,
        }
    }
}

impl PartialEqSpecImpl for Alphabet {
    open spec fn obeys_eq_spec() -> bool {
        true
    }

    open spec fn eq_spec(&self, other: &Self) -> bool {
        self.matches(*other)
    }
}

impl Kana {
    /// Whether the kind is hiragana.
    #[must_use]
    pub fn is_hiragana(&self) -> (r: bool)
        ensures
            r == (*self is Hiragana),
    {
        matches!(self, Self::Hiragana)
    }

    /// Whether the kind is katakana.
    #[must_use]
    pub fn is_katakana(&self) -> (r: bool)
        ensures
            r == (*self is Katakana),
    {
        matches!(self, Self::Katakana)
    }

    /// Whether the kind stands for both.
    #[must_use]
    pub fn is_both(&self) -> (r: bool)
        ensures
            r == (*self is Both),
    {
        matches!(self, Self::Both)
    }

    /// Whether the two kinds are equal: they are the same, or one of them
    /// stands for both.
    pub open spec fn matches(self, other: Kana) -> bool {
        self is Both || other is Both || self == other
    }
}

impl PartialEq for Kana {
    fn eq(&self, other: &Self) -> (r: bool) {
        self.is_both() || other.is_both() || match (self, other) {
            (Kana::Hiragana, Kana::Hiragana) => true,
            (Kana::Katakana, Kana::Katakana) => true,
            _ => false,
        }
    }
}

impl PartialEqSpecImpl for Kana {
    open spec fn obeys_eq_spec() -> bool {
        true
    }

    open spec fn eq_spec(&self, other: &Self) -> bool {
        self.matches(*other)
    }
}

} // verus!
