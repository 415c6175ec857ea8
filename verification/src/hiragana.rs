//! Hiragana syllables and their romaji.
use vstd::prelude::*;
use vstd::std_specs::convert::FromSpecImpl;
use crate::text::{push_char, to_chars};

verus! {

/// A vowel.
#[derive(Debug, Clone, Copy, PartialEq, Eq, Structural)]
pub enum Vowel {
    A,
    E,
    I,
    O,
    U,
}

/// A row of the kana table.
#[derive(Debug, Clone, Copy, PartialEq, Eq, Structural)]
pub enum Consonant {
    /// あ, え, い, お, う
    Vowels,
    /// ん
    NSpecial,
    K,
    G,
    S,
    Z,
    T,
    D,
    N,
    H,
    B,
    P,
    M,
    R,
    Y,
    W,
}

/// A single syllable of the hiragana.
#[derive(Debug, PartialEq, Eq, Structural, Clone, Copy)]
pub struct Syllable(pub char);

/// A syllable taken apart into consonant and vowel.
#[derive(Debug, Clone, Copy, PartialEq, Eq, Structural)]
pub struct SyllableSplit {
    pub consonant: Option<Consonant>,
    pub vowel: Option<Vowel>,
}

/// The romaji letter of a vowel.
pub open spec fn vowel_letter(v: Vowel) -> char {
    match v {
        Vowel::A => 'a',
        Vowel::E => 'e',
        Vowel::I => 'i',
        Vowel::O => 'o',
        Vowel::U => 'u',
    }
}

/// The romaji letter of a row; the row of the vowels has none.
pub open spec fn consonant_letter(c: Consonant) -> Option<char> {
    match c {
        Consonant::Vowels => None,
        Consonant::K => Some('k'),
        Consonant::G => Some('g'),
        Consonant::S => Some('s'),
        Consonant::Z => Some('z'),
        Consonant::T => Some('t'),
        Consonant::D => Some('d'),
        Consonant::N => Some('n'),
        Consonant::NSpecial => Some('n'),
        Consonant::H => Some('h'),
        Consonant::B => Some('b'),
        Consonant::P => Some('p'),
        Consonant::M => Some('m'),
        Consonant::R => Some('r'),
        Consonant::Y => Some('y'),
        Consonant::W => Some('w'),
    }
}

/// The table of the single hiragana syllables: the row and the vowel of
/// each.
pub open spec fn kana_row(c: char) -> Option<(Consonant, Vowel)> {
    match c {
        'あ' => Some((Consonant::Vowels, Vowel::A)),
        'え' => Some((Consonant::Vowels, Vowel::E)),
        'い' => Some((Consonant::Vowels, Vowel::I)),
        'お' => Some((Consonant::Vowels, Vowel::O)),
        'う' => Some((Consonant::Vowels, Vowel::U)),
        'か' => Some((Consonant::K, Vowel::A)),
        'け' => Some((Consonant::K, Vowel::E)),
        'き' => Some((Consonant::K, Vowel::I)),
        'こ' => Some((Consonant::K, Vowel::O)),
        'く' => Some((Consonant::K, Vowel::U)),
        'が' => Some((Consonant::G, Vowel::A)),
        'げ' => Some((Consonant::G, Vowel::E)),
        'ぎ' => Some((Consonant::G, Vowel::I)),
        'ご' => Some((Consonant::G, Vowel::O)),
        'ぐ' => Some((Consonant::G, Vowel::U)),
        'さ' => Some((Consonant::S, Vowel::A)),
        'せ' => Some((Consonant::S, Vowel::E)),
        'し' => Some((Consonant::S, Vowel::I)),
        'そ' => Some((Consonant::S, Vowel::O)),
        'す' => Some((Consonant::S, Vowel::U)),
        'ざ' => Some((Consonant::Z, Vowel::A)),
        'ぜ' => Some((Consonant::Z, Vowel::E)),
        'じ' => Some((Consonant::Z, Vowel::I)),
        'ぞ' => Some((Consonant::Z, Vowel::O)),
        'ず' => Some((Consonant::Z, Vowel::U)),
        'た' => Some((Consonant::T, Vowel::A)),
        'て' => Some((Consonant::T, Vowel::E)),
        'ち' => Some((Consonant::T, Vowel::I)),
        'と' => Some((Consonant::T, Vowel::O)),
        'つ' => Some((Consonant::T, Vowel::U)),
        'だ' => Some((Consonant::D, Vowel::A)),
        'で' => Some((Consonant::D, Vowel::E)),
        'ぢ' => Some((Consonant::D, Vowel::I)),
        'ど' => Some((Consonant::D, Vowel::O)),
        'づ' => Some((Consonant::D, Vowel::U)),
        'な' => Some((Consonant::N, Vowel::A)),
        'ね' => Some((Consonant::N, Vowel::E)),
        'に' => Some((Consonant::N, Vowel::I)),
        'の' => Some((Consonant::N, Vowel::O)),
        'ぬ' => Some((Consonant::N, Vowel::U)),
        'は' => Some((Consonant::H, Vowel::A)),
        'へ' => Some((Consonant::H, Vowel::E)),
        'ひ' => Some((Consonant::H, Vowel::I)),
        'ほ' => Some((Consonant::H, Vowel::O)),
        'ふ' => Some((Consonant::H, Vowel::U)),
        'ば' => Some((Consonant::B, Vowel::A)),
        'べ' => Some((Consonant::B, Vowel::E)),
        'び' => Some((Consonant::B, Vowel::I)),
        'ぼ' => Some((Consonant::B, Vowel::O)),
        'ぶ' => Some((Consonant::B, Vowel::U)),
        'ぱ' => Some((Consonant::P, Vowel::A)),
        'ぺ' => Some((Consonant::P, Vowel::E)),
        'ぴ' => Some((Consonant::P, Vowel::I)),
        'ぽ' => Some((Consonant::P, Vowel::O)),
        'ぷ' => Some((Consonant::P, Vowel::U)),
        'ま' => Some((Consonant::M, Vowel::A)),
        'め' => Some((Consonant::M, Vowel::E)),
        'み' => Some((Consonant::M, Vowel::I)),
        'も' => Some((Consonant::M, Vowel::O)),
        'む' => Some((Consonant::M, Vowel::U)),
        'ら' => Some((Consonant::R, Vowel::A)),
        'れ' => Some((Consonant::R, Vowel::E)),
        'り' => Some((Consonant::R, Vowel::I)),
        'ろ' => Some((Consonant::R, Vowel::O)),
        'る' => Some((Consonant::R, Vowel::U)),
        'や' => Some((Consonant::Y, Vowel::A)),
        'よ' => Some((Consonant::Y, Vowel::O)),
        'ょ' => Some((Consonant::Y, Vowel::O)),
        'ゆ' => Some((Consonant::Y, Vowel::U)),
        'わ' => Some((Consonant::W, Vowel::A)),
        'を' => Some((Consonant::W, Vowel::O)),
        _ => None,
    }
}

/// A hiragana syllable taken apart: ん is a consonant alone, the vowels are
/// vowels alone, every other syllable of the table has both.
pub open spec fn split_of(c: char) -> Option<SyllableSplit> {
    if c == 'ん' {
        Some(SyllableSplit { consonant: Some(Consonant::NSpecial), vowel: None })
    } else {
        match kana_row(c) {
            Some((Consonant::Vowels, v)) => Some(SyllableSplit { consonant: None, vowel: Some(v) }),
            Some((row, v)) => Some(SyllableSplit { consonant: Some(row), vowel: Some(v) }),
            None => None,
        }
    }
}

/// The romaji letters of a split: consonant and vowel, each if there is one.
pub open spec fn split_letters(s: SyllableSplit) -> (Option<char>, Option<char>) {
    (
        match s.consonant {
            Some(c) => consonant_letter(c),
            None => None,
        },
        match s.vowel {
            Some(v) => Some(vowel_letter(v)),
            None => None,
        },
    )
}

/// The romaji of a split as text.
pub open spec fn split_romaji(s: SyllableSplit) -> Seq<char> {
    let (c, v) = split_letters(s);
    (match c {
        Some(c) => seq![c],
        None => Seq::empty(),
    }) + (match v {
        Some(v) => seq![v],
        None => Seq::empty(),
    })
}

/// The syllable with dakuten, for those of the rows t, k, h and s; any
/// other character as it is.
pub open spec fn dakuten_of(c: char) -> char {
    match c {
        'た' => 'だ',
        'て' => 'で',
        'ち' => 'ぢ',
        'と' => 'ど',
        'つ' => 'づ',
        'か' => 'が',
        'け' => 'げ',
        'き' => 'ぎ',
        'こ' => 'ご',
        'く' => 'ぐ',
        'は' => 'ば',
        'へ' => 'べ',
        'ひ' => 'び',
        'ほ' => 'ぼ',
        'ふ' => 'ぶ',
        'さ' => 'ざ',
        'せ' => 'ぜ',
        'し' => 'じ',
        'そ' => 'ぞ',
        'す' => 'ず',
        _ => c,
    }
}

/// The romaji of a hiragana text, if every character is a syllable of the
/// table.
pub open spec fn romaji_of(s: Seq<char>) -> Option<Seq<char>>
    decreases s.len(),
{
    if s.len() == 0 {
        Some(Seq::empty())
    } else {
        match (romaji_of(s.drop_last()), split_of(s.last())) {
            (Some(head), Some(split)) => Some(head + split_romaji(split)),
            _ => None,
        }
    }
}

impl Vowel {
    /// The romaji letter of the vowel.
    pub fn to_romaji(&self) -> (r: char)
        ensures
            r == vowel_letter(*self),
    {
        match *self {
            Vowel::A => 'a',
            Vowel::E => 'e',
            Vowel::I => 'i',
            Vowel::O => 'o',
            Vowel::U => 'u',
        }
    }

    /// The vowel of a romaji letter, which must be one of a, e, i, o, u.
    pub fn from_romaji(c: char) -> (r: Self)
        requires
            c == 'a' || c == 'e' || c == 'i' || c == 'o' || c == 'u',
        ensures
            vowel_letter(r) == c,
    {
        match c {
            'a' => Vowel::A,
            'e' => Vowel::E,
            'i' => Vowel::I,
            'o' => Vowel::O,
            _ => Vowel::U,
        }
    }
}

/// The romaji of a hiragana text, or `None` if a character is no syllable of
/// the table.
pub fn to_romaji(s: &str) -> (r: Option<String>)
    ensures
        match r {
            Some(text) => romaji_of(s@) == Some(text@),
            None => romaji_of(s@) is None,
        },
{
    let v = to_chars(s);
    let mut out = String::new();
    let mut i: usize = 0;
    assert(romaji_of(v@.take(0)) == Some(out@));
    while i < v.len()
        invariant
            i <= v.len(),
            v@ == s@,
            romaji_of(v@.take(i as int)) == Some(out@),
        decreases v.len() - i,
    {
        proof {
            assert(v@.take(i + 1).drop_last() =~= v@.take(i as int));
        }
        match Syllable::from_char(v[i]).get_splitted() {
            Some(split) => {
                let part = split.to_romaji_char();
                out.append(part.as_str());
            },
            None => {
                proof {
                    lemma_romaji_none(v@, i + 1);
                }
                return None;
            },
        }
        i += 1;
    }
    assert(v@.take(i as int) =~= v@);
    Some(out)
}

/// Where the first `n` characters have no romaji, the whole text has none.
pub proof fn lemma_romaji_none(s: Seq<char>, n: int)
    requires
        0 <= n <= s.len(),
        romaji_of(s.take(n)) is None,
    ensures
        romaji_of(s) is None,
    decreases s.len() - n,
{
    if n < s.len() {
        assert(s.take(n + 1).drop_last() =~= s.take(n));
        lemma_romaji_none(s, n + 1);
    } else {
        assert(s.take(n) =~= s);
    }
}

impl SyllableSplit {
    /// The romaji letters of consonant and vowel.
    pub fn in_romaji(&self) -> (r: (Option<char>, Option<char>))
        ensures
            r == split_letters(*self),
    {
        let vowel = match self.vowel {
            Some(v) => Some(v.to_romaji()),
            None => None,
        };
        let consonant = match self.consonant {
            Some(c) => c.to_romaji(),
            None => None,
        };
        (consonant, vowel)
    }

    /// The romaji of the split as text.
    pub fn to_romaji_char(&self) -> (r: String)
        ensures
            r@ == split_romaji(*self),
    {
        let (consonant, vowel) = self.in_romaji();
        let mut out = String::new();
        if let Some(c) = consonant {
            push_char(&mut out, c);
        }
        if let Some(v) = vowel {
            push_char(&mut out, v);
        }
        assert(out@ =~= split_romaji(*self));
        out
    }

    /// The consonant of the split.
    pub fn consonant(&self) -> (r: Option<Consonant>)
        ensures
            r == self.consonant,
    {
        self.consonant
    }

    /// The vowel of the split.
    pub fn vowel(&self) -> (r: Option<Vowel>)
        ensures
            r == self.vowel,
    {
        self.vowel
    }
}

impl Consonant {
    /// The romaji letter of the row. The row of the vowels has none.
    pub fn to_romaji(&self) -> (r: Option<char>)
        ensures
            r == consonant_letter(*self),
    {
        match *self {
            Consonant::Vowels => None,
            Consonant::K => Some('k'),
            Consonant::G => Some('g'),
            Consonant::S => Some('s'),
            Consonant::Z => Some('z'),
            Consonant::T => Some('t'),
            Consonant::D => Some('d'),
            Consonant::N => Some('n'),
            Consonant::NSpecial => Some('n'),
            Consonant::H => Some('h'),
            Consonant::B => Some('b'),
            Consonant::P => Some('p'),
            Consonant::M => Some('m'),
            Consonant::R => Some('r'),
            Consonant::Y => Some('y'),
            Consonant::W => Some('w'),
        }
    }
}

impl From<char> for Syllable {
    fn from(c: char) -> (r: Self) {
        Self(c)
    }
}

impl FromSpecImpl<char> for Syllable {
    open spec fn obeys_from_spec() -> bool {
        true
    }

    open spec fn from_spec(c: char) -> Self {
        Syllable(c)
    }
}

impl From<Syllable> for char {
    fn from(s: Syllable) -> (r: char) {
        s.get_char()
    }
}

impl FromSpecImpl<Syllable> for char {
    open spec fn obeys_from_spec() -> bool {
        true
    }

    open spec fn from_spec(s: Syllable) -> char {
        s.0
    }
}

/// Looks a character up in the table of syllables.
fn lookup(c: char) -> (r: Option<(Consonant, Vowel)>)
    ensures
        r == kana_row(c),
{
    match c {
        'あ' => Some((Consonant::Vowels, Vowel::A)),
        'え' => Some((Consonant::Vowels, Vowel::E)),
        'い' => Some((Consonant::Vowels, Vowel::I)),
        'お' => Some((Consonant::Vowels, Vowel::O)),
        'う' => Some((Consonant::Vowels, Vowel::U)),
        'か' => Some((Consonant::K, Vowel::A)),
        'け' => Some((Consonant::K, Vowel::E)),
        'き' => Some((Consonant::K, Vowel::I)),
        'こ' => Some((Consonant::K, Vowel::O)),
        'く' => Some((Consonant::K, Vowel::U)),
        'が' => Some((Consonant::G, Vowel::A)),
        'げ' => Some((Consonant::G, Vowel::E)),
        'ぎ' => Some((Consonant::G, Vowel::I)),
        'ご' => Some((Consonant::G, Vowel::O)),
        'ぐ' => Some((Consonant::G, Vowel::U)),
        'さ' => Some((Consonant::S, Vowel::A)),
        'せ' => Some((Consonant::S, Vowel::E)),
        'し' => Some((Consonant::S, Vowel::I)),
        'そ' => Some((Consonant::S, Vowel::O)),
        'す' => Some((Consonant::S, Vowel::U)),
        'ざ' => Some((Consonant::Z, Vowel::A)),
        'ぜ' => Some((Consonant::Z, Vowel::E)),
        'じ' => Some((Consonant::Z, Vowel::I)),
        'ぞ' => Some((Consonant::Z, Vowel::O)),
        'ず' => Some((Consonant::Z, Vowel::U)),
        'た' => Some((Consonant::T, Vowel::A)),
        'て' => Some((Consonant::T, Vowel::E)),
        'ち' => Some((Consonant::T, Vowel::I)),
        'と' => Some((Consonant::T, Vowel::O)),
        'つ' => Some((Consonant::T, Vowel::U)),
        'だ' => Some((Consonant::D, Vowel::A)),
        'で' => Some((Consonant::D, Vowel::E)),
        'ぢ' => Some((Consonant::D, Vowel::I)),
        'ど' => Some((Consonant::D, Vowel::O)),
        'づ' => Some((Consonant::D, Vowel::U)),
        'な' => Some((Consonant::N, Vowel::A)),
        'ね' => Some((Consonant::N, Vowel::E)),
        'に' => Some((Consonant::N, Vowel::I)),
        'の' => Some((Consonant::N, Vowel::O)),
        'ぬ' => Some((Consonant::N, Vowel::U)),
        'は' => Some((Consonant::H, Vowel::A)),
        'へ' => Some((Consonant::H, Vowel::E)),
        'ひ' => Some((Consonant::H, Vowel::I)),
        'ほ' => Some((Consonant::H, Vowel::O)),
        'ふ' => Some((Consonant::H, Vowel::U)),
        'ば' => Some((Consonant::B, Vowel::A)),
        'べ' => Some((Consonant::B, Vowel::E)),
        'び' => Some((Consonant::B, Vowel::I)),
        'ぼ' => Some((Consonant::B, Vowel::O)),
        'ぶ' => Some((Consonant::B, Vowel::U)),
        'ぱ' => Some((Consonant::P, Vowel::A)),
        'ぺ' => Some((Consonant::P, Vowel::E)),
        'ぴ' => Some((Consonant::P, Vowel::I)),
        'ぽ' => Some((Consonant::P, Vowel::O)),
        'ぷ' => Some((Consonant::P, Vowel::U)),
        'ま' => Some((Consonant::M, Vowel::A)),
        'め' => Some((Consonant::M, Vowel::E)),
        'み' => Some((Consonant::M, Vowel::I)),
        'も' => Some((Consonant::M, Vowel::O)),
        'む' => Some((Consonant::M, Vowel::U)),
        'ら' => Some((Consonant::R, Vowel::A)),
        'れ' => Some((Consonant::R, Vowel::E)),
        'り' => Some((Consonant::R, Vowel::I)),
        'ろ' => Some((Consonant::R, Vowel::O)),
        'る' => Some((Consonant::R, Vowel::U)),
        'や' => Some((Consonant::Y, Vowel::A)),
        'よ' => Some((Consonant::Y, Vowel::O)),
        'ょ' => Some((Consonant::Y, Vowel::O)),
        'ゆ' => Some((Consonant::Y, Vowel::U)),
        'わ' => Some((Consonant::W, Vowel::A)),
        'を' => Some((Consonant::W, Vowel::O)),
        _ => None,
    }
}

impl Syllable {
    /// The character of the syllable.
    pub open spec fn view(&self) -> char {
        self.0
    }

    /// The syllable of a character.
    pub fn from_char(c: char) -> (r: Self)
        ensures
            r@ == c,
    {
        Self(c)
    }

    /// The romaji of the syllable, if it is one of the table.
    pub fn to_romaji_char(&self) -> (r: Option<String>)
        ensures
            match r {
                Some(text) => split_of(self@) is Some && text@ == split_romaji(
                    split_of(self@).unwrap(),
                ),
                None => split_of(self@) is None,
            },
    {
        match self.get_splitted() {
            Some(split) => Some(split.to_romaji_char()),
            None => None,
        }
    }

    /// The syllable taken apart into consonant and vowel, if it is one of
    /// the table.
    pub fn get_splitted(&self) -> (r: Option<SyllableSplit>)
        ensures
            r == split_of(self@),
    {
        let c = self.0;
        if c == 'ん' {
            return Some(SyllableSplit { consonant: Some(Consonant::NSpecial), vowel: None });
        }
        match lookup(c) {
            Some((Consonant::Vowels, vowel)) => Some(
                SyllableSplit { vowel: Some(vowel), consonant: None },
            ),
            Some((row, vowel)) => Some(SyllableSplit { vowel: Some(vowel), consonant: Some(row) }),
            None => None,
        }
    }

    /// The syllable with dakuten.
    pub fn to_dakuten(&self) -> (r: Self)
        ensures
            r@ == dakuten_of(self@),
    {
        Self(
            match self.get_char() {
                'た' => 'だ',
                'て' => 'で',
                'ち' => 'ぢ',
                'と' => 'ど',
                'つ' => 'づ',
                'か' => 'が',
                'け' => 'げ',
                'き' => 'ぎ',
                'こ' => 'ご',
                'く' => 'ぐ',
                'は' => 'ば',
                'へ' => 'べ',
                'ひ' => 'び',
                'ほ' => 'ぼ',
                'ふ' => 'ぶ',
                'さ' => 'ざ',
                'せ' => 'ぜ',
                'し' => 'じ',
                'そ' => 'ぞ',
                'す' => 'ず',
                c => c,
            },
        )
    }

    /// The character of the syllable.
    pub fn get_char(&self) -> (r: char)
        ensures
            r == self@,
    {
        self.0
    }

    /// Whether the syllable is one of the table.
    pub fn is_valid(&self) -> (r: bool)
        ensures
            r == split_of(self@) is Some,
    {
        self.get_splitted().is_some()
    }
}

} // verus!
