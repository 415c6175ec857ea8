use vstd::prelude::*;
use super::traits::AsReadingRef;
use super::ReadingView;
use crate::furi::segment::encode::{encode_reading, push_block};
use crate::furi::Furigana;

verus! {

/// The borrowed form of [`super::Reading`].
#[derive(Debug, Clone, Copy, PartialEq, Eq, Default)]
pub struct ReadingRef<'a> {
    kana: &'a str,
    kanji: Option<&'a str>,
}

impl<'a> View for ReadingRef<'a> {
    type V = ReadingView;

    closed spec fn view(&self) -> ReadingView {
        ReadingView {
            kana: self.kana@,
            kanji: match self.kanji {
                Some(k) => Some(k@),
                None => None,
            },
        }
    }
}

impl<'a> ReadingRef<'a> {
    /// Creates a kana reading.
    pub fn new(kana: &'a str) -> (r: Self)
        ensures
            r@ == (ReadingView { kana: kana@, kanji: None }),
    {
        Self { kana, kanji: None }
    }

    /// Creates a reading with a kanji text.
    pub fn new_with_kanji(kana: &'a str, kanji: &'a str) -> (r: Self)
        ensures
            r@ == (ReadingView { kana: kana@, kanji: Some(kanji@) }),
    {
        Self { kana, kanji: Some(kanji) }
    }

    /// Creates a reading from a kana text and an optional kanji text.
    pub fn new_raw(kana: &'a str, kanji: Option<&'a str>) -> (r: Self)
        ensures
            r@.kana == kana@,
            r@.kanji is Some == kanji is Some,
            kanji is Some ==> r@.kanji == Some(kanji.unwrap()@),
    {
        Self { kana, kanji }
    }

    /// Whether the reading has a kanji text.
    pub fn has_kanji(&self) -> (r: bool)
        ensures
            r == self@.kanji is Some,
    {
        self.kanji.is_some()
    }

    /// The kanji text, if there is one.
    pub fn kanji(&self) -> (r: Option<&'a str>)
        ensures
            r is Some == self@.kanji is Some,
            r is Some ==> r.unwrap()@ == self@.kanji.unwrap(),
    {
        self.kanji
    }

    /// The kana text.
    pub fn kana(&self) -> (r: &'a str)
        ensures
            r@ == self@.kana,
    {
        self.kana
    }
}

impl<'a> ReadingRef<'a> {
    /// The reading in the notation: a block where it has a kanji text, the
    /// kana as it is otherwise.
    pub fn encode(&self) -> (r: Furigana<String>)
        ensures
            r.0@ == encode_reading(self@),
    {
        let mut buf = String::new();
        match self.kanji {
            Some(kanji) => push_block(&mut buf, kanji, self.kana),
            None => buf.append(self.kana),
        }
        assert(buf@ =~= encode_reading(self@));
        Furigana(buf)
    }
}

impl<'a> AsReadingRef for ReadingRef<'a> {
    open spec fn reading(&self) -> ReadingView {
        self@
    }

    fn as_reading_ref(&self) -> (r: ReadingRef<'_>) {
        *self
    }
}

} // verus!
