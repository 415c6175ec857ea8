use vstd::prelude::*;
use super::r_ref::ReadingRef;
use super::traits::AsReadingRef;
use super::ReadingView;

verus! {

/// An owned reading whose kanji text is handed out as a `String`.
#[derive(Debug, Clone, PartialEq, Eq, Default)]
pub struct ReadingOwned {
    kana: String,
    kanji: Option<String>,
}

impl View for ReadingOwned {
    type V = ReadingView;

    closed spec fn view(&self) -> ReadingView {
        ReadingView {
            kana: self.kana@,
            kanji: match self.kanji {
                Some(k) => Some(k@),
                None => None,
            },
        }
    }
}

impl ReadingOwned {
    /// Creates a kana reading.
    pub fn new(kana: String) -> (r: Self)
        ensures
            r@ == (ReadingView { kana: kana@, kanji: None }),
    {
        Self { kana, kanji: None }
    }

    /// Creates a reading with a kanji text.
    pub fn new_with_kanji(kana: String, kanji: String) -> (r: Self)
        ensures
            r@ == (ReadingView { kana: kana@, kanji: Some(kanji@) }),
    {
        Self { kana, kanji: Some(kanji) }
    }

    /// Creates a reading from a kana text and an optional kanji text.
    pub fn new_raw(kana: String, kanji: Option<String>) -> (r: Self)
        ensures
            r@.kana == kana@,
            r@.kanji is Some == kanji is Some,
            kanji is Some ==> r@.kanji == Some(kanji.unwrap()@),
    {
        Self { kana, kanji }
    }

    /// Whether the reading has a kanji text.
    pub fn has_kanji(&self) -> (r: bool)
        ensures
            r == self@.kanji is Some,
    {
        self.kanji.is_some()
    }

    /// The kanji text, if there is one.
    pub fn kanji(&self) -> (r: Option<&String>)
        ensures
            r is Some == self@.kanji is Some,
            r is Some ==> r.unwrap()@ == self@.kanji.unwrap(),
    {
        self.kanji.as_ref()
    }

    /// The kana text.
    pub fn kana(&self) -> (r: &str)
        ensures
            r@ == self@.kana,
    {
        self.kana.as_str()
    }
}

impl AsReadingRef for ReadingOwned {
    open spec fn reading(&self) -> ReadingView {
        self@
    }

    fn as_reading_ref(&self) -> (r: ReadingRef<'_>) {
        match &self.kanji {
            Some(k) => ReadingRef::new_with_kanji(self.kana.as_str(), k.as_str()),
            None => ReadingRef::new(self.kana.as_str()),
        }
    }
}

} // verus!
