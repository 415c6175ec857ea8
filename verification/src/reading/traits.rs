use vstd::prelude::*;
use super::r_ref::ReadingRef;
use super::ReadingView;

verus! {

/// Anything that can be looked at as a reading.
pub trait AsReadingRef {
    /// The reading that the value stands for.
    spec fn reading(&self) -> ReadingView;

    /// Borrows the value as a reading.
    fn as_reading_ref(&self) -> (r: ReadingRef<'_>)
        ensures
            r@ == self.reading(),
    ;
}

impl<R: AsReadingRef> AsReadingRef for &R {
    open spec fn reading(&self) -> ReadingView {
        (**self).reading()
    }

    fn as_reading_ref(&self) -> (r: ReadingRef<'_>) {
        (**self).as_reading_ref()
    }
}

impl AsReadingRef for (&String, Option<&String>) {
    open spec fn reading(&self) -> ReadingView {
        ReadingView {
            kana: self.0@,
            kanji: match self.1 {
                Some(k) => Some(k@),
                None => None,
            },
        }
    }

    fn as_reading_ref(&self) -> (r: ReadingRef<'_>) {
        match self.1 {
            Some(k) => ReadingRef::new_with_kanji(self.0.as_str(), k.as_str()),
            None => ReadingRef::new(self.0.as_str()),
        }
    }
}

impl AsReadingRef for (&String, &String) {
    open spec fn reading(&self) -> ReadingView {
        ReadingView { kana: self.0@, kanji: Some(self.1@) }
    }

    fn as_reading_ref(&self) -> (r: ReadingRef<'_>) {
        ReadingRef::new_with_kanji(self.0.as_str(), self.1.as_str())
    }
}

impl AsReadingRef for (&str, Option<&str>) {
    open spec fn reading(&self) -> ReadingView {
        ReadingView {
            kana: self.0@,
            kanji: match self.1 {
                Some(k) => Some(k@),
                None => None,
            },
        }
    }

    fn as_reading_ref(&self) -> (r: ReadingRef<'_>) {
        match self.1 {
            Some(k) => ReadingRef::new_with_kanji(self.0, k),
            None => ReadingRef::new(self.0),
        }
    }
}

impl AsReadingRef for (&str, &str) {
    open spec fn reading(&self) -> ReadingView {
        ReadingView { kana: self.0@, kanji: Some(self.1@) }
    }

    fn as_reading_ref(&self) -> (r: ReadingRef<'_>) {
        ReadingRef::new_with_kanji(self.0, self.1)
    }
}

impl AsReadingRef for &str {
    open spec fn reading(&self) -> ReadingView {
        ReadingView { kana: self@, kanji: None }
    }

    fn as_reading_ref(&self) -> (r: ReadingRef<'_>) {
        ReadingRef::new(*self)
    }
}

impl AsReadingRef for (&String, &Option<String>) {
    open spec fn reading(&self) -> ReadingView {
        ReadingView {
            kana: self.0@,
            kanji: match *self.1 {
                Some(k) => Some(k@),
                None => None,
            },
        }
    }

    fn as_reading_ref(&self) -> (r: ReadingRef<'_>) {
        match self.1 {
            Some(k) => ReadingRef::new_with_kanji(self.0.as_str(), k.as_str()),
            None => ReadingRef::new(self.0.as_str()),
        }
    }
}

impl AsReadingRef for &String {
    open spec fn reading(&self) -> ReadingView {
        ReadingView { kana: self@, kanji: None }
    }

    fn as_reading_ref(&self) -> (r: ReadingRef<'_>) {
        ReadingRef::new(self.as_str())
    }
}

impl AsReadingRef for (&String, &Option<&String>) {
    open spec fn reading(&self) -> ReadingView {
        ReadingView {
            kana: self.0@,
            kanji: match *self.1 {
                Some(k) => Some(k@),
                None => None,
            },
        }
    }

    fn as_reading_ref(&self) -> (r: ReadingRef<'_>) {
        match self.1 {
            Some(k) => ReadingRef::new_with_kanji(self.0.as_str(), k.as_str()),
            None => ReadingRef::new(self.0.as_str()),
        }
    }
}

} // verus!
