//! The reading lists of kanji segments, kept in a `tinyvec::TinyVec` that
//! stores a single reading inline.
use vstd::prelude::*;
use tinyvec::TinyVec;
use crate::text::texts;

verus! {

/// The readings of an owned kanji segment: a `tinyvec::TinyVec` with room
/// for one reading before it moves to the heap. What it holds is known only
/// through [`readings_of`] and the functions below that speak of it.
#[derive(PartialEq, Eq, Debug, Hash)]
#[verifier::external_body]
pub struct Readings {
    inner: TinyVec<[String; 1]>,
}

/// The readings of a borrowed kanji segment: a `tinyvec::TinyVec` with room
/// for one reading before it moves to the heap. What it holds is known only
/// through [`readings_ref_of`] and the functions below that speak of it.
#[derive(PartialEq, Eq, Debug, Hash)]
#[verifier::external_body]
pub struct ReadingsRef<'a> {
    inner: TinyVec<[&'a str; 1]>,
}

/// The readings that the list holds, in order.
pub uninterp spec fn readings_of(list: Readings) -> Seq<Seq<char>>;

/// The readings that the borrowed list holds, in order.
pub uninterp spec fn readings_ref_of(list: ReadingsRef<'_>) -> Seq<Seq<char>>;

impl View for Readings {
    type V = Seq<Seq<char>>;

    open spec fn view(&self) -> Seq<Seq<char>> {
        readings_of(*self)
    }
}

impl<'a> View for ReadingsRef<'a> {
    type V = Seq<Seq<char>>;

    open spec fn view(&self) -> Seq<Seq<char>> {
        readings_ref_of(*self)
    }
}

impl Clone for Readings {
    /// A list with the same readings.
    fn clone(&self) -> (r: Self)
        ensures
            r@ == self@,
    {
        let items = self.as_slice();
        let mut list = Readings::new();
        let mut i: usize = 0;
        while i < items.len()
            invariant
                i <= items.len(),
                texts(items@) == self@,
                list@ == self@.take(i as int),
            decreases items.len() - i,
        {
            list.push(items[i].clone());
            i += 1;
            assert(self@.take(i as int) =~= self@.take(i - 1).push(items@[i - 1]@));
        }
        assert(self@.take(i as int) =~= self@);
        list
    }
}

impl<'a> Clone for ReadingsRef<'a> {
    /// A list with the same readings.
    fn clone(&self) -> (r: Self)
        ensures
            r@ == self@,
    {
        let items = self.as_slice();
        let mut list = ReadingsRef::new();
        let mut i: usize = 0;
        while i < items.len()
            invariant
                i <= items.len(),
                texts(items@) == self@,
                list@ == self@.take(i as int),
            decreases items.len() - i,
        {
            list.push(items[i]);
            i += 1;
            assert(self@.take(i as int) =~= self@.take(i - 1).push(items@[i - 1]@));
        }
        assert(self@.take(i as int) =~= self@);
        list
    }
}

impl Readings {
    /// `TinyVec::new`: a list without readings.
    #[verifier::external_body]
    pub(crate) fn new() -> (r: Self)
        ensures
            readings_of(r) == Seq::<Seq<char>>::empty(),
    {
        Readings { inner: TinyVec::new() }
    }

    /// `TinyVec::push`: the reading is added behind the others.
    #[verifier::external_body]
    pub(crate) fn push(&mut self, reading: String)
        ensures
            readings_of(*final(self)) == readings_of(*old(self)).push(reading@),
    {
        self.inner.push(reading)
    }

    /// `TinyVec::as_slice`: the readings as a slice, in order.
    #[verifier::external_body]
    pub(crate) fn as_slice(&self) -> (r: &[String])
        ensures
            texts(r@) == readings_of(*self),
    {
        self.inner.as_slice()
    }
}

impl<'a> ReadingsRef<'a> {
    /// `TinyVec::new`: a list without readings.
    #[verifier::external_body]
    pub(crate) fn new() -> (r: Self)
        ensures
            readings_ref_of(r) == Seq::<Seq<char>>::empty(),
    {
        ReadingsRef { inner: TinyVec::new() }
    }

    /// `TinyVec::push`: the reading is added behind the others.
    #[verifier::external_body]
    pub(crate) fn push(&mut self, reading: &'a str)
        ensures
            readings_ref_of(*final(self)) == readings_ref_of(*old(self)).push(reading@),
    {
        self.inner.push(reading)
    }

    /// `TinyVec::as_slice`: the readings as a slice, in order.
    #[verifier::external_body]
    pub(crate) fn as_slice(&self) -> (r: &[&'a str])
        ensures
            texts(r@) == readings_ref_of(*self),
    {
        self.inner.as_slice()
    }
}

} // verus!
