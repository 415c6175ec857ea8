//! Segments: the units of an annotated text.
pub mod encode;
pub mod iter;
pub mod kanji;
pub mod readings;
pub mod s_owned;
pub mod s_ref;
pub mod traits;

pub use self::iter::flatten::{FlattenIter, FlattenKanjiIter};
pub use self::iter::{LitReadingsIter, ReadingIter, SegmentIter};
pub use self::s_owned::Segment;
pub use self::s_ref::SegmentRef;
pub use self::traits::{AsSegment, AsSegmentMut, AsSegmentRef};

use vstd::prelude::*;

verus! {

/// Another name for [`Segment`].
pub type ReadingPart = Segment;

/// Another name for [`SegmentRef`].
pub type ReadingPartRef<'a> = SegmentRef<'a>;

} // verus!
