//! Implements sections related to entry timestamps.

use vstd::prelude::*;

use crate::arguments::model::TimeVisibility;
use crate::files::metadata::{Metadata, Timestamp};

verus! {

/// The byte used when the date cannot be determined.
pub const CHAR_MISSING: u8 = 0x2d;

/// The byte used for padding.
pub const CHAR_PADDING: u8 = 0x20;

/// The size of a simple timestamp.
pub const SIZE_SIMPLE: usize = 15;

/// The size of an ISO-8601 timestamp.
pub const SIZE_ISO_8601: usize = 34;

/// Determines what type of time section is shown.
#[derive(Clone, Copy, Debug, PartialEq, Eq, Structural)]
pub enum TimeSectionType {
    /// Created timestamp.
    Created,
    /// Accessed timestamp.
    Accessed,
    /// Modified timestamp.
    Modified,
}

/// A section that writes an entry's extracted date.
#[derive(Clone, Copy, Debug)]
pub struct TimeSection {
    /// Determines how the date is rendered.
    pub visibility: TimeVisibility,
    /// The time section type.
    pub kind: TimeSectionType,
}

impl TimeSection {
    /// The time that this section shows of an entry, where the entry has metadata that tells
    /// it.
    pub open spec fn shown(&self, data: Option<&Metadata>) -> Option<Timestamp> {
        match data {
            Some(data) => match self.kind {
                TimeSectionType::Created => data.created,
                TimeSectionType::Accessed => data.accessed,
                TimeSectionType::Modified => data.modified,
            },
            None => None,
        }
    }

    /// What stands in place of a time that cannot be determined: a dash, and spaces up to the
    /// width of the format and one more.
    pub open spec fn blank(&self) -> Seq<u8> {
        seq![CHAR_MISSING] + Seq::new(
            if self.visibility is Simple {
                SIZE_SIMPLE as nat
            } else {
                SIZE_ISO_8601 as nat
            },
            |i: int| CHAR_PADDING,
        )
    }

    /// Creates a new [`TimeSection`].
    pub fn new(visibility: TimeVisibility, kind: TimeSectionType) -> (r: Self)
        ensures
            r.visibility == visibility,
            r.kind == kind,
    {
        Self { visibility, kind }
    }

    /// Creates a new [`TimeSection`] for a creation date timestamp.
    pub fn created(visibility: TimeVisibility) -> (r: Self)
        ensures
            r.visibility == visibility,
            r.kind is Created,
    {
        Self::new(visibility, TimeSectionType::Created)
    }

    /// Creates a new [`TimeSection`] for an access date timestamp.
    pub fn accessed(visibility: TimeVisibility) -> (r: Self)
        ensures
            r.visibility == visibility,
            r.kind is Accessed,
    {
        Self::new(visibility, TimeSectionType::Accessed)
    }

    /// Creates a new [`TimeSection`] for a modification date timestamp.
    pub fn modified(visibility: TimeVisibility) -> (r: Self)
        ensures
            r.visibility == visibility,
            r.kind is Modified,
    {
        Self::new(visibility, TimeSectionType::Modified)
    }

    /// Returns the time that this section shows of an entry.
    pub fn timestamp(&self, data: Option<&Metadata>) -> (r: Option<Timestamp>)
        ensures
            r == self.shown(data),
    {
        match data {
            Some(data) => match self.kind {
                TimeSectionType::Created => data.created,
                TimeSectionType::Accessed => data.accessed,
                TimeSectionType::Modified => data.modified,
            },
            None => None,
        }
    }

    /// Writes what stands in place of a time that cannot be determined.
    pub fn write_blank(&self, out: &mut Vec<u8>)
        ensures
            final(out)@ == old(out)@ + self.blank(),
    {
        let width = if self.visibility.is_simple() {
            SIZE_SIMPLE
        } else {
            SIZE_ISO_8601
        };
        out.push(CHAR_MISSING);
        let ghost start = out@;
        let mut i: usize = 0;
        while i < width
            invariant
                i <= width,
                out@ == start + Seq::new(i as nat, |i: int| CHAR_PADDING),
            decreases width - i,
        {
            out.push(CHAR_PADDING);
            assert(out@ =~= start + Seq::new((i + 1) as nat, |i: int| CHAR_PADDING));
            i = i + 1;
        }
        assert(out@ =~= old(out)@ + self.blank());
    }
}

} // verus!
