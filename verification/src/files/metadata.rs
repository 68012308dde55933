//! The stat record of an entry, held as plain values.

use vstd::prelude::*;

use crate::section::mode::file_type;
use crate::section::mode::file_type::{typed, DIRECTORY, FILE, SYMBOLIC_LINK};
use crate::section::mode::permissions;
use crate::section::mode::permissions::{granted, EXECUTE, MASK};

verus! {

/// A point in time, counted from the Unix epoch.
#[derive(Clone, Copy, Debug, PartialEq, Eq, Structural)]
pub struct Timestamp {
    /// Whole seconds since the epoch; negative before it.
    pub seconds: i64,
    /// The nanoseconds past `seconds`.
    pub nanoseconds: u32,
}

impl Timestamp {
    /// Whether `self` lies strictly before `other`.
    pub open spec fn earlier(self, other: Timestamp) -> bool {
        self.seconds < other.seconds || (self.seconds == other.seconds && self.nanoseconds
            < other.nanoseconds)
    }

    /// Returns `true` if this point in time lies strictly before `other`.
    pub fn is_before(&self, other: &Timestamp) -> (r: bool)
        ensures
            r == self.earlier(*other),
    {
        self.seconds < other.seconds || (self.seconds == other.seconds && self.nanoseconds
            < other.nanoseconds)
    }
}

/// What a stat call reports of one entry.
#[derive(Clone, Copy, Debug, PartialEq, Eq, Structural)]
pub struct Metadata {
    /// The Unix mode: type bits and permission bits.
    pub mode: u32,
    /// The size in bytes.
    pub size: u64,
    /// The owner's user identifier.
    pub uid: u32,
    /// The owner's group identifier.
    pub gid: u32,
    /// When the entry was created, where the platform tells.
    pub created: Option<Timestamp>,
    /// When the entry was last read, where the platform tells.
    pub accessed: Option<Timestamp>,
    /// When the entry was last written, where the platform tells.
    pub modified: Option<Timestamp>,
}

impl Metadata {
    /// Whether the type bits are those of a directory.
    pub open spec fn directory(self) -> bool {
        typed(self.mode, DIRECTORY)
    }

    /// Whether the type bits are those of a regular file.
    pub open spec fn file(self) -> bool {
        typed(self.mode, FILE)
    }

    /// Whether the type bits are those of a symbolic link.
    pub open spec fn symlink(self) -> bool {
        typed(self.mode, SYMBOLIC_LINK)
    }

    /// Whether any of the three execute bits is set.
    pub open spec fn executable(self) -> bool {
        granted(self.mode, MASK, EXECUTE)
    }

    /// Returns `true` if this record describes a directory.
    pub fn is_dir(&self) -> (r: bool)
        ensures
            r == self.directory(),
    {
        file_type::test::<DIRECTORY>(self.mode)
    }

    /// Returns `true` if this record describes a regular file.
    pub fn is_file(&self) -> (r: bool)
        ensures
            r == self.file(),
    {
        file_type::test::<FILE>(self.mode)
    }

    /// Returns `true` if this record describes a symbolic link.
    pub fn is_symlink(&self) -> (r: bool)
        ensures
            r == self.symlink(),
    {
        file_type::test::<SYMBOLIC_LINK>(self.mode)
    }

    /// Returns `true` if the owner, the group or anyone else may execute the entry.
    pub fn is_executable(&self) -> (r: bool)
        ensures
            r == self.executable(),
    {
        permissions::test::<MASK, EXECUTE>(self.mode)
    }
}

} // verus!
