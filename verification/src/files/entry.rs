//! The handle that a visit call hands out for each entry.

use vstd::prelude::*;

use crate::files::metadata::Metadata;
use crate::files::is_hidden;

verus! {

/// An entry returned by a visit call.
///
/// An entry knows its place among its siblings and nothing of its parent or its children: a
/// traversal passes the ancestors alongside, as a chain.
#[derive(Clone, Copy, Debug)]
pub struct Entry<'e> {
    /// The entry's file path.
    pub path: &'e [u8],
    /// The entry's metadata.
    pub data: Option<&'e Metadata>,
    /// The entry's index in the current depth.
    pub index: usize,
    /// The total number of entries in the current depth.
    pub total: usize,
    /// Caches whether this entry has children.
    pub has_children_cache: Option<bool>,
}

impl<'e> Entry<'e> {
    /// The entry is one of its siblings: its index lies below their number.
    pub open spec fn wf(&self) -> bool {
        self.index < self.total
    }

    /// What is remembered of the entry's children: nothing before the first query.
    pub open spec fn children(&self) -> Option<bool> {
        self.has_children_cache
    }

    /// What the metadata says of the entry's type and flags, `false` where there is none.
    pub open spec fn recorded(&self, flag: spec_fn(Metadata) -> bool) -> bool {
        match self.data {
            Some(data) => flag(*data),
            None => false,
        }
    }

    /// Creates a new [`Entry`] using the given path and optional data.
    pub fn new(path: &'e [u8], data: Option<&'e Metadata>, index: usize, total: usize) -> (r: Self)
        requires
            index < total,
        ensures
            r.path == path,
            r.data == data,
            r.index == index,
            r.total == total,
            r.children() is None,
            r.wf(),
    {
        Self { path, data, index, total, has_children_cache: None }
    }

    /// Creates a new [`Entry`] using the given path and optional data.
    ///
    /// This entry will have an index of 0, a total count of 1.
    pub fn root(path: &'e [u8], data: Option<&'e Metadata>) -> (r: Self)
        ensures
            r.path == path,
            r.data == data,
            r.index == 0,
            r.total == 1,
            r.children() is None,
            r.wf(),
    {
        Self { path, data, index: 0, total: 1, has_children_cache: None }
    }

    /// Returns whether this is the first entry in the current depth.
    pub fn is_first(&self) -> (r: bool)
        ensures
            r == (self.index == 0),
    {
        self.index == 0
    }

    /// Returns whether this is the last entry in the current depth.
    pub fn is_last(&self) -> (r: bool)
        ensures
            r == (self.index + 1 == self.total),
    {
        self.total != 0 && self.index == self.total - 1
    }

    /// Returns the number of entries remaining after this entry.
    pub fn remaining(&self) -> (r: usize)
        requires
            self.wf(),
        ensures
            r == self.total - (self.index + 1),
    {
        self.total - (self.index + 1)
    }

    /// Returns `true` if this entry represents a directory.
    ///
    /// The metadata decides where there is any; `fallback` is asked only where there is none.
    pub fn is_dir<P>(&self, fallback: P) -> (r: bool) where P: FnOnce(&[u8]) -> bool
        requires
            self.data is None ==> call_requires(fallback, (self.path,)),
        ensures
            match self.data {
                Some(data) => r == data.directory(),
                None => call_ensures(fallback, (self.path,), r),
            },
    {
        match self.data {
            Some(data) => data.is_dir(),
            None => fallback(self.path),
        }
    }

    /// Returns `true` if this entry represents a file.
    ///
    /// The metadata decides where there is any; `fallback` is asked only where there is none.
    pub fn is_file<P>(&self, fallback: P) -> (r: bool) where P: FnOnce(&[u8]) -> bool
        requires
            self.data is None ==> call_requires(fallback, (self.path,)),
        ensures
            match self.data {
                Some(data) => r == data.file(),
                None => call_ensures(fallback, (self.path,), r),
            },
    {
        match self.data {
            Some(data) => data.is_file(),
            None => fallback(self.path),
        }
    }

    /// Returns `true` if this entry represents a symbolic link.
    ///
    /// The metadata decides where there is any; `fallback` is asked only where there is none.
    pub fn is_symlink<P>(&self, fallback: P) -> (r: bool) where P: FnOnce(&[u8]) -> bool
        requires
            self.data is None ==> call_requires(fallback, (self.path,)),
        ensures
            match self.data {
                Some(data) => r == data.symlink(),
                None => call_ensures(fallback, (self.path,), r),
            },
    {
        match self.data {
            Some(data) => data.is_symlink(),
            None => fallback(self.path),
        }
    }

    /// Returns `true` if this entry has an executable flag set.
    pub fn is_executable(&self) -> (r: bool)
        ensures
            r == self.recorded(|data: Metadata| data.executable()),
    {
        match self.data {
            Some(data) => data.is_executable(),
            None => false,
        }
    }

    /// Returns `true` if this entry is considered 'hidden' based off its file name.
    pub fn is_hidden(&self) -> (r: bool)
        ensures
            r == crate::files::path::hidden(self.path@),
    {
        is_hidden(self.path)
    }

    /// Returns what an earlier call of [`Entry::has_children`] found, if there was one.
    pub fn known_children(&self) -> (r: Option<bool>)
        ensures
            r == self.children(),
    {
        self.has_children_cache
    }

    /// Whether the entry may be a directory: its metadata says that it is one, or it has no
    /// metadata to say what it is.
    pub open spec fn may_hold(&self) -> bool {
        match self.data {
            Some(data) => data.directory(),
            None => true,
        }
    }

    /// Returns `true` if this entry represents a directory and has one or more entries within it.
    ///
    /// The answer is computed once and remembered. `probe` says whether reading the directory
    /// at a path yields a member; of what is no directory or cannot be read it says that it
    /// yields none. Only the first call asks it, and only of an entry that may be a directory:
    /// one that its metadata calls a directory, or one without metadata, of which only the
    /// read can tell.
    pub fn has_children<P>(&mut self, probe: &mut P) -> (r: bool) where P: FnMut(&[u8]) -> bool
        requires
            call_requires(*old(probe), (old(self).path,)),
        ensures
            final(self).path == old(self).path,
            final(self).data == old(self).data,
            final(self).index == old(self).index,
            final(self).total == old(self).total,
            final(self).children() == Some(r),
            *final(probe) == *old(probe),
            match old(self).children() {
                Some(known) => r == known,
                None => if old(self).may_hold() {
                    call_ensures(*old(probe), (old(self).path,), r)
                } else {
                    !r
                },
            },
    {
        match self.has_children_cache {
            Some(known) => known,
            None => {
                let asked = match self.data {
                    Some(data) => data.is_dir(),
                    None => true,
                };
                let found = asked && probe(self.path);
                self.has_children_cache = Some(found);
                found
            },
        }
    }
}

} // verus!
