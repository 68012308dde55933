//! Defines constants related to file entry permissions.

use vstd::prelude::*;

verus! {

/// A bit mask that isolates an entry's permissions from its mode integer.
pub const MASK: u32 = 0o7_777;

/// A bit mask that isolates an entry's extra permissions from its mode integer.
pub const MASK_EXTRA: u32 = 0o7_000;

/// A bit mask that isolates an entry's owner permissions from its mode integer.
pub const MASK_OWNER: u32 = 0o0_700;

/// A bit mask that isolates an entry's group permissions from its mode integer.
pub const MASK_GROUP: u32 = 0o0_070;

/// A bit mask that isolates an entry's other permissions from its mode integer.
pub const MASK_OTHER: u32 = 0o0_007;

/// The bit pattern for read permissions.
pub const READ: u32 = 0o0_444;

/// The bit pattern for write permissions.
pub const WRITE: u32 = 0o0_222;

/// The bit pattern for execute permissions.
pub const EXECUTE: u32 = 0o0_111;

/// The bit pattern for set user ID permissions.
pub const SETUID: u32 = 0o4_000;

/// The bit pattern for set group ID permissions.
pub const SETGID: u32 = 0o2_000;

/// The bit pattern for "sticky" permissions.
pub const STICKY: u32 = 0o1_000;

/// Whether the mode has, among the bits of `mask`, one of `bits`.
pub open spec fn granted(mode: u32, mask: u32, bits: u32) -> bool {
    (mode & mask) & bits != 0
}

/// Returns `true` if the given mode's permissions contain `BITS`.
pub fn test<const MASK: u32, const BITS: u32>(mode: u32) -> (r: bool)
    ensures
        r == granted(mode, MASK, BITS),
{
    (mode & MASK) & BITS != 0
}

/// Returns the `set` value if the permission is set, otherwise returns `unset`.
pub fn test_map<'t, T: ?Sized, const MASK: u32, const BITS: u32>(mode: u32, set: &'t T, unset: &'t T) -> (r:
    &'t T)
    ensures
        r == if granted(mode, MASK, BITS) {
            set
        } else {
            unset
        },
{
    if test::<MASK, BITS>(mode) {
        set
    } else {
        unset
    }
}

} // verus!
