//! Defines constants related to file entry types.

use vstd::prelude::*;

verus! {

/// A bit mask that isolates an entry's type from its mode integer.
pub const MASK: u32 = 0o170_000;

/// The bit pattern for a socket.
pub const SOCKET: u32 = 0o140_000;

/// The bit pattern for a symbolic link.
pub const SYMBOLIC_LINK: u32 = 0o120_000;

/// The bit pattern for a file.
pub const FILE: u32 = 0o100_000;

/// The bit pattern for a block device.
pub const BLOCK_DEVICE: u32 = 0o060_000;

/// The bit pattern for a directory.
pub const DIRECTORY: u32 = 0o040_000;

/// The bit pattern for a character device.
pub const CHARACTER_DEVICE: u32 = 0o020_000;

/// The bit pattern for a pipe.
pub const FIFO_PIPE: u32 = 0o010_000;

/// Whether the mode's file type is `bits`.
pub open spec fn typed(mode: u32, bits: u32) -> bool {
    mode & MASK == bits
}

/// Returns `true` if the given mode's file type is set to `BITS`.
pub fn test<const BITS: u32>(mode: u32) -> (r: bool)
    ensures
        r == typed(mode, BITS),
{
    (mode & MASK) == BITS
}

/// Returns the `set` value if the file type matches, otherwise returns `unset`.
pub fn test_map<'t, T: ?Sized, const BITS: u32>(mode: u32, set: &'t T, unset: &'t T) -> (r: &'t T)
    ensures
        r == if typed(mode, BITS) {
            set
        } else {
            unset
        },
{
    if test::<BITS>(mode) {
        set
    } else {
        unset
    }
}

} // verus!
