//! Implements a section that displays an entry's file type and permissions.

use vstd::prelude::*;

use crate::files::entry::Entry;
use crate::section::color::{paint, painted, Tint};
use crate::section::mode::file_type::{
    typed, BLOCK_DEVICE, CHARACTER_DEVICE, DIRECTORY, FIFO_PIPE, FILE, SOCKET, SYMBOLIC_LINK,
};
use crate::section::mode::permissions::{
    granted, EXECUTE, MASK_EXTRA, MASK_GROUP, MASK_OTHER, MASK_OWNER, READ, SETGID, SETUID,
    STICKY, WRITE,
};

pub mod file_type;
pub mod permissions;

verus! {

/// The byte used to represent an empty permission.
pub const PERM_EMPTY: u8 = 0x2d;

/// The byte used to represent an execute permission.
pub const PERM_EXECUTE: u8 = 0x78;

/// The byte used to represent a read permission.
pub const PERM_READ: u8 = 0x72;

/// The byte used to represent a `setgid` permission.
pub const PERM_SETGID: u8 = 0x67;

/// The byte used to represent a `setuid` permission.
pub const PERM_SETUID: u8 = 0x75;

/// The byte used to represent a sticky permission.
pub const PERM_STICKY: u8 = 0x73;

/// The byte used to represent a write permission.
pub const PERM_WRITE: u8 = 0x77;

/// The byte used to represent a block device.
pub const TYPE_BLOCK_DEVICE: u8 = 0x62;

/// The byte used to represent a character device.
pub const TYPE_CHARACTER_DEVICE: u8 = 0x63;

/// The byte used to represent a directory.
pub const TYPE_DIRECTORY: u8 = 0x64;

/// The byte used to represent a pipe.
pub const TYPE_FIFO_PIPE: u8 = 0x70;

/// The byte used to represent a file.
pub const TYPE_FILE: u8 = 0x2d;

/// The byte used to represent a socket.
pub const TYPE_SOCKET: u8 = 0x73;

/// The byte used to represent a symbolic link.
pub const TYPE_SYMBOLIC_LINK: u8 = 0x6c;

/// The byte used to represent an unknown file type.
pub const TYPE_UNKNOWN: u8 = 0x3f;

/// The byte that opens the section.
pub const OPEN: u8 = 0x5b;

/// The byte that closes the section.
pub const CLOSE: u8 = 0x5d;

/// The byte that stands for the file type of the mode.
pub open spec fn type_byte(mode: u32) -> u8 {
    if typed(mode, FILE) {
        TYPE_FILE
    } else if typed(mode, DIRECTORY) {
        TYPE_DIRECTORY
    } else if typed(mode, SYMBOLIC_LINK) {
        TYPE_SYMBOLIC_LINK
    } else if typed(mode, FIFO_PIPE) {
        TYPE_FIFO_PIPE
    } else if typed(mode, SOCKET) {
        TYPE_SOCKET
    } else if typed(mode, BLOCK_DEVICE) {
        TYPE_BLOCK_DEVICE
    } else if typed(mode, CHARACTER_DEVICE) {
        TYPE_CHARACTER_DEVICE
    } else {
        TYPE_UNKNOWN
    }
}

/// The byte where the permission is granted, the empty byte where it is not.
pub open spec fn permission_byte(mode: u32, mask: u32, bits: u32, byte: u8) -> u8 {
    if granted(mode, mask, bits) {
        byte
    } else {
        PERM_EMPTY
    }
}

/// The twelve bytes that stand for the permissions of the mode: the three extra ones, then
/// read, write and execute for the owner, for the group, and for the others.
///
/// The sticky bit shows as the byte of `setuid`.
pub open spec fn permission_bytes(mode: u32) -> Seq<u8> {
    seq![
        permission_byte(mode, MASK_EXTRA, SETUID, PERM_SETUID),
        permission_byte(mode, MASK_EXTRA, SETGID, PERM_SETGID),
        permission_byte(mode, MASK_EXTRA, STICKY, PERM_SETUID),
        permission_byte(mode, MASK_OWNER, READ, PERM_READ),
        permission_byte(mode, MASK_OWNER, WRITE, PERM_WRITE),
        permission_byte(mode, MASK_OWNER, EXECUTE, PERM_EXECUTE),
        permission_byte(mode, MASK_GROUP, READ, PERM_READ),
        permission_byte(mode, MASK_GROUP, WRITE, PERM_WRITE),
        permission_byte(mode, MASK_GROUP, EXECUTE, PERM_EXECUTE),
        permission_byte(mode, MASK_OTHER, READ, PERM_READ),
        permission_byte(mode, MASK_OTHER, WRITE, PERM_WRITE),
        permission_byte(mode, MASK_OTHER, EXECUTE, PERM_EXECUTE),
    ]
}

/// The color that a file type is written in.
pub open spec fn type_tint(byte: u8) -> Tint {
    if byte == TYPE_FILE {
        Tint::BrightWhite
    } else if byte == TYPE_DIRECTORY {
        Tint::BrightBlue
    } else if byte == TYPE_SYMBOLIC_LINK {
        Tint::BrightCyan
    } else if byte == TYPE_FIFO_PIPE {
        Tint::BrightYellow
    } else if byte == TYPE_SOCKET {
        Tint::BrightGreen
    } else if byte == TYPE_BLOCK_DEVICE {
        Tint::BrightRed
    } else if byte == TYPE_CHARACTER_DEVICE {
        Tint::BrightMagenta
    } else {
        Tint::BrightBlack
    }
}

/// The color that a permission is written in.
pub open spec fn permission_tint(byte: u8) -> Tint {
    if byte == PERM_EMPTY {
        Tint::BrightBlack
    } else if byte == PERM_READ {
        Tint::BrightYellow
    } else if byte == PERM_WRITE {
        Tint::BrightRed
    } else if byte == PERM_EXECUTE {
        Tint::BrightGreen
    } else if byte == PERM_SETGID {
        Tint::BrightCyan
    } else if byte == PERM_SETUID {
        Tint::BrightBlue
    } else {
        Tint::BrightMagenta
    }
}

/// Each byte in the color of its permission, one after the other.
pub open spec fn painted_permissions(bytes: Seq<u8>) -> Seq<u8>
    decreases bytes.len(),
{
    if bytes.len() == 0 {
        Seq::empty()
    } else {
        painted_permissions(bytes.drop_last()) + painted(
            permission_tint(bytes.last()),
            seq![bytes.last()],
        )
    }
}

/// A section that writes an entry's file type and permissions.
#[derive(Clone, Copy, Debug)]
pub struct ModeSection {
    /// Whether to use an extended permission format.
    pub extended: bool,
}

impl ModeSection {
    /// The permissions that this section shows: all twelve in the extended format, else all
    /// but the three extra ones.
    pub open spec fn shown(&self, mode: u32) -> Seq<u8> {
        if self.extended {
            permission_bytes(mode)
        } else {
            permission_bytes(mode).skip(3)
        }
    }

    /// What this section writes without color: the type and the permissions in brackets.
    pub open spec fn plain(&self, mode: u32) -> Seq<u8> {
        seq![OPEN, type_byte(mode)] + self.shown(mode) + seq![CLOSE]
    }

    /// What this section writes with color: the brackets in grey, and between them the type
    /// and each permission in a color of its own.
    pub open spec fn colored(&self, mode: u32) -> Seq<u8> {
        painted(Tint::BrightBlack, seq![OPEN]) + painted(
            type_tint(type_byte(mode)),
            seq![type_byte(mode)],
        ) + painted_permissions(self.shown(mode)) + painted(Tint::BrightBlack, seq![CLOSE])
    }

    /// The mode that is shown of an entry: that of its metadata, zero where it has none.
    pub open spec fn mode_shown(entry: Entry<'_>) -> u32 {
        match entry.data {
            Some(data) => data.mode,
            None => 0,
        }
    }

    /// Creates a new [`ModeSection`].
    pub fn new(extended: bool) -> (r: Self)
        ensures
            r.extended == extended,
    {
        Self { extended }
    }

    /// Returns the mode that is shown of an entry.
    pub fn mode_of(entry: &Entry<'_>) -> (r: u32)
        ensures
            r == Self::mode_shown(*entry),
    {
        match entry.data {
            Some(data) => data.mode,
            None => 0,
        }
    }

    /// Returns the byte that represents the file type for the given mode.
    pub fn get_type(mode: u32) -> (r: u8)
        ensures
            r == type_byte(mode),
    {
        if file_type::test::<FILE>(mode) {
            TYPE_FILE
        } else if file_type::test::<DIRECTORY>(mode) {
            TYPE_DIRECTORY
        } else if file_type::test::<SYMBOLIC_LINK>(mode) {
            TYPE_SYMBOLIC_LINK
        } else if file_type::test::<FIFO_PIPE>(mode) {
            TYPE_FIFO_PIPE
        } else if file_type::test::<SOCKET>(mode) {
            TYPE_SOCKET
        } else if file_type::test::<BLOCK_DEVICE>(mode) {
            TYPE_BLOCK_DEVICE
        } else if file_type::test::<CHARACTER_DEVICE>(mode) {
            TYPE_CHARACTER_DEVICE
        } else {
            TYPE_UNKNOWN
        }
    }

    /// Returns a series of bytes that represent the permissions for the given mode.
    pub fn get_permissions(mode: u32) -> (r: [u8; 12])
        ensures
            r@ == permission_bytes(mode),
    {
        let r = [
            *permissions::test_map::<u8, MASK_EXTRA, SETUID>(mode, &PERM_SETUID, &PERM_EMPTY),
            *permissions::test_map::<u8, MASK_EXTRA, SETGID>(mode, &PERM_SETGID, &PERM_EMPTY),
            *permissions::test_map::<u8, MASK_EXTRA, STICKY>(mode, &PERM_SETUID, &PERM_EMPTY),
            *permissions::test_map::<u8, MASK_OWNER, READ>(mode, &PERM_READ, &PERM_EMPTY),
            *permissions::test_map::<u8, MASK_OWNER, WRITE>(mode, &PERM_WRITE, &PERM_EMPTY),
            *permissions::test_map::<u8, MASK_OWNER, EXECUTE>(mode, &PERM_EXECUTE, &PERM_EMPTY),
            *permissions::test_map::<u8, MASK_GROUP, READ>(mode, &PERM_READ, &PERM_EMPTY),
            *permissions::test_map::<u8, MASK_GROUP, WRITE>(mode, &PERM_WRITE, &PERM_EMPTY),
            *permissions::test_map::<u8, MASK_GROUP, EXECUTE>(mode, &PERM_EXECUTE, &PERM_EMPTY),
            *permissions::test_map::<u8, MASK_OTHER, READ>(mode, &PERM_READ, &PERM_EMPTY),
            *permissions::test_map::<u8, MASK_OTHER, WRITE>(mode, &PERM_WRITE, &PERM_EMPTY),
            *permissions::test_map::<u8, MASK_OTHER, EXECUTE>(mode, &PERM_EXECUTE, &PERM_EMPTY),
        ];
        assert(r@ =~= permission_bytes(mode));
        r
    }

    /// Writes this section into the given buffer.
    pub fn write_plain(&self, out: &mut Vec<u8>, mode: u32)
        ensures
            final(out)@ == old(out)@ + self.plain(mode),
    {
        let permissions = Self::get_permissions(mode);
        out.push(OPEN);
        out.push(Self::get_type(mode));
        let first: usize = if self.extended {
            0
        } else {
            3
        };
        let ghost start = out@;
        let mut i: usize = first;
        assert(permissions@.subrange(first as int, first as int) =~= Seq::<u8>::empty());
        while i < 12
            invariant
                first <= i <= 12,
                permissions@.len() == 12,
                out@ == start + permissions@.subrange(first as int, i as int),
            decreases 12 - i,
        {
            out.push(permissions[i]);
            assert(out@ =~= start + permissions@.subrange(first as int, i + 1));
            i = i + 1;
        }
        out.push(CLOSE);
        proof {
            assert(permissions@.subrange(first as int, 12) =~= self.shown(mode));
            assert(out@ =~= old(out)@ + self.plain(mode));
        }
    }

    /// Writes this section into the given buffer using color.
    pub fn write_color(&self, out: &mut Vec<u8>, mode: u32)
        ensures
            final(out)@ == old(out)@ + self.colored(mode),
    {
        let open = [OPEN];
        paint(out, Tint::BrightBlack, open.as_slice());
        let kind = Self::get_type(mode);
        let shown = [kind];
        paint(out, type_color(kind), shown.as_slice());
        let ghost lead = out@;
        proof {
            assert(open@ =~= seq![OPEN]);
            assert(shown@ =~= seq![kind]);
            assert(lead =~= old(out)@ + (painted(Tint::BrightBlack, seq![OPEN]) + painted(
                type_tint(type_byte(mode)),
                seq![type_byte(mode)],
            )));
        }
        let permissions = Self::get_permissions(mode);
        let first: usize = if self.extended {
            0
        } else {
            3
        };
        let mut i: usize = first;
        proof {
            assert(permissions@.subrange(first as int, first as int) =~= Seq::<u8>::empty());
            assert(lead + painted_permissions(Seq::<u8>::empty()) =~= lead);
        }
        while i < 12
            invariant
                first <= i <= 12,
                permissions@.len() == 12,
                out@ == lead + painted_permissions(permissions@.subrange(first as int, i as int)),
            decreases 12 - i,
        {
            let byte = permissions[i];
            let one = [byte];
            let ghost before = permissions@.subrange(first as int, i as int);
            let ghost after = permissions@.subrange(first as int, i + 1);
            proof {
                assert(one@ =~= seq![byte]);
                assert(after.drop_last() =~= before);
                assert(after.last() == byte);
                assert((lead + painted_permissions(before)) + painted(
                    permission_tint(byte),
                    seq![byte],
                ) =~= lead + painted_permissions(after));
            }
            paint(out, permission_color(byte), one.as_slice());
            i = i + 1;
        }
        let ghost middle = out@;
        let close = [CLOSE];
        paint(out, Tint::BrightBlack, close.as_slice());
        proof {
            assert(close@ =~= seq![CLOSE]);
            assert(permissions@.subrange(first as int, 12) =~= self.shown(mode));
            assert(out@ =~= old(out)@ + self.colored(mode));
        }
    }
}

/// Returns the color that a file type is written in.
pub fn type_color(byte: u8) -> (r: Tint)
    ensures
        r == type_tint(byte),
{
    if byte == TYPE_FILE {
        Tint::BrightWhite
    } else if byte == TYPE_DIRECTORY {
        Tint::BrightBlue
    } else if byte == TYPE_SYMBOLIC_LINK {
        Tint::BrightCyan
    } else if byte == TYPE_FIFO_PIPE {
        Tint::BrightYellow
    } else if byte == TYPE_SOCKET {
        Tint::BrightGreen
    } else if byte == TYPE_BLOCK_DEVICE {
        Tint::BrightRed
    } else if byte == TYPE_CHARACTER_DEVICE {
        Tint::BrightMagenta
    } else {
        Tint::BrightBlack
    }
}

/// Returns the color that a permission is written in.
pub fn permission_color(byte: u8) -> (r: Tint)
    ensures
        r == permission_tint(byte),
{
    if byte == PERM_EMPTY {
        Tint::BrightBlack
    } else if byte == PERM_READ {
        Tint::BrightYellow
    } else if byte == PERM_WRITE {
        Tint::BrightRed
    } else if byte == PERM_EXECUTE {
        Tint::BrightGreen
    } else if byte == PERM_SETGID {
        Tint::BrightCyan
    } else if byte == PERM_SETUID {
        Tint::BrightBlue
    } else {
        Tint::BrightMagenta
    }
}

} // verus!
