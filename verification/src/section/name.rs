//! Implements sections related to entry names.

use vstd::prelude::*;

use crate::files::entry::Entry;
use crate::files::path::{file_name, final_name, hidden};
use crate::files::{is_hidden, relativize};
use crate::section::color::{paint, painted, Tint};

verus! {

/// The suffix used for directories.
pub const DIR_SUFFIX: u8 = 0x2f;

/// The suffix used for executable files.
pub const EXE_SUFFIX: u8 = 0x2a;

/// What an entry is, by its metadata or, where it has none, by what the file system says.
#[derive(Clone, Copy, Debug, PartialEq, Eq, Structural)]
pub struct Kind {
    /// Whether the entry is a directory.
    pub directory: bool,
    /// Whether the entry is a regular file.
    pub file: bool,
    /// Whether the entry is a symbolic link.
    pub symlink: bool,
}

/// The name that is shown of a path: the name that it ends in where names are trimmed and it
/// ends in one, the whole path else.
pub open spec fn shown_name(path: Seq<u8>, trim: bool) -> Seq<u8> {
    match final_name(path) {
        Some(name) => if trim {
            name
        } else {
            path
        },
        None => path,
    }
}

/// The suffix that tells what an entry is: that of a directory, or that of a file that may be
/// executed, or none.
pub open spec fn suffix(kind: Kind, executable: bool) -> Seq<u8> {
    if kind.directory {
        seq![DIR_SUFFIX]
    } else if kind.file && executable {
        seq![EXE_SUFFIX]
    } else {
        Seq::empty()
    }
}

/// Whether the entry may be executed, as far as its metadata says.
pub open spec fn executable(entry: Entry<'_>) -> bool {
    match entry.data {
        Some(data) => data.executable(),
        None => false,
    }
}

/// A name with color.
///
/// A symbolic link is cyan, a directory blue, and anything that may be executed green: bright
/// where the entry is not hidden. Behind a directory and behind what may be executed stands
/// its suffix, in white. Any other entry is grey where it is hidden and has no color where it
/// is not.
pub open spec fn colored_name(name: Seq<u8>, kind: Kind, executable: bool, hidden: bool) -> Seq<
    u8,
> {
    if kind.symlink {
        painted(
            if hidden {
                Tint::Cyan
            } else {
                Tint::BrightCyan
            },
            name,
        )
    } else if kind.directory {
        painted(
            if hidden {
                Tint::Blue
            } else {
                Tint::BrightBlue
            },
            name,
        ) + painted(Tint::White, seq![DIR_SUFFIX])
    } else if executable {
        painted(
            if hidden {
                Tint::Green
            } else {
                Tint::BrightGreen
            },
            name,
        ) + painted(Tint::White, seq![EXE_SUFFIX])
    } else if hidden {
        painted(Tint::BrightBlack, name)
    } else {
        name
    }
}

/// A section that writes an entry's name.
#[derive(Clone, Copy, Debug)]
pub struct NameSection {
    /// Whether to trim the entry to just its name or to render the full path.
    pub trim_paths: bool,
    /// Whether to resolve the actual path of symbolic links.
    pub resolve_symlinks: bool,
}

impl NameSection {
    /// Whether the target of the entry is to be written behind its name.
    pub open spec fn follows(&self, kind: Kind) -> bool {
        self.resolve_symlinks && kind.symlink
    }

    /// Creates a new [`NameSection`].
    pub fn new(trim_paths: bool, resolve_symlinks: bool) -> (r: Self)
        ensures
            r.trim_paths == trim_paths,
            r.resolve_symlinks == resolve_symlinks,
    {
        Self { trim_paths, resolve_symlinks }
    }

    /// Returns the name that is shown of an entry.
    pub fn name_of<'a>(&self, entry: &Entry<'a>) -> (r: &'a [u8])
        ensures
            r@ == shown_name(entry.path@, self.trim_paths),
    {
        if self.trim_paths {
            match file_name(entry.path) {
                Some(name) => name,
                None => entry.path,
            }
        } else {
            entry.path
        }
    }

    /// Writes the name of the entry and its suffix into the given buffer. Returns `true` if
    /// the target of the entry is to be written behind it.
    pub fn write_plain(&self, out: &mut Vec<u8>, entry: &Entry<'_>, kind: Kind) -> (r: bool)
        ensures
            final(out)@ == old(out)@ + shown_name(entry.path@, self.trim_paths) + suffix(
                kind,
                executable(*entry),
            ),
            r == self.follows(kind),
    {
        out.extend_from_slice(self.name_of(entry));
        let ghost named = out@;
        if kind.directory {
            out.push(DIR_SUFFIX);
        } else if kind.file && entry.is_executable() {
            out.push(EXE_SUFFIX);
        }
        assert(out@ =~= named + suffix(kind, executable(*entry)));
        self.resolve_symlinks && kind.symlink
    }

    /// Writes the name of the entry and its suffix into the given buffer using color.
    /// Returns `true` if the target of the entry is to be written behind it.
    pub fn write_color(&self, out: &mut Vec<u8>, entry: &Entry<'_>, kind: Kind) -> (r: bool)
        ensures
            final(out)@ == old(out)@ + colored_name(
                shown_name(entry.path@, self.trim_paths),
                kind,
                executable(*entry),
                hidden(entry.path@),
            ),
            r == self.follows(kind),
    {
        let name = self.name_of(entry);
        let hides = is_hidden(entry.path);
        let dir_suffix = [DIR_SUFFIX];
        let exe_suffix = [EXE_SUFFIX];
        assert(dir_suffix@ =~= seq![DIR_SUFFIX]);
        assert(exe_suffix@ =~= seq![EXE_SUFFIX]);
        if kind.symlink {
            paint(
                out,
                if hides {
                    Tint::Cyan
                } else {
                    Tint::BrightCyan
                },
                name,
            );
        } else if kind.directory {
            paint(
                out,
                if hides {
                    Tint::Blue
                } else {
                    Tint::BrightBlue
                },
                name,
            );
            let ghost named = out@;
            paint(out, Tint::White, dir_suffix.as_slice());
            assert(out@ =~= old(out)@ + (painted(
                if hides {
                    Tint::Blue
                } else {
                    Tint::BrightBlue
                },
                name@,
            ) + painted(Tint::White, seq![DIR_SUFFIX])));
        } else if entry.is_executable() {
            paint(
                out,
                if hides {
                    Tint::Green
                } else {
                    Tint::BrightGreen
                },
                name,
            );
            paint(out, Tint::White, exe_suffix.as_slice());
            assert(out@ =~= old(out)@ + (painted(
                if hides {
                    Tint::Green
                } else {
                    Tint::BrightGreen
                },
                name@,
            ) + painted(Tint::White, seq![EXE_SUFFIX])));
        } else if hides {
            paint(out, Tint::BrightBlack, name);
        } else {
            out.extend_from_slice(name);
        }
        self.resolve_symlinks && kind.symlink
    }
}

/// The arrow between a symbolic link and its target, a space on either side: `->` to a target
/// that exists, `~>` to one that does not.
pub open spec fn arrow(exists: bool) -> Seq<u8> {
    seq![
        0x20u8,
        if exists {
            0x2du8
        } else {
            0x7eu8
        },
        0x3eu8,
        0x20u8,
    ]
}

/// The path that is shown of a target: the way to it from the link where there is one, the
/// target itself where there is none.
pub open spec fn shown_target(link: Seq<u8>, target: Seq<u8>) -> Seq<u8> {
    match crate::files::path::relative(link, target) {
        Some(way) => way,
        None => target,
    }
}

/// A section that writes an entry's resolved symbolic link.
#[derive(Clone, Copy, Debug)]
pub struct SymlinkSection;

impl SymlinkSection {
    /// Returns the path that is shown of the target of a link.
    pub fn target(link: &[u8], target: Vec<u8>) -> (r: Vec<u8>)
        ensures
            r@ == shown_target(link@, target@),
    {
        match relativize(link, target.as_slice()) {
            Some(way) => way,
            None => target,
        }
    }

    /// Writes the arrow to the target into the given buffer.
    pub fn write_plain(&self, out: &mut Vec<u8>, exists: bool)
        ensures
            final(out)@ == old(out)@ + arrow(exists),
    {
        out.push(0x20);
        out.push(
            if exists {
                0x2d
            } else {
                0x7e
            },
        );
        out.push(0x3e);
        out.push(0x20);
        assert(out@ =~= old(out)@ + arrow(exists));
    }

    /// Writes the arrow to the target into the given buffer using color: grey to a target that
    /// exists, red to one that does not.
    pub fn write_color(&self, out: &mut Vec<u8>, exists: bool)
        ensures
            final(out)@ == old(out)@ + painted(
                if exists {
                    Tint::BrightBlack
                } else {
                    Tint::BrightRed
                },
                arrow(exists),
            ),
    {
        let mut buffer: Vec<u8> = Vec::new();
        self.write_plain(&mut buffer, exists);
        assert(buffer@ =~= arrow(exists));
        paint(
            out,
            if exists {
                Tint::BrightBlack
            } else {
                Tint::BrightRed
            },
            buffer.as_slice(),
        );
    }
}

} // verus!
