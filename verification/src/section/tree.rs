//! Implements a section that provides branches for tree-based views.

use vstd::prelude::*;

use crate::files::entry::Entry;
use crate::section::color::{paint, painted, Tint};

verus! {

/// The bytes used for a bottom corner.
pub open spec fn corner_bottom() -> Seq<u8> {
    seq![0xe2u8, 0x94u8, 0x94u8]
}

/// The bytes used for a top corner.
pub open spec fn corner_top() -> Seq<u8> {
    seq![0xe2u8, 0x94u8, 0x8cu8]
}

/// The bytes used for a horizontal line.
pub open spec fn line_horizontal() -> Seq<u8> {
    seq![0xe2u8, 0x94u8, 0x80u8]
}

/// The bytes used for a vertical line.
pub open spec fn line_vertical() -> Seq<u8> {
    seq![0xe2u8, 0x94u8, 0x82u8]
}

/// The bytes used for padding.
pub open spec fn padding() -> Seq<u8> {
    seq![0x20u8]
}

/// The bytes used for a horizontal split line.
pub open spec fn split_horizontal() -> Seq<u8> {
    seq![0xe2u8, 0x94u8, 0xacu8]
}

/// The bytes used for a vertical split line.
pub open spec fn split_vertical() -> Seq<u8> {
    seq![0xe2u8, 0x94u8, 0x9cu8]
}

/// The column of one ancestor: a vertical line while siblings of the ancestor are still to
/// come, padding once the ancestor was the last of them; and padding behind either.
pub open spec fn column(ancestor: Entry<'_>) -> Seq<u8> {
    (if ancestor.index + 1 == ancestor.total {
        padding()
    } else {
        line_vertical()
    }) + padding()
}

/// The columns of the ancestors, one after the other.
pub open spec fn columns(ancestors: Seq<Entry<'_>>) -> Seq<u8>
    decreases ancestors.len(),
{
    if ancestors.len() == 0 {
        Seq::empty()
    } else {
        columns(ancestors.drop_last()) + column(ancestors.last())
    }
}

/// Where the entry joins the line of its siblings: a corner at the last of them, a split at
/// any other.
pub open spec fn join(entry: Entry<'_>) -> Seq<u8> {
    if entry.index + 1 == entry.total {
        corner_bottom()
    } else {
        split_vertical()
    }
}

/// Where the entry's own children join: a split where it is known to have any, a line where
/// it is not.
pub open spec fn connect(entry: Entry<'_>) -> Seq<u8> {
    if entry.children() == Some(true) {
        split_horizontal()
    } else {
        line_horizontal()
    }
}

/// The ancestors but for the root.
pub open spec fn below_root(parents: Seq<Entry<'_>>) -> Seq<Entry<'_>> {
    if parents.len() > 0 {
        parents.skip(1)
    } else {
        Seq::empty()
    }
}

/// The branch that leads to an entry below its ancestors.
///
/// The first root has a top corner and a line. Any other entry has the columns of its
/// ancestors but for the root, then its join, a line, its connection, and a line.
pub open spec fn branch(parents: Seq<Entry<'_>>, entry: Entry<'_>) -> Seq<u8> {
    if entry.index == 0 && parents.len() == 0 {
        corner_top() + line_horizontal()
    } else {
        columns(below_root(parents)) + join(entry) + line_horizontal() + connect(entry)
            + line_horizontal()
    }
}

/// Appends three bytes.
fn put3(out: &mut Vec<u8>, first: u8, second: u8, third: u8)
    ensures
        final(out)@ == old(out)@ + seq![first, second, third],
{
    out.push(first);
    out.push(second);
    out.push(third);
    assert(out@ =~= old(out)@ + seq![first, second, third]);
}

/// A section that writes branches for tree-based views.
#[derive(Clone, Copy, Debug)]
pub struct TreeSection;

impl TreeSection {
    /// Builds the branch that leads to an entry.
    pub fn branch_of(parents: &[Entry<'_>], entry: &Entry<'_>) -> (r: Vec<u8>)
        ensures
            r@ == branch(parents@, *entry),
    {
        let mut buffer: Vec<u8> = Vec::new();
        if entry.is_first() && parents.len() == 0 {
            put3(&mut buffer, 0xe2, 0x94, 0x8c);
            put3(&mut buffer, 0xe2, 0x94, 0x80);
            assert(buffer@ =~= corner_top() + line_horizontal());
            return buffer;
        }
        let ghost behind = below_root(parents@);
        let mut n: usize = 1;
        proof {
            assert(behind.take(0) =~= Seq::<Entry<'_>>::empty());
            assert(buffer@ =~= columns(behind.take(0)));
        }
        while n < parents.len()
            invariant
                1 <= n,
                behind == below_root(parents@),
                n <= parents@.len() ==> buffer@ == columns(behind.take(n - 1)),
                n > parents@.len() ==> buffer@ == Seq::<u8>::empty() && parents@.len() == 0,
            decreases parents@.len() - n,
        {
            let ghost before = buffer@;
            proof {
                assert(behind.take(n as int).drop_last() =~= behind.take(n - 1));
                assert(behind.take(n as int).last() == parents@[n as int]);
            }
            if parents[n].is_last() {
                buffer.push(0x20);
                assert(buffer@ =~= before + padding());
            } else {
                put3(&mut buffer, 0xe2, 0x94, 0x82);
            }
            buffer.push(0x20);
            assert(buffer@ =~= before + column(parents@[n as int]));
            n = n + 1;
        }
        let ghost trail = buffer@;
        proof {
            if parents@.len() == 0 {
            } else {
                assert(behind.take(n - 1) =~= behind);
            }
            assert(trail == columns(behind));
        }
        if entry.is_last() {
            put3(&mut buffer, 0xe2, 0x94, 0x94);
        } else {
            put3(&mut buffer, 0xe2, 0x94, 0x9c);
        }
        put3(&mut buffer, 0xe2, 0x94, 0x80);
        match entry.known_children() {
            Some(true) => {
                put3(&mut buffer, 0xe2, 0x94, 0xac);
            },
            _ => {
                put3(&mut buffer, 0xe2, 0x94, 0x80);
            },
        }
        put3(&mut buffer, 0xe2, 0x94, 0x80);
        assert(buffer@ =~= trail + join(*entry) + line_horizontal() + connect(*entry)
            + line_horizontal());
        buffer
    }

    /// Writes this section into the given buffer.
    pub fn write_plain(&self, out: &mut Vec<u8>, parents: &[Entry<'_>], entry: &Entry<'_>)
        ensures
            final(out)@ == old(out)@ + branch(parents@, *entry),
    {
        let buffer = Self::branch_of(parents, entry);
        out.extend_from_slice(buffer.as_slice());
    }

    /// Writes this section into the given buffer using color.
    pub fn write_color(&self, out: &mut Vec<u8>, parents: &[Entry<'_>], entry: &Entry<'_>)
        ensures
            final(out)@ == old(out)@ + painted(Tint::BrightBlack, branch(parents@, *entry)),
    {
        let buffer = Self::branch_of(parents, entry);
        paint(out, Tint::BrightBlack, buffer.as_slice());
    }
}

} // verus!
