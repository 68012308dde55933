//! Implements sections related to entry owners.

use vstd::prelude::*;

use crate::section::color::{paint, painted, Tint};

verus! {

/// The byte used when the owner is missing.
pub const CHAR_MISSING: u8 = 0x2d;

/// The byte used for padding.
pub const CHAR_PADDING: u8 = 0x20;

/// The assumed maximum length of a name.
pub const MAX_LEN: usize = 32;

/// `count` padding bytes.
pub open spec fn pad(count: int) -> Seq<u8> {
    Seq::new(
        if count > 0 {
            count as nat
        } else {
            0
        },
        |i: int| CHAR_PADDING,
    )
}

/// The name of an owner in a column of the given width: the name and padding up to the width,
/// or a dash and padding where the owner has no name.
pub open spec fn owner(name: Option<Seq<u8>>, width: usize) -> Seq<u8> {
    match name {
        Some(name) => name + pad(width - name.len()),
        None => seq![CHAR_MISSING] + pad(width - 1),
    }
}

/// The name of an owner with color: the color for a name with its padding, no color for the
/// dash.
pub open spec fn colored_owner(name: Option<Seq<u8>>, width: usize, tint: Tint) -> Seq<u8> {
    match name {
        Some(_) => painted(tint, owner(name, width)),
        None => owner(name, width),
    }
}

/// The width of a column of names: the length of the longest, or the assumed maximum where
/// there is no name.
pub open spec fn column_width(lengths: Seq<usize>) -> nat
    decreases lengths.len(),
{
    if lengths.len() == 0 {
        MAX_LEN as nat
    } else if lengths.len() == 1 {
        lengths[0] as nat
    } else {
        let before = column_width(lengths.drop_last());
        if lengths.last() > before {
            lengths.last() as nat
        } else {
            before
        }
    }
}

/// Returns the width of a column of names of the given lengths.
pub fn max_len(lengths: &[usize]) -> (r: usize)
    ensures
        r == column_width(lengths@),
{
    if lengths.len() == 0 {
        return MAX_LEN;
    }
    let mut widest: usize = lengths[0];
    let mut i: usize = 1;
    assert(lengths@.take(1).drop_last() =~= Seq::<usize>::empty());
    assert(lengths@.take(1)[0] == lengths@[0]);
    while i < lengths.len()
        invariant
            1 <= i <= lengths@.len(),
            widest == column_width(lengths@.take(i as int)),
        decreases lengths@.len() - i,
    {
        proof {
            assert(lengths@.take(i + 1).drop_last() =~= lengths@.take(i as int));
            assert(lengths@.take(i + 1).last() == lengths@[i as int]);
        }
        if lengths[i] > widest {
            widest = lengths[i];
        }
        i = i + 1;
    }
    assert(lengths@.take(i as int) =~= lengths@);
    widest
}

/// Builds the name of an owner in a column of the given width.
pub fn owner_bytes(name: Option<&[u8]>, width: usize) -> (r: Vec<u8>)
    ensures
        r@ == owner(
            match name {
                Some(name) => Some(name@),
                None => None,
            },
            width,
        ),
{
    let mut buffer: Vec<u8> = Vec::new();
    let count = match name {
        Some(name) => {
            buffer.extend_from_slice(name);
            if name.len() < width {
                width - name.len()
            } else {
                0
            }
        },
        None => {
            buffer.push(CHAR_MISSING);
            if width > 0 {
                width - 1
            } else {
                0
            }
        },
    };
    let ghost lead = buffer@;
    let mut i: usize = 0;
    assert(buffer@ =~= lead + pad(0));
    while i < count
        invariant
            i <= count,
            buffer@ == lead + pad(i as int),
        decreases count - i,
    {
        buffer.push(CHAR_PADDING);
        assert(buffer@ =~= lead + pad(i + 1));
        i = i + 1;
    }
    proof {
        match name {
            Some(name) => {
                assert(pad(count as int) =~= pad(width - name@.len()));
                assert(lead =~= name@);
            },
            None => {
                assert(pad(count as int) =~= pad(width - 1));
                assert(lead =~= seq![CHAR_MISSING]);
            },
        }
    }
    buffer
}

/// `uzers::get_user_by_uid`, and of the user that it finds the name, as bytes. The answer
/// depends on the users that the system knows: nothing is promised of it.
#[verifier::external_body]
fn user_name(uid: u32) -> Option<Vec<u8>> {
    uzers::get_user_by_uid(uid).map(|user| user.name().as_encoded_bytes().to_vec())
}

/// `uzers::get_group_by_gid`, and of the group that it finds the name, as bytes. The answer
/// depends on the groups that the system knows: nothing is promised of it.
#[verifier::external_body]
fn group_name(gid: u32) -> Option<Vec<u8>> {
    uzers::get_group_by_gid(gid).map(|group| group.name().as_encoded_bytes().to_vec())
}

/// What is shown of a name in a column of the given width.
pub open spec fn shown(name: Option<Vec<u8>>, width: usize) -> Seq<u8> {
    owner(
        match name {
            Some(name) => Some(name@),
            None => None,
        },
        width,
    )
}

/// A section that writes an entry's owner username.
#[derive(Clone, Copy, Debug)]
pub struct UserSection;

impl UserSection {
    /// Returns the user name associated with the given user identifier, as the system knows
    /// it at the time of the call.
    pub fn name(uid: u32) -> Option<Vec<u8>> {
        user_name(uid)
    }

    /// Looks up the name of the user and writes it into the given buffer. Returns the name
    /// that was found.
    pub fn write_owner(&self, out: &mut Vec<u8>, uid: u32, width: usize) -> (name: Option<
        Vec<u8>,
    >)
        ensures
            final(out)@ == old(out)@ + shown(name, width),
    {
        let name = Self::name(uid);
        match &name {
            Some(found) => self.write_plain(out, Some(found.as_slice()), width),
            None => self.write_plain(out, None, width),
        }
        name
    }

    /// Writes the user's name into the given buffer.
    pub fn write_plain(&self, out: &mut Vec<u8>, name: Option<&[u8]>, width: usize)
        ensures
            final(out)@ == old(out)@ + owner(
                match name {
                    Some(name) => Some(name@),
                    None => None,
                },
                width,
            ),
    {
        let buffer = owner_bytes(name, width);
        out.extend_from_slice(buffer.as_slice());
    }

    /// Writes the user's name into the given buffer using color.
    pub fn write_color(&self, out: &mut Vec<u8>, name: Option<&[u8]>, width: usize)
        ensures
            final(out)@ == old(out)@ + colored_owner(
                match name {
                    Some(name) => Some(name@),
                    None => None,
                },
                width,
                Tint::BrightGreen,
            ),
    {
        let buffer = owner_bytes(name, width);
        match name {
            Some(_) => {
                paint(out, Tint::BrightGreen, buffer.as_slice());
            },
            None => {
                out.extend_from_slice(buffer.as_slice());
            },
        }
    }
}

/// A section that writes an entry's owner group name.
#[derive(Clone, Copy, Debug)]
pub struct GroupSection;

impl GroupSection {
    /// Returns the group name associated with the given group identifier, as the system knows
    /// it at the time of the call.
    pub fn name(gid: u32) -> Option<Vec<u8>> {
        group_name(gid)
    }

    /// Looks up the name of the group and writes it into the given buffer. Returns the name
    /// that was found.
    pub fn write_owner(&self, out: &mut Vec<u8>, gid: u32, width: usize) -> (name: Option<
        Vec<u8>,
    >)
        ensures
            final(out)@ == old(out)@ + shown(name, width),
    {
        let name = Self::name(gid);
        match &name {
            Some(found) => self.write_plain(out, Some(found.as_slice()), width),
            None => self.write_plain(out, None, width),
        }
        name
    }

    /// Writes the group's name into the given buffer.
    pub fn write_plain(&self, out: &mut Vec<u8>, name: Option<&[u8]>, width: usize)
        ensures
            final(out)@ == old(out)@ + owner(
                match name {
                    Some(name) => Some(name@),
                    None => None,
                },
                width,
            ),
    {
        let buffer = owner_bytes(name, width);
        out.extend_from_slice(buffer.as_slice());
    }

    /// Writes the group's name into the given buffer using color.
    pub fn write_color(&self, out: &mut Vec<u8>, name: Option<&[u8]>, width: usize)
        ensures
            final(out)@ == old(out)@ + colored_owner(
                match name {
                    Some(name) => Some(name@),
                    None => None,
                },
                width,
                Tint::BrightYellow,
            ),
    {
        let buffer = owner_bytes(name, width);
        match name {
            Some(_) => {
                paint(out, Tint::BrightYellow, buffer.as_slice());
            },
            None => {
                out.extend_from_slice(buffer.as_slice());
            },
        }
    }
}

} // verus!
