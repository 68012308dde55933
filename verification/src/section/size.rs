//! Implements a section that displays an entry's size.

use vstd::prelude::*;

use crate::arguments::model::SizeVisibility;
use crate::section::color::{paint, painted, Tint};
use crate::section::size::units::{KIBIBYTE, MEBIBYTE};

pub mod units;

verus! {

/// The byte that represents a lack of size.
pub const CHAR_BLANK: u8 = 0x2d;

/// The byte that represents a decimal.
pub const CHAR_DECIMAL: u8 = 0x2e;

/// The byte used for padding.
pub const CHAR_PADDING: u8 = 0x20;

/// Files of this size and above are considered 'large'.
pub const LARGE_THRESHOLD: u64 = 50 * MEBIBYTE;

/// Files of this size and above are considered 'medium'.
pub const MEDIUM_THRESHOLD: u64 = 50 * KIBIBYTE;

/// The width of a base-10 output.
pub const WIDTH_BASE_10: usize = 8;

/// The width of a base-2 output.
pub const WIDTH_BASE_2: usize = 10;

/// The width of a simple size output.
pub const WIDTH_SIMPLE: usize = 20;

/// The decimal digits of a number, the most significant first: a single `0` for zero, and
/// no `0` in front of any other number.
pub open spec fn decimal(number: nat) -> Seq<u8>
    decreases number,
{
    if number < 10 {
        seq![(0x30 + number) as u8]
    } else {
        decimal(number / 10).push((0x30 + number % 10) as u8)
    }
}

/// `count` padding bytes.
pub open spec fn pad(count: int) -> Seq<u8> {
    Seq::new(
        if count > 0 {
            count as nat
        } else {
            0
        },
        |i: int| CHAR_PADDING,
    )
}

/// The color that a size is written in: green below the medium threshold, yellow below the
/// large one, and red from there on.
pub open spec fn size_tint(size: u64) -> Tint {
    if size < MEDIUM_THRESHOLD {
        Tint::BrightGreen
    } else if size < LARGE_THRESHOLD {
        Tint::BrightYellow
    } else {
        Tint::BrightRed
    }
}

/// What stands in place of the size of a directory. In the simple format it is a dash and
/// padding up to the width of the column. In the scaled formats it is a dash for each of the
/// whole part, the decimal and the unit, the decimal point, and padding to the width of the
/// format.
pub open spec fn blank(visibility: SizeVisibility, width: usize) -> Seq<u8> {
    match visibility {
        SizeVisibility::Base2 => pad(3) + seq![CHAR_BLANK, CHAR_DECIMAL, CHAR_BLANK] + seq![
            CHAR_PADDING,
            CHAR_BLANK,
        ] + pad(2),
        SizeVisibility::Base10 => pad(2) + seq![CHAR_BLANK, CHAR_DECIMAL, CHAR_BLANK] + seq![
            CHAR_PADDING,
            CHAR_BLANK,
            CHAR_PADDING,
        ],
        _ => seq![CHAR_BLANK] + pad(width - 1),
    }
}

/// A size in the simple format: its decimal digits, and padding up to the width of the column.
pub open spec fn simple(size: u64, width: usize) -> Seq<u8> {
    decimal(size as nat) + pad(width - decimal(size as nat).len())
}

/// A size in a scaled format: padding up to the width of the format, the whole part, the
/// decimal point with the first decimal behind it, a space, and the unit.
pub open spec fn scaled(whole: Seq<u8>, tenth: u8, suffix: Seq<u8>, width: usize) -> Seq<u8> {
    pad(width - (whole.len() + 3 + suffix.len())) + whole + seq![
        CHAR_DECIMAL,
        tenth,
        CHAR_PADDING,
    ] + suffix
}

/// The width of the scaled format that the visibility selects.
pub open spec fn scaled_width(visibility: SizeVisibility) -> usize {
    if visibility is Base2 {
        WIDTH_BASE_2
    } else {
        WIDTH_BASE_10
    }
}

/// The width of a column of simple sizes: the most digits that any of the sizes has, or the
/// width of a simple size where there is no size.
pub open spec fn simple_width(sizes: Seq<u64>) -> nat
    decreases sizes.len(),
{
    if sizes.len() == 0 {
        WIDTH_SIMPLE as nat
    } else if sizes.len() == 1 {
        decimal(sizes[0] as nat).len()
    } else {
        let before = simple_width(sizes.drop_last());
        let last = decimal(sizes.last() as nat).len();
        if last > before {
            last
        } else {
            before
        }
    }
}

/// `itoa::Buffer::format`, called on a `u64`: the number printed as a decimal string, as
/// the standard library prints it, handed back as bytes.
#[verifier::external_body]
fn format_u64(value: u64) -> (r: Vec<u8>)
    ensures
        r@ == decimal(value as nat),
{
    itoa::Buffer::new().format(value).as_bytes().to_vec()
}

/// No number of 64 bits has more than twenty digits, and each has one at least.
pub proof fn lemma_decimal_len(number: nat)
    requires
        number <= u64::MAX,
    ensures
        1 <= decimal(number).len() <= 20,
{
    reveal_with_fuel(decimal, 21);
}

/// Appends `count` padding bytes.
fn put_pad(out: &mut Vec<u8>, count: usize)
    ensures
        final(out)@ == old(out)@ + pad(count as int),
{
    let mut i: usize = 0;
    assert(out@ =~= old(out)@ + pad(0));
    while i < count
        invariant
            i <= count,
            out@ == old(out)@ + pad(i as int),
        decreases count - i,
    {
        out.push(CHAR_PADDING);
        assert(out@ =~= old(out)@ + pad(i + 1));
        i = i + 1;
    }
}

/// Returns the color that a size is written in.
pub fn size_color(size: u64) -> (r: Tint)
    ensures
        r == size_tint(size),
{
    if size < MEDIUM_THRESHOLD {
        Tint::BrightGreen
    } else if size < LARGE_THRESHOLD {
        Tint::BrightYellow
    } else {
        Tint::BrightRed
    }
}

/// Returns the decimal digits of a size.
pub fn digits(size: u64) -> (r: Vec<u8>)
    ensures
        r@ == decimal(size as nat),
        1 <= r@.len() <= 20,
{
    proof {
        lemma_decimal_len(size as nat);
    }
    format_u64(size)
}

/// Returns the width of a column of simple sizes.
pub fn max_simple_len(sizes: &[u64]) -> (r: usize)
    ensures
        r == simple_width(sizes@),
{
    if sizes.len() == 0 {
        return WIDTH_SIMPLE;
    }
    let mut widest: usize = digits(sizes[0]).len();
    let mut i: usize = 1;
    assert(sizes@.take(1).drop_last() =~= Seq::<u64>::empty());
    assert(sizes@.take(1)[0] == sizes@[0]);
    while i < sizes.len()
        invariant
            1 <= i <= sizes@.len(),
            widest == simple_width(sizes@.take(i as int)),
        decreases sizes@.len() - i,
    {
        proof {
            assert(sizes@.take(i + 1).drop_last() =~= sizes@.take(i as int));
            assert(sizes@.take(i + 1).last() == sizes@[i as int]);
        }
        let width = digits(sizes[i]).len();
        if width > widest {
            widest = width;
        }
        i = i + 1;
    }
    assert(sizes@.take(i as int) =~= sizes@);
    widest
}

/// A section that writes an entry's size.
#[derive(Clone, Copy, Debug)]
pub struct SizeSection {
    /// Determines the size format to use.
    pub visibility: SizeVisibility,
}

impl SizeSection {
    /// Creates a new [`SizeSection`].
    pub fn new(visibility: SizeVisibility) -> (r: Self)
        ensures
            r.visibility == visibility,
    {
        Self { visibility }
    }

    /// Builds what stands in place of the size of a directory, in a column of the given
    /// width.
    pub fn blank_bytes(&self, width: usize) -> (r: Vec<u8>)
        ensures
            r@ == blank(self.visibility, width),
    {
        let mut buffer: Vec<u8> = Vec::new();
        match self.visibility {
            SizeVisibility::Base2 => {
                put_pad(&mut buffer, 3);
                buffer.push(CHAR_BLANK);
                buffer.push(CHAR_DECIMAL);
                buffer.push(CHAR_BLANK);
                buffer.push(CHAR_PADDING);
                buffer.push(CHAR_BLANK);
                let ghost lead = buffer@;
                put_pad(&mut buffer, 2);
                assert(lead =~= pad(3) + seq![CHAR_BLANK, CHAR_DECIMAL, CHAR_BLANK] + seq![
                    CHAR_PADDING,
                    CHAR_BLANK,
                ]);
            },
            SizeVisibility::Base10 => {
                put_pad(&mut buffer, 2);
                buffer.push(CHAR_BLANK);
                buffer.push(CHAR_DECIMAL);
                buffer.push(CHAR_BLANK);
                buffer.push(CHAR_PADDING);
                buffer.push(CHAR_BLANK);
                buffer.push(CHAR_PADDING);
                assert(buffer@ =~= blank(self.visibility, width));
            },
            _ => {
                buffer.push(CHAR_BLANK);
                if width > 0 {
                    put_pad(&mut buffer, width - 1);
                } else {
                    assert(buffer@ =~= seq![CHAR_BLANK] + pad(-1));
                }
                assert(buffer@ =~= seq![CHAR_BLANK] + pad(width - 1));
            },
        }
        buffer
    }

    /// Builds a size in the simple format, in a column of the given width.
    pub fn simple_bytes(size: u64, width: usize) -> (r: Vec<u8>)
        ensures
            r@ == simple(size, width),
    {
        let mut buffer = digits(size);
        let written = buffer.len();
        if written < width {
            put_pad(&mut buffer, width - written);
        } else {
            assert(buffer@ =~= buffer@ + pad(width - written));
        }
        buffer
    }

    /// Builds a size in the scaled format that this section selects, from the digits of its
    /// whole part, its first decimal, and the suffix of its unit.
    pub fn scaled_bytes(&self, whole: &[u8], tenth: u8, suffix: &[u8]) -> (r: Vec<u8>)
        requires
            whole@.len() + 3 + suffix@.len() <= usize::MAX,
        ensures
            r@ == scaled(whole@, tenth, suffix@, scaled_width(self.visibility)),
    {
        let width = if self.visibility.is_base2() {
            WIDTH_BASE_2
        } else {
            WIDTH_BASE_10
        };
        let taken = whole.len() + 3 + suffix.len();
        let mut buffer: Vec<u8> = Vec::new();
        if taken < width {
            put_pad(&mut buffer, width - taken);
        } else {
            assert(buffer@ =~= pad(width - taken));
        }
        buffer.extend_from_slice(whole);
        buffer.push(CHAR_DECIMAL);
        buffer.push(tenth);
        buffer.push(CHAR_PADDING);
        buffer.extend_from_slice(suffix);
        assert(buffer@ =~= scaled(whole@, tenth, suffix@, width));
        buffer
    }

    /// Writes the bytes of a size into the given buffer.
    pub fn write_plain(&self, out: &mut Vec<u8>, bytes: &[u8])
        ensures
            final(out)@ == old(out)@ + bytes@,
    {
        out.extend_from_slice(bytes);
    }

    /// Writes the bytes of a size into the given buffer using color: those that stand in
    /// place of a directory's size in grey, those of a size in the color of the size.
    pub fn write_color(&self, out: &mut Vec<u8>, bytes: &[u8], size: Option<u64>)
        ensures
            final(out)@ == old(out)@ + painted(
                match size {
                    Some(size) => size_tint(size),
                    None => Tint::BrightBlack,
                },
                bytes@,
            ),
    {
        let tint = match size {
            Some(size) => size_color(size),
            None => Tint::BrightBlack,
        };
        paint(out, tint, bytes);
    }
}

} // verus!
