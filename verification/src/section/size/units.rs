//! Defines human-readable units.

use vstd::prelude::*;

verus! {

/// A size unit.
#[derive(Clone, Copy, Debug)]
pub struct Unit<const N: usize> {
    /// The unit's suffix.
    pub suffix: [u8; N],
    /// The number to divide the file size by.
    pub divisor: u64,
}

impl<const N: usize> Unit<N> {
    /// Creates a new [`Unit`].
    pub fn new(suffix: [u8; N], divisor: u64) -> (r: Self)
        ensures
            r.suffix == suffix,
            r.divisor == divisor,
    {
        Self { suffix, divisor }
    }
}

/// The number of bytes in a kibibyte.
pub const KIBIBYTE: u64 = 0x400;

/// The number of bytes in a mebibyte.
pub const MEBIBYTE: u64 = 0x10_0000;

/// The number of bytes in a gibibyte.
pub const GIBIBYTE: u64 = 0x4000_0000;

/// The number of bytes in a tebibyte.
pub const TEBIBYTE: u64 = 0x100_0000_0000;

/// The number of bytes in a pebibyte.
pub const PEBIBYTE: u64 = 0x4_0000_0000_0000;

/// The number of bytes in an exbibyte.
pub const EXBIBYTE: u64 = 0x1000_0000_0000_0000;

/// The number of bytes in a kilobyte.
pub const KILOBYTE: u64 = 1_000;

/// The number of bytes in a megabyte.
pub const MEGABYTE: u64 = 1_000_000;

/// The number of bytes in a gigabyte.
pub const GIGABYTE: u64 = 1_000_000_000;

/// The number of bytes in a terabyte.
pub const TERABYTE: u64 = 1_000_000_000_000;

/// The number of bytes in a petabyte.
pub const PETABYTE: u64 = 1_000_000_000_000_000;

/// The number of bytes in an exabyte.
pub const EXABYTE: u64 = 1_000_000_000_000_000_000;

/// The letter `B`.
pub const LETTER_B: u8 = 0x42;

/// The letter `i`.
pub const LETTER_I: u8 = 0x69;

/// A space.
pub const SPACE: u8 = 0x20;

/// The letters `K`, `M`, `G`, `T`, `P` and `E`.
pub open spec fn prefixes() -> Seq<u8> {
    seq![0x4bu8, 0x4du8, 0x47u8, 0x54u8, 0x50u8, 0x45u8]
}

/// Which unit a size is counted in, where the first of the six larger units begins at
/// `first` bytes and each is `first` times the one before: 0 for bytes, 1 to 6 for the
/// larger ones.
pub open spec fn rank(size: u64, units: Seq<u64>) -> nat
    decreases units.len(),
{
    if units.len() == 0 || size < units[0] {
        0
    } else {
        1 + rank(size, units.skip(1))
    }
}

/// Where the six larger units begin, where units go up by 1024.
pub open spec fn steps_2() -> Seq<u64> {
    seq![KIBIBYTE, MEBIBYTE, GIBIBYTE, TEBIBYTE, PEBIBYTE, EXBIBYTE]
}

/// Where the six larger units begin, where units go up by 1000.
pub open spec fn steps_10() -> Seq<u64> {
    seq![KILOBYTE, MEGABYTE, GIGABYTE, TERABYTE, PETABYTE, EXABYTE]
}

/// What a size is divided by in the unit of the given rank.
pub open spec fn divisor(rank: nat, steps: Seq<u64>) -> u64 {
    if rank == 0 || rank > steps.len() {
        1
    } else {
        steps[rank - 1]
    }
}

/// The suffix of the unit of the given rank where units go up by 1024: `B` and two spaces for
/// bytes, then `KiB` to `EiB`.
pub open spec fn suffix_2(rank: nat) -> Seq<u8> {
    if rank == 0 || rank > 6 {
        seq![LETTER_B, SPACE, SPACE]
    } else {
        seq![prefixes()[rank - 1], LETTER_I, LETTER_B]
    }
}

/// The suffix of the unit of the given rank where units go up by 1000: `B` and a space for
/// bytes, then `KB` to `EB`.
pub open spec fn suffix_10(rank: nat) -> Seq<u8> {
    if rank == 0 || rank > 6 {
        seq![LETTER_B, SPACE]
    } else {
        seq![prefixes()[rank - 1], LETTER_B]
    }
}

/// Returns which unit a size is counted in: the number of steps that it reaches.
fn rank_of(size: u64, steps: &[u64; 6]) -> (r: usize)
    ensures
        r == rank(size, steps@),
        r <= 6,
{
    let mut reached: usize = 0;
    assert(steps@.skip(0) =~= steps@);
    while reached < 6 && size >= steps[reached]
        invariant
            reached <= 6,
            steps@.len() == 6,
            rank(size, steps@) == reached + rank(size, steps@.skip(reached as int)),
        decreases 6 - reached,
    {
        proof {
            assert(steps@.skip(reached as int)[0] == steps@[reached as int]);
            assert(steps@.skip(reached as int).skip(1) =~= steps@.skip(reached + 1));
        }
        reached = reached + 1;
    }
    proof {
        if reached < 6 {
            assert(steps@.skip(reached as int)[0] == steps@[reached as int]);
        } else {
            assert(steps@.skip(6).len() == 0);
        }
    }
    reached
}

/// Returns the unit that a size is counted in where units go up by 1024: the largest of
/// bytes, kibibytes and so on up to exbibytes that the size reaches.
pub fn base_2_unit(size: u64) -> (r: Unit<3>)
    ensures
        r.suffix@ == suffix_2(rank(size, steps_2())),
        r.divisor == divisor(rank(size, steps_2()), steps_2()),
{
    let steps = [KIBIBYTE, MEBIBYTE, GIBIBYTE, TEBIBYTE, PEBIBYTE, EXBIBYTE];
    let letters: [u8; 6] = [0x4b, 0x4d, 0x47, 0x54, 0x50, 0x45];
    assert(steps@ =~= steps_2());
    assert(letters@ =~= prefixes());
    let reached = rank_of(size, &steps);
    if reached == 0 {
        let suffix = [LETTER_B, SPACE, SPACE];
        assert(suffix@ =~= suffix_2(0));
        Unit::new(suffix, 1)
    } else {
        let suffix = [letters[reached - 1], LETTER_I, LETTER_B];
        assert(suffix@ =~= suffix_2(reached as nat));
        Unit::new(suffix, steps[reached - 1])
    }
}

/// Returns the unit that a size is counted in where units go up by 1000: the largest of
/// bytes, kilobytes and so on up to exabytes that the size reaches.
pub fn base_10_unit(size: u64) -> (r: Unit<2>)
    ensures
        r.suffix@ == suffix_10(rank(size, steps_10())),
        r.divisor == divisor(rank(size, steps_10()), steps_10()),
{
    let steps = [KILOBYTE, MEGABYTE, GIGABYTE, TERABYTE, PETABYTE, EXABYTE];
    let letters: [u8; 6] = [0x4b, 0x4d, 0x47, 0x54, 0x50, 0x45];
    assert(steps@ =~= steps_10());
    assert(letters@ =~= prefixes());
    let reached = rank_of(size, &steps);
    if reached == 0 {
        let suffix = [LETTER_B, SPACE];
        assert(suffix@ =~= suffix_10(0));
        Unit::new(suffix, 1)
    } else {
        let suffix = [letters[reached - 1], LETTER_B];
        assert(suffix@ =~= suffix_10(reached as nat));
        Unit::new(suffix, steps[reached - 1])
    }
}

} // verus!
