//! The colors that sections are written in.

use vstd::prelude::*;

verus! {

/// A foreground color of the terminal.
#[derive(Clone, Copy, Debug, PartialEq, Eq, Structural)]
pub enum Tint {
    /// The terminal's own foreground color.
    Default,
    /// Blue.
    Blue,
    /// Cyan.
    Cyan,
    /// Green.
    Green,
    /// White.
    White,
    /// Bright black, which is grey.
    BrightBlack,
    /// Bright red.
    BrightRed,
    /// Bright green.
    BrightGreen,
    /// Bright yellow.
    BrightYellow,
    /// Bright blue.
    BrightBlue,
    /// Bright magenta.
    BrightMagenta,
    /// Bright cyan.
    BrightCyan,
    /// Bright white.
    BrightWhite,
}

/// The escape sequence that selects the graphic rendition with a two-digit number: the escape
/// character, `[`, the two digits, and `m`.
pub open spec fn escape(number: u8) -> Seq<u8> {
    seq![0x1bu8, 0x5bu8, (0x30 + number / 10) as u8, (0x30 + number % 10) as u8, 0x6du8]
}

/// The number of the graphic rendition that sets the color as the foreground.
pub open spec fn number(tint: Tint) -> u8 {
    match tint {
        Tint::Default => 39,
        Tint::Blue => 34,
        Tint::Cyan => 36,
        Tint::Green => 32,
        Tint::White => 37,
        Tint::BrightBlack => 90,
        Tint::BrightRed => 91,
        Tint::BrightGreen => 92,
        Tint::BrightYellow => 93,
        Tint::BrightBlue => 94,
        Tint::BrightMagenta => 95,
        Tint::BrightCyan => 96,
        Tint::BrightWhite => 97,
    }
}

/// The bytes in the color: the sequence that sets it, the bytes, and the sequence that sets the
/// terminal's own color again.
pub open spec fn painted(tint: Tint, bytes: Seq<u8>) -> Seq<u8> {
    escape(number(tint)) + bytes + escape(number(Tint::Default))
}

/// `owo_colors::colors::Default::ANSI_FG` as bytes: the escape sequence with the number 39.
#[verifier::external_body]
fn default_code() -> (r: &'static [u8])
    ensures
        r@ == escape(39),
{
    <owo_colors::colors::Default as owo_colors::Color>::ANSI_FG.as_bytes()
}

/// `owo_colors::colors::Blue::ANSI_FG` as bytes: the escape sequence with the number 34.
#[verifier::external_body]
fn blue_code() -> (r: &'static [u8])
    ensures
        r@ == escape(34),
{
    <owo_colors::colors::Blue as owo_colors::Color>::ANSI_FG.as_bytes()
}

/// `owo_colors::colors::Cyan::ANSI_FG` as bytes: the escape sequence with the number 36.
#[verifier::external_body]
fn cyan_code() -> (r: &'static [u8])
    ensures
        r@ == escape(36),
{
    <owo_colors::colors::Cyan as owo_colors::Color>::ANSI_FG.as_bytes()
}

/// `owo_colors::colors::Green::ANSI_FG` as bytes: the escape sequence with the number 32.
#[verifier::external_body]
fn green_code() -> (r: &'static [u8])
    ensures
        r@ == escape(32),
{
    <owo_colors::colors::Green as owo_colors::Color>::ANSI_FG.as_bytes()
}

/// `owo_colors::colors::White::ANSI_FG` as bytes: the escape sequence with the number 37.
#[verifier::external_body]
fn white_code() -> (r: &'static [u8])
    ensures
        r@ == escape(37),
{
    <owo_colors::colors::White as owo_colors::Color>::ANSI_FG.as_bytes()
}

/// `owo_colors::colors::BrightBlack::ANSI_FG` as bytes: the escape sequence with the number 90.
#[verifier::external_body]
fn bright_black_code() -> (r: &'static [u8])
    ensures
        r@ == escape(90),
{
    <owo_colors::colors::BrightBlack as owo_colors::Color>::ANSI_FG.as_bytes()
}

/// `owo_colors::colors::BrightRed::ANSI_FG` as bytes: the escape sequence with the number 91.
#[verifier::external_body]
fn bright_red_code() -> (r: &'static [u8])
    ensures
        r@ == escape(91),
{
    <owo_colors::colors::BrightRed as owo_colors::Color>::ANSI_FG.as_bytes()
}

/// `owo_colors::colors::BrightGreen::ANSI_FG` as bytes: the escape sequence with the number 92.
#[verifier::external_body]
fn bright_green_code() -> (r: &'static [u8])
    ensures
        r@ == escape(92),
{
    <owo_colors::colors::BrightGreen as owo_colors::Color>::ANSI_FG.as_bytes()
}

/// `owo_colors::colors::BrightYellow::ANSI_FG` as bytes: the escape sequence with the number 93.
#[verifier::external_body]
fn bright_yellow_code() -> (r: &'static [u8])
    ensures
        r@ == escape(93),
{
    <owo_colors::colors::BrightYellow as owo_colors::Color>::ANSI_FG.as_bytes()
}

/// `owo_colors::colors::BrightBlue::ANSI_FG` as bytes: the escape sequence with the number 94.
#[verifier::external_body]
fn bright_blue_code() -> (r: &'static [u8])
    ensures
        r@ == escape(94),
{
    <owo_colors::colors::BrightBlue as owo_colors::Color>::ANSI_FG.as_bytes()
}

/// `owo_colors::colors::BrightMagenta::ANSI_FG` as bytes: the escape sequence with the number
/// 95.
#[verifier::external_body]
fn bright_magenta_code() -> (r: &'static [u8])
    ensures
        r@ == escape(95),
{
    <owo_colors::colors::BrightMagenta as owo_colors::Color>::ANSI_FG.as_bytes()
}

/// `owo_colors::colors::BrightCyan::ANSI_FG` as bytes: the escape sequence with the number 96.
#[verifier::external_body]
fn bright_cyan_code() -> (r: &'static [u8])
    ensures
        r@ == escape(96),
{
    <owo_colors::colors::BrightCyan as owo_colors::Color>::ANSI_FG.as_bytes()
}

/// `owo_colors::colors::BrightWhite::ANSI_FG` as bytes: the escape sequence with the number 97.
#[verifier::external_body]
fn bright_white_code() -> (r: &'static [u8])
    ensures
        r@ == escape(97),
{
    <owo_colors::colors::BrightWhite as owo_colors::Color>::ANSI_FG.as_bytes()
}

/// Returns the escape sequence that sets the color as the foreground.
pub fn code(tint: Tint) -> (r: &'static [u8])
    ensures
        r@ == escape(number(tint)),
{
    match tint {
        Tint::Default => default_code(),
        Tint::Blue => blue_code(),
        Tint::Cyan => cyan_code(),
        Tint::Green => green_code(),
        Tint::White => white_code(),
        Tint::BrightBlack => bright_black_code(),
        Tint::BrightRed => bright_red_code(),
        Tint::BrightGreen => bright_green_code(),
        Tint::BrightYellow => bright_yellow_code(),
        Tint::BrightBlue => bright_blue_code(),
        Tint::BrightMagenta => bright_magenta_code(),
        Tint::BrightCyan => bright_cyan_code(),
        Tint::BrightWhite => bright_white_code(),
    }
}

/// Writes the bytes in the color.
pub fn paint(out: &mut Vec<u8>, tint: Tint, bytes: &[u8])
    ensures
        final(out)@ == old(out)@ + painted(tint, bytes@),
{
    out.extend_from_slice(code(tint));
    out.extend_from_slice(bytes);
    out.extend_from_slice(code(Tint::Default));
    assert(out@ =~= old(out)@ + painted(tint, bytes@));
}

/// `supports_color::on_cached` for the standard output, and of its answer whether basic colors
/// are supported. The answer depends on the terminal and the environment: nothing is promised
/// of it.
#[verifier::external_body]
fn terminal_has_color() -> bool {
    supports_color::on_cached(supports_color::Stream::Stdout).is_some_and(|level| level.has_basic)
}

/// Returns `true` if color is to be used on the standard output: always where that is the
/// choice, never where that is the choice, and else where the terminal is found to support it.
pub fn wants_color(choice: crate::arguments::model::ColorChoice) -> (r: bool)
    ensures
        choice is Always ==> r,
        choice is Never ==> !r,
{
    if choice.is_auto() {
        use_color(choice, terminal_has_color())
    } else {
        use_color(choice, false)
    }
}

/// Returns `true` if color is to be used: always where that is the choice, never where that is
/// the choice, and else where the terminal supports it.
pub fn use_color(choice: crate::arguments::model::ColorChoice, supported: bool) -> (r: bool)
    ensures
        r == (choice is Always || (choice is Auto && supported)),
{
    choice.is_always() || (choice.is_auto() && supported)
}

} // verus!
