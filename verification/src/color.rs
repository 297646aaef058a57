//! Colours for the terminal, through `termion`.

use vstd::prelude::*;
use crate::text::decimal;

verus! {

/// The escape sequence that sets the foreground to the colour at (`r`, `g`,
/// `b`) of the terminal's cube of 216 colours.
pub open spec fn ansi_color(r: u8, g: u8, b: u8) -> Seq<char> {
    "\x1b[38;5;"@ + decimal((16 + 36 * r + 6 * g + b) as nat) + "m"@
}

/// The escape sequence that sets the foreground to white.
pub open spec fn ansi_white() -> Seq<char> {
    "\x1b[38;5;7m"@
}

/// The escape sequence that sets the foreground back to what it was.
pub open spec fn ansi_reset() -> Seq<char> {
    "\x1b[39m"@
}

/// Calls `AnsiValue::rgb` and `fg_string` of `termion`. The first gives the
/// colour with the number 16 + 36 r + 6 g + b; the second writes the number
/// in decimal between `ESC [ 38 ; 5 ;` and `m`. No part may be above 5.
#[verifier::external_body]
pub(crate) fn ansi_fg(r: u8, g: u8, b: u8) -> (text: String)
    requires
        r <= 5,
        g <= 5,
        b <= 5,
    ensures
        text@ == ansi_color(r, g, b),
{
    termion::color::AnsiValue::rgb(r, g, b).fg_string()
}

/// Calls `fg_str` of `termion`'s `White`, which is `ESC [ 38 ; 5 ; 7 m`.
#[verifier::external_body]
pub(crate) fn white_fg() -> (text: &'static str)
    ensures
        text@ == ansi_white(),
{
    termion::color::White.fg_str()
}

/// Calls `fg_str` of `termion`'s `Reset`, which is `ESC [ 39 m`.
#[verifier::external_body]
pub(crate) fn reset_fg() -> (text: &'static str)
    ensures
        text@ == ansi_reset(),
{
    termion::color::Reset.fg_str()
}

} // verus!
