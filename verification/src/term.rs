//! The terminal control sequences the screen is written with. Each comes
//! from `termion`; the contracts here say which characters it yields.

use vstd::prelude::*;

verus! {

/// The character of a decimal digit `d < 10`.
pub open spec fn digit_char(d: nat) -> char {
    if d == 0 {
        '0'
    } else if d == 1 {
        '1'
    } else if d == 2 {
        '2'
    } else if d == 3 {
        '3'
    } else if d == 4 {
        '4'
    } else if d == 5 {
        '5'
    } else if d == 6 {
        '6'
    } else if d == 7 {
        '7'
    } else if d == 8 {
        '8'
    } else {
        '9'
    }
}

/// `n` in decimal, without sign or leading zeros.
pub open spec fn decimal_text(n: nat) -> Seq<char>
    decreases n,
{
    if n < 10 {
        seq![digit_char(n)]
    } else {
        decimal_text(n / 10).push(digit_char(n % 10))
    }
}

/// The sequence that moves the cursor to column `x` of row `y`, both counted from 1.
pub open spec fn goto_text(x: u16, y: u16) -> Seq<char> {
    "\x1b["@ + decimal_text(y as nat) + ";"@ + decimal_text(x as nat) + "H"@
}

/// The sequence that clears the whole screen.
pub open spec fn clear_all_text() -> Seq<char> {
    "\x1b[2J"@
}

/// The sequence that clears the line the cursor is on.
pub open spec fn clear_line_text() -> Seq<char> {
    "\x1b[2K"@
}

/// The sequence that switches to bold text.
pub open spec fn bold_text() -> Seq<char> {
    "\x1b[1m"@
}

/// The sequence that switches to italic text.
pub open spec fn italic_text() -> Seq<char> {
    "\x1b[3m"@
}

/// The sequence that resets every text attribute.
pub open spec fn reset_text() -> Seq<char> {
    "\x1b[m"@
}

/// The sequence that selects light cyan as the foreground colour.
pub open spec fn light_cyan_text() -> Seq<char> {
    "\x1b[38;5;14m"@
}

/// The sequence that selects blue as the foreground colour.
pub open spec fn blue_text() -> Seq<char> {
    "\x1b[38;5;4m"@
}

/// `termion::cursor::Goto(x, y)` as text. Trusted: termion writes the escape
/// character, `[`, the row `y` and the column `x` in decimal with `;` between
/// them, and `H`. Its debug assertion rejects the position (0, 0).
#[verifier::external_body]
pub(crate) fn goto(x: u16, y: u16) -> (r: String)
    requires
        x != 0 || y != 0,
    ensures
        r@ == goto_text(x, y),
{
    format!("{}", termion::cursor::Goto(x, y))
}

/// `termion::clear::All` as text. Trusted: the fixed sequence `ESC [ 2 J`.
#[verifier::external_body]
pub(crate) fn clear_all() -> (r: String)
    ensures
        r@ == clear_all_text(),
{
    format!("{}", termion::clear::All)
}

/// `termion::clear::CurrentLine` as text. Trusted: the fixed sequence `ESC [ 2 K`.
#[verifier::external_body]
pub(crate) fn clear_line() -> (r: String)
    ensures
        r@ == clear_line_text(),
{
    format!("{}", termion::clear::CurrentLine)
}

/// `termion::style::Bold` as text. Trusted: the fixed sequence `ESC [ 1 m`.
#[verifier::external_body]
pub(crate) fn bold() -> (r: String)
    ensures
        r@ == bold_text(),
{
    format!("{}", termion::style::Bold)
}

/// `termion::style::Italic` as text. Trusted: the fixed sequence `ESC [ 3 m`.
#[verifier::external_body]
pub(crate) fn italic() -> (r: String)
    ensures
        r@ == italic_text(),
{
    format!("{}", termion::style::Italic)
}

/// `termion::style::Reset` as text. Trusted: the fixed sequence `ESC [ m`.
#[verifier::external_body]
pub(crate) fn reset() -> (r: String)
    ensures
        r@ == reset_text(),
{
    format!("{}", termion::style::Reset)
}

/// `termion::color::Fg(termion::color::LightCyan)` as text. Trusted: the
/// fixed sequence `ESC [ 38;5;14 m`, colour 14 of the 256-colour palette.
#[verifier::external_body]
pub(crate) fn fg_light_cyan() -> (r: String)
    ensures
        r@ == light_cyan_text(),
{
    format!("{}", termion::color::Fg(termion::color::LightCyan))
}

/// `termion::color::Fg(termion::color::Blue)` as text. Trusted: the fixed
/// sequence `ESC [ 38;5;4 m`, colour 4 of the 256-colour palette.
#[verifier::external_body]
pub(crate) fn fg_blue() -> (r: String)
    ensures
        r@ == blue_text(),
{
    format!("{}", termion::color::Fg(termion::color::Blue))
}

} // verus!
