//! Terminal control sequences (cursor placement, colours) as termion
//! writes them, and the palette of colours that the screens use.

use vstd::prelude::*;
use termion::{clear, color, cursor};
use crate::text::decimal;

verus! {

/// A control sequence: escape, `[`, then `body`.
pub open spec fn csi(body: Seq<char>) -> Seq<char> {
    seq!['\x1b', '['] + body
}

/// The sequence that moves the cursor to column `x`, row `y` (one-based).
pub open spec fn goto_code(x: nat, y: nat) -> Seq<char> {
    csi(decimal(y) + seq![';'] + decimal(x) + seq!['H'])
}

/// The sequence that sets the foreground to the true colour `(r, g, b)`.
pub open spec fn fg_rgb_code(r: nat, g: nat, b: nat) -> Seq<char> {
    csi(seq!['3', '8', ';', '2', ';'] + decimal(r) + seq![';'] + decimal(g) + seq![';'] + decimal(b)
        + seq!['m'])
}

/// The sequence that sets the background to the true colour `(r, g, b)`.
pub open spec fn bg_rgb_code(r: nat, g: nat, b: nat) -> Seq<char> {
    csi(seq!['4', '8', ';', '2', ';'] + decimal(r) + seq![';'] + decimal(g) + seq![';'] + decimal(b)
        + seq!['m'])
}

/// The sequence that sets the foreground to the 256-colour palette entry `n`.
pub open spec fn fg_indexed_code(n: nat) -> Seq<char> {
    csi(seq!['3', '8', ';', '5', ';'] + decimal(n) + seq!['m'])
}

/// The sequence that sets the background to the 256-colour palette entry `n`.
pub open spec fn bg_indexed_code(n: nat) -> Seq<char> {
    csi(seq!['4', '8', ';', '5', ';'] + decimal(n) + seq!['m'])
}

/// The sequence that restores the default foreground.
pub open spec fn fg_reset_code() -> Seq<char> {
    csi(seq!['3', '9', 'm'])
}

/// The sequence that restores the default background.
pub open spec fn bg_reset_code() -> Seq<char> {
    csi(seq!['4', '9', 'm'])
}

/// The sequence that clears the whole screen.
pub open spec fn clear_all_code() -> Seq<char> {
    csi(seq!['2', 'J'])
}

/// A colour sequence as the terminal library writes it: the sequence
/// itself, or nothing at all when colours are switched off for the
/// process (the `NO_COLOR` environment variable).
pub open spec fn colour_or_nothing(s: Seq<char>, code: Seq<char>) -> bool {
    s == code || s.len() == 0
}

/// The named colours of the basic palette that the screens use.
#[derive(Debug, Clone, Copy)]
pub enum NamedColour {
    Black,
    Red,
    LightRed,
    LightBlue,
}

/// The palette entry of a named colour.
pub open spec fn palette_entry(c: NamedColour) -> nat {
    match c {
        NamedColour::Black => 0,
        NamedColour::Red => 1,
        NamedColour::LightRed => 9,
        NamedColour::LightBlue => 12,
    }
}

/// Cursor placement at column `x`, row `y`.
///
/// Writes `termion::cursor::Goto(x, y)` with its `Display`, which the
/// source shows as escape, `[`, `y`, `;`, `x`, `H` in decimal. Its
/// `Display` asserts (in debug builds) that the position is not (0, 0).
#[verifier::external_body]
pub(crate) fn goto(x: u16, y: u16) -> (s: String)
    requires
        x != 0 || y != 0,
    ensures
        s@ == goto_code(x as nat, y as nat),
{
    format!("{}", cursor::Goto(x, y))
}

/// A true-colour foreground.
///
/// Writes `termion::color::Fg(termion::color::Rgb(r, g, b))` with its
/// `Display`: the `38;2` sequence, or nothing when termion finds colours
/// switched off (it reads the environment once per process).
#[verifier::external_body]
pub(crate) fn fg_rgb(r: u8, g: u8, b: u8) -> (s: String)
    ensures
        colour_or_nothing(s@, fg_rgb_code(r as nat, g as nat, b as nat)),
{
    format!("{}", color::Fg(color::Rgb(r, g, b)))
}

/// A true-colour background.
///
/// Writes `termion::color::Bg(termion::color::Rgb(r, g, b))` with its
/// `Display`: the `48;2` sequence, or nothing when termion finds colours
/// switched off.
#[verifier::external_body]
pub(crate) fn bg_rgb(r: u8, g: u8, b: u8) -> (s: String)
    ensures
        colour_or_nothing(s@, bg_rgb_code(r as nat, g as nat, b as nat)),
{
    format!("{}", color::Bg(color::Rgb(r, g, b)))
}

/// A named foreground colour.
///
/// Writes `termion::color::Fg` of the termion colour of the same name with
/// its `Display`: the `38;5` sequence of its palette entry, or nothing when
/// termion finds colours switched off.
#[verifier::external_body]
fn fg_named(c: NamedColour) -> (s: String)
    ensures
        colour_or_nothing(s@, fg_indexed_code(palette_entry(c))),
{
    match c {
        NamedColour::Black => format!("{}", color::Fg(color::Black)),
        NamedColour::Red => format!("{}", color::Fg(color::Red)),
        NamedColour::LightRed => format!("{}", color::Fg(color::LightRed)),
        NamedColour::LightBlue => format!("{}", color::Fg(color::LightBlue)),
    }
}

/// A named background colour.
///
/// Writes `termion::color::Bg` of the termion colour of the same name with
/// its `Display`: the `48;5` sequence of its palette entry, or nothing when
/// termion finds colours switched off.
#[verifier::external_body]
fn bg_named(c: NamedColour) -> (s: String)
    ensures
        colour_or_nothing(s@, bg_indexed_code(palette_entry(c))),
{
    match c {
        NamedColour::Black => format!("{}", color::Bg(color::Black)),
        NamedColour::Red => format!("{}", color::Bg(color::Red)),
        NamedColour::LightRed => format!("{}", color::Bg(color::LightRed)),
        NamedColour::LightBlue => format!("{}", color::Bg(color::LightBlue)),
    }
}

/// The default foreground.
///
/// Writes `termion::color::Fg(termion::color::Reset)` with its `Display`,
/// which always writes `39m` after the control introducer.
#[verifier::external_body]
pub(crate) fn fg_reset() -> (s: String)
    ensures
        s@ == fg_reset_code(),
{
    format!("{}", color::Fg(color::Reset))
}

/// The default background.
///
/// Writes `termion::color::Bg(termion::color::Reset)` with its `Display`,
/// which always writes `49m` after the control introducer.
#[verifier::external_body]
pub(crate) fn bg_reset() -> (s: String)
    ensures
        s@ == bg_reset_code(),
{
    format!("{}", color::Bg(color::Reset))
}

/// Clearing of the whole screen.
///
/// Writes `termion::clear::All` with its `Display`: `2J` after the control
/// introducer.
#[verifier::external_body]
pub(crate) fn clear_all() -> (s: String)
    ensures
        s@ == clear_all_code(),
{
    format!("{}", clear::All)
}

/// The colours of the screens, each one the sequence that selects it, or
/// empty when the terminal library writes no colours.
pub struct Palette {
    /// Foreground of ordinary text (black).
    pub text_fg: String,
    /// Foreground of error messages (red).
    pub error_fg: String,
    /// Foreground of the menu's hints (light grey).
    pub hint_fg: String,
    /// Background of the menu box (light blue).
    pub menu_bg: String,
    /// Background of the selected menu choice (light red).
    pub selected_bg: String,
    /// Background that floods the screen behind the boxes.
    pub backdrop_bg: String,
    /// Background of the shadow of the boxes.
    pub shadow_bg: String,
    /// Background of the shadow beside the timetable's rows.
    pub row_shadow_bg: String,
    /// Background of the timetable box and of cells on other days.
    pub panel_bg: String,
    /// Background of today's cells.
    pub today_bg: String,
    /// Background of the cell of the current period.
    pub now_bg: String,
}

/// The colours of the screens: text black, errors red, hints
/// rgb(196, 194, 194), menu light blue, selection light red, backdrop
/// rgb(158, 187, 211), shadows rgb(112, 141, 194) and rgb(112, 131, 194),
/// timetable rgb(130, 168, 159), today rgb(163, 219, 138), now
/// rgb(101, 133, 88).
pub open spec fn palette_colours(p: Palette) -> bool {
    &&& colour_or_nothing(p.text_fg@, fg_indexed_code(0))
    &&& colour_or_nothing(p.error_fg@, fg_indexed_code(1))
    &&& colour_or_nothing(p.hint_fg@, fg_rgb_code(196, 194, 194))
    &&& colour_or_nothing(p.menu_bg@, bg_indexed_code(12))
    &&& colour_or_nothing(p.selected_bg@, bg_indexed_code(9))
    &&& colour_or_nothing(p.backdrop_bg@, bg_rgb_code(158, 187, 211))
    &&& colour_or_nothing(p.shadow_bg@, bg_rgb_code(112, 141, 194))
    &&& colour_or_nothing(p.row_shadow_bg@, bg_rgb_code(112, 131, 194))
    &&& colour_or_nothing(p.panel_bg@, bg_rgb_code(130, 168, 159))
    &&& colour_or_nothing(p.today_bg@, bg_rgb_code(163, 219, 138))
    &&& colour_or_nothing(p.now_bg@, bg_rgb_code(101, 133, 88))
}

impl Palette {
    /// The palette as the terminal library writes it.
    ///
    /// termion writes no colour at all when the `NO_COLOR` environment
    /// variable is set for the process, so each colour is either its
    /// sequence or empty; which of the two the environment gives is not
    /// stated, and a palette of empty colours is a possible outcome.
    pub fn from_terminal() -> (p: Palette)
        ensures
            palette_colours(p),
    {
        Palette {
            text_fg: fg_named(NamedColour::Black),
            error_fg: fg_named(NamedColour::Red),
            hint_fg: fg_rgb(196, 194, 194),
            menu_bg: bg_named(NamedColour::LightBlue),
            selected_bg: bg_named(NamedColour::LightRed),
            backdrop_bg: bg_rgb(158, 187, 211),
            shadow_bg: bg_rgb(112, 141, 194),
            row_shadow_bg: bg_rgb(112, 131, 194),
            panel_bg: bg_rgb(130, 168, 159),
            today_bg: bg_rgb(163, 219, 138),
            now_bg: bg_rgb(101, 133, 88),
        }
    }
}

} // verus!
