//! Display styles carried by symbols and cells.

use vstd::prelude::*;

verus! {

/// A terminal colour.
#[derive(Copy, Clone, Debug, PartialEq, Eq, Structural)]
pub enum Color {
    /// The terminal's own default.
    Reset,
    /// A 24-bit colour.
    Rgb(u8, u8, u8),
}

/// Foreground, background and text attributes of a cell.
#[derive(Copy, Clone, Debug, PartialEq, Eq, Structural)]
pub struct Style {
    pub fg: Color,
    pub bg: Color,
    pub bold: bool,
    pub italic: bool,
}

impl Style {
    /// Both colours left to the terminal, no attributes.
    pub open spec fn plain() -> Style {
        Style { fg: Color::Reset, bg: Color::Reset, bold: false, italic: false }
    }

    pub fn new() -> (style: Style)
        ensures
            style == Style::plain(),
    {
        Style { fg: Color::Reset, bg: Color::Reset, bold: false, italic: false }
    }

    pub fn fg(self, color: Color) -> (style: Style)
        ensures
            style == (Style { fg: color, ..self }),
    {
        Style { fg: color, bg: self.bg, bold: self.bold, italic: self.italic }
    }

    pub fn bg(self, color: Color) -> (style: Style)
        ensures
            style == (Style { bg: color, ..self }),
    {
        Style { fg: self.fg, bg: color, bold: self.bold, italic: self.italic }
    }
}

impl Default for Style {
    fn default() -> (style: Style)
        ensures
            style == Style::plain(),
    {
        Style::new()
    }
}

} // verus!
