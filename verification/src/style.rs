//! Plain-value text styling: a style is a pair of palette colors plus
//! emphasis flags, and a theme names the base styles the layout engine
//! assigns by node kind.

use vstd::prelude::*;

verus! {

/// A display style for a run of text: foreground and background palette
/// indices plus emphasis flags.
#[derive(Clone, Copy, Debug, PartialEq, Eq, Structural)]
pub struct Style {
    pub fg: u16,
    pub bg: u16,
    pub bold: bool,
    pub italic: bool,
    pub underline: bool,
}

impl Style {
    /// The style with default colors and no emphasis.
    pub fn plain() -> (r: Style)
        ensures
            r == (Style { fg: 0, bg: 0, bold: false, italic: false, underline: false }),
    {
        Style { fg: 0, bg: 0, bold: false, italic: false, underline: false }
    }

    /// `self` with the given emphasis flags switched on in addition to its own.
    pub open spec fn spec_with_effects(self, bold: bool, italic: bool, underline: bool) -> Style {
        Style {
            fg: self.fg,
            bg: self.bg,
            bold: self.bold || bold,
            italic: self.italic || italic,
            underline: self.underline || underline,
        }
    }

    /// Combines the base style with emphasis flags gathered from enclosing
    /// emphasis nodes.
    pub fn with_effects(self, bold: bool, italic: bool, underline: bool) -> (r: Style)
        ensures
            r == self.spec_with_effects(bold, italic, underline),
    {
        Style {
            fg: self.fg,
            bg: self.bg,
            bold: self.bold || bold,
            italic: self.italic || italic,
            underline: self.underline || underline,
        }
    }
}

/// The base styles the layout engine reads when assigning styles by node
/// kind; passed explicitly so that rendering stays a pure function of its
/// inputs.
#[derive(Clone, Copy, Debug, PartialEq, Eq, Structural)]
pub struct Theme {
    pub text: Style,
    pub title: Style,
    pub link: Style,
}

impl Theme {
    /// A theme with plain text, bold titles and underlined links.
    pub fn plain() -> (r: Theme)
        ensures
            r.text == (Style { fg: 0, bg: 0, bold: false, italic: false, underline: false }),
            r.title == (Style { fg: 0, bg: 0, bold: true, italic: false, underline: false }),
            r.link == (Style { fg: 0, bg: 0, bold: false, italic: false, underline: true }),
    {
        Theme {
            text: Style { fg: 0, bg: 0, bold: false, italic: false, underline: false },
            title: Style { fg: 0, bg: 0, bold: true, italic: false, underline: false },
            link: Style { fg: 0, bg: 0, bold: false, italic: false, underline: true },
        }
    }
}

} // verus!
