//! The buttons of the window's title bar.

use vstd::prelude::*;

verus! {

/// A button of the title bar.
#[derive(Clone, Copy, PartialEq, Eq, Debug, Structural)]
pub enum HeaderButton {
    Minimize,
    Maximize,
    Close,
}

impl HeaderButton {
    /// The button's place counted from the right edge of the window.
    pub open spec fn spec_slot(self) -> u8 {
        match self {
            HeaderButton::Close => 0,
            HeaderButton::Maximize => 1,
            HeaderButton::Minimize => 2,
        }
    }

    /// The button's place counted from the right edge: Close is rightmost,
    /// then Maximize, then Minimize.
    pub fn slot(self) -> (s: u8)
        ensures
            s == self.spec_slot(),
    {
        match self {
            HeaderButton::Close => 0,
            HeaderButton::Maximize => 1,
            HeaderButton::Minimize => 2,
        }
    }

    /// The glyph drawn on the button.
    pub open spec fn spec_icon(self) -> char {
        match self {
            HeaderButton::Minimize => '\u{2212}',
            HeaderButton::Maximize => '\u{25A1}',
            HeaderButton::Close => '\u{00D7}',
        }
    }

    /// The glyph drawn on the button: minus sign, white square, multiplication sign.
    pub fn icon(self) -> (c: char)
        ensures
            c == self.spec_icon(),
    {
        match self {
            HeaderButton::Minimize => '\u{2212}',
            HeaderButton::Maximize => '\u{25A1}',
            HeaderButton::Close => '\u{00D7}',
        }
    }
}

/// Different buttons sit in different places and carry different glyphs.
pub proof fn lemma_buttons_distinct(a: HeaderButton, b: HeaderButton)
    requires
        a != b,
    ensures
        a.spec_slot() != b.spec_slot(),
        a.spec_icon() != b.spec_icon(),
{
}

/// The buttons sit right to left as Close, Maximize, Minimize, in the three
/// places next to the window's edge, and carry a multiplication sign, a
/// white square and a minus sign.
pub proof fn law_button_layout()
    ensures
        HeaderButton::Close.spec_slot() < HeaderButton::Maximize.spec_slot(),
        HeaderButton::Maximize.spec_slot() < HeaderButton::Minimize.spec_slot(),
        HeaderButton::Close.spec_slot() == 0,
        HeaderButton::Minimize.spec_slot() == 2,
        HeaderButton::Close.spec_icon() == '\u{00D7}',
        HeaderButton::Maximize.spec_icon() == '\u{25A1}',
        HeaderButton::Minimize.spec_icon() == '\u{2212}',
{
}

} // verus!
