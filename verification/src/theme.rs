//! Terminal colours and the theme that turns them into 8-bit RGBA values.

use vstd::prelude::*;

verus! {

/// A colour as the terminal stores it in a cell.
#[derive(Clone, Copy, PartialEq, Eq, Debug, Structural)]
pub enum Color {
    /// The theme's default foreground or background.
    Default,
    /// An index into the 256-colour xterm palette.
    Indexed(u8),
    /// A direct 24-bit colour.
    Rgb(u8, u8, u8),
}

impl Default for Color {
    fn default() -> (c: Self)
        ensures
            c == Color::Default,
    {
        Color::Default
    }
}

/// An 8-bit-per-channel colour with alpha.
#[derive(Clone, Copy, PartialEq, Eq, Debug, Structural)]
pub struct Rgba8 {
    pub r: u8,
    pub g: u8,
    pub b: u8,
    pub a: u8,
}

impl Rgba8 {
    /// The fully opaque colour with the given channels.
    pub open spec fn opaque(r: u8, g: u8, b: u8) -> Rgba8 {
        Rgba8 { r, g, b, a: 255 }
    }
}

/// Builds a fully opaque colour.
pub fn rgb(r: u8, g: u8, b: u8) -> (c: Rgba8)
    ensures
        c == Rgba8::opaque(r, g, b),
{
    Rgba8 { r, g, b, a: 255 }
}

/// Intensity of one channel of the 6x6x6 colour cube, for a level in `0..6`.
pub open spec fn cube_level(c: int) -> int {
    if c == 0 {
        0
    } else {
        55 + c * 40
    }
}

fn level(c: u8) -> (v: u8)
    requires
        c < 6,
    ensures
        v == cube_level(c as int),
{
    if c == 0 {
        0
    } else {
        55 + c * 40
    }
}

/// The colours of the built-in dark theme.
pub open spec fn is_modern_dark(t: &Theme) -> bool {
    &&& t.background == Rgba8::opaque(0, 0, 0)
    &&& t.border == Rgba8::opaque(0, 0, 0)
    &&& t.foreground == Rgba8::opaque(236, 236, 236)
    &&& t.cursor == Rgba8::opaque(9, 106, 185)
    &&& t.header_bg == Rgba8::opaque(1, 1, 1)
    &&& t.header_title == Rgba8::opaque(236, 236, 236)
    &&& t.header_icon == Rgba8::opaque(236, 236, 236)
    &&& t.header_button_hover == Rgba8::opaque(5, 5, 5)
    &&& t.header_close_hover == Rgba8::opaque(184, 11, 19)
    &&& t.cursor_text == Rgba8::opaque(30, 33, 36)
    &&& t.selection == Rgba8::opaque(46, 51, 59)
    &&& t.ansi@ == seq![
        Rgba8::opaque(43, 43, 43),
        Rgba8::opaque(213, 63, 61),
        Rgba8::opaque(91, 189, 78),
        Rgba8::opaque(220, 173, 60),
        Rgba8::opaque(40, 110, 230),
        Rgba8::opaque(196, 96, 209),
        Rgba8::opaque(38, 178, 178),
        Rgba8::opaque(200, 200, 205),
        Rgba8::opaque(108, 112, 122),
        Rgba8::opaque(232, 84, 74),
        Rgba8::opaque(110, 208, 92),
        Rgba8::opaque(233, 190, 90),
        Rgba8::opaque(58, 138, 247),
        Rgba8::opaque(214, 128, 226),
        Rgba8::opaque(58, 196, 196),
        Rgba8::opaque(255, 255, 255),
    ]
}

/// The colours of the terminal and its window chrome.
pub struct Theme {
    pub background: Rgba8,
    pub foreground: Rgba8,
    pub border: Rgba8,
    pub cursor: Rgba8,
    pub header_bg: Rgba8,
    pub header_title: Rgba8,
    pub header_icon: Rgba8,
    pub header_button_hover: Rgba8,
    pub header_close_hover: Rgba8,
    pub cursor_text: Rgba8,
    pub selection: Rgba8,
    /// The 16 ANSI colours: the 8 normal ones, then their bright variants.
    pub ansi: [Rgba8; 16],
}

impl Theme {
    /// The colour of entry `idx` of the 256-colour palette: the theme's 16 ANSI
    /// colours, then the 6x6x6 cube, then 24 grey levels.
    pub open spec fn spec_ansi_256(&self, idx: u8) -> Rgba8 {
        if idx < 16 {
            self.ansi@[idx as int]
        } else if idx < 232 {
            let i = idx - 16;
            Rgba8::opaque(
                cube_level(i / 36) as u8,
                cube_level((i % 36) / 6) as u8,
                cube_level(i % 6) as u8,
            )
        } else {
            let v = 8 + (idx - 232) * 10;
            Rgba8::opaque(v as u8, v as u8, v as u8)
        }
    }

    /// The colour a cell's foreground is drawn in; bold text in one of the
    /// 8 normal ANSI colours uses its bright variant.
    pub open spec fn spec_resolve_fg(&self, color: Color, bold: bool) -> Rgba8 {
        match color {
            Color::Default => self.foreground,
            Color::Indexed(idx) => if bold && idx < 8 {
                self.ansi@[idx + 8]
            } else {
                self.spec_ansi_256(idx)
            },
            Color::Rgb(r, g, b) => Rgba8::opaque(r, g, b),
        }
    }

    /// The colour a cell's background is filled with; `None` leaves the
    /// window background showing.
    pub open spec fn spec_resolve_bg(&self, color: Color) -> Option<Rgba8> {
        match color {
            Color::Default => None,
            Color::Indexed(idx) => Some(self.spec_ansi_256(idx)),
            Color::Rgb(r, g, b) => Some(Rgba8::opaque(r, g, b)),
        }
    }

    /// The built-in dark theme.
    pub fn modern_dark() -> (t: Self)
        ensures
            is_modern_dark(&t),
    {
        let t = Theme {
            background: rgb(0, 0, 0),
            border: rgb(0, 0, 0),
            foreground: rgb(236, 236, 236),
            cursor: rgb(9, 106, 185),
            header_bg: rgb(1, 1, 1),
            header_title: rgb(236, 236, 236),
            header_icon: rgb(236, 236, 236),
            header_button_hover: rgb(5, 5, 5),
            header_close_hover: rgb(184, 11, 19),
            cursor_text: rgb(30, 33, 36),
            selection: rgb(46, 51, 59),
            ansi: [
                rgb(43, 43, 43),
                rgb(213, 63, 61),
                rgb(91, 189, 78),
                rgb(220, 173, 60),
                rgb(40, 110, 230),
                rgb(196, 96, 209),
                rgb(38, 178, 178),
                rgb(200, 200, 205),
                rgb(108, 112, 122),
                rgb(232, 84, 74),
                rgb(110, 208, 92),
                rgb(233, 190, 90),
                rgb(58, 138, 247),
                rgb(214, 128, 226),
                rgb(58, 196, 196),
                rgb(255, 255, 255),
            ],
        };
        assert(t.ansi@ =~= seq![
            Rgba8::opaque(43, 43, 43),
            Rgba8::opaque(213, 63, 61),
            Rgba8::opaque(91, 189, 78),
            Rgba8::opaque(220, 173, 60),
            Rgba8::opaque(40, 110, 230),
            Rgba8::opaque(196, 96, 209),
            Rgba8::opaque(38, 178, 178),
            Rgba8::opaque(200, 200, 205),
            Rgba8::opaque(108, 112, 122),
            Rgba8::opaque(232, 84, 74),
            Rgba8::opaque(110, 208, 92),
            Rgba8::opaque(233, 190, 90),
            Rgba8::opaque(58, 138, 247),
            Rgba8::opaque(214, 128, 226),
            Rgba8::opaque(58, 196, 196),
            Rgba8::opaque(255, 255, 255),
        ]);
        t
    }

    /// Entry `idx` of the 256-colour palette.
    pub fn ansi_256_rgba(&self, idx: u8) -> (c: Rgba8)
        ensures
            c == self.spec_ansi_256(idx),
    {
        if idx < 16 {
            self.ansi[idx as usize]
        } else if idx < 232 {
            let i = idx - 16;
            rgb(level(i / 36), level((i % 36) / 6), level(i % 6))
        } else {
            let v = 8 + (idx - 232) * 10;
            rgb(v, v, v)
        }
    }

    /// The colour a foreground is drawn in.
    pub fn resolve_fg(&self, color: Color, bold: bool) -> (c: Rgba8)
        ensures
            c == self.spec_resolve_fg(color, bold),
    {
        match color {
            Color::Default => self.foreground,
            Color::Indexed(idx) => {
                if bold && idx < 8 {
                    self.ansi[idx as usize + 8]
                } else {
                    self.ansi_256_rgba(idx)
                }
            },
            Color::Rgb(r, g, b) => rgb(r, g, b),
        }
    }

    /// The colour a background is filled with, if any.
    pub fn resolve_bg(&self, color: Color) -> (c: Option<Rgba8>)
        ensures
            c == self.spec_resolve_bg(color),
    {
        match color {
            Color::Default => None,
            Color::Indexed(idx) => Some(self.ansi_256_rgba(idx)),
            Color::Rgb(r, g, b) => Some(rgb(r, g, b)),
        }
    }
}

impl Default for Theme {
    fn default() -> (t: Self)
        ensures
            is_modern_dark(&t),
    {
        Self::modern_dark()
    }
}

/// A colour other than the default fills a background in the same colour
/// it draws non-bold text in; the default colour fills nothing.
pub proof fn law_bg_matches_fg(t: &Theme, c: Color)
    ensures
        c == Color::Default ==> t.spec_resolve_bg(c) is None,
        c != Color::Default ==> t.spec_resolve_bg(c) == Some(t.spec_resolve_fg(c, false)),
{
}

/// Bold text in one of the 8 normal ANSI colours is drawn in its bright
/// variant, the colour 8 entries further on; bold leaves every other colour
/// as it is.
pub proof fn law_bold_brightens(t: &Theme, c: Color)
    ensures
        match c {
            Color::Indexed(i) => if i < 8 {
                t.spec_resolve_fg(c, true) == t.spec_resolve_fg(Color::Indexed((i + 8) as u8), false)
            } else {
                t.spec_resolve_fg(c, true) == t.spec_resolve_fg(c, false)
            },
            _ => t.spec_resolve_fg(c, true) == t.spec_resolve_fg(c, false),
        },
{
}

/// Every palette entry past the 16 theme colours is opaque, the cube runs
/// from black to white and the grey ramp from 8 to 238.
pub proof fn law_palette_ends(t: &Theme, idx: u8)
    ensures
        idx >= 16 ==> t.spec_ansi_256(idx).a == 255,
        t.spec_ansi_256(16) == Rgba8::opaque(0, 0, 0),
        t.spec_ansi_256(231) == Rgba8::opaque(255, 255, 255),
        t.spec_ansi_256(232) == Rgba8::opaque(8, 8, 8),
        t.spec_ansi_256(255) == Rgba8::opaque(238, 238, 238),
{
}

/// The 256-colour palette: entries 0-15 are the theme's ANSI colours;
/// 16-231 a 6x6x6 cube, entry `16 + 36 r + 6 g + b` having channel levels
/// 0, 95, 135, 175, 215, 255 for r, g, b = 0..5; 232-255 a grey ramp from
/// 8 in steps of 10. All are opaque past the first 16.
pub proof fn law_palette_table(t: &Theme, r: int, g: int, b: int, k: int)
    ensures
        forall|i: u8| i < 16 ==> #[trigger] t.spec_ansi_256(i) == t.ansi@[i as int],
        (0 <= r < 6 && 0 <= g < 6 && 0 <= b < 6) ==> {
            let levels = seq![0u8, 95, 135, 175, 215, 255];
            t.spec_ansi_256((16 + 36 * r + 6 * g + b) as u8) == (Rgba8 {
                r: levels[r],
                g: levels[g],
                b: levels[b],
                a: 255,
            })
        },
        0 <= k < 24 ==> t.spec_ansi_256((232 + k) as u8) == (Rgba8 {
            r: (8 + 10 * k) as u8,
            g: (8 + 10 * k) as u8,
            b: (8 + 10 * k) as u8,
            a: 255,
        }),
{
    if 0 <= r < 6 && 0 <= g < 6 && 0 <= b < 6 {
        let i = 36 * r + 6 * g + b;
        assert(i / 36 == r && (i % 36) / 6 == g && i % 6 == b) by (nonlinear_arith)
            requires
                i == 36 * r + 6 * g + b,
                0 <= r < 6,
                0 <= g < 6,
                0 <= b < 6,
        ;
    }
}

/// A cell's foreground: the default colour draws in the theme's foreground
/// (bold or not), a direct colour in itself, fully opaque, and a palette
/// colour in its palette entry, except that bold turns ANSI 0-7 into the
/// theme's bright ANSI 8-15.
pub proof fn law_resolve_fg_cases(t: &Theme, c: Color, bold: bool)
    ensures
        c == Color::Default ==> t.spec_resolve_fg(c, bold) == t.foreground,
        c matches Color::Rgb(r, g, b) ==> t.spec_resolve_fg(c, bold) == (Rgba8 { r, g, b, a: 255 }),
        c matches Color::Indexed(i) ==> t.spec_resolve_fg(c, bold) == (if bold && i < 8 {
            t.ansi@[i + 8]
        } else {
            t.spec_ansi_256(i)
        }),
{
}

} // verus!
