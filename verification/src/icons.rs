//! The icons of the user interface and their places in the icon font.

use vstd::prelude::*;

verus! {

/// An icon of the icon font.
#[derive(Debug, Clone, Copy, PartialEq, Eq, Structural)]
pub enum Icon {
    Settings,
    WalletMinimal,
    RotateCcwKey,
    Copy,
    CircleDot,
    ArrowBigUpDash,
    ChevronDown,
    ChevronRight,
    FolderDown,
    ArrowBigDownDash,
    ArrowsUpFromLine,
    Store,
    ChevronLeft,
    UserRoundPen,
    Bitcoin,
    Circle,
    Bolt,
    AtSign,
}

impl Icon {
    /// The place of the icon in the font, counted from 0.
    pub open spec fn ordinal(self) -> nat {
        match self {
            Icon::Settings => 0,
            Icon::WalletMinimal => 1,
            Icon::RotateCcwKey => 2,
            Icon::Copy => 3,
            Icon::CircleDot => 4,
            Icon::ArrowBigUpDash => 5,
            Icon::ChevronDown => 6,
            Icon::ChevronRight => 7,
            Icon::FolderDown => 8,
            Icon::ArrowBigDownDash => 9,
            Icon::ArrowsUpFromLine => 10,
            Icon::Store => 11,
            Icon::ChevronLeft => 12,
            Icon::UserRoundPen => 13,
            Icon::Bitcoin => 14,
            Icon::Circle => 15,
            Icon::Bolt => 16,
            Icon::AtSign => 17,
        }
    }

    /// The character of the icon: the icons fill the private use area of
    /// Unicode from its first code point on.
    pub open spec fn glyph(self) -> char {
        ((0xE000 + self.ordinal()) as u32) as char
    }

    /// The character that shows the icon in the icon font.
    pub fn as_char(&self) -> (c: char)
        ensures
            c == self.glyph(),
    {
        match self {
            Icon::Settings => '\u{E000}',
            Icon::WalletMinimal => '\u{E001}',
            Icon::RotateCcwKey => '\u{E002}',
            Icon::Copy => '\u{E003}',
            Icon::CircleDot => '\u{E004}',
            Icon::ArrowBigUpDash => '\u{E005}',
            Icon::ChevronDown => '\u{E006}',
            Icon::ChevronRight => '\u{E007}',
            Icon::FolderDown => '\u{E008}',
            Icon::ArrowBigDownDash => '\u{E009}',
            Icon::ArrowsUpFromLine => '\u{E00A}',
            Icon::Store => '\u{E00B}',
            Icon::ChevronLeft => '\u{E00C}',
            Icon::UserRoundPen => '\u{E00D}',
            Icon::Bitcoin => '\u{E00E}',
            Icon::Circle => '\u{E00F}',
            Icon::Bolt => '\u{E010}',
            Icon::AtSign => '\u{E011}',
        }
    }
}

/// Different icons have different characters.
pub proof fn lemma_glyphs_differ(a: Icon, b: Icon)
    ensures
        a.glyph() == b.glyph() <==> a == b,
{
}

} // verus!
