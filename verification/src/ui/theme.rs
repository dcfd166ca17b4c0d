//! lazygit's default look, mapped onto a dark terminal palette.

use vstd::prelude::*;

verus! {

/// A colour as `0xRRGGBB`.
pub type Color = u32;

/// The colours.
pub struct Palette;

pub const BG: Color = 0x16181c;

pub const FG: Color = 0xc9ccd1;

pub const DIM: Color = 0x6b717b;

/// lazygit `activeBorderColor: [green, bold]`
pub const ACTIVE_BORDER: Color = 0x8cc265;

/// lazygit `inactiveBorderColor: [default]`
pub const INACTIVE_BORDER: Color = 0x3c414a;

/// lazygit `selectedLineBgColor: [blue]`
pub const SELECTION: Color = 0x264f78;

/// lazygit `inactiveViewSelectedLineBgColor: [bold]`, softened with a faint bg.
pub const INACTIVE_SELECTION: Color = 0x24282f;

pub const GREEN: Color = 0x8cc265;

pub const RED: Color = 0xe06c75;

pub const YELLOW: Color = 0xe5c07b;

pub const BLUE: Color = 0x61afef;

pub const CYAN: Color = 0x56b6c2;

pub const MAGENTA: Color = 0xc678dd;

impl Palette {
    pub fn bg() -> (r: Color)
        ensures
            r == BG,
    {
        BG
    }

    pub fn fg() -> (r: Color)
        ensures
            r == FG,
    {
        FG
    }

    pub fn dim() -> (r: Color)
        ensures
            r == DIM,
    {
        DIM
    }

    pub fn active_border() -> (r: Color)
        ensures
            r == ACTIVE_BORDER,
    {
        ACTIVE_BORDER
    }

    pub fn inactive_border() -> (r: Color)
        ensures
            r == INACTIVE_BORDER,
    {
        INACTIVE_BORDER
    }

    pub fn selection() -> (r: Color)
        ensures
            r == SELECTION,
    {
        SELECTION
    }

    pub fn inactive_selection() -> (r: Color)
        ensures
            r == INACTIVE_SELECTION,
    {
        INACTIVE_SELECTION
    }

    pub fn green() -> (r: Color)
        ensures
            r == GREEN,
    {
        GREEN
    }

    pub fn red() -> (r: Color)
        ensures
            r == RED,
    {
        RED
    }

    pub fn yellow() -> (r: Color)
        ensures
            r == YELLOW,
    {
        YELLOW
    }

    pub fn blue() -> (r: Color)
        ensures
            r == BLUE,
    {
        BLUE
    }

    pub fn cyan() -> (r: Color)
        ensures
            r == CYAN,
    {
        CYAN
    }

    pub fn magenta() -> (r: Color)
        ensures
            r == MAGENTA,
    {
        MAGENTA
    }
}

pub const FONT: &'static str = "Menlo";

} // verus!
