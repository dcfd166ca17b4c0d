//! The ASCII bytes that the formats below are written with.

use vstd::prelude::*;

verus! {

pub const NUL: u8 = 0;

pub const TAB: u8 = 9;

pub const NEWLINE: u8 = 10;

pub const SPACE: u8 = 32;

pub const QUOTE: u8 = 34;

pub const PLUS: u8 = 43;

pub const COMMA: u8 = 44;

pub const MINUS: u8 = 45;

pub const DOT: u8 = 46;

pub const SLASH: u8 = 47;

pub const AT: u8 = 64;

pub const BACKSLASH: u8 = 92;

pub const LOWER_A: u8 = 97;

pub const LOWER_B: u8 = 98;

} // verus!
