//! What bytes and characters have in common.

use vstd::prelude::*;

verus! {

/// A byte or a character: something with a code that can be compared.
pub trait Symbol: Copy {
    /// The numeric code (the byte, or the scalar value).
    spec fn code(self) -> int;

    /// Whether two symbols are the same.
    fn same(self, other: Self) -> (r: bool)
        ensures
            r == (self == other),
    ;

    /// The value of an ASCII decimal digit.
    fn digit(self) -> (d: Option<u8>)
        ensures
            d == (if 48 <= self.code() <= 57 {
                Some((self.code() - 48) as u8)
            } else {
                None
            }),
    ;
}

impl Symbol for u8 {
    open spec fn code(self) -> int {
        self as int
    }

    fn same(self, other: Self) -> (r: bool) {
        self == other
    }

    fn digit(self) -> (d: Option<u8>) {
        if 48 <= self && self <= 57 {
            Some((self - 48) as u8)
        } else {
            None
        }
    }
}

impl Symbol for char {
    open spec fn code(self) -> int {
        self as int
    }

    fn same(self, other: Self) -> (r: bool) {
        self == other
    }

    fn digit(self) -> (d: Option<u8>) {
        let code: u32 = self as u32;
        proof {
            vstd::utf8::char_u32_cast(self, code);
        }
        if 48 <= code && code <= 57 {
            Some((code - 48) as u8)
        } else {
            None
        }
    }
}

} // verus!
