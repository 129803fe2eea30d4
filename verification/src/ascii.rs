//! The ASCII codes that the console protocol gives a meaning to.

use vstd::prelude::*;

verus! {

/// Horizontal tab.
pub const TAB: u8 = 0x09;

/// Line feed; ends a line.
pub const LINE_FEED: u8 = 0x0a;

/// Form feed.
pub const FORM_FEED: u8 = 0x0c;

/// Carriage return; ends a line.
pub const CARRIAGE_RETURN: u8 = 0x0d;

/// Backspace, also sent as control-H; erases the last character.
pub const BACKSPACE: u8 = 0x08;

/// Delete; erases the last character.
pub const DELETE: u8 = 0x7f;

/// Control-R; recalls the previous line.
pub const RECALL: u8 = 0x12;

/// Space, the first printable character.
pub const SPACE: u8 = 0x20;

/// Tilde, the last printable character.
pub const TILDE: u8 = 0x7e;

/// The digit `0`.
pub const DIGIT_0: u8 = 0x30;

/// The digit `9`.
pub const DIGIT_9: u8 = 0x39;

/// The letter `h`: the help command, and the level high.
pub const LOWER_H: u8 = 0x68;

/// The letter `H`: the level high.
pub const UPPER_H: u8 = 0x48;

/// The letter `l`: the level low.
pub const LOWER_L: u8 = 0x6c;

/// The letter `L`: the level low.
pub const UPPER_L: u8 = 0x4c;

/// The letter `r`: the read command.
pub const LOWER_R: u8 = 0x72;

/// The letter `w`: the write command.
pub const LOWER_W: u8 = 0x77;

/// Whether `b` is a printable ASCII character, space to tilde.
pub open spec fn is_printable(b: u8) -> bool {
    SPACE <= b <= TILDE
}

/// Whether `b` is ASCII whitespace: space, tab, line feed, form feed or
/// carriage return.
pub open spec fn is_whitespace(b: u8) -> bool {
    b == SPACE || b == TAB || b == LINE_FEED || b == FORM_FEED || b == CARRIAGE_RETURN
}

/// Whether `b` ends a line: carriage return or line feed.
pub open spec fn is_terminator(b: u8) -> bool {
    b == CARRIAGE_RETURN || b == LINE_FEED
}

/// Whether `b` is an ASCII decimal digit.
pub open spec fn is_digit(b: u8) -> bool {
    DIGIT_0 <= b <= DIGIT_9
}

} // verus!
