//! Named constants for the ASCII bytes the compiler reads and writes.

use vstd::prelude::*;

verus! {

pub const TAB: u8 = 9;
pub const LINE_FEED: u8 = 10;
pub const CARRIAGE_RETURN: u8 = 13;
pub const SPACE: u8 = 32;

pub const BANG: u8 = 33;
pub const HASH: u8 = 35;
pub const DOLLAR: u8 = 36;
pub const PERCENT: u8 = 37;
pub const AMPERSAND: u8 = 38;
pub const LEFT_PAREN: u8 = 40;
pub const RIGHT_PAREN: u8 = 41;
pub const STAR: u8 = 42;
pub const PLUS: u8 = 43;
pub const COMMA: u8 = 44;
pub const MINUS: u8 = 45;
pub const DOT: u8 = 46;

pub const DIGIT_ZERO: u8 = 48;
pub const DIGIT_ONE: u8 = 49;
pub const DIGIT_NINE: u8 = 57;

pub const COLON: u8 = 58;
pub const LESS_THAN: u8 = 60;
pub const GREATER_THAN: u8 = 62;
pub const QUESTION: u8 = 63;

pub const UPPER_A: u8 = 65;
pub const UPPER_Z: u8 = 90;

pub const BACKSLASH: u8 = 92;
pub const CARET: u8 = 94;
pub const UNDERSCORE: u8 = 95;

pub const LOWER_A: u8 = 97;
pub const LOWER_B: u8 = 98;
pub const LOWER_C: u8 = 99;
pub const LOWER_D: u8 = 100;
pub const LOWER_E: u8 = 101;
pub const LOWER_F: u8 = 102;
pub const LOWER_G: u8 = 103;
pub const LOWER_H: u8 = 104;
pub const LOWER_I: u8 = 105;
pub const LOWER_K: u8 = 107;
pub const LOWER_L: u8 = 108;
pub const LOWER_M: u8 = 109;
pub const LOWER_N: u8 = 110;
pub const LOWER_O: u8 = 111;
pub const LOWER_P: u8 = 112;
pub const LOWER_R: u8 = 114;
pub const LOWER_S: u8 = 115;
pub const LOWER_T: u8 = 116;
pub const LOWER_U: u8 = 117;
pub const LOWER_V: u8 = 118;
pub const LOWER_W: u8 = 119;
pub const LOWER_X: u8 = 120;
pub const LOWER_Y: u8 = 121;
pub const LOWER_Z: u8 = 122;

pub const PIPE: u8 = 124;
pub const TILDE: u8 = 126;

/// The spelled-out name of the line-feed character in character literals.
pub open spec fn escape_newline() -> Seq<u8> {
    seq![LOWER_N, LOWER_E, LOWER_W, LOWER_L, LOWER_I, LOWER_N, LOWER_E]
}

/// The spelled-out name of the carriage-return character.
pub open spec fn escape_return() -> Seq<u8> {
    seq![LOWER_R, LOWER_E, LOWER_T, LOWER_U, LOWER_R, LOWER_N]
}

/// The spelled-out name of the space character.
pub open spec fn escape_space() -> Seq<u8> {
    seq![LOWER_S, LOWER_P, LOWER_A, LOWER_C, LOWER_E]
}

/// The spelled-out name of the tab character.
pub open spec fn escape_tab() -> Seq<u8> {
    seq![LOWER_T, LOWER_A, LOWER_B]
}

/// The bytes Rust counts as ASCII whitespace: space, tab, line feed, form
/// feed, carriage return.
pub open spec fn is_whitespace(b: u8) -> bool {
    b == SPACE || b == TAB || b == LINE_FEED || b == 12 || b == CARRIAGE_RETURN
}

/// The printable ASCII bytes other than space.
pub open spec fn is_graphic(b: u8) -> bool {
    33 <= b <= 126
}

} // verus!
