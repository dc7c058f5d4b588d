//! Byte classes of the lexer. The end of input belongs to none of them.

use vstd::prelude::*;

verus! {

pub const TAB: u8 = 9;
pub const NEWLINE: u8 = 10;
pub const CARRIAGE_RETURN: u8 = 13;
pub const SPACE: u8 = 32;
pub const QUOTE: u8 = 34;
pub const HASH: u8 = 35;
pub const LEFT_PAREN: u8 = 40;
pub const RIGHT_PAREN: u8 = 41;
pub const PLUS: u8 = 43;
pub const COMMA: u8 = 44;
pub const MINUS: u8 = 45;
pub const DIGIT_ZERO: u8 = 48;
pub const DIGIT_NINE: u8 = 57;
pub const COLON: u8 = 58;
pub const EQUALS: u8 = 61;
pub const GREATER: u8 = 62;
pub const QUESTION: u8 = 63;
pub const UPPER_A: u8 = 65;
pub const UPPER_Z: u8 = 90;
pub const LEFT_BRACKET: u8 = 91;
pub const BACKSLASH: u8 = 92;
pub const RIGHT_BRACKET: u8 = 93;
pub const UNDERSCORE: u8 = 95;
pub const LOWER_A: u8 = 97;
pub const LOWER_Z: u8 = 122;

pub open spec fn whitespace_spec(c: u8) -> bool {
    c == SPACE || c == NEWLINE || c == TAB || c == CARRIAGE_RETURN
}

pub open spec fn inline_whitespace_spec(c: u8) -> bool {
    c == SPACE || c == TAB || c == CARRIAGE_RETURN
}

pub open spec fn alpha_spec(c: u8) -> bool {
    (LOWER_A <= c <= LOWER_Z) || (UPPER_A <= c <= UPPER_Z)
}

pub open spec fn digit_spec(c: u8) -> bool {
    DIGIT_ZERO <= c <= DIGIT_NINE
}

pub open spec fn id_char_spec(c: u8) -> bool {
    alpha_spec(c) || digit_spec(c) || c == UNDERSCORE
}

/// Whether `byte` is present and satisfies `p`; the end of input satisfies none of these.
pub open spec fn holds(byte: Option<u8>, p: spec_fn(u8) -> bool) -> bool {
    match byte {
        Some(c) => p(c),
        None => false,
    }
}

#[allow(unused)]
pub fn is_whitespace(byte: Option<u8>) -> (r: bool)
    ensures
        r == holds(byte, |c: u8| whitespace_spec(c)),
{
    match byte {
        Some(c) => c == SPACE || c == NEWLINE || c == TAB || c == CARRIAGE_RETURN,
        None => false,
    }
}

pub fn is_whitespace_but_newline(byte: Option<u8>) -> (r: bool)
    ensures
        r == holds(byte, |c: u8| inline_whitespace_spec(c)),
{
    match byte {
        Some(c) => c == SPACE || c == TAB || c == CARRIAGE_RETURN,
        None => false,
    }
}

pub fn is_alpha(byte: Option<u8>) -> (r: bool)
    ensures
        r == holds(byte, |c: u8| alpha_spec(c)),
{
    match byte {
        Some(c) => {
            let lower = c >= LOWER_A && c <= LOWER_Z;
            let upper = c >= UPPER_A && c <= UPPER_Z;
            lower || upper
        },
        None => false,
    }
}

pub fn is_num(byte: Option<u8>) -> (r: bool)
    ensures
        r == holds(byte, |c: u8| digit_spec(c)),
{
    match byte {
        Some(c) => c >= DIGIT_ZERO && c <= DIGIT_NINE,
        None => false,
    }
}

pub fn is_alphanum(byte: Option<u8>) -> (r: bool)
    ensures
        r == holds(byte, |c: u8| alpha_spec(c) || digit_spec(c)),
{
    match byte {
        Some(c) => {
            let lower = c >= LOWER_A && c <= LOWER_Z;
            let upper = c >= UPPER_A && c <= UPPER_Z;
            let num = c >= DIGIT_ZERO && c <= DIGIT_NINE;
            lower || upper || num
        },
        None => false,
    }
}

pub fn is_id_char(byte: Option<u8>) -> (r: bool)
    ensures
        r == holds(byte, |c: u8| id_char_spec(c)),
{
    match byte {
        None => false,
        Some(inner) => is_alphanum(byte) || inner == UNDERSCORE,
    }
}

} // verus!
