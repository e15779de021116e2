//! The classes of ASCII bytes that the shell tells apart.

use vstd::prelude::*;

verus! {

/// Whether `byte` is a decimal digit.
pub open spec fn is_digit(byte: u8) -> bool {
    0x30 <= byte <= 0x39
}

/// Whether `byte` is a letter.
pub open spec fn is_alphabetic(byte: u8) -> bool {
    0x41 <= byte <= 0x5a || 0x61 <= byte <= 0x7a
}

/// Whether `byte` is a punctuation character.
pub open spec fn is_punctuation(byte: u8) -> bool {
    0x21 <= byte <= 0x2f || 0x3a <= byte <= 0x40 || 0x5b <= byte <= 0x60 || 0x7b <= byte <= 0x7e
}

/// Whether `byte` is a character with a visible shape.
pub open spec fn is_graphic(byte: u8) -> bool {
    0x21 <= byte <= 0x7e
}

/// Whether `byte` is a space, a tab, a line feed, a form feed or a carriage
/// return.
pub open spec fn is_whitespace(byte: u8) -> bool {
    byte == 0x20 || byte == 0x09 || byte == 0x0a || byte == 0x0c || byte == 0x0d
}

/// Whether `byte` is a decimal digit.
pub fn is_ascii_digit(byte: u8) -> (digit: bool)
    ensures
        digit == is_digit(byte),
{
    0x30 <= byte && byte <= 0x39
}

/// Whether `byte` is a letter.
pub fn is_ascii_alphabetic(byte: u8) -> (alphabetic: bool)
    ensures
        alphabetic == is_alphabetic(byte),
{
    (0x41 <= byte && byte <= 0x5a) || (0x61 <= byte && byte <= 0x7a)
}

/// Whether `byte` is a letter or a decimal digit.
pub fn is_ascii_alphanumeric(byte: u8) -> (alphanumeric: bool)
    ensures
        alphanumeric == (is_alphabetic(byte) || is_digit(byte)),
{
    is_ascii_alphabetic(byte) || is_ascii_digit(byte)
}

/// Whether `byte` is a punctuation character.
pub fn is_ascii_punctuation(byte: u8) -> (punctuation: bool)
    ensures
        punctuation == is_punctuation(byte),
{
    (0x21 <= byte && byte <= 0x2f) || (0x3a <= byte && byte <= 0x40) || (0x5b <= byte && byte
        <= 0x60) || (0x7b <= byte && byte <= 0x7e)
}

/// Whether `byte` is a character with a visible shape.
pub fn is_ascii_graphic(byte: u8) -> (graphic: bool)
    ensures
        graphic == is_graphic(byte),
{
    0x21 <= byte && byte <= 0x7e
}

/// Whether `byte` is a space, a tab, a line feed, a form feed or a carriage
/// return.
pub fn is_ascii_whitespace(byte: u8) -> (whitespace: bool)
    ensures
        whitespace == is_whitespace(byte),
{
    byte == 0x20 || byte == 0x09 || byte == 0x0a || byte == 0x0c || byte == 0x0d
}

} // verus!
