//! A process-lifetime string interning facility.
//!
//! The `interning` module holds the core: a deduplicating registry of
//! immutable text blocks backed by a bump allocator that hands out
//! word-sized regions from large slabs.  The `text` module holds the
//! source-position value types (`Span`, `Spanned`) that callers use to
//! annotate data with where in an input it came from, together with a
//! helper for rendering characters readably.

use vstd::prelude::*;

pub mod interning;
pub mod text;

verus! {

/// ASCII code of `'0'`.
pub const ASCII_ZERO: u8 = 48;

/// ASCII code of `'9'`.
pub const ASCII_NINE: u8 = 57;

/// ASCII code of `' '`.
pub const ASCII_SPACE: u8 = 32;

/// ASCII code of `'\t'`.
pub const ASCII_TAB: u8 = 9;

/// ASCII code of `'\n'`.
pub const ASCII_NEWLINE: u8 = 10;

/// ASCII code of `'\r'`.
pub const ASCII_RETURN: u8 = 13;

/// ASCII code of `'a'`.
pub const ASCII_LOWER_A: u8 = 97;

/// ASCII code of `'z'`.
pub const ASCII_LOWER_Z: u8 = 122;

/// ASCII code of `'A'`.
pub const ASCII_UPPER_A: u8 = 65;

/// ASCII code of `'Z'`.
pub const ASCII_UPPER_Z: u8 = 90;

/// ASCII code of `'_'`.
pub const ASCII_UNDERSCORE: u8 = 95;

/// Whether `c` is an ASCII decimal digit.
pub fn is_numeric(c: u8) -> (r: bool)
    ensures
        r == (ASCII_ZERO <= c && c <= ASCII_NINE),
{
    ASCII_ZERO <= c && c <= ASCII_NINE
}

/// Whether `c` is an ASCII whitespace byte: space, tab, newline or
/// carriage return.
pub fn is_whitespace(c: u8) -> (r: bool)
    ensures
        r == (c == ASCII_SPACE || c == ASCII_TAB || c == ASCII_NEWLINE || c == ASCII_RETURN),
{
    c == ASCII_SPACE || c == ASCII_TAB || c == ASCII_NEWLINE || c == ASCII_RETURN
}

/// Whether `c` may start an identifier: an ASCII letter or underscore.
pub fn is_identifier_start(c: u8) -> (r: bool)
    ensures
        r == ((ASCII_LOWER_A <= c && c <= ASCII_LOWER_Z) || (ASCII_UPPER_A <= c && c
            <= ASCII_UPPER_Z) || c == ASCII_UNDERSCORE),
{
    (ASCII_LOWER_A <= c && c <= ASCII_LOWER_Z) || (ASCII_UPPER_A <= c && c <= ASCII_UPPER_Z) || c
        == ASCII_UNDERSCORE
}

} // verus!
