//! Executable tests for the character classes of the grammar.
use vstd::prelude::*;
use crate::grammar::{
    hex_digit_value, is_digit, is_hex_digit, is_letter, is_name_char, is_name_start_char,
    is_newline, is_non_ascii, is_non_printable, is_whitespace,
};

verus! {

pub fn whitespace(c: char) -> (r: bool)
    ensures
        r == is_whitespace(c),
{
    c == ' ' || c == '\t' || c == '\n' || c == '\r' || c == '\x0C'
}

pub fn newline(c: char) -> (r: bool)
    ensures
        r == is_newline(c),
{
    c == '\n' || c == '\r' || c == '\x0C'
}

pub fn digit(c: char) -> (r: bool)
    ensures
        r == is_digit(c),
{
    '0' <= c && c <= '9'
}

pub fn hex_digit(c: char) -> (r: bool)
    ensures
        r == is_hex_digit(c),
{
    ('0' <= c && c <= '9') || ('a' <= c && c <= 'f') || ('A' <= c && c <= 'F')
}

pub fn letter(c: char) -> (r: bool)
    ensures
        r == is_letter(c),
{
    ('a' <= c && c <= 'z') || ('A' <= c && c <= 'Z')
}

pub fn non_ascii(c: char) -> (r: bool)
    ensures
        r == is_non_ascii(c),
{
    c > '\x7F'
}

pub fn non_printable(c: char) -> (r: bool)
    ensures
        r == is_non_printable(c),
{
    ('\x01' <= c && c <= '\x08') || c == '\x0B' || ('\x0E' <= c && c <= '\x1F') || c == '\x7F'
}

pub fn name_char(c: char) -> (r: bool)
    ensures
        r == is_name_char(c),
{
    letter(c) || digit(c) || c == '_' || c == '-'
}

pub fn name_start_char(c: char) -> (r: bool)
    ensures
        r == is_name_start_char(c),
{
    letter(c) || c == '_' || c == '\0' || non_ascii(c)
}

/// The value of a hex digit.
pub fn hex_digit_number(c: char) -> (r: u32)
    requires
        is_hex_digit(c),
    ensures
        r == hex_digit_value(c),
        r < 16,
{
    if '0' <= c && c <= '9' {
        c as u32 - '0' as u32
    } else if 'a' <= c && c <= 'f' {
        c as u32 - 'a' as u32 + 10
    } else {
        c as u32 - 'A' as u32 + 10
    }
}

} // verus!
