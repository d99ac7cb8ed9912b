//! The letters of the Latin orthography.
use vstd::prelude::*;

verus! {

/// The five vowels.
pub open spec fn vowel(c: char) -> bool {
    c == 'a' || c == 'i' || c == 'u' || c == 'e' || c == 'o'
}

/// The consonants, the glottal stop in both of its spellings among them.
pub open spec fn consonant(c: char) -> bool {
    c == 'p' || c == 't' || c == 'k' || c == 'c' || c == 'n' || c == 's' || c == 'r' || c == 'm'
        || c == 'w' || c == 'y' || c == 'h' || c == 'x' || c == '\'' || c == '\u{2019}'
}

/// Whether `c` is one of the five vowels.
pub fn is_vowel(c: char) -> (b: bool)
    ensures
        b == vowel(c),
{
    c == 'a' || c == 'i' || c == 'u' || c == 'e' || c == 'o'
}

/// Whether `c` is a consonant of the orthography.
pub fn is_consonant(c: char) -> (b: bool)
    ensures
        b == consonant(c),
{
    c == 'p' || c == 't' || c == 'k' || c == 'c' || c == 'n' || c == 's' || c == 'r' || c == 'm'
        || c == 'w' || c == 'y' || c == 'h' || c == 'x' || c == '\'' || c == '\u{2019}'
}

/// `c` in lower case where it is an ASCII capital, else `c` itself.
pub open spec fn ascii_lower(c: char) -> char {
    if 'A' <= c <= 'Z' {
        ((c as u8) + 32) as char
    } else {
        c
    }
}

/// `c` in upper case where it is an ASCII small letter, else `c` itself.
pub open spec fn ascii_upper(c: char) -> char {
    if 'a' <= c <= 'z' {
        ((c as u8) - 32) as char
    } else {
        c
    }
}

/// `c` in lower case where it is an ASCII capital.
pub fn to_ascii_lower(c: char) -> (r: char)
    ensures
        r == ascii_lower(c),
{
    if 'A' <= c && c <= 'Z' {
        ((c as u8) + 32) as char
    } else {
        c
    }
}

/// `c` in upper case where it is an ASCII small letter.
pub fn to_ascii_upper(c: char) -> (r: char)
    ensures
        r == ascii_upper(c),
{
    if 'a' <= c && c <= 'z' {
        ((c as u8) - 32) as char
    } else {
        c
    }
}

} // verus!
