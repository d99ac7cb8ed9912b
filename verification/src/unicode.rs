//! What this library takes on trust from the Unicode tables of the standard
//! library and of the `unicode-normalization` crate.
//!
//! Each table is far too large to restate, so its result gets a name, and the
//! contracts of the library speak of those names.
use vstd::prelude::*;
use unicode_normalization::UnicodeNormalization;

verus! {

/// Whether `c` has the Unicode property `Alphabetic`.
pub uninterp spec fn alphabetic(c: char) -> bool;

/// Whether `c` has the Unicode property `Uppercase`.
pub uninterp spec fn uppercase(c: char) -> bool;

/// The lowercase mapping of `c`: one character or more.
pub uninterp spec fn lowercase_of(c: char) -> Seq<char>;

/// The canonical decomposition (normalization form D) of a text.
pub uninterp spec fn nfd_of(s: Seq<char>) -> Seq<char>;

/// The canonical composition (normalization form C) of a text.
pub uninterp spec fn nfc_of(s: Seq<char>) -> Seq<char>;

/// `char::is_alphabetic` reports the Unicode property `Alphabetic` of `c`.
/// Nothing is claimed here of which characters have it.
pub assume_specification[ char::is_alphabetic ](c: char) -> (b: bool)
    ensures
        b == alphabetic(c),
;

/// `char::is_uppercase` reports the Unicode property `Uppercase` of `c`.
/// Nothing is claimed here of which characters have it.
pub assume_specification[ char::is_uppercase ](c: char) -> (b: bool)
    ensures
        b == uppercase(c),
;

/// `char::to_lowercase` yields the lowercase mapping of `c`, which holds at
/// least one character. The mapping itself is only named.
#[verifier::external_body]
pub(crate) fn to_lowercase(c: char) -> (r: Vec<char>)
    ensures
        r@ == lowercase_of(c),
        r@.len() >= 1,
{
    c.to_lowercase().collect()
}

/// `UnicodeNormalization::nfd` on an iterator of characters yields the
/// canonical decomposition of the text. The result is only named.
#[verifier::external_body]
pub(crate) fn nfd(text: &Vec<char>) -> (r: Vec<char>)
    ensures
        r@ == nfd_of(text@),
{
    text.iter().copied().nfd().collect()
}

/// `UnicodeNormalization::nfc` on an iterator of characters yields the
/// canonical composition of the text. The result is only named.
#[verifier::external_body]
pub(crate) fn nfc(text: &Vec<char>) -> (r: Vec<char>)
    ensures
        r@ == nfc_of(text@),
{
    text.iter().copied().nfc().collect()
}

} // verus!
