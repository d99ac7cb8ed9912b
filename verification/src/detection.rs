//! The detection of the script that a text is written in.
use vstd::prelude::*;
use crate::conversion::latin::ascii_lower;
use crate::text::chars_of;
use crate::unicode::alphabetic;
use crate::util::{cyrillic, is_cyrillic, is_katakana, katakana};
use crate::Script;

verus! {

/// A letter of the ASCII alphabet, small or capital.
pub open spec fn latin_letter(c: char) -> bool {
    ('a' <= c <= 'z') || ('A' <= c <= 'Z')
}

/// An alphabetic character of the Cyrillic block.
pub open spec fn cyrillic_letter(c: char) -> bool {
    alphabetic(c) && cyrillic(c)
}

/// An alphabetic character of the Katakana range.
pub open spec fn kana_letter(c: char) -> bool {
    alphabetic(c) && katakana(c)
}

/// Whether `s` holds a Latin letter.
pub open spec fn has_latin(s: Seq<char>) -> bool {
    exists|i: int| 0 <= i < s.len() && latin_letter(#[trigger] s[i])
}

/// Whether `s` holds a Cyrillic letter.
pub open spec fn has_cyrillic(s: Seq<char>) -> bool {
    exists|i: int| 0 <= i < s.len() && cyrillic_letter(#[trigger] s[i])
}

/// Whether `s` holds a Katakana letter.
pub open spec fn has_kana(s: Seq<char>) -> bool {
    exists|i: int| 0 <= i < s.len() && kana_letter(#[trigger] s[i])
}

/// The script of a text, given which scripts it holds a letter of: mixed
/// where it holds letters of more than one, unknown where of none.
pub open spec fn script_from(latin: bool, cyrillic: bool, kana: bool) -> Script {
    if (latin && cyrillic) || (latin && kana) || (cyrillic && kana) {
        Script::Mixed
    } else if kana {
        Script::Kana
    } else if cyrillic {
        Script::Cyrl
    } else if latin {
        Script::Latn
    } else {
        Script::Unknown
    }
}

/// The script of a text. One letter of another script is enough to make
/// it mixed.
pub open spec fn script_of(s: Seq<char>) -> Script {
    script_from(has_latin(s), has_cyrillic(s), has_kana(s))
}

/// Decides the script from which scripts were seen.
pub fn decide(latin: bool, cyrillic: bool, kana: bool) -> (r: Script)
    ensures
        r == script_from(latin, cyrillic, kana),
{
    if (latin && cyrillic) || (latin && kana) || (cyrillic && kana) {
        Script::Mixed
    } else if kana {
        Script::Kana
    } else if cyrillic {
        Script::Cyrl
    } else if latin {
        Script::Latn
    } else {
        Script::Unknown
    }
}

/// Detects the script that `s` is written in.
pub fn detect(s: &str) -> (r: Script)
    ensures
        r == script_of(s@),
{
    let v = chars_of(s);
    let mut latin = false;
    let mut cyrillic = false;
    let mut kana = false;
    let mut i: usize = 0;
    while i < v.len()
        invariant
            i <= v.len(),
            latin == exists|j: int| 0 <= j < i && latin_letter(#[trigger] v@[j]),
            cyrillic == exists|j: int| 0 <= j < i && cyrillic_letter(#[trigger] v@[j]),
            kana == exists|j: int| 0 <= j < i && kana_letter(#[trigger] v@[j]),
        decreases v.len() - i,
    {
        let c = v[i];
        let alphabetic = c.is_alphabetic();
        latin = latin || ('a' <= c && c <= 'z') || ('A' <= c && c <= 'Z');
        cyrillic = cyrillic || (alphabetic && is_cyrillic(c));
        kana = kana || (alphabetic && is_katakana(c));
        i += 1;
    }
    decide(latin, cyrillic, kana)
}

/// Two texts that differ only in the case of their ASCII letters are of the
/// same script.
pub proof fn lemma_script_ignores_case(s: Seq<char>, t: Seq<char>)
    requires
        s.len() == t.len(),
        forall|i: int| 0 <= i < s.len() ==> ascii_lower(#[trigger] s[i]) == ascii_lower(t[i]),
    ensures
        script_of(s) == script_of(t),
{
    lemma_same_letters(s, t);
    lemma_same_letters(t, s);
}

/// Where two texts differ only in the case of their ASCII letters, the
/// second holds a letter of each script that the first holds one of.
pub proof fn lemma_same_letters(s: Seq<char>, t: Seq<char>)
    requires
        s.len() == t.len(),
        forall|i: int| 0 <= i < s.len() ==> ascii_lower(#[trigger] s[i]) == ascii_lower(t[i]),
    ensures
        has_latin(s) ==> has_latin(t),
        has_cyrillic(s) ==> has_cyrillic(t),
        has_kana(s) ==> has_kana(t),
{
    if has_latin(s) {
        let i = choose|i: int| 0 <= i < s.len() && latin_letter(#[trigger] s[i]);
        assert(ascii_lower(s[i]) == ascii_lower(t[i]));
        assert(latin_letter(t[i]));
    }
    if has_cyrillic(s) {
        let i = choose|i: int| 0 <= i < s.len() && cyrillic_letter(#[trigger] s[i]);
        assert(ascii_lower(s[i]) == ascii_lower(t[i]));
        assert(t[i] == s[i]);
        assert(cyrillic_letter(t[i]));
    }
    if has_kana(s) {
        let i = choose|i: int| 0 <= i < s.len() && kana_letter(#[trigger] s[i]);
        assert(ascii_lower(s[i]) == ascii_lower(t[i]));
        assert(t[i] == s[i]);
        assert(kana_letter(t[i]));
    }
}

} // verus!
