//! The converters between the Latin orthography and Cyrillic.
use vstd::prelude::*;
use crate::conversion::cyrl_table::{
    cyrl_capital, cyrl_case, cyrl_latn, hard_vowel, iotated, latn_cyrl, lookup_cyrl_capital,
    lookup_cyrl_case, lookup_cyrl_latn, lookup_hard_vowel, lookup_iotated, lookup_latn_cyrl,
};
use crate::conversion::latin::{ascii_lower, ascii_upper, to_ascii_lower, to_ascii_upper};
use crate::text::{chars_of, string_of};
use crate::unicode::{lowercase_of, to_lowercase, uppercase};

verus! {

/// The small form of `c`, by which the tables are read. ASCII and the
/// Cyrillic letters of the orthography are settled here; for any other
/// character it is the first character of its Unicode lowercase mapping.
pub open spec fn small_form(c: char) -> char {
    if c <= '\u{7F}' {
        ascii_lower(c)
    } else {
        match cyrl_case(c) {
            Some(entry) => entry.0,
            None => lowercase_of(c)[0],
        }
    }
}

/// Whether `c` is a capital, so that what it is converted to is written in
/// capitals too. For a character that is neither ASCII nor a Cyrillic letter
/// of the orthography, the Unicode property `Uppercase` decides.
pub open spec fn capital(c: char) -> bool {
    if c <= '\u{7F}' {
        'A' <= c <= 'Z'
    } else {
        match cyrl_case(c) {
            Some(entry) => entry.1,
            None => uppercase(c),
        }
    }
}

/// The small form of `c`.
pub fn small_form_of(c: char) -> (r: char)
    ensures
        r == small_form(c),
{
    if c <= '\u{7F}' {
        to_ascii_lower(c)
    } else {
        match lookup_cyrl_case(c) {
            Some(entry) => entry.0,
            None => {
                let mapping = to_lowercase(c);
                mapping[0]
            },
        }
    }
}

/// Whether `c` is a capital.
pub fn is_capital(c: char) -> (b: bool)
    ensures
        b == capital(c),
{
    if c <= '\u{7F}' {
        'A' <= c && c <= 'Z'
    } else {
        match lookup_cyrl_case(c) {
            Some(entry) => entry.1,
            None => c.is_uppercase(),
        }
    }
}

/// A Cyrillic letter in the case asked for.
pub open spec fn cyrl_in_case(c: char, capital: bool) -> char {
    if capital {
        cyrl_capital(c)
    } else {
        c
    }
}

/// A Latin letter in the case asked for.
pub open spec fn latn_in_case(c: char, capital: bool) -> char {
    if capital {
        ascii_upper(c)
    } else {
        c
    }
}

/// How many Latin characters are read together: `y` in either case and
/// a small `u`, `a`, `o` or `e` after it make one Cyrillic vowel.
pub open spec fn latn_head_len(small: char, next: Option<char>) -> int {
    if small == 'y' && next is Some && iotated(next.unwrap()) is Some {
        2
    } else {
        1
    }
}

/// The Cyrillic of the Latin character `c`, whose small form is `small`, read
/// together with `next` where the two make one vowel. The typographic
/// apostrophe is dropped; a character that the table does not hold stays.
pub open spec fn latn_head_cyrl(c: char, small: char, capital: bool, next: Option<char>) -> Seq<
    char,
> {
    if latn_head_len(small, next) == 2 {
        seq![cyrl_in_case(iotated(next.unwrap()).unwrap(), capital)]
    } else if small == '\u{2019}' {
        Seq::empty()
    } else {
        match latn_cyrl(small) {
            Some(cyrl) => seq![cyrl_in_case(cyrl, capital)],
            None => seq![c],
        }
    }
}

/// The character after the first, if there is one.
pub open spec fn second(s: Seq<char>) -> Option<char> {
    if s.len() > 1 {
        Some(s[1])
    } else {
        None
    }
}

/// The Cyrillic of a Latin text.
pub open spec fn latn_to_cyrl(s: Seq<char>) -> Seq<char>
    decreases s.len(),
{
    if s.len() == 0 {
        Seq::empty()
    } else {
        latn_head_cyrl(s[0], small_form(s[0]), capital(s[0]), second(s)) + latn_to_cyrl(
            s.skip(latn_head_len(small_form(s[0]), second(s))),
        )
    }
}

/// How many Cyrillic characters are read together: the short `i` in either
/// case and a small vowel that is not iotated are kept apart in Latin by a
/// typographic apostrophe.
pub open spec fn cyrl_head_len(small: char, next: Option<char>) -> int {
    if small == 'й' && next is Some && hard_vowel(next.unwrap()) is Some {
        2
    } else {
        1
    }
}

/// Whether a character is dropped when Cyrillic is read: the soft sign, the
/// typographic apostrophe and the space.
pub open spec fn dropped(small: char) -> bool {
    small == 'ь' || small == '\u{2019}' || small == ' '
}

/// The Latin of the Cyrillic character `c`, whose small form is `small`, read
/// together with `next` where the two belong together. A character that the
/// table does not hold stays.
pub open spec fn cyrl_head_latn(c: char, small: char, capital: bool, next: Option<char>) -> Seq<
    char,
> {
    if cyrl_head_len(small, next) == 2 {
        seq![
            latn_in_case('y', capital),
            '\u{2019}',
            latn_in_case(hard_vowel(next.unwrap()).unwrap(), capital),
        ]
    } else if dropped(small) {
        Seq::empty()
    } else {
        match cyrl_latn(small) {
            Some(latn) => match latn.1 {
                Some(vowel) => seq![latn_in_case(latn.0, capital), latn_in_case(vowel, capital)],
                None => seq![latn_in_case(latn.0, capital)],
            },
            None => seq![c],
        }
    }
}

/// The Latin of a Cyrillic text.
pub open spec fn cyrl_to_latn(s: Seq<char>) -> Seq<char>
    decreases s.len(),
{
    if s.len() == 0 {
        Seq::empty()
    } else {
        cyrl_head_latn(s[0], small_form(s[0]), capital(s[0]), second(s)) + cyrl_to_latn(
            s.skip(cyrl_head_len(small_form(s[0]), second(s))),
        )
    }
}

/// Appends the Cyrillic of the Latin character `c` to `out` and says how many
/// characters were read: two where `c` and `next` make one vowel.
pub fn push_latn_head(
    out: &mut Vec<char>,
    c: char,
    small: char,
    capital: bool,
    next: Option<char>,
) -> (n: usize)
    ensures
        n == latn_head_len(small, next),
        final(out)@ == old(out)@ + latn_head_cyrl(c, small, capital, next),
{
    let ghost before = out@;
    let vowel = match next {
        Some(following) => if small == 'y' {
            lookup_iotated(following)
        } else {
            None
        },
        None => None,
    };
    match vowel {
        Some(cyrl) => {
            out.push(if capital { lookup_cyrl_capital(cyrl) } else { cyrl });
            assert(out@ =~= before + latn_head_cyrl(c, small, capital, next));
            2
        },
        None => {
            if small != '\u{2019}' {
                match lookup_latn_cyrl(small) {
                    Some(cyrl) => out.push(if capital { lookup_cyrl_capital(cyrl) } else { cyrl }),
                    None => out.push(c),
                }
            }
            assert(out@ =~= before + latn_head_cyrl(c, small, capital, next));
            1
        },
    }
}

/// Appends the Latin of the Cyrillic character `c` to `out` and says how many
/// characters were read: two where `c` and `next` belong together.
pub fn push_cyrl_head(
    out: &mut Vec<char>,
    c: char,
    small: char,
    capital: bool,
    next: Option<char>,
) -> (n: usize)
    ensures
        n == cyrl_head_len(small, next),
        final(out)@ == old(out)@ + cyrl_head_latn(c, small, capital, next),
{
    let ghost before = out@;
    let vowel = match next {
        Some(following) => if small == 'й' {
            lookup_hard_vowel(following)
        } else {
            None
        },
        None => None,
    };
    match vowel {
        Some(latn) => {
            out.push(if capital { 'Y' } else { 'y' });
            out.push('\u{2019}');
            out.push(if capital { to_ascii_upper(latn) } else { latn });
            assert(out@ =~= before + cyrl_head_latn(c, small, capital, next));
            2
        },
        None => {
            if !(small == 'ь' || small == '\u{2019}' || small == ' ') {
                match lookup_cyrl_latn(small) {
                    Some(latn) => {
                        out.push(if capital { to_ascii_upper(latn.0) } else { latn.0 });
                        match latn.1 {
                            Some(v) => out.push(if capital { to_ascii_upper(v) } else { v }),
                            None => {},
                        }
                    },
                    None => out.push(c),
                }
            }
            assert(out@ =~= before + cyrl_head_latn(c, small, capital, next));
            1
        },
    }
}

/// Converts romanized Ainu to Cyrillic, letter by letter and keeping the
/// case of each.
pub fn convert_latn_to_cyrl(latn: &str) -> (r: String)
    ensures
        r@ == latn_to_cyrl(latn@),
{
    let v = chars_of(latn);
    let mut out: Vec<char> = Vec::new();
    let mut i: usize = 0;
    assert(v@.skip(0) == v@);
    while i < v.len()
        invariant
            i <= v.len(),
            v@ == latn@,
            out@ + latn_to_cyrl(v@.skip(i as int)) == latn_to_cyrl(v@),
        decreases v.len() - i,
    {
        let c = v[i];
        let next = if i + 1 < v.len() {
            Some(v[i + 1])
        } else {
            None
        };
        let ghost rest = v@.skip(i as int);
        let ghost before = out@;
        assert(rest[0] == c && next == second(rest));
        let n = push_latn_head(&mut out, c, small_form_of(c), is_capital(c), next);
        assert(rest.skip(n as int) == v@.skip(i + n));
        assert(out@ + latn_to_cyrl(v@.skip(i + n)) == before + latn_to_cyrl(rest));
        i += n;
    }
    assert(latn_to_cyrl(v@.skip(i as int)) == Seq::<char>::empty());
    assert(out@ + Seq::<char>::empty() == out@);
    string_of(&out)
}

/// Converts Cyrillic Ainu to romanized Ainu, letter by letter and keeping the
/// case of each.
pub fn convert_cyrl_to_latn(cyrl: &str) -> (r: String)
    ensures
        r@ == cyrl_to_latn(cyrl@),
{
    let v = chars_of(cyrl);
    let mut out: Vec<char> = Vec::new();
    let mut i: usize = 0;
    assert(v@.skip(0) == v@);
    while i < v.len()
        invariant
            i <= v.len(),
            v@ == cyrl@,
            out@ + cyrl_to_latn(v@.skip(i as int)) == cyrl_to_latn(v@),
        decreases v.len() - i,
    {
        let c = v[i];
        let next = if i + 1 < v.len() {
            Some(v[i + 1])
        } else {
            None
        };
        let ghost rest = v@.skip(i as int);
        let ghost before = out@;
        assert(rest[0] == c && next == second(rest));
        let n = push_cyrl_head(&mut out, c, small_form_of(c), is_capital(c), next);
        assert(rest.skip(n as int) == v@.skip(i + n));
        assert(out@ + cyrl_to_latn(v@.skip(i + n)) == before + cyrl_to_latn(rest));
        i += n;
    }
    assert(cyrl_to_latn(v@.skip(i as int)) == Seq::<char>::empty());
    assert(out@ + Seq::<char>::empty() == out@);
    string_of(&out)
}

/// A letter of the Latin orthography, small or capital.
pub open spec fn word_letter(c: char) -> bool {
    (('a' <= c <= 'z') || ('A' <= c <= 'Z')) && latn_cyrl(ascii_lower(c)) is Some
}

/// A character that neither converter changes: the tables do not hold its
/// small form, and it is not dropped when Cyrillic is read.
pub open spec fn untouched(c: char) -> bool {
    latn_cyrl(small_form(c)) is None && cyrl_latn(small_form(c)) is None && !dropped(
        small_form(c),
    )
}

/// A text that comes back unchanged when it is written in Cyrillic and read
/// again: it is made of letters of the orthography, ASCII apostrophes and
/// characters that neither converter changes, and no capital `Y` in it
/// stands before a small `u`, `a`, `o` or `e`. (Those two make one capital
/// Cyrillic vowel, which is read as two capitals.)
pub open spec fn comes_back(w: Seq<char>) -> bool {
    forall|i: int|
        0 <= i < w.len() ==> (word_letter(#[trigger] w[i]) || w[i] == '\'' || untouched(w[i]))
            && !(w[i] == 'Y' && i + 1 < w.len() && iotated(w[i + 1]) is Some)
}

/// The Cyrillic of a word that is not empty begins with the Cyrillic of its
/// first letter, and begins with a small vowel that is not iotated only where
/// the word begins with a small `u`, `a`, `o` or `e`.
pub proof fn lemma_first_cyrl(w: Seq<char>)
    requires
        comes_back(w),
        w.len() > 0,
    ensures
        latn_to_cyrl(w).len() > 0,
        hard_vowel(latn_to_cyrl(w)[0]) is Some ==> iotated(w[0]) is Some,
{
    assert(word_letter(w[0]) || w[0] == '\'' || untouched(w[0]));
    let head = latn_head_cyrl(w[0], small_form(w[0]), capital(w[0]), second(w));
    assert(head.len() == 1);
    assert(latn_to_cyrl(w)[0] == head[0]);
}

/// A text of Latin words, written in Cyrillic and read again, is the text
/// itself.
pub proof fn lemma_latin_round_trip(w: Seq<char>)
    requires
        comes_back(w),
    ensures
        cyrl_to_latn(latn_to_cyrl(w)) == w,
    decreases w.len(),
{
    if w.len() == 0 {
        assert(latn_to_cyrl(w) == Seq::<char>::empty());
        assert(cyrl_to_latn(Seq::<char>::empty()) == Seq::<char>::empty());
        assert(w == Seq::<char>::empty());
    } else {
        let c = w[0];
        assert(word_letter(c) || c == '\'' || untouched(c));
        let n = latn_head_len(small_form(c), second(w));
        let rest = w.skip(n);
        assert forall|i: int| 0 <= i < rest.len() implies (word_letter(#[trigger] rest[i])
            || rest[i] == '\'' || untouched(rest[i])) && !(rest[i] == 'Y' && i + 1 < rest.len()
            && iotated(rest[i + 1]) is Some) by {
            assert(rest[i] == w[i + n]);
            assert(word_letter(w[i + n]) || w[i + n] == '\'' || untouched(w[i + n]));
        }
        lemma_latin_round_trip(rest);
        let head = latn_head_cyrl(c, small_form(c), capital(c), second(w));
        let tail = latn_to_cyrl(rest);
        let t = latn_to_cyrl(w);
        assert(t == head + tail);
        assert(head.len() == 1);
        let x = head[0];
        assert(t[0] == x);
        assert(t.skip(1) == tail);
        if rest.len() > 0 {
            lemma_first_cyrl(rest);
            assert(rest[0] == w[n]);
            assert(second(t) == Some(tail[0]));
        } else {
            assert(tail == Seq::<char>::empty());
            assert(second(t) is None);
        }
        if n == 1 && small_form(c) == 'y' && rest.len() > 0 {
            assert(second(w) == Some(rest[0]));
            assert(iotated(rest[0]) is None);
        }
        assert(cyrl_head_len(small_form(x), second(t)) == 1);
        let back = cyrl_head_latn(x, small_form(x), capital(x), second(t));
        assert(back == w.take(n)) by {
            if n == 2 {
                assert(c == 'y');
                assert(back == seq![c, w[1]]);
            } else {
                assert(back == seq![c]);
            }
        }
        assert(cyrl_to_latn(t) == back + cyrl_to_latn(tail));
        assert(w.take(n) + w.skip(n) == w);
    }
}

/// A Latin text can be cut anywhere but between a `y` and the vowel that it
/// is written together with: the Cyrillic of the whole is the Cyrillic of
/// the first part and then that of the second.
pub proof fn lemma_latn_to_cyrl_concat(a: Seq<char>, b: Seq<char>)
    requires
        a.len() > 0 && b.len() > 0 ==> latn_head_len(small_form(a.last()), Some(b[0])) == 1,
    ensures
        latn_to_cyrl(a + b) == latn_to_cyrl(a) + latn_to_cyrl(b),
    decreases a.len(),
{
    let ab = a + b;
    let nothing = Seq::<char>::empty();
    if a.len() == 0 {
        assert(ab == b);
        assert(nothing + latn_to_cyrl(b) == latn_to_cyrl(b));
    } else if b.len() == 0 {
        assert(ab == a);
        assert(latn_to_cyrl(a) + nothing == latn_to_cyrl(a));
    } else {
        assert(ab[0] == a[0]);
        if a.len() > 1 {
            assert(ab[1] == a[1]);
        } else {
            assert(ab[1] == b[0]);
            assert(a.last() == a[0]);
        }
        let n = latn_head_len(small_form(a[0]), second(a));
        assert(n == latn_head_len(small_form(ab[0]), second(ab)));
        let rest = a.skip(n);
        assert(ab.skip(n) == rest + b);
        if rest.len() > 0 {
            assert(rest.last() == a.last());
        }
        lemma_latn_to_cyrl_concat(rest, b);
        let head = latn_head_cyrl(a[0], small_form(a[0]), capital(a[0]), second(a));
        assert(head == latn_head_cyrl(ab[0], small_form(ab[0]), capital(ab[0]), second(ab)));
        assert(head + (latn_to_cyrl(rest) + latn_to_cyrl(b)) == (head + latn_to_cyrl(rest))
            + latn_to_cyrl(b));
    }
}

/// A Cyrillic text can be cut anywhere but between a short `i` and the vowel
/// that it is read together with: the Latin of the whole is the Latin of the
/// first part and then that of the second.
pub proof fn lemma_cyrl_to_latn_concat(a: Seq<char>, b: Seq<char>)
    requires
        a.len() > 0 && b.len() > 0 ==> cyrl_head_len(small_form(a.last()), Some(b[0])) == 1,
    ensures
        cyrl_to_latn(a + b) == cyrl_to_latn(a) + cyrl_to_latn(b),
    decreases a.len(),
{
    let ab = a + b;
    let nothing = Seq::<char>::empty();
    if a.len() == 0 {
        assert(ab == b);
        assert(nothing + cyrl_to_latn(b) == cyrl_to_latn(b));
    } else if b.len() == 0 {
        assert(ab == a);
        assert(cyrl_to_latn(a) + nothing == cyrl_to_latn(a));
    } else {
        assert(ab[0] == a[0]);
        if a.len() > 1 {
            assert(ab[1] == a[1]);
        } else {
            assert(ab[1] == b[0]);
            assert(a.last() == a[0]);
        }
        let n = cyrl_head_len(small_form(a[0]), second(a));
        assert(n == cyrl_head_len(small_form(ab[0]), second(ab)));
        let rest = a.skip(n);
        assert(ab.skip(n) == rest + b);
        if rest.len() > 0 {
            assert(rest.last() == a.last());
        }
        lemma_cyrl_to_latn_concat(rest, b);
        let head = cyrl_head_latn(a[0], small_form(a[0]), capital(a[0]), second(a));
        assert(head == cyrl_head_latn(ab[0], small_form(ab[0]), capital(ab[0]), second(ab)));
        assert(head + (cyrl_to_latn(rest) + cyrl_to_latn(b)) == (head + cyrl_to_latn(rest))
            + cyrl_to_latn(b));
    }
}

} // verus!
