//! Character classes, accent removal and the splitting of text into words.
use vstd::prelude::*;
use crate::text::{chars_of, string_of};
use crate::unicode::{alphabetic, nfc, nfc_of, nfd, nfd_of};

verus! {

/// The Katakana range, from U+30A1 to U+31FF.
pub open spec fn katakana(c: char) -> bool {
    '\u{30A1}' <= c <= '\u{31FF}'
}

/// The Cyrillic block, from U+0400 to U+04FF.
pub open spec fn cyrillic(c: char) -> bool {
    '\u{0400}' <= c <= '\u{04FF}'
}

/// The voicing and semi-voicing marks that follow a kana: the combining
/// pair, the spacing pair and the half-width pair.
pub open spec fn voicing_mark(c: char) -> bool {
    c == '\u{3099}' || c == '\u{309A}' || c == '\u{309B}' || c == '\u{309C}' || c == '\u{FF9E}'
        || c == '\u{FF9F}'
}

/// The marks that stand inside a Latin word without being letters: the two
/// forms of the glottal stop and the morpheme boundary. In any other text
/// they stand between words.
pub open spec fn word_mark(c: char) -> bool {
    c == '\'' || c == '\u{2019}' || c == '='
}

/// A letter of an Ainu word, in any of the scripts: an alphabetic character
/// or a voicing mark.
pub open spec fn ainu_letter(c: char) -> bool {
    alphabetic(c) || voicing_mark(c)
}

/// A character that stands inside a word: a letter, and in Latin text a
/// word mark too.
pub open spec fn in_word(c: char, latin: bool) -> bool {
    ainu_letter(c) || (latin && word_mark(c))
}

/// Whether `c` lies in the Katakana range.
pub fn is_katakana(c: char) -> (b: bool)
    ensures
        b == katakana(c),
{
    '\u{30A1}' <= c && c <= '\u{31FF}'
}

/// Whether `c` lies in the Cyrillic block.
pub fn is_cyrillic(c: char) -> (b: bool)
    ensures
        b == cyrillic(c),
{
    '\u{0400}' <= c && c <= '\u{04FF}'
}

/// The letters that words are made of.
pub trait IsLetter {
    /// What `is_ainu_letter` decides.
    spec fn letter(&self) -> bool;

    /// Whether the character is a letter of an Ainu word: an alphabetic
    /// character or a voicing mark.
    fn is_ainu_letter(&self) -> (b: bool)
        ensures
            b == self.letter(),
    ;
}

impl IsLetter for char {
    open spec fn letter(&self) -> bool {
        ainu_letter(*self)
    }

    fn is_ainu_letter(&self) -> (b: bool) {
        let c = *self;
        c.is_alphabetic() || c == '\u{3099}' || c == '\u{309A}' || c == '\u{309B}' || c
            == '\u{309C}' || c == '\u{FF9E}' || c == '\u{FF9F}'
    }
}

/// Whether `c` stands inside a word, of Latin text or of any other.
pub fn is_in_word(c: char, latin: bool) -> (b: bool)
    ensures
        b == in_word(c, latin),
{
    c.is_ainu_letter() || (latin && (c == '\'' || c == '\u{2019}' || c == '='))
}

/// `s` without its combining acute accents (U+0301).
pub open spec fn without_acute(s: Seq<char>) -> Seq<char> {
    s.filter(|c: char| c != '\u{301}')
}

/// Drops every combining acute accent from a decomposed text.
pub fn strip_acute(decomposed: &Vec<char>) -> (r: Vec<char>)
    ensures
        r@ == without_acute(decomposed@),
{
    let mut r: Vec<char> = Vec::new();
    let mut i: usize = 0;
    while i < decomposed.len()
        invariant
            i <= decomposed.len(),
            r@ == without_acute(decomposed@.take(i as int)),
        decreases decomposed.len() - i,
    {
        let c = decomposed[i];
        proof {
            assert(decomposed@.take(i + 1) == decomposed@.take(i as int).push(c));
            assert(decomposed@.take(i + 1).drop_last() == decomposed@.take(i as int));
            reveal(Seq::filter);
        }
        if c != '\u{301}' {
            r.push(c);
        }
        i += 1;
    }
    assert(decomposed@.take(decomposed.len() as int) == decomposed@);
    r
}

/// What `remove_acute_accent` returns: the text is decomposed, loses its
/// acute accents and is composed again.
pub open spec fn acute_removed(s: Seq<char>) -> Seq<char> {
    nfc_of(without_acute(nfd_of(s)))
}

/// Removes the acute accent from every letter of `text`, leaving other
/// diacritics in place.
pub fn remove_acute_accent_chars(text: &Vec<char>) -> (r: Vec<char>)
    ensures
        r@ == acute_removed(text@),
{
    let decomposed = nfd(text);
    let stripped = strip_acute(&decomposed);
    nfc(&stripped)
}

/// Removes the acute accent from every letter of `text`, leaving other
/// diacritics in place.
pub fn remove_acute_accent(text: &str) -> (r: String)
    ensures
        r@ == acute_removed(text@),
{
    let chars = chars_of(text);
    let r = remove_acute_accent_chars(&chars);
    string_of(&r)
}

/// The length of the run that `s` begins with: the longest prefix whose
/// characters all stand inside words or all stand outside. In Latin text the
/// word marks stand inside.
pub open spec fn run_len(s: Seq<char>, latin: bool) -> nat
    decreases s.len(),
{
    if s.len() == 0 {
        0
    } else if s.len() == 1 || in_word(s[1], latin) != in_word(s[0], latin) {
        1
    } else {
        1 + run_len(s.skip(1), latin)
    }
}

/// The runs of `s` in order: words alternate with what stands between them,
/// and each run is as long as it can be.
pub open spec fn runs(s: Seq<char>, latin: bool) -> Seq<Seq<char>>
    decreases s.len(),
    via runs_decreases
{
    if s.len() == 0 {
        Seq::empty()
    } else {
        seq![s.take(run_len(s, latin) as int)] + runs(
            s.skip(run_len(s, latin) as int),
            latin,
        )
    }
}

#[via_fn]
proof fn runs_decreases(s: Seq<char>, latin: bool) {
    if s.len() != 0 {
        lemma_run_len_bounds(s, latin);
    }
}

/// A run of a text that is not empty holds at least one character and no
/// more than the text.
pub proof fn lemma_run_len_bounds(s: Seq<char>, latin: bool)
    requires
        s.len() > 0,
    ensures
        1 <= run_len(s, latin) <= s.len(),
    decreases s.len(),
{
    if s.len() > 1 && in_word(s[1], latin) == in_word(s[0], latin) {
        lemma_run_len_bounds(s.skip(1), latin);
    }
}

/// The texts of a list of strings.
pub open spec fn texts(words: Seq<String>) -> Seq<Seq<char>> {
    words.map_values(|w: String| w@)
}

/// The end of the run of `v` that begins at `start`.
pub fn run_end(v: &Vec<char>, start: usize, latin: bool) -> (end: usize)
    requires
        start < v.len(),
    ensures
        end == start + run_len(v@.skip(start as int), latin),
        start < end <= v.len(),
{
    let inside = is_in_word(v[start], latin);
    let mut end: usize = start + 1;
    while end < v.len() && is_in_word(v[end], latin) == inside
        invariant
            start < end <= v.len(),
            inside == in_word(v@[end - 1], latin),
            start + run_len(v@.skip(start as int), latin) == end - 1 + run_len(
                v@.skip(end - 1),
                latin,
            ),
        decreases v.len() - end,
    {
        proof {
            let t = v@.skip(end - 1);
            assert(t[0] == v@[end - 1] && t[1] == v@[end as int]);
            assert(t.skip(1) == v@.skip(end as int));
        }
        end += 1;
    }
    proof {
        let t = v@.skip(end - 1);
        assert(t[0] == v@[end - 1]);
        if end < v.len() {
            assert(t[1] == v@[end as int]);
        }
    }
    end
}

/// The characters of `v` from `start` up to `end`, as a string.
pub fn substring(v: &Vec<char>, start: usize, end: usize) -> (s: String)
    requires
        start <= end <= v.len(),
    ensures
        s@ == v@.subrange(start as int, end as int),
{
    let mut s = String::new();
    let mut i: usize = start;
    while i < end
        invariant
            start <= i <= end <= v.len(),
            s@ == v@.subrange(start as int, i as int),
        decreases end - i,
    {
        s.push(v[i]);
        i += 1;
        assert(v@.subrange(start as int, i as int) == v@.subrange(start as int, i - 1).push(
            v@[i - 1],
        ));
    }
    s
}

/// Texts that can be split into words and what stands between them.
pub trait SplitIntoWords {
    /// The text that is split.
    spec fn text(&self) -> Seq<char>;

    /// Splits the text into its runs: stretches of letters and stretches of
    /// everything else. Joined again in order they give the text back.
    fn split_into_words(&self) -> (words: Vec<String>)
        ensures
            texts(words@) == runs(self.text(), false),
    ;
}

impl SplitIntoWords for String {
    open spec fn text(&self) -> Seq<char> {
        self@
    }

    fn split_into_words(&self) -> (words: Vec<String>) {
        let v = chars_of(self.as_str());
        let mut words: Vec<String> = Vec::new();
        let mut i: usize = 0;
        assert(v@.skip(0) == v@);
        assert(texts(words@) == Seq::<Seq<char>>::empty());
        while i < v.len()
            invariant
                i <= v.len(),
                v@ == self@,
                texts(words@) + runs(v@.skip(i as int), false) == runs(v@, false),
            decreases v.len() - i,
        {
            let end = run_end(&v, i, false);
            let word = substring(&v, i, end);
            proof {
                let rest = v@.skip(i as int);
                assert(rest.take(end - i) == v@.subrange(i as int, end as int));
                assert(rest.skip(end - i) == v@.skip(end as int));
                assert(texts(words@.push(word)) == texts(words@).push(word@));
                assert(texts(words@).push(word@) + runs(v@.skip(end as int), false) == texts(
                    words@,
                ) + runs(rest, false));
            }
            words.push(word);
            i = end;
        }
        assert(runs(v@.skip(i as int), false) == Seq::<Seq<char>>::empty());
        assert(texts(words@) + Seq::<Seq<char>>::empty() == texts(words@));
        words
    }
}

impl SplitIntoWords for &str {
    open spec fn text(&self) -> Seq<char> {
        self@
    }

    fn split_into_words(&self) -> (words: Vec<String>) {
        let owned = String::from_str(*self);
        owned.split_into_words()
    }
}

/// The runs of a text, joined in order, are the text.
pub proof fn lemma_runs_join(s: Seq<char>, latin: bool)
    ensures
        runs(s, latin).flatten() == s,
    decreases s.len(),
{
    if s.len() == 0 {
        assert(runs(s, latin).flatten() == Seq::<char>::empty());
        assert(s == Seq::<char>::empty());
    } else {
        lemma_run_len_bounds(s, latin);
        let n = run_len(s, latin) as int;
        lemma_runs_join(s.skip(n), latin);
        vstd::seq_lib::lemma_flatten_concat(seq![s.take(n)], runs(s.skip(n), latin));
        seq![s.take(n)].lemma_flatten_one_element();
        assert(seq![s.take(n)].first() == s.take(n));
        assert(s.take(n) + s.skip(n) == s);
    }
}

/// A text of one kind, all inside words or all outside, is a single run.
pub proof fn lemma_uniform_run(s: Seq<char>, latin: bool)
    requires
        s.len() > 0,
        forall|i: int|
            0 <= i < s.len() ==> in_word(#[trigger] s[i], latin) == in_word(s[0], latin),
    ensures
        run_len(s, latin) == s.len(),
        runs(s, latin) == seq![s],
    decreases s.len(),
{
    if s.len() > 1 {
        let t = s.skip(1);
        assert(in_word(s[1], latin) == in_word(s[0], latin));
        assert forall|i: int| 0 <= i < t.len() implies in_word(#[trigger] t[i], latin)
            == in_word(t[0], latin) by {
            assert(t[i] == s[i + 1]);
            assert(t[0] == s[1]);
        }
        lemma_uniform_run(t, latin);
    }
    assert(s.take(s.len() as int) == s);
    assert(s.skip(s.len() as int) == Seq::<char>::empty());
    assert(runs(Seq::<char>::empty(), latin) == Seq::<Seq<char>>::empty());
    assert(seq![s] + Seq::<Seq<char>>::empty() == seq![s]);
}

/// Where a text ends inside a word and the next begins outside, or the
/// other way round, the first run of the two together is the first run of
/// the first.
pub proof fn lemma_run_len_concat(a: Seq<char>, b: Seq<char>, latin: bool)
    requires
        a.len() > 0,
        b.len() > 0,
        in_word(a.last(), latin) != in_word(b[0], latin),
    ensures
        run_len(a + b, latin) == run_len(a, latin),
    decreases a.len(),
{
    let ab = a + b;
    assert(ab[0] == a[0]);
    if a.len() == 1 {
        assert(ab[1] == b[0]);
    } else {
        assert(ab[1] == a[1]);
        if in_word(a[1], latin) == in_word(a[0], latin) {
            assert(ab.skip(1) == a.skip(1) + b);
            assert(a.skip(1).last() == a.last());
            lemma_run_len_concat(a.skip(1), b, latin);
        }
    }
}

/// Where a text ends inside a word and the next begins outside, or the
/// other way round, the runs of the two together are the runs of the first
/// and then those of the second.
pub proof fn lemma_runs_concat(a: Seq<char>, b: Seq<char>, latin: bool)
    requires
        a.len() > 0,
        b.len() > 0,
        in_word(a.last(), latin) != in_word(b[0], latin),
    ensures
        runs(a + b, latin) == runs(a, latin) + runs(b, latin),
    decreases a.len(),
{
    let ab = a + b;
    lemma_run_len_concat(a, b, latin);
    lemma_run_len_bounds(a, latin);
    let n = run_len(a, latin) as int;
    let rest = a.skip(n);
    assert(ab.take(n) == a.take(n));
    assert(ab.skip(n) == rest + b);
    if rest.len() == 0 {
        assert(rest + b == b);
        assert(runs(rest, latin) == Seq::<Seq<char>>::empty());
        assert(runs(a, latin) == seq![a.take(n)]);
    } else {
        assert(rest.last() == a.last());
        lemma_runs_concat(rest, b, latin);
        assert(seq![a.take(n)] + (runs(rest, latin) + runs(b, latin)) == (seq![a.take(n)] + runs(
            rest,
            latin,
        )) + runs(b, latin));
    }
}

/// A text converted run by run: `convert` is applied to each run, and what
/// it gives is joined in order.
pub open spec fn converted(
    s: Seq<char>,
    latin: bool,
    convert: spec_fn(Seq<char>) -> Seq<char>,
) -> Seq<char> {
    runs(s, latin).map_values(convert).flatten()
}

/// The empty text converts to the empty text.
pub proof fn lemma_converted_nothing(latin: bool, convert: spec_fn(Seq<char>) -> Seq<char>)
    ensures
        converted(Seq::empty(), latin, convert) == Seq::<char>::empty(),
{
    assert(runs(Seq::<char>::empty(), latin).map_values(convert) == Seq::<Seq<char>>::empty());
}

/// A text converts to what its first run converts to, and then what the rest
/// converts to.
pub proof fn lemma_converted_step(
    s: Seq<char>,
    latin: bool,
    convert: spec_fn(Seq<char>) -> Seq<char>,
)
    requires
        s.len() > 0,
    ensures
        converted(s, latin, convert) == convert(s.take(run_len(s, latin) as int)) + converted(
            s.skip(run_len(s, latin) as int),
            latin,
            convert,
        ),
{
    let n = run_len(s, latin) as int;
    let first = seq![convert(s.take(n))];
    let others = runs(s.skip(n), latin).map_values(convert);
    assert(runs(s, latin).map_values(convert) == first + others);
    vstd::seq_lib::lemma_flatten_concat(first, others);
    first.lemma_flatten_one_element();
    assert(first.first() == convert(s.take(n)));
}

/// Where a text ends inside a word and the next begins outside, or the
/// other way round, the two together convert to what the first converts to
/// and then what the second converts to.
pub proof fn lemma_converted_concat(
    a: Seq<char>,
    b: Seq<char>,
    latin: bool,
    convert: spec_fn(Seq<char>) -> Seq<char>,
)
    requires
        a.len() > 0,
        b.len() > 0,
        in_word(a.last(), latin) != in_word(b[0], latin),
    ensures
        converted(a + b, latin, convert) == converted(a, latin, convert) + converted(
            b,
            latin,
            convert,
        ),
{
    lemma_runs_concat(a, b, latin);
    let first = runs(a, latin).map_values(convert);
    let second = runs(b, latin).map_values(convert);
    assert((runs(a, latin) + runs(b, latin)).map_values(convert) == first + second);
    vstd::seq_lib::lemma_flatten_concat(first, second);
}

/// What stands between two words, or before the first or after the last, is
/// converted by itself: the text around it has no part in what it becomes.
pub proof fn lemma_converted_between(
    before: Seq<char>,
    between: Seq<char>,
    after: Seq<char>,
    latin: bool,
    convert: spec_fn(Seq<char>) -> Seq<char>,
)
    requires
        between.len() > 0,
        forall|i: int| 0 <= i < between.len() ==> !in_word(#[trigger] between[i], latin),
        before.len() > 0 ==> in_word(before.last(), latin),
        after.len() > 0 ==> in_word(after[0], latin),
    ensures
        converted(before + between + after, latin, convert) == converted(before, latin, convert)
            + convert(between) + converted(after, latin, convert),
{
    let nothing = Seq::<char>::empty();
    lemma_converted_nothing(latin, convert);
    lemma_uniform_run(between, latin);
    lemma_converted_step(between, latin, convert);
    assert(between.take(between.len() as int) == between);
    assert(between.skip(between.len() as int) == nothing);
    assert(converted(between, latin, convert) == convert(between)) by {
        assert(convert(between) + nothing == convert(between));
    }
    if before.len() > 0 {
        assert(!in_word(between[0], latin));
        lemma_converted_concat(before, between, latin, convert);
    } else {
        assert(before == nothing);
        assert(before + between == between);
        assert(nothing + convert(between) == convert(between));
    }
    let front = before + between;
    if after.len() > 0 {
        assert(front.last() == between.last());
        assert(!in_word(between[between.len() - 1], latin));
        lemma_converted_concat(front, after, latin, convert);
    } else {
        assert(after == nothing);
        assert(front + after == front);
        assert(converted(front, latin, convert) + nothing == converted(front, latin, convert));
    }
}

} // verus!
