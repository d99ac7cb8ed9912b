//! The converters between the Latin orthography and Katakana.
use vstd::prelude::*;
use crate::conversion::kana_table::{
    canonical_mark, digraph_latn, h_coda_kana, kana_latn, lookup_canonical_mark,
    lookup_digraph_latn, lookup_h_coda_kana, lookup_kana_latn, lookup_pair_kana,
    lookup_plain_coda_kana, lookup_polished_kana, lookup_r_coda_kana, lookup_respaced,
    lookup_vowel_kana, pair_kana, plain_coda_kana, polished_kana, r_coda_kana, respaced,
    vowel_kana,
};
use crate::conversion::latin::{
    ascii_lower, consonant, is_consonant, is_vowel, to_ascii_lower, vowel,
};
use crate::syllable::{separate_chars, syllables, views};
use crate::text::{chars_of, push_all, push_range, push_str, slice, string_of};
use crate::unicode::{nfc, nfc_of};
use crate::util::{
    acute_removed, ainu_letter, converted, in_word, is_in_word, lemma_converted_between,
    lemma_converted_nothing, lemma_converted_step, remove_acute_accent_chars, run_end,
};

verus! {

/// What a table gives for `c`, or `c` itself where the table has no entry.
pub open spec fn or_itself(entry: Option<&'static str>, c: char) -> Seq<char> {
    match entry {
        Some(s) => s@,
        None => seq![c],
    }
}

/// `s` without the marks of morpheme boundaries.
pub open spec fn without_boundary_marks(s: Seq<char>) -> Seq<char> {
    s.filter(|c: char| c != '=')
}

/// `s` with its ASCII capitals in lower case.
pub open spec fn lowered(s: Seq<char>) -> Seq<char> {
    s.map_values(|c: char| ascii_lower(c))
}

/// The coda of a syllable: its last letter where that is a consonant.
pub open spec fn coda_of(syllable: Seq<char>) -> Option<char> {
    if syllable.len() > 0 && consonant(syllable.last()) {
        Some(syllable.last())
    } else {
        None
    }
}

/// A syllable without its coda: the onset, if any, and the vowel.
pub open spec fn remains_of(syllable: Seq<char>) -> Seq<char> {
    if coda_of(syllable) is Some {
        syllable.drop_last()
    } else {
        syllable
    }
}

/// The kana of a syllable without its coda. What the tables do not hold
/// stays as it is.
pub open spec fn remains_kana(remains: Seq<char>) -> Seq<char> {
    let entry = if remains.len() == 1 {
        vowel_kana(remains[0])
    } else if remains.len() == 2 {
        pair_kana(remains[0], remains[1])
    } else {
        None
    };
    match entry {
        Some(kana) => kana@,
        None => remains,
    }
}

/// The kana of a coda. Those of `r`, `h` and `x` take the colour of the
/// vowel that the next syllable begins with, and that of `u` where it begins
/// with none; any other coda is written the same everywhere.
pub open spec fn coda_kana(coda: char, next: Option<char>) -> Seq<char> {
    if coda == 'r' {
        r_coda_kana(next)@
    } else if coda == 'h' || coda == 'x' {
        h_coda_kana(next)@
    } else {
        or_itself(plain_coda_kana(coda), coda)
    }
}

/// The kana of one syllable, `next` being the first letter of the syllable
/// that follows it.
pub open spec fn syllable_kana(syllable: Seq<char>, next: Option<char>) -> Seq<char> {
    remains_kana(remains_of(syllable)) + match coda_of(syllable) {
        Some(coda) => coda_kana(coda, next),
        None => Seq::empty(),
    }
}

/// The first letter of the syllable after the one at `k`.
pub open spec fn next_first(syllables: Seq<Seq<char>>, k: int) -> Option<char> {
    if k + 1 < syllables.len() && syllables[k + 1].len() > 0 {
        Some(syllables[k + 1][0])
    } else {
        None
    }
}

/// The kana of each syllable of a list, each seen with its successor.
pub open spec fn rendered_each(syllables: Seq<Seq<char>>) -> Seq<Seq<char>> {
    Seq::new(syllables.len(), |k: int| syllable_kana(syllables[k], next_first(syllables, k)))
}

/// The kana of a list of syllables, before the last pass.
pub open spec fn rendered(syllables: Seq<Seq<char>>) -> Seq<char> {
    rendered_each(syllables).flatten()
}

/// The last pass over the kana of a word: small kana that must not stand
/// alone become full ones, old kana are spelled out, glottal stops vanish.
pub open spec fn polished(kana: Seq<char>) -> Seq<char> {
    kana.map_values(|c: char| or_itself(polished_kana(c), c)).flatten()
}

/// The kana of a word that is in lower case and bears no accent.
pub open spec fn plain_word_kana(word: Seq<char>) -> Seq<char> {
    polished(rendered(syllables(word)))
}

/// The kana of a word: boundary marks and acute accents are dropped, capitals
/// lowered, and the syllables of what is left written in kana.
pub open spec fn word_kana(word: Seq<char>) -> Seq<char> {
    plain_word_kana(lowered(acute_removed(without_boundary_marks(word))))
}

/// The kana of one run of a Latin text: a word, which may hold glottal stops
/// and boundary marks beside its letters, is converted; anything else stays.
pub open spec fn run_kana(run: Seq<char>) -> Seq<char> {
    if run.len() > 0 && in_word(run[0], true) {
        word_kana(run)
    } else {
        run
    }
}

/// [`run_kana`] as a value.
pub open spec fn kana_of_run() -> spec_fn(Seq<char>) -> Seq<char> {
    |run: Seq<char>| run_kana(run)
}

/// The Katakana of a Latin text: its runs, each converted, in order.
pub open spec fn latn_to_kana(s: Seq<char>) -> Seq<char> {
    converted(s, true, kana_of_run())
}

/// Appends the kana of `syllable` to `out`, `next` being the first letter of
/// the syllable that follows.
pub fn render_syllable(out: &mut Vec<char>, syllable: &Vec<char>, next: Option<char>)
    ensures
        final(out)@ == old(out)@ + syllable_kana(syllable@, next),
{
    let ghost before = out@;
    let len = syllable.len();
    let has_coda = len > 0 && is_consonant(syllable[len - 1]);
    let n = if has_coda {
        len - 1
    } else {
        len
    };
    let ghost remains = remains_of(syllable@);
    assert(remains == syllable@.subrange(0, n as int));
    let entry = if n == 1 {
        lookup_vowel_kana(syllable[0])
    } else if n == 2 {
        lookup_pair_kana(syllable[0], syllable[1])
    } else {
        None
    };
    match entry {
        Some(kana) => push_str(out, kana),
        None => push_range(out, syllable, 0, n),
    }
    assert(out@ == before + remains_kana(remains));
    if has_coda {
        let coda = syllable[len - 1];
        if coda == 'r' {
            push_str(out, lookup_r_coda_kana(next));
        } else if coda == 'h' || coda == 'x' {
            push_str(out, lookup_h_coda_kana(next));
        } else {
            match lookup_plain_coda_kana(coda) {
                Some(kana) => push_str(out, kana),
                None => {
                    out.push(coda);
                    assert(out@ == before + remains_kana(remains) + seq![coda]);
                },
            }
        }
        assert(out@ == before + remains_kana(remains) + coda_kana(coda, next));
    }
    assert(out@ == before + syllable_kana(syllable@, next));
}

/// The kana of a list of syllables, before the last pass.
pub fn render(syllables: &Vec<Vec<char>>) -> (r: Vec<char>)
    ensures
        r@ == rendered(views(syllables@)),
{
    let mut r: Vec<char> = Vec::new();
    let ghost each = rendered_each(views(syllables@));
    let mut k: usize = 0;
    while k < syllables.len()
        invariant
            k <= syllables.len(),
            each == rendered_each(views(syllables@)),
            r@ == each.take(k as int).flatten(),
        decreases syllables.len() - k,
    {
        let next = if k + 1 < syllables.len() && syllables[k + 1].len() > 0 {
            Some(syllables[k + 1][0])
        } else {
            None
        };
        proof {
            assert(next == next_first(views(syllables@), k as int));
            assert(each.take(k + 1) == each.take(k as int).push(each[k as int]));
            each.take(k as int).lemma_flatten_push(each[k as int]);
        }
        render_syllable(&mut r, &syllables[k], next);
        k += 1;
    }
    assert(each.take(syllables.len() as int) == each);
    r
}

/// The last pass over the kana of a word.
pub fn polish(kana: &Vec<char>) -> (r: Vec<char>)
    ensures
        r@ == polished(kana@),
{
    let mut r: Vec<char> = Vec::new();
    let ghost each = kana@.map_values(|c: char| or_itself(polished_kana(c), c));
    let mut i: usize = 0;
    while i < kana.len()
        invariant
            i <= kana.len(),
            each == kana@.map_values(|c: char| or_itself(polished_kana(c), c)),
            r@ == each.take(i as int).flatten(),
        decreases kana.len() - i,
    {
        let c = kana[i];
        proof {
            assert(each.take(i + 1) == each.take(i as int).push(each[i as int]));
            each.take(i as int).lemma_flatten_push(each[i as int]);
        }
        match lookup_polished_kana(c) {
            Some(full) => push_str(&mut r, full),
            None => r.push(c),
        }
        i += 1;
    }
    assert(each.take(kana.len() as int) == each);
    r
}

/// `word` with its ASCII capitals in lower case.
pub fn lower(word: &Vec<char>) -> (r: Vec<char>)
    ensures
        r@ == lowered(word@),
{
    let mut r: Vec<char> = Vec::new();
    let mut i: usize = 0;
    while i < word.len()
        invariant
            i <= word.len(),
            r@.len() == i,
            forall|j: int| 0 <= j < i ==> r@[j] == ascii_lower(word@[j]),
        decreases word.len() - i,
    {
        r.push(to_ascii_lower(word[i]));
        i += 1;
    }
    assert(r@ =~= lowered(word@));
    r
}

/// `word` without the marks of morpheme boundaries.
pub fn strip_boundary_marks(word: &Vec<char>) -> (r: Vec<char>)
    ensures
        r@ == without_boundary_marks(word@),
{
    let mut r: Vec<char> = Vec::new();
    let mut i: usize = 0;
    while i < word.len()
        invariant
            i <= word.len(),
            r@ == without_boundary_marks(word@.take(i as int)),
        decreases word.len() - i,
    {
        let c = word[i];
        proof {
            assert(word@.take(i + 1).drop_last() == word@.take(i as int));
            reveal(Seq::filter);
        }
        if c != '=' {
            r.push(c);
        }
        i += 1;
    }
    assert(word@.take(word.len() as int) == word@);
    r
}

/// The kana of a word that is in lower case and bears no accent: it is
/// divided into syllables, each is written in kana, and the last pass is made.
pub fn plain_word_to_kana(word: &Vec<char>) -> (r: Vec<char>)
    ensures
        r@ == plain_word_kana(word@),
{
    let syllables = separate_chars(word);
    let kana = render(&syllables);
    polish(&kana)
}

/// The kana of a word.
pub fn word_to_kana(word: &Vec<char>) -> (r: Vec<char>)
    ensures
        r@ == word_kana(word@),
{
    let bare = strip_boundary_marks(word);
    let plain = remove_acute_accent_chars(&bare);
    let low = lower(&plain);
    plain_word_to_kana(&low)
}

/// Converts romanized Ainu to Katakana. Words are converted; what stands
/// between them is left as it is.
pub fn convert_latn_to_kana(latn: &str) -> (r: String)
    ensures
        r@ == latn_to_kana(latn@),
{
    let v = chars_of(latn);
    let mut out: Vec<char> = Vec::new();
    let mut i: usize = 0;
    assert(v@.skip(0) == v@);
    while i < v.len()
        invariant
            i <= v.len(),
            v@ == latn@,
            out@ + latn_to_kana(v@.skip(i as int)) == latn_to_kana(v@),
        decreases v.len() - i,
    {
        let end = run_end(&v, i, true);
        let run = slice(&v, i, end);
        proof {
            let rest = v@.skip(i as int);
            lemma_converted_step(rest, true, kana_of_run());
            assert(rest.take(end - i) == run@);
            assert(rest.skip(end - i) == v@.skip(end as int));
            assert(run@[0] == v@[i as int]);
        }
        if is_in_word(v[i], true) {
            let kana = word_to_kana(&run);
            push_all(&mut out, &kana);
        } else {
            push_all(&mut out, &run);
        }
        i = end;
    }
    proof {
        lemma_converted_nothing(true, kana_of_run());
        assert(v@.skip(i as int) == Seq::<char>::empty());
    }
    string_of(&out)
}

/// `s` with each spacing or half-width voicing mark in its combining form.
pub open spec fn marks_normalised(s: Seq<char>) -> Seq<char> {
    s.map_values(|c: char| canonical_mark(c))
}

/// How many kana are read together at position `i`: two where they form a
/// digraph, else one.
pub open spec fn token_len(s: Seq<char>, i: int) -> int {
    if i + 1 < s.len() && digraph_latn(s[i], s[i + 1]) is Some {
        2
    } else {
        1
    }
}

/// The Latin letters of what is read at position `i`. A character that the
/// tables do not hold stays as it is.
pub open spec fn token_latn(s: Seq<char>, i: int) -> Seq<char> {
    if i + 1 < s.len() && digraph_latn(s[i], s[i + 1]) is Some {
        digraph_latn(s[i], s[i + 1]).unwrap()@
    } else {
        or_itself(kana_latn(s[i]), s[i])
    }
}

/// The Latin letters of a kana word from position `i` on, a glottal stop
/// written between what is read at one position and at the next.
pub open spec fn joined_from(s: Seq<char>, i: int) -> Seq<char>
    decreases s.len() - i,
{
    if i < 0 || i >= s.len() {
        Seq::empty()
    } else if i + token_len(s, i) >= s.len() {
        token_latn(s, i)
    } else {
        token_latn(s, i) + seq!['\u{2019}'] + joined_from(s, i + token_len(s, i))
    }
}

/// Whether the character at `i` outlasts the cleaning: a glottal stop goes
/// where a vowel stands before it, and where what follows it is no vowel.
pub open spec fn outlasts(s: Seq<char>, i: int) -> bool {
    s[i] != '\u{2019}' || !((i > 0 && vowel(s[i - 1])) || (i + 1 < s.len() && !vowel(s[i + 1])))
}

/// The first `n` characters of `s`, cleaned.
pub open spec fn cleaned_upto(s: Seq<char>, n: int) -> Seq<char>
    decreases n,
{
    if n <= 0 {
        Seq::empty()
    } else if outlasts(s, n - 1) {
        cleaned_upto(s, n - 1).push(s[n - 1])
    } else {
        cleaned_upto(s, n - 1)
    }
}

/// `s` without the glottal stops that do not outlast the cleaning.
pub open spec fn cleaned(s: Seq<char>) -> Seq<char> {
    cleaned_upto(s, s.len() as int)
}

/// The Latin letters of a kana word that is composed already.
pub open spec fn composed_word_latn(word: Seq<char>) -> Seq<char> {
    cleaned(joined_from(word, 0))
}

/// The Latin letters of a kana word: its voicing marks are brought to their
/// combining form, the word is composed and then read.
pub open spec fn word_latn(word: Seq<char>) -> Seq<char> {
    composed_word_latn(nfc_of(marks_normalised(word)))
}

/// What stands between words, with Japanese punctuation written as Latin
/// punctuation and space.
pub open spec fn respaced_text(s: Seq<char>) -> Seq<char> {
    s.map_values(|c: char| or_itself(respaced(c), c)).flatten()
}

/// The Latin text of one run of a kana text.
pub open spec fn run_latn(run: Seq<char>) -> Seq<char> {
    if run.len() > 0 && ainu_letter(run[0]) {
        word_latn(run)
    } else {
        respaced_text(run)
    }
}

/// [`run_latn`] as a value.
pub open spec fn latn_of_run() -> spec_fn(Seq<char>) -> Seq<char> {
    |run: Seq<char>| run_latn(run)
}

/// The Latin text of a kana text: its runs, each converted, in order. Only
/// letters make up a word here: a glottal stop or a boundary mark stands
/// between words, and stays.
pub open spec fn kana_to_latn(s: Seq<char>) -> Seq<char> {
    converted(s, false, latn_of_run())
}

/// `word` with each spacing or half-width voicing mark in its combining form.
pub fn normalise_marks(word: &Vec<char>) -> (r: Vec<char>)
    ensures
        r@ == marks_normalised(word@),
{
    let mut r: Vec<char> = Vec::new();
    let mut i: usize = 0;
    while i < word.len()
        invariant
            i <= word.len(),
            r@.len() == i,
            forall|j: int| 0 <= j < i ==> r@[j] == canonical_mark(word@[j]),
        decreases word.len() - i,
    {
        r.push(lookup_canonical_mark(word[i]));
        i += 1;
    }
    assert(r@ =~= marks_normalised(word@));
    r
}

/// Reads a composed kana word: each kana or digraph becomes its Latin
/// letters, with a glottal stop between one and the next.
pub fn join_tokens(word: &Vec<char>) -> (r: Vec<char>)
    ensures
        r@ == joined_from(word@, 0),
{
    let mut r: Vec<char> = Vec::new();
    let mut i: usize = 0;
    while i < word.len()
        invariant
            i <= word.len(),
            r@ + joined_from(word@, i as int) == joined_from(word@, 0),
        decreases word.len() - i,
    {
        let ghost before = r@;
        let digraph = if i + 1 < word.len() {
            lookup_digraph_latn(word[i], word[i + 1])
        } else {
            None
        };
        let next = match digraph {
            Some(latn) => {
                push_str(&mut r, latn);
                i + 2
            },
            None => {
                match lookup_kana_latn(word[i]) {
                    Some(latn) => push_str(&mut r, latn),
                    None => r.push(word[i]),
                }
                i + 1
            },
        };
        assert(next == i + token_len(word@, i as int));
        assert(r@ == before + token_latn(word@, i as int));
        if next < word.len() {
            r.push('\u{2019}');
            assert(r@ + joined_from(word@, next as int) == before + joined_from(word@, i as int));
        } else {
            assert(joined_from(word@, next as int) == Seq::<char>::empty());
            assert(r@ + joined_from(word@, next as int) == before + joined_from(word@, i as int));
        }
        i = next;
    }
    assert(joined_from(word@, i as int) == Seq::<char>::empty());
    assert(r@ + Seq::<char>::empty() == r@);
    r
}

/// Drops the glottal stops that do not outlast the cleaning.
pub fn clean(s: &Vec<char>) -> (r: Vec<char>)
    ensures
        r@ == cleaned(s@),
{
    let mut r: Vec<char> = Vec::new();
    let mut i: usize = 0;
    while i < s.len()
        invariant
            i <= s.len(),
            r@ == cleaned_upto(s@, i as int),
        decreases s.len() - i,
    {
        let c = s[i];
        let dropped = c == '\u{2019}' && ((i > 0 && is_vowel(s[i - 1])) || (i + 1 < s.len()
            && !is_vowel(s[i + 1])));
        assert(dropped == !outlasts(s@, i as int));
        if !dropped {
            r.push(c);
        }
        i += 1;
    }
    r
}

/// The Latin letters of a kana word that is composed already.
pub fn composed_word_to_latn(word: &Vec<char>) -> (r: Vec<char>)
    ensures
        r@ == composed_word_latn(word@),
{
    let joined = join_tokens(word);
    clean(&joined)
}

/// The Latin letters of a kana word.
pub fn word_to_latn(word: &Vec<char>) -> (r: Vec<char>)
    ensures
        r@ == word_latn(word@),
{
    let marked = normalise_marks(word);
    let composed = nfc(&marked);
    composed_word_to_latn(&composed)
}

/// What stands between words, with Japanese punctuation written as Latin
/// punctuation and space.
pub fn respace(s: &Vec<char>) -> (r: Vec<char>)
    ensures
        r@ == respaced_text(s@),
{
    let mut r: Vec<char> = Vec::new();
    let ghost each = s@.map_values(|c: char| or_itself(respaced(c), c));
    let mut i: usize = 0;
    while i < s.len()
        invariant
            i <= s.len(),
            each == s@.map_values(|c: char| or_itself(respaced(c), c)),
            r@ == each.take(i as int).flatten(),
        decreases s.len() - i,
    {
        let c = s[i];
        proof {
            assert(each.take(i + 1) == each.take(i as int).push(each[i as int]));
            each.take(i as int).lemma_flatten_push(each[i as int]);
        }
        match lookup_respaced(c) {
            Some(latn) => push_str(&mut r, latn),
            None => r.push(c),
        }
        i += 1;
    }
    assert(each.take(s.len() as int) == each);
    r
}

/// Converts Katakana to romanized Ainu. Words are converted; in what stands
/// between them, Japanese punctuation becomes Latin punctuation and space.
pub fn convert_kana_to_latn(kana: &str) -> (r: String)
    ensures
        r@ == kana_to_latn(kana@),
{
    let v = chars_of(kana);
    let mut out: Vec<char> = Vec::new();
    let mut i: usize = 0;
    assert(v@.skip(0) == v@);
    while i < v.len()
        invariant
            i <= v.len(),
            v@ == kana@,
            out@ + kana_to_latn(v@.skip(i as int)) == kana_to_latn(v@),
        decreases v.len() - i,
    {
        let end = run_end(&v, i, false);
        let run = slice(&v, i, end);
        proof {
            let rest = v@.skip(i as int);
            lemma_converted_step(rest, false, latn_of_run());
            assert(rest.take(end - i) == run@);
            assert(rest.skip(end - i) == v@.skip(end as int));
            assert(run@[0] == v@[i as int]);
        }
        let latn = if is_in_word(v[i], false) {
            word_to_latn(&run)
        } else {
            respace(&run)
        };
        push_all(&mut out, &latn);
        i = end;
    }
    proof {
        lemma_converted_nothing(false, latn_of_run());
        assert(v@.skip(i as int) == Seq::<char>::empty());
    }
    string_of(&out)
}

/// What stands between two words of a Latin text, or before the first or
/// after the last, stands in the kana unchanged. Glottal stops and boundary
/// marks are part of a Latin word, so what stands between holds none.
pub proof fn lemma_between_words_kept(before: Seq<char>, between: Seq<char>, after: Seq<char>)
    requires
        between.len() > 0,
        forall|i: int| 0 <= i < between.len() ==> !in_word(#[trigger] between[i], true),
        before.len() > 0 ==> in_word(before.last(), true),
        after.len() > 0 ==> in_word(after[0], true),
    ensures
        latn_to_kana(before + between + after) == latn_to_kana(before) + between + latn_to_kana(
            after,
        ),
{
    lemma_converted_between(before, between, after, true, kana_of_run());
    assert(!in_word(between[0], true));
}

/// What stands between two words of a kana text, or before the first or
/// after the last, stands in the Latin text with only its Japanese
/// punctuation rewritten.
pub proof fn lemma_between_words_respaced(
    before: Seq<char>,
    between: Seq<char>,
    after: Seq<char>,
)
    requires
        between.len() > 0,
        forall|i: int| 0 <= i < between.len() ==> !ainu_letter(#[trigger] between[i]),
        before.len() > 0 ==> ainu_letter(before.last()),
        after.len() > 0 ==> ainu_letter(after[0]),
    ensures
        kana_to_latn(before + between + after) == kana_to_latn(before) + respaced_text(between)
            + kana_to_latn(after),
{
    assert forall|i: int| 0 <= i < between.len() implies !in_word(
        #[trigger] between[i],
        false,
    ) by {
        assert(!ainu_letter(between[i]));
    }
    lemma_converted_between(before, between, after, false, latn_of_run());
    assert(!ainu_letter(between[0]));
}

/// A text in which no Japanese punctuation stands is left as it is by the
/// rewriting of punctuation.
pub proof fn lemma_respaced_plain(s: Seq<char>)
    requires
        forall|i: int| 0 <= i < s.len() ==> respaced(#[trigger] s[i]) is None,
    ensures
        respaced_text(s) == s,
    decreases s.len(),
{
    let each = s.map_values(|c: char| or_itself(respaced(c), c));
    if s.len() == 0 {
        assert(each == Seq::<Seq<char>>::empty());
        assert(s == Seq::<char>::empty());
    } else {
        let front = s.drop_last();
        assert forall|i: int| 0 <= i < front.len() implies respaced(#[trigger] front[i])
            is None by {
            assert(front[i] == s[i]);
        }
        lemma_respaced_plain(front);
        let front_each = front.map_values(|c: char| or_itself(respaced(c), c));
        assert(respaced(s[s.len() - 1]) is None);
        assert(each == front_each.push(seq![s.last()]));
        front_each.lemma_flatten_push(seq![s.last()]);
        assert(front + seq![s.last()] == s);
    }
}

/// A kana text without a letter comes out with only its Japanese punctuation
/// rewritten, and unchanged where it holds none.
pub proof fn lemma_no_letters_respaced(s: Seq<char>)
    requires
        forall|i: int| 0 <= i < s.len() ==> !ainu_letter(#[trigger] s[i]),
    ensures
        kana_to_latn(s) == respaced_text(s),
        (forall|i: int| 0 <= i < s.len() ==> respaced(#[trigger] s[i]) is None) ==> kana_to_latn(s)
            == s,
{
    let nothing = Seq::<char>::empty();
    if s.len() == 0 {
        lemma_converted_nothing(false, latn_of_run());
        assert(s == nothing);
        assert(s.map_values(|c: char| or_itself(respaced(c), c)) == Seq::<Seq<char>>::empty());
    } else {
        lemma_between_words_respaced(nothing, s, nothing);
        lemma_converted_nothing(false, latn_of_run());
        assert(nothing + s + nothing == s);
        assert(nothing + respaced_text(s) + nothing == respaced_text(s));
    }
    if forall|i: int| 0 <= i < s.len() ==> respaced(#[trigger] s[i]) is None {
        lemma_respaced_plain(s);
    }
}

/// A Latin text without a letter, a glottal stop or a boundary mark comes out
/// as it went in.
pub proof fn lemma_no_words_kept(s: Seq<char>)
    requires
        forall|i: int| 0 <= i < s.len() ==> !in_word(#[trigger] s[i], true),
    ensures
        latn_to_kana(s) == s,
{
    let nothing = Seq::<char>::empty();
    lemma_converted_nothing(true, kana_of_run());
    if s.len() == 0 {
        assert(s == nothing);
    } else {
        lemma_between_words_kept(nothing, s, nothing);
        assert(nothing + s + nothing == s);
    }
}

} // verus!
