//! The division of a Latin word into syllables.
use vstd::prelude::*;
use crate::conversion::latin::{consonant, is_consonant, is_vowel, vowel};
use crate::text::{chars_of, string_of};
use crate::util::texts;

verus! {

/// Whether a syllable begins at position `i` of `w`, the start of the word
/// left aside. A vowel begins one unless a consonant stands before it; that
/// consonant is the onset, and the syllable begins there.
pub open spec fn boundary(w: Seq<char>, i: int) -> bool {
    0 < i < w.len() && ((vowel(w[i]) && !consonant(w[i - 1])) || (consonant(w[i]) && i + 1
        < w.len() && vowel(w[i + 1])))
}

/// The first position from `i` on at which a syllable begins, or the length
/// of the word where there is none.
pub open spec fn next_boundary(w: Seq<char>, i: int) -> int
    decreases w.len() - i,
{
    if i >= w.len() {
        w.len() as int
    } else if boundary(w, i) {
        i
    } else {
        next_boundary(w, i + 1)
    }
}

/// `s` without its ASCII apostrophes.
pub open spec fn without_apostrophe(s: Seq<char>) -> Seq<char> {
    s.filter(|c: char| c != '\'')
}

/// The syllables of `w` from position `start` on, each without its
/// apostrophes.
pub open spec fn syllables_from(w: Seq<char>, start: int) -> Seq<Seq<char>>
    decreases w.len() - start,
    via syllables_from_decreases
{
    if start < 0 || start >= w.len() {
        Seq::empty()
    } else {
        let end = next_boundary(w, start + 1);
        seq![without_apostrophe(w.subrange(start, end))] + syllables_from(w, end)
    }
}

#[via_fn]
proof fn syllables_from_decreases(w: Seq<char>, start: int) {
    if 0 <= start < w.len() {
        lemma_next_boundary_bounds(w, start + 1);
    }
}

/// The syllables of `w`, in order.
pub open spec fn syllables(w: Seq<char>) -> Seq<Seq<char>> {
    syllables_from(w, 0)
}

/// The next boundary lies between the position asked from and the end of
/// the word.
pub proof fn lemma_next_boundary_bounds(w: Seq<char>, i: int)
    requires
        0 <= i <= w.len(),
    ensures
        i <= next_boundary(w, i) <= w.len(),
    decreases w.len() - i,
{
    if i < w.len() && !boundary(w, i) {
        lemma_next_boundary_bounds(w, i + 1);
    }
}

/// Whether a syllable begins at position `i` of `v`.
pub fn is_boundary(v: &Vec<char>, i: usize) -> (b: bool)
    ensures
        b == boundary(v@, i as int),
{
    if i == 0 || i >= v.len() {
        return false;
    }
    if is_vowel(v[i]) {
        !is_consonant(v[i - 1])
    } else {
        is_consonant(v[i]) && i + 1 < v.len() && is_vowel(v[i + 1])
    }
}

/// The end of the syllable of `v` that begins at `start`.
pub fn syllable_end(v: &Vec<char>, start: usize) -> (end: usize)
    requires
        start < v.len(),
    ensures
        end == next_boundary(v@, start + 1),
        start < end <= v.len(),
{
    let mut end: usize = start + 1;
    while end < v.len() && !is_boundary(v, end)
        invariant
            start < end <= v.len(),
            next_boundary(v@, start + 1) == next_boundary(v@, end as int),
        decreases v.len() - end,
    {
        end += 1;
    }
    end
}

/// The characters of `v` from `start` up to `end`, the ASCII apostrophes
/// left out.
pub fn piece_without_apostrophe(v: &Vec<char>, start: usize, end: usize) -> (r: Vec<char>)
    requires
        start <= end <= v.len(),
    ensures
        r@ == without_apostrophe(v@.subrange(start as int, end as int)),
{
    let mut r: Vec<char> = Vec::new();
    let mut i: usize = start;
    while i < end
        invariant
            start <= i <= end <= v.len(),
            r@ == without_apostrophe(v@.subrange(start as int, i as int)),
        decreases end - i,
    {
        let c = v[i];
        proof {
            let next = v@.subrange(start as int, i + 1);
            assert(next.drop_last() == v@.subrange(start as int, i as int));
            assert(next.last() == c);
            reveal(Seq::filter);
        }
        if c != '\'' {
            r.push(c);
        }
        i += 1;
    }
    r
}

/// The views of a list of character vectors.
pub open spec fn views(pieces: Seq<Vec<char>>) -> Seq<Seq<char>> {
    pieces.map_values(|p: Vec<char>| p@)
}

/// Divides a word, given by its characters, into syllables.
pub fn separate_chars(v: &Vec<char>) -> (r: Vec<Vec<char>>)
    ensures
        views(r@) == syllables(v@),
{
    let mut r: Vec<Vec<char>> = Vec::new();
    let mut start: usize = 0;
    assert(views(r@) == Seq::<Seq<char>>::empty());
    while start < v.len()
        invariant
            start <= v.len(),
            views(r@) + syllables_from(v@, start as int) == syllables(v@),
        decreases v.len() - start,
    {
        let end = syllable_end(v, start);
        let piece = piece_without_apostrophe(v, start, end);
        proof {
            assert(views(r@.push(piece)) == views(r@).push(piece@));
            assert(views(r@).push(piece@) + syllables_from(v@, end as int) == views(r@)
                + syllables_from(v@, start as int));
        }
        r.push(piece);
        start = end;
    }
    assert(views(r@) + Seq::<Seq<char>>::empty() == views(r@));
    r
}

/// Divides a romanized Ainu word into its syllables. A syllable holds a
/// vowel, the consonant before it if there is one, and what follows up to the
/// next syllable; the ASCII apostrophes are left out of the result.
pub fn separate(latn: &str) -> (r: Vec<String>)
    ensures
        texts(r@) == syllables(latn@),
{
    let v = chars_of(latn);
    let pieces = separate_chars(&v);
    let mut r: Vec<String> = Vec::new();
    let mut i: usize = 0;
    while i < pieces.len()
        invariant
            i <= pieces.len(),
            texts(r@) == views(pieces@).take(i as int),
        decreases pieces.len() - i,
    {
        let s = string_of(&pieces[i]);
        assert(texts(r@.push(s)) == texts(r@).push(s@));
        assert(views(pieces@).take(i + 1) == views(pieces@).take(i as int).push(pieces@[i as int]@));
        r.push(s);
        i += 1;
    }
    assert(views(pieces@).take(pieces.len() as int) == views(pieces@));
    r
}

/// From any position on, the syllables joined in order are the rest of the
/// word without its apostrophes.
pub proof fn lemma_syllables_from_join(w: Seq<char>, start: int)
    requires
        0 <= start <= w.len(),
    ensures
        syllables_from(w, start).flatten() == without_apostrophe(w.skip(start)),
    decreases w.len() - start,
{
    let keep = |c: char| c != '\'';
    if start >= w.len() {
        assert(w.skip(start) == Seq::<char>::empty());
        assert(syllables_from(w, start).flatten() == Seq::<char>::empty());
        reveal(Seq::filter);
    } else {
        let end = next_boundary(w, start + 1);
        lemma_next_boundary_bounds(w, start + 1);
        lemma_syllables_from_join(w, end);
        let head = w.subrange(start, end);
        let first = seq![without_apostrophe(head)];
        assert(w.skip(start) == head + w.skip(end));
        Seq::filter_distributes_over_add(head, w.skip(end), keep);
        vstd::seq_lib::lemma_flatten_concat(first, syllables_from(w, end));
        first.lemma_flatten_one_element();
        assert(first.first() == without_apostrophe(head));
    }
}

/// The syllables of a word, joined in order, are the word without its
/// apostrophes: every other character falls into exactly one syllable, and
/// the order is kept.
pub proof fn lemma_syllables_join(w: Seq<char>)
    ensures
        syllables(w).flatten() == without_apostrophe(w),
{
    lemma_syllables_from_join(w, 0);
    assert(w.skip(0) == w);
}

} // verus!
