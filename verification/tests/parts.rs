use ainconv::conversion::cyrillic::{is_capital, push_cyrl_head, push_latn_head, small_form_of};
use ainconv::conversion::katakana::{
    clean, composed_word_to_latn, join_tokens, lower, normalise_marks, plain_word_to_kana, polish,
    render, respace, strip_boundary_marks, word_to_kana, word_to_latn,
};
use ainconv::conversion::latin::{is_consonant, is_vowel, to_ascii_lower, to_ascii_upper};
use ainconv::syllable::separate_chars;
use ainconv::text::{chars_of, string_of};
use ainconv::util::{remove_acute_accent_chars, run_end};

fn chars(s: &str) -> Vec<char> {
    s.chars().collect()
}

#[test]
fn strings_and_characters_convert_both_ways() {
    assert_eq!(chars_of("aynu アイヌ"), chars("aynu アイヌ"));
    assert_eq!(string_of(&chars("aynu アイヌ")), "aynu アイヌ");
    assert_eq!(chars_of(""), Vec::<char>::new());
}

#[test]
fn vowels_and_consonants() {
    for c in "aiueo".chars() {
        assert!(is_vowel(c) && !is_consonant(c));
    }
    for c in "ptkcnsrmwyhx'’".chars() {
        assert!(is_consonant(c) && !is_vowel(c));
    }
    for c in "AbT1 ".chars() {
        assert!(!is_consonant(c) && !is_vowel(c));
    }
}

#[test]
fn ascii_case_of_a_character() {
    assert_eq!(to_ascii_lower('A'), 'a');
    assert_eq!(to_ascii_lower('Z'), 'z');
    assert_eq!(to_ascii_lower('a'), 'a');
    assert_eq!(to_ascii_lower('['), '[');
    assert_eq!(to_ascii_lower('Я'), 'Я');
    assert_eq!(to_ascii_upper('a'), 'A');
    assert_eq!(to_ascii_upper('z'), 'Z');
    assert_eq!(to_ascii_upper('’'), '’');
    assert_eq!(to_ascii_upper('{'), '{');
}

#[test]
fn runs_end_where_the_kind_changes() {
    let v = chars("ab, cd");
    for latin in [false, true] {
        assert_eq!(run_end(&v, 0, latin), 2);
        assert_eq!(run_end(&v, 1, latin), 2);
        assert_eq!(run_end(&v, 2, latin), 4);
        assert_eq!(run_end(&v, 4, latin), 6);
    }
    let w = chars("ku=kor");
    assert_eq!(run_end(&w, 0, true), 6);
    assert_eq!(run_end(&w, 0, false), 2);
    assert_eq!(run_end(&w, 2, false), 3);
}

#[test]
fn syllables_of_characters() {
    let syllables = separate_chars(&chars("itak"));
    assert_eq!(syllables, vec![chars("i"), chars("tak")]);
    assert_eq!(separate_chars(&chars("'")), vec![Vec::<char>::new()]);
}

#[test]
fn plain_word_in_kana() {
    assert_eq!(plain_word_to_kana(&chars("aynu")), chars("アイヌ"));
    assert_eq!(plain_word_to_kana(&chars("cape")), chars("チャペ"));
    assert_eq!(plain_word_to_kana(&chars("")), chars(""));
    assert_eq!(plain_word_to_kana(&chars("n")), chars("ン"));
}

#[test]
fn letters_outside_the_kana_tables_stay() {
    assert_eq!(plain_word_to_kana(&chars("ti")), chars("ti"));
    assert_eq!(plain_word_to_kana(&chars("wuk")), chars("wu\u{31F0}"));
    assert_eq!(plain_word_to_kana(&chars("ba")), chars("bア"));
    assert_eq!(plain_word_to_kana(&chars("ac")), chars("アc"));
}

#[test]
fn rendering_and_the_last_pass() {
    let syllables = vec![chars("we"), chars("n")];
    assert_eq!(render(&syllables), chars("ヱ\u{31F4}"));
    assert_eq!(polish(&chars("ヱ\u{31F4}")), chars("ウェン"));
    assert_eq!(polish(&chars("ィゥヰヲ’ア")), chars("イウウィウォア"));
}

#[test]
fn preparing_a_latin_word() {
    assert_eq!(strip_boundary_marks(&chars("ku=kor=")), chars("kukor"));
    assert_eq!(lower(&chars("AyNu Я")), chars("aynu Я"));
    assert_eq!(remove_acute_accent_chars(&chars("cápe")), chars("cape"));
    assert_eq!(word_to_kana(&chars("Ku=kór")), chars("クコ\u{31FD}"));
}

#[test]
fn reading_a_composed_kana_word() {
    assert_eq!(join_tokens(&chars("アイヌ")), chars("a’i’nu"));
    assert_eq!(join_tokens(&chars("チャ")), chars("ca"));
    assert_eq!(join_tokens(&chars("ヒオイ")), chars("hi’oi"));
    assert_eq!(join_tokens(&chars("")), chars(""));
    assert_eq!(clean(&chars("a’i’nu")), chars("ainu"));
    assert_eq!(clean(&chars("n’a")), chars("n’a"));
    assert_eq!(clean(&chars("n’k")), chars("nk"));
    assert_eq!(clean(&chars("’a")), chars("’a"));
    assert_eq!(clean(&chars("n’")), chars("n’"));
    assert_eq!(composed_word_to_latn(&chars("イタ\u{31F0}")), chars("itak"));
}

#[test]
fn preparing_a_kana_word() {
    assert_eq!(
        normalise_marks(&chars("ハ\u{309C}ハ\u{FF9F}カ\u{309B}カ\u{FF9E}")),
        chars("ハ\u{309A}ハ\u{309A}カ\u{3099}カ\u{3099}")
    );
    assert_eq!(word_to_latn(&chars("ハ\u{FF9F}")), chars("pa"));
    assert_eq!(respace(&chars("。、 x")), chars(". ,  x"));
}

#[test]
fn small_form_and_case_of_a_character() {
    assert_eq!(small_form_of('A'), 'a');
    assert_eq!(small_form_of('a'), 'a');
    assert_eq!(small_form_of('Я'), 'я');
    assert_eq!(small_form_of('Ё'), 'ё');
    assert_eq!(small_form_of('ь'), 'ь');
    assert_eq!(small_form_of('Ж'), 'ж');
    assert_eq!(small_form_of('\u{212A}'), 'k');
    assert!(is_capital('A') && is_capital('Я') && is_capital('Ж') && is_capital('\u{212A}'));
    assert!(!is_capital('a') && !is_capital('я') && !is_capital('ж') && !is_capital('1'));
}

#[test]
fn one_step_of_latin_to_cyrillic() {
    let mut out = chars("x");
    assert_eq!(push_latn_head(&mut out, 'y', 'y', false, Some('a')), 2);
    assert_eq!(push_latn_head(&mut out, 'Y', 'y', true, Some('u')), 2);
    assert_eq!(push_latn_head(&mut out, 'y', 'y', false, Some('A')), 1);
    assert_eq!(push_latn_head(&mut out, 'y', 'y', false, None), 1);
    assert_eq!(push_latn_head(&mut out, 'K', 'k', true, Some('a')), 1);
    assert_eq!(push_latn_head(&mut out, '’', '’', false, Some('a')), 1);
    assert_eq!(push_latn_head(&mut out, '\'', '\'', false, None), 1);
    assert_eq!(push_latn_head(&mut out, 'b', 'b', false, None), 1);
    assert_eq!(out, chars("xяЮййКъb"));
}

#[test]
fn one_step_of_cyrillic_to_latin() {
    let mut out = chars("x");
    assert_eq!(push_cyrl_head(&mut out, 'й', 'й', false, Some('а')), 2);
    assert_eq!(push_cyrl_head(&mut out, 'Й', 'й', true, Some('э')), 2);
    assert_eq!(push_cyrl_head(&mut out, 'й', 'й', false, Some('А')), 1);
    assert_eq!(push_cyrl_head(&mut out, 'Я', 'я', true, None), 1);
    assert_eq!(push_cyrl_head(&mut out, 'ь', 'ь', false, None), 1);
    assert_eq!(push_cyrl_head(&mut out, ' ', ' ', false, None), 1);
    assert_eq!(push_cyrl_head(&mut out, 'ъ', 'ъ', false, None), 1);
    assert_eq!(push_cyrl_head(&mut out, 'ж', 'ж', false, None), 1);
    assert_eq!(out, chars("xy’aY’EyYA'ж"));
}
