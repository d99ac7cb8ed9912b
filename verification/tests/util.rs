use ainconv::util::{
    is_cyrillic, is_in_word, is_katakana, remove_acute_accent, strip_acute, IsLetter,
    SplitIntoWords,
};

#[test]
fn test_remove_accent() {
    // Remove from composed
    assert_eq!(remove_acute_accent("á"), "a");

    // Remove from decomposed
    assert_eq!(remove_acute_accent("a\u{301}"), "a");

    // Remove from decomposed with other characters
    assert_eq!(remove_acute_accent("ca\u{301}pe"), "cape");

    // Remove from a multiple accented characters
    assert_eq!(remove_acute_accent("pā\u{301}"), "pā");

    // Remove from a composed character with a non-accented character
    assert_eq!(remove_acute_accent("cá\u{304}"), "cā");
}

#[test]
fn test_split_into_words() {
    let text = String::from("Hello、世界! This is Rust.");
    assert_eq!(
        text.split_into_words(),
        vec!["Hello", "、", "世界", "! ", "This", " ", "is", " ", "Rust", "."]
    );
}

#[test]
fn test_is_ainu_letter() {
    assert_eq!('a'.is_ainu_letter(), true);
    assert_eq!('ア'.is_ainu_letter(), true);
    assert_eq!('あ'.is_ainu_letter(), true);
    assert_eq!('🐱'.is_ainu_letter(), false);
}

#[test]
fn voicing_marks_are_letters_and_other_marks_are_not() {
    for c in ['\u{3099}', '\u{309A}', '\u{309B}', '\u{309C}', '\u{FF9E}', '\u{FF9F}'] {
        assert!(c.is_ainu_letter());
    }
    for c in ['\'', '’', '=', ' ', '.', '1', '、', '\u{301}'] {
        assert!(!c.is_ainu_letter());
    }
}

#[test]
fn word_marks_stand_inside_latin_words_only() {
    for c in ['\'', '’', '='] {
        assert!(is_in_word(c, true));
        assert!(!is_in_word(c, false));
    }
    for c in ['a', 'ア', 'й', '\u{309A}'] {
        assert!(is_in_word(c, true) && is_in_word(c, false));
    }
    for c in [' ', '.', '1', '、'] {
        assert!(!is_in_word(c, true) && !is_in_word(c, false));
    }
}

#[test]
fn word_marks_split_a_text_into_words() {
    assert_eq!("hioy’oy".split_into_words(), vec!["hioy", "’", "oy"]);
    assert_eq!("ku=kor".split_into_words(), vec!["ku", "=", "kor"]);
    assert_eq!("a'a".split_into_words(), vec!["a", "'", "a"]);
}

#[test]
fn ranges_of_katakana_and_cyrillic() {
    assert!(is_katakana('\u{30A1}') && is_katakana('\u{31FF}') && is_katakana('ア'));
    assert!(!is_katakana('\u{30A0}') && !is_katakana('\u{3200}') && !is_katakana('あ'));
    assert!(is_cyrillic('\u{0400}') && is_cyrillic('\u{04FF}') && is_cyrillic('й'));
    assert!(!is_cyrillic('\u{03FF}') && !is_cyrillic('\u{0500}') && !is_cyrillic('a'));
}

#[test]
fn split_of_nothing_is_nothing() {
    assert_eq!(String::new().split_into_words(), Vec::<String>::new());
    assert_eq!("".split_into_words(), Vec::<String>::new());
}

#[test]
fn split_words_join_to_the_text() {
    for text in ["Hello、世界! This is Rust.", "  a", "a  ", "ku=kor 'aynu'", "…"] {
        assert_eq!(text.split_into_words().concat(), text);
        assert_eq!(String::from(text).split_into_words(), text.split_into_words());
    }
}

#[test]
fn strip_acute_drops_only_the_acute() {
    let decomposed: Vec<char> = vec!['a', '\u{301}', 'e', '\u{304}', '\u{301}'];
    assert_eq!(strip_acute(&decomposed), vec!['a', 'e', '\u{304}']);
}

#[test]
fn other_accents_stay() {
    assert_eq!(remove_acute_accent("à"), "à");
    assert_eq!(remove_acute_accent(""), "");
    assert_eq!(remove_acute_accent("aynu"), "aynu");
}
