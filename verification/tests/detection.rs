use ainconv::detection::decide;
use ainconv::{detect, Script};

#[test]
fn test_detect() {
    assert_eq!(detect("aynu"), Script::Latn);
    assert_eq!(detect("アイヌ"), Script::Kana);
    assert_eq!(detect("айну"), Script::Cyrl);
    assert_eq!(detect("Aynuイタㇰ"), Script::Mixed);
    assert_eq!(detect("愛努"), Script::Unknown);
}

#[test]
fn detect_ignores_the_case_of_latin_letters() {
    assert_eq!(detect("AYNU"), detect("aynu"));
    assert_eq!(detect("Aynu итак"), detect("aYNU итак"));
    assert_eq!(detect("AYNU"), Script::Latn);
}

#[test]
fn one_letter_of_another_script_makes_it_mixed() {
    assert_eq!(detect("aynuа"), Script::Mixed);
    assert_eq!(detect("айнуア"), Script::Mixed);
    assert_eq!(detect("aйア"), Script::Mixed);
}

#[test]
fn text_without_letters_is_unknown() {
    assert_eq!(detect(""), Script::Unknown);
    assert_eq!(detect("123 !?"), Script::Unknown);
    assert_eq!(detect("\u{0482}"), Script::Unknown);
}

#[test]
fn decide_covers_every_combination() {
    assert_eq!(decide(false, false, false), Script::Unknown);
    assert_eq!(decide(true, false, false), Script::Latn);
    assert_eq!(decide(false, true, false), Script::Cyrl);
    assert_eq!(decide(false, false, true), Script::Kana);
    assert_eq!(decide(true, true, false), Script::Mixed);
    assert_eq!(decide(true, false, true), Script::Mixed);
    assert_eq!(decide(false, true, true), Script::Mixed);
    assert_eq!(decide(true, true, true), Script::Mixed);
}
