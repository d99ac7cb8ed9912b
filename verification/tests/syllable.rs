use ainconv::separate;

#[test]
fn test_separate() {
    let separated = separate("eyaykosiramsuypa");
    assert_eq!(separated, vec!["e", "yay", "ko", "si", "ram", "suy", "pa"]);
}

#[test]
fn separate_of_nothing_is_nothing() {
    assert_eq!(separate(""), Vec::<String>::new());
}

#[test]
fn a_leading_consonant_is_the_onset_of_the_first_vowel() {
    assert_eq!(separate("ka"), vec!["ka"]);
    assert_eq!(separate("kar"), vec!["kar"]);
    assert_eq!(separate("a"), vec!["a"]);
}

#[test]
fn only_the_consonant_before_a_vowel_is_its_onset() {
    assert_eq!(separate("wenkur"), vec!["wen", "kur"]);
    assert_eq!(separate("aynu"), vec!["ay", "nu"]);
    assert_eq!(separate("ruunpe"), vec!["ru", "un", "pe"]);
    assert_eq!(separate("tka"), vec!["t", "ka"]);
}

#[test]
fn ascii_apostrophes_are_left_out_of_the_syllables() {
    assert_eq!(separate("hioy'oy"), vec!["hi", "oy", "oy"]);
    assert_eq!(separate("hioy’oy"), vec!["hi", "oy", "’oy"]);
}

#[test]
fn syllables_join_to_the_word_without_apostrophes() {
    for word in ["eyaykosiramsuypa", "hioy'oy", "'a'a", "irankarapte", "x"] {
        assert_eq!(separate(word).concat(), word.replace('\'', ""));
    }
}
