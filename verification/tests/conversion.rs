use ainconv::{
    convert_cyrl_to_kana, convert_cyrl_to_latn, convert_kana_to_cyrl, convert_kana_to_latn,
    convert_latn_to_cyrl, convert_latn_to_kana,
};

const TEST_CASES: [(&str, &'static [&str], &str, &str, &str, &str); 16] = [
    ("", &[], "", "", "", ""),
    ("aynu", &["ay", "nu"], "アイヌ", "айну", "애누", "ainu"),
    ("itak", &["i", "tak"], "イタㇰ", "итак", "이닥", "itak"),
    ("maciya", &["ma", "ci", "ya"], "マチヤ", "мация", "마지야", "maciya"),
    ("acapo", &["a", "ca", "po"], "アチャポ", "ацапо", "아자포", "acapo"),
    (
        "aynuitak",
        &["ay", "nu", "i", "tak"],
        "アイヌイタㇰ",
        "айнуитак",
        "애누이닥",
        "ainuitak",
    ),
    ("sinep", &["si", "nep"], "シネㇷ゚", "синэп", "시넙", "sinep"),
    ("ruunpe", &["ru", "un", "pe"], "ルウンペ", "руунпэ", "루운버", "ruunpe"),
    ("wenkur", &["we", "n", "kur"], "ウェンクㇽ", "вэнкур", "펀굴", "wenkur"),
    ("pekanke", &["pe", "kan", "ke"], "ペカンケ", "пэканкэ", "버간거", "pekanke"),
    (
        "eramuskare",
        &["e", "ra", "mus", "ka", "re"],
        "エラムㇱカレ",
        "эрамускарэ",
        "어라뭇가러",
        "eramuskare",
    ),
    ("hioy’oy", &["hi", "oy", "oy"], "ヒオイオイ", "хиойой", "히외외", "hioioi"),
    (
        "irankarapte",
        &["i", "ran", "ka", "rap", "te"],
        "イランカラㇷ゚テ",
        "иранкараптэ",
        "이란가랍더",
        "irankarapte",
    ),
    (
        "iyairaykere",
        &["i", "ya", "yi", "ray", "ke", "re"],
        "イヤイライケレ",
        "ияирайкэрэ",
        "이야이래거러",
        "iyairaikere",
    ),
    ("yayrayke", &["yay", "ray", "ke"], "ヤイライケ", "яйрайкэ", "얘래거", "yairaike"),
    (
        "keyaykosiramsuypa",
        &["ke", "yay", "ko", "si", "ram", "suy", "pa"],
        "ケヤイコシラㇺスイパ",
        "кэяйкосирамсуйпа",
        "거얘고시람쉬바",
        "keyaikosiramsuipa",
    ),
];

#[test]
fn test_convert_latn_to_kana() {
    for (latn, _, kana, _, _, _) in &TEST_CASES {
        assert_eq!(convert_latn_to_kana(latn), kana.to_owned());
    }
}

#[test]
fn test_convert_kana_to_latn() {
    for (_, _, kana, _, _, latn) in &TEST_CASES {
        assert_eq!(convert_kana_to_latn(kana), latn.to_owned());
    }
}

#[test]
fn test_convert_latn_to_cyrl() {
    for (latn, _, _, cyrl, _, _) in &TEST_CASES {
        assert_eq!(convert_latn_to_cyrl(latn), cyrl.to_owned());
    }
}

#[test]
fn test_convert_cyrl_to_latn() {
    for (latn, _, _, cyrl, _, _) in &TEST_CASES {
        assert_eq!(convert_cyrl_to_latn(cyrl), latn.to_owned());
    }
}

#[test]
fn latn_to_kana_of_aynu_and_back_is_lossy() {
    assert_eq!(convert_latn_to_kana("aynu"), "アイヌ");
    assert_eq!(convert_kana_to_latn("アイヌ"), "ainu");
}

#[test]
fn coda_p_is_the_small_pu_with_its_mark() {
    assert_eq!(convert_latn_to_kana("sinep"), "シネ\u{31F7}\u{309A}");
}

#[test]
fn coda_r_at_the_end_of_a_word_takes_the_colour_of_u() {
    assert_eq!(convert_latn_to_kana("wenkur"), "ウェンク\u{31FD}");
    assert_eq!(convert_latn_to_kana("kor"), "コ\u{31FD}");
}

#[test]
fn coda_r_takes_the_colour_of_the_vowel_that_follows() {
    assert_eq!(convert_latn_to_kana("ar'a"), "ア\u{31FB}ア");
    assert_eq!(convert_latn_to_kana("ar'i"), "ア\u{31FC}イ");
    assert_eq!(convert_latn_to_kana("ar'u"), "ア\u{31FD}ウ");
    assert_eq!(convert_latn_to_kana("ar'e"), "ア\u{31FE}エ");
    assert_eq!(convert_latn_to_kana("ar'o"), "ア\u{31FF}オ");
    assert_eq!(convert_latn_to_kana("ah'a"), "ア\u{31F5}ア");
    assert_eq!(convert_latn_to_kana("ax'o"), "ア\u{31F9}オ");
}

#[test]
fn coda_r_before_a_consonant_takes_the_colour_of_u() {
    assert_eq!(convert_latn_to_kana("karku"), "カ\u{31FD}ク");
    assert_eq!(convert_latn_to_kana("kar’a"), "カ\u{31FD}ア");
    assert_eq!(convert_latn_to_kana("koro"), "コロ");
}

#[test]
fn coda_h_and_x_share_their_kana() {
    assert_eq!(convert_latn_to_kana("sah"), "サ\u{31F7}");
    assert_eq!(convert_latn_to_kana("sax"), "サ\u{31F7}");
}

#[test]
fn glottal_stop_is_lost_through_katakana() {
    assert_eq!(convert_latn_to_kana("hioy’oy"), "ヒオイオイ");
    assert_eq!(convert_kana_to_latn("ヒオイオイ"), "hioioi");
}

#[test]
fn boundary_marks_accents_and_capitals_do_not_show_in_kana() {
    assert_eq!(convert_latn_to_kana("ku=kor"), convert_latn_to_kana("kukor"));
    assert_eq!(convert_latn_to_kana("Aynu"), "アイヌ");
    assert_eq!(convert_latn_to_kana("áynu"), "アイヌ");
}

#[test]
fn what_stands_between_words_is_kept() {
    assert_eq!(convert_latn_to_kana("aynu, itak!"), "アイヌ, イタㇰ!");
    assert_eq!(convert_latn_to_kana("123 ?!"), "123 ?!");
    assert_eq!(convert_kana_to_latn("123 ?!"), "123 ?!");
}

#[test]
fn japanese_punctuation_is_respaced() {
    assert_eq!(convert_kana_to_latn("アイヌ、イタㇰ。"), "ainu, itak. ");
    assert_eq!(convert_kana_to_latn("「アイヌ」"), " \"ainu\" ");
    assert_eq!(convert_kana_to_latn("『アイヌ』"), " 'ainu' ");
    assert_eq!(convert_kana_to_latn("アイヌ！アイヌ？"), "ainu! ainu? ");
    assert_eq!(convert_kana_to_latn("アイヌ\u{3000}イタㇰ"), "ainu itak");
}

#[test]
fn kana_digraphs_are_read_together() {
    assert_eq!(convert_kana_to_latn("チャ"), "ca");
    assert_eq!(convert_kana_to_latn("チュ"), "cu");
    assert_eq!(convert_kana_to_latn("チェ"), "ce");
    assert_eq!(convert_kana_to_latn("チョ"), "co");
    assert_eq!(convert_kana_to_latn("トゥ"), "tu");
    assert_eq!(convert_kana_to_latn("ト\u{309A}"), "tu");
    assert_eq!(convert_kana_to_latn("イェ"), "ye");
    assert_eq!(convert_kana_to_latn("ウェ"), "we");
    assert_eq!(convert_kana_to_latn("ウィ"), "wi");
    assert_eq!(convert_kana_to_latn("ウォ"), "wo");
    assert_eq!(convert_kana_to_latn("オイ"), "oi");
    assert_eq!(convert_kana_to_latn("エイ"), "ei");
    assert_eq!(convert_kana_to_latn("ウイ"), "ui");
}

#[test]
fn the_first_pair_of_kana_is_read_first() {
    assert_eq!(convert_kana_to_latn("オイェ"), "oie");
    assert_eq!(convert_kana_to_latn("イェ"), "ye");
    assert_eq!(convert_kana_to_latn("ウイェ"), "uie");
}

#[test]
fn marks_between_kana_words_stay() {
    assert_eq!(convert_kana_to_latn("ア=イ"), "a=i");
    assert_eq!(convert_kana_to_latn("ア’カ"), "a’ka");
    assert_eq!(convert_kana_to_latn("ア'カ"), "a'ka");
    assert_eq!(convert_kana_to_latn("= ' ’"), "= ' ’");
}

#[test]
fn marks_inside_latin_words_do_not_show_in_kana() {
    assert_eq!(convert_latn_to_kana("a = b"), "ア  b");
    assert_eq!(convert_latn_to_kana("'a'"), "ア");
    assert_eq!(convert_latn_to_kana("’"), "");
}

#[test]
fn half_width_kana_and_hiragana_are_read() {
    assert_eq!(convert_kana_to_latn("あいぬ"), "ainu");
    assert_eq!(convert_kana_to_latn("ｱｲﾇ"), "ayn");
}

#[test]
fn voicing_marks_are_composed_before_reading() {
    assert_eq!(convert_kana_to_latn("ハ\u{309A}"), "pa");
    assert_eq!(convert_kana_to_latn("ハ\u{309C}"), "pa");
    assert_eq!(convert_kana_to_latn("ハ\u{FF9F}"), "pa");
}

#[test]
fn glottal_stop_is_kept_between_consonant_and_vowel() {
    assert_eq!(convert_kana_to_latn("ンア"), "n’a");
    assert_eq!(convert_kana_to_latn("アンア"), "an’a");
    assert_eq!(convert_kana_to_latn("ㇰア"), "k’a");
}

#[test]
fn empty_text_converts_to_empty_text() {
    assert_eq!(convert_latn_to_kana(""), "");
    assert_eq!(convert_kana_to_latn(""), "");
    assert_eq!(convert_latn_to_cyrl(""), "");
    assert_eq!(convert_cyrl_to_latn(""), "");
    assert_eq!(convert_cyrl_to_kana(""), "");
    assert_eq!(convert_kana_to_cyrl(""), "");
}

#[test]
fn cyrillic_keeps_the_case_of_each_letter() {
    assert_eq!(convert_latn_to_cyrl("Aynu"), "Айну");
    assert_eq!(convert_latn_to_cyrl("AYNU"), "АЙНУ");
    assert_eq!(convert_cyrl_to_latn("Айну"), "Aynu");
    assert_eq!(convert_cyrl_to_latn("Яйрайкэ"), "YAyrayke");
}

#[test]
fn y_and_a_vowel_make_one_cyrillic_letter() {
    assert_eq!(convert_latn_to_cyrl("yu ya yo ye"), "ю я ё е");
    assert_eq!(convert_latn_to_cyrl("Ya"), "Я");
    assert_eq!(convert_latn_to_cyrl("yA"), "йА");
    assert_eq!(convert_cyrl_to_latn("юяёе"), "yuyayoye");
}

#[test]
fn short_i_before_a_vowel_is_kept_apart() {
    assert_eq!(convert_cyrl_to_latn("йу"), "y’u");
    assert_eq!(convert_cyrl_to_latn("йа"), "y’a");
    assert_eq!(convert_cyrl_to_latn("йо"), "y’o");
    assert_eq!(convert_cyrl_to_latn("йэ"), "y’e");
    assert_eq!(convert_cyrl_to_latn("Йа"), "Y’A");
}

#[test]
fn apostrophes_in_cyrillic() {
    assert_eq!(convert_latn_to_cyrl("a'a"), "аъа");
    assert_eq!(convert_latn_to_cyrl("a’a"), "аа");
    assert_eq!(convert_cyrl_to_latn("аъа"), "a'a");
}

#[test]
fn soft_sign_apostrophe_and_space_are_dropped_from_cyrillic() {
    assert_eq!(convert_cyrl_to_latn("аь"), "a");
    assert_eq!(convert_cyrl_to_latn("а’а"), "aa");
    assert_eq!(convert_cyrl_to_latn("айну итак"), "aynuitak");
}

#[test]
fn letters_outside_the_tables_pass_through() {
    assert_eq!(convert_latn_to_cyrl("b1!"), "b1!");
    assert_eq!(convert_cyrl_to_latn("b1!"), "b1!");
    assert_eq!(convert_cyrl_to_latn("ж"), "ж");
}

#[test]
fn unicode_case_mappings_decide_for_other_characters() {
    assert_eq!(convert_latn_to_cyrl("\u{212A}"), "К");
    assert_eq!(convert_latn_to_cyrl("\u{0130}"), "И");
}

#[test]
fn latin_to_cyrillic_and_back_is_the_word() {
    for word in ["aynu", "itak", "yayrayke", "iyairaykere", "AYNU", "Itak", "yA", "YE"] {
        assert_eq!(convert_cyrl_to_latn(&convert_latn_to_cyrl(word)), word);
    }
    assert_eq!(convert_cyrl_to_latn(&convert_latn_to_cyrl("Ya")), "YA");
}

#[test]
fn cyrillic_of_a_text_cut_in_two() {
    for (a, b) in [("ay", "nu"), ("a", "ynu"), ("aynu", ""), ("", "aynu"), ("y", "Anu")] {
        let whole = format!("{}{}", a, b);
        assert_eq!(
            convert_latn_to_cyrl(&whole),
            format!("{}{}", convert_latn_to_cyrl(a), convert_latn_to_cyrl(b))
        );
    }
    for (a, b) in [("ай", "ну"), ("а", "йну"), ("й", "Ану")] {
        let whole = format!("{}{}", a, b);
        assert_eq!(
            convert_cyrl_to_latn(&whole),
            format!("{}{}", convert_cyrl_to_latn(a), convert_cyrl_to_latn(b))
        );
    }
    assert_eq!(convert_latn_to_cyrl("ya"), "я");
    assert_eq!(format!("{}{}", convert_latn_to_cyrl("y"), convert_latn_to_cyrl("a")), "йа");
}

#[test]
fn bridges_go_by_way_of_latin() {
    assert_eq!(convert_cyrl_to_kana("айну"), "アイヌ");
    assert_eq!(convert_kana_to_cyrl("アイヌ"), "аину");
    assert_eq!(convert_kana_to_cyrl("イタㇰ"), "итак");
}
