//! The tables of the Katakana converters: what each syllable, coda and kana
//! is written as in the other orthography.
use vstd::prelude::*;

verus! {

/// The kana of a syllable that is a bare vowel.
pub open spec fn vowel_kana(v: char) -> Option<&'static str> {
    match v {
        'a' => Some("ア"),
        'i' => Some("イ"),
        'u' => Some("ウ"),
        'e' => Some("エ"),
        'o' => Some("オ"),
        _ => None,
    }
}

/// Reads [`vowel_kana`].
pub fn lookup_vowel_kana(v: char) -> (r: Option<&'static str>)
    ensures
        r == vowel_kana(v),
{
    match v {
        'a' => Some("ア"),
        'i' => Some("イ"),
        'u' => Some("ウ"),
        'e' => Some("エ"),
        'o' => Some("オ"),
        _ => None,
    }
}

/// The kana of a syllable of two letters: an onset, which may be the
/// glottal stop, and a vowel; or a doubled `n` or `t`.
pub open spec fn pair_kana(c: char, v: char) -> Option<&'static str> {
    match (c, v) {
        ('\'', 'a') => Some("ア"),
        ('\'', 'i') => Some("イ"),
        ('\'', 'u') => Some("ウ"),
        ('\'', 'e') => Some("エ"),
        ('\'', 'o') => Some("オ"),
        ('\u{2019}', 'a') => Some("ア"),
        ('\u{2019}', 'i') => Some("イ"),
        ('\u{2019}', 'u') => Some("ウ"),
        ('\u{2019}', 'e') => Some("エ"),
        ('\u{2019}', 'o') => Some("オ"),
        ('k', 'a') => Some("カ"),
        ('k', 'i') => Some("キ"),
        ('k', 'u') => Some("ク"),
        ('k', 'e') => Some("ケ"),
        ('k', 'o') => Some("コ"),
        ('s', 'a') => Some("サ"),
        ('s', 'i') => Some("シ"),
        ('s', 'u') => Some("ス"),
        ('s', 'e') => Some("セ"),
        ('s', 'o') => Some("ソ"),
        ('t', 'a') => Some("タ"),
        ('t', 'u') => Some("ト\u{309A}"),
        ('t', 'e') => Some("テ"),
        ('t', 'o') => Some("ト"),
        ('c', 'a') => Some("チャ"),
        ('c', 'i') => Some("チ"),
        ('c', 'u') => Some("チュ"),
        ('c', 'e') => Some("チェ"),
        ('c', 'o') => Some("チョ"),
        ('n', 'a') => Some("ナ"),
        ('n', 'i') => Some("ニ"),
        ('n', 'u') => Some("ヌ"),
        ('n', 'e') => Some("ネ"),
        ('n', 'o') => Some("ノ"),
        ('h', 'a') => Some("ハ"),
        ('h', 'i') => Some("ヒ"),
        ('h', 'u') => Some("フ"),
        ('h', 'e') => Some("ヘ"),
        ('h', 'o') => Some("ホ"),
        ('p', 'a') => Some("パ"),
        ('p', 'i') => Some("ピ"),
        ('p', 'u') => Some("プ"),
        ('p', 'e') => Some("ペ"),
        ('p', 'o') => Some("ポ"),
        ('m', 'a') => Some("マ"),
        ('m', 'i') => Some("ミ"),
        ('m', 'u') => Some("ム"),
        ('m', 'e') => Some("メ"),
        ('m', 'o') => Some("モ"),
        ('y', 'a') => Some("ヤ"),
        ('y', 'i') => Some("イ"),
        ('y', 'u') => Some("ユ"),
        ('y', 'e') => Some("イェ"),
        ('y', 'o') => Some("ヨ"),
        ('r', 'a') => Some("ラ"),
        ('r', 'i') => Some("リ"),
        ('r', 'u') => Some("ル"),
        ('r', 'e') => Some("レ"),
        ('r', 'o') => Some("ロ"),
        ('w', 'a') => Some("ワ"),
        ('w', 'i') => Some("ヰ"),
        ('w', 'e') => Some("ヱ"),
        ('w', 'o') => Some("ヲ"),
        ('n', 'n') => Some("ン"),
        ('t', 't') => Some("ッ"),
        _ => None,
    }
}

/// Reads [`pair_kana`].
pub fn lookup_pair_kana(c: char, v: char) -> (r: Option<&'static str>)
    ensures
        r == pair_kana(c, v),
{
    match (c, v) {
        ('\'', 'a') => Some("ア"),
        ('\'', 'i') => Some("イ"),
        ('\'', 'u') => Some("ウ"),
        ('\'', 'e') => Some("エ"),
        ('\'', 'o') => Some("オ"),
        ('\u{2019}', 'a') => Some("ア"),
        ('\u{2019}', 'i') => Some("イ"),
        ('\u{2019}', 'u') => Some("ウ"),
        ('\u{2019}', 'e') => Some("エ"),
        ('\u{2019}', 'o') => Some("オ"),
        ('k', 'a') => Some("カ"),
        ('k', 'i') => Some("キ"),
        ('k', 'u') => Some("ク"),
        ('k', 'e') => Some("ケ"),
        ('k', 'o') => Some("コ"),
        ('s', 'a') => Some("サ"),
        ('s', 'i') => Some("シ"),
        ('s', 'u') => Some("ス"),
        ('s', 'e') => Some("セ"),
        ('s', 'o') => Some("ソ"),
        ('t', 'a') => Some("タ"),
        ('t', 'u') => Some("ト\u{309A}"),
        ('t', 'e') => Some("テ"),
        ('t', 'o') => Some("ト"),
        ('c', 'a') => Some("チャ"),
        ('c', 'i') => Some("チ"),
        ('c', 'u') => Some("チュ"),
        ('c', 'e') => Some("チェ"),
        ('c', 'o') => Some("チョ"),
        ('n', 'a') => Some("ナ"),
        ('n', 'i') => Some("ニ"),
        ('n', 'u') => Some("ヌ"),
        ('n', 'e') => Some("ネ"),
        ('n', 'o') => Some("ノ"),
        ('h', 'a') => Some("ハ"),
        ('h', 'i') => Some("ヒ"),
        ('h', 'u') => Some("フ"),
        ('h', 'e') => Some("ヘ"),
        ('h', 'o') => Some("ホ"),
        ('p', 'a') => Some("パ"),
        ('p', 'i') => Some("ピ"),
        ('p', 'u') => Some("プ"),
        ('p', 'e') => Some("ペ"),
        ('p', 'o') => Some("ポ"),
        ('m', 'a') => Some("マ"),
        ('m', 'i') => Some("ミ"),
        ('m', 'u') => Some("ム"),
        ('m', 'e') => Some("メ"),
        ('m', 'o') => Some("モ"),
        ('y', 'a') => Some("ヤ"),
        ('y', 'i') => Some("イ"),
        ('y', 'u') => Some("ユ"),
        ('y', 'e') => Some("イェ"),
        ('y', 'o') => Some("ヨ"),
        ('r', 'a') => Some("ラ"),
        ('r', 'i') => Some("リ"),
        ('r', 'u') => Some("ル"),
        ('r', 'e') => Some("レ"),
        ('r', 'o') => Some("ロ"),
        ('w', 'a') => Some("ワ"),
        ('w', 'i') => Some("ヰ"),
        ('w', 'e') => Some("ヱ"),
        ('w', 'o') => Some("ヲ"),
        ('n', 'n') => Some("ン"),
        ('t', 't') => Some("ッ"),
        _ => None,
    }
}

/// The small kana of a coda that is written the same wherever it stands.
pub open spec fn plain_coda_kana(c: char) -> Option<&'static str> {
    match c {
        'w' => Some("ゥ"),
        'y' => Some("ィ"),
        'm' => Some("ㇺ"),
        'n' => Some("ㇴ"),
        's' => Some("ㇱ"),
        'p' => Some("ㇷ\u{309A}"),
        't' => Some("ッ"),
        'T' => Some("ㇳ"),
        'k' => Some("ㇰ"),
        _ => None,
    }
}

/// Reads [`plain_coda_kana`].
pub fn lookup_plain_coda_kana(c: char) -> (r: Option<&'static str>)
    ensures
        r == plain_coda_kana(c),
{
    match c {
        'w' => Some("ゥ"),
        'y' => Some("ィ"),
        'm' => Some("ㇺ"),
        'n' => Some("ㇴ"),
        's' => Some("ㇱ"),
        'p' => Some("ㇷ\u{309A}"),
        't' => Some("ッ"),
        'T' => Some("ㇳ"),
        'k' => Some("ㇰ"),
        _ => None,
    }
}

/// The small kana of the coda `r`, coloured by the vowel `v`; `u` where
/// there is none.
pub open spec fn r_coda_kana(v: Option<char>) -> &'static str {
    match v {
        Some('a') => "ㇻ",
        Some('i') => "ㇼ",
        Some('u') => "ㇽ",
        Some('e') => "ㇾ",
        Some('o') => "ㇿ",
        _ => "ㇽ",
    }
}

/// Reads [`r_coda_kana`].
pub fn lookup_r_coda_kana(v: Option<char>) -> (r: &'static str)
    ensures
        r == r_coda_kana(v),
{
    match v {
        Some('a') => "ㇻ",
        Some('i') => "ㇼ",
        Some('u') => "ㇽ",
        Some('e') => "ㇾ",
        Some('o') => "ㇿ",
        _ => "ㇽ",
    }
}

/// The small kana of the codas `h` and `x`, coloured by the vowel `v`; `u`
/// where there is none.
pub open spec fn h_coda_kana(v: Option<char>) -> &'static str {
    match v {
        Some('a') => "ㇵ",
        Some('i') => "ㇶ",
        Some('u') => "ㇷ",
        Some('e') => "ㇸ",
        Some('o') => "ㇹ",
        _ => "ㇷ",
    }
}

/// Reads [`h_coda_kana`].
pub fn lookup_h_coda_kana(v: Option<char>) -> (r: &'static str)
    ensures
        r == h_coda_kana(v),
{
    match v {
        Some('a') => "ㇵ",
        Some('i') => "ㇶ",
        Some('u') => "ㇷ",
        Some('e') => "ㇸ",
        Some('o') => "ㇹ",
        _ => "ㇷ",
    }
}

/// What a kana that must not stand in the finished text is replaced by: the
/// small `i` and `u` and the small `n` by their full forms, the old kana for
/// `we`, `wi` and `wo` by two kana each, and the glottal stop by nothing.
pub open spec fn polished_kana(c: char) -> Option<&'static str> {
    match c {
        'ィ' => Some("イ"),
        'ゥ' => Some("ウ"),
        'ㇴ' => Some("ン"),
        'ヱ' => Some("ウェ"),
        'ヰ' => Some("ウィ"),
        'ヲ' => Some("ウォ"),
        '\u{2019}' => Some(""),
        _ => None,
    }
}

/// Reads [`polished_kana`].
pub fn lookup_polished_kana(c: char) -> (r: Option<&'static str>)
    ensures
        r == polished_kana(c),
{
    match c {
        'ィ' => Some("イ"),
        'ゥ' => Some("ウ"),
        'ㇴ' => Some("ン"),
        'ヱ' => Some("ウェ"),
        'ヰ' => Some("ウィ"),
        'ヲ' => Some("ウォ"),
        '\u{2019}' => Some(""),
        _ => None,
    }
}

/// The canonical combining form of a spacing or half-width voicing mark;
/// any other character is itself.
pub open spec fn canonical_mark(c: char) -> char {
    match c {
        '\u{309C}' => '\u{309A}',
        '\u{FF9F}' => '\u{309A}',
        '\u{309B}' => '\u{3099}',
        '\u{FF9E}' => '\u{3099}',
        _ => c,
    }
}

/// Reads [`canonical_mark`].
pub fn lookup_canonical_mark(c: char) -> (r: char)
    ensures
        r == canonical_mark(c),
{
    match c {
        '\u{309C}' => '\u{309A}',
        '\u{FF9F}' => '\u{309A}',
        '\u{309B}' => '\u{3099}',
        '\u{FF9E}' => '\u{3099}',
        _ => c,
    }
}

/// The Latin letters of two kana that are read together.
pub open spec fn digraph_latn(first: char, second: char) -> Option<&'static str> {
    match (first, second) {
        ('イ', 'ェ') => Some("ye"),
        ('ウ', 'ェ') => Some("we"),
        ('ウ', 'ィ') => Some("wi"),
        ('ウ', 'ォ') => Some("wo"),
        ('ト', 'ゥ') => Some("tu"),
        ('ト', '\u{309A}') => Some("tu"),
        ('ㇷ', '\u{309A}') => Some("p"),
        ('ﾌ', '\u{FF9F}') => Some("p"),
        ('チ', 'ャ') => Some("ca"),
        ('チ', 'ュ') => Some("cu"),
        ('チ', 'ェ') => Some("ce"),
        ('チ', 'ョ') => Some("co"),
        ('オ', 'イ') => Some("oi"),
        ('エ', 'イ') => Some("ei"),
        ('ウ', 'イ') => Some("ui"),
        _ => None,
    }
}

/// Reads [`digraph_latn`].
pub fn lookup_digraph_latn(first: char, second: char) -> (r: Option<&'static str>)
    ensures
        r == digraph_latn(first, second),
{
    match (first, second) {
        ('イ', 'ェ') => Some("ye"),
        ('ウ', 'ェ') => Some("we"),
        ('ウ', 'ィ') => Some("wi"),
        ('ウ', 'ォ') => Some("wo"),
        ('ト', 'ゥ') => Some("tu"),
        ('ト', '\u{309A}') => Some("tu"),
        ('ㇷ', '\u{309A}') => Some("p"),
        ('ﾌ', '\u{FF9F}') => Some("p"),
        ('チ', 'ャ') => Some("ca"),
        ('チ', 'ュ') => Some("cu"),
        ('チ', 'ェ') => Some("ce"),
        ('チ', 'ョ') => Some("co"),
        ('オ', 'イ') => Some("oi"),
        ('エ', 'イ') => Some("ei"),
        ('ウ', 'イ') => Some("ui"),
        _ => None,
    }
}

/// The Latin letters of a single kana: full-width and half-width Katakana,
/// the small kana of the codas, and Hiragana.
pub open spec fn kana_latn(c: char) -> Option<&'static str> {
    match c {
        'ア' => Some("a"),
        'イ' => Some("i"),
        'ウ' => Some("u"),
        'エ' => Some("e"),
        'オ' => Some("o"),
        'カ' => Some("ka"),
        'キ' => Some("ki"),
        'ク' => Some("ku"),
        'ケ' => Some("ke"),
        'コ' => Some("ko"),
        'サ' => Some("sa"),
        'シ' => Some("si"),
        'ス' => Some("su"),
        'セ' => Some("se"),
        'ソ' => Some("so"),
        'タ' => Some("ta"),
        'チ' => Some("ci"),
        'テ' => Some("te"),
        'ト' => Some("to"),
        'ナ' => Some("na"),
        'ニ' => Some("ni"),
        'ヌ' => Some("nu"),
        'ネ' => Some("ne"),
        'ノ' => Some("no"),
        'ハ' => Some("ha"),
        'ヒ' => Some("hi"),
        'フ' => Some("hu"),
        'ヘ' => Some("he"),
        'ホ' => Some("ho"),
        'パ' => Some("pa"),
        'ピ' => Some("pi"),
        'プ' => Some("pu"),
        'ペ' => Some("pe"),
        'ポ' => Some("po"),
        'マ' => Some("ma"),
        'ミ' => Some("mi"),
        'ム' => Some("mu"),
        'メ' => Some("me"),
        'モ' => Some("mo"),
        'ヤ' => Some("ya"),
        'ユ' => Some("yu"),
        'ヨ' => Some("yo"),
        'ラ' => Some("ra"),
        'リ' => Some("ri"),
        'ル' => Some("ru"),
        'レ' => Some("re"),
        'ロ' => Some("ro"),
        'ワ' => Some("wa"),
        'ヲ' => Some("wo"),
        'ン' => Some("n"),
        'ﾑ' => Some("m"),
        'ﾇ' => Some("n"),
        'ｳ' => Some("w"),
        'ｲ' => Some("y"),
        'ﾌ' => Some("h"),
        'ｼ' => Some("s"),
        'ﾂ' => Some("t"),
        'ﾄ' => Some("t"),
        'ｸ' => Some("k"),
        'ﾊ' => Some("x"),
        'ﾋ' => Some("x"),
        'ﾍ' => Some("x"),
        'ﾎ' => Some("x"),
        'ｱ' => Some("a"),
        'ｴ' => Some("e"),
        'ｵ' => Some("o"),
        'ﾗ' => Some("r"),
        'ﾘ' => Some("r"),
        'ﾙ' => Some("r"),
        'ﾚ' => Some("r"),
        'ﾛ' => Some("r"),
        'ﾝ' => Some("n"),
        'ㇺ' => Some("m"),
        'ㇴ' => Some("n"),
        'ゥ' => Some("w"),
        'ィ' => Some("y"),
        'ㇷ' => Some("h"),
        'ㇱ' => Some("s"),
        'ッ' => Some("t"),
        'ㇳ' => Some("t"),
        'ㇰ' => Some("k"),
        'ㇵ' => Some("x"),
        'ㇶ' => Some("x"),
        'ㇸ' => Some("x"),
        'ㇹ' => Some("x"),
        'ァ' => Some("a"),
        'ェ' => Some("e"),
        'ォ' => Some("o"),
        'ㇻ' => Some("r"),
        'ㇼ' => Some("r"),
        'ㇽ' => Some("r"),
        'ㇾ' => Some("r"),
        'ㇿ' => Some("r"),
        'あ' => Some("a"),
        'い' => Some("i"),
        'う' => Some("u"),
        'え' => Some("e"),
        'お' => Some("o"),
        'か' => Some("ka"),
        'き' => Some("ki"),
        'く' => Some("ku"),
        'け' => Some("ke"),
        'こ' => Some("ko"),
        'さ' => Some("sa"),
        'し' => Some("si"),
        'す' => Some("su"),
        'せ' => Some("se"),
        'そ' => Some("so"),
        'た' => Some("ta"),
        'ち' => Some("ci"),
        'つ' => Some("tu"),
        'て' => Some("te"),
        'と' => Some("to"),
        'な' => Some("na"),
        'に' => Some("ni"),
        'ぬ' => Some("nu"),
        'ね' => Some("ne"),
        'の' => Some("no"),
        'は' => Some("ha"),
        'ひ' => Some("hi"),
        'ふ' => Some("hu"),
        'へ' => Some("he"),
        'ほ' => Some("ho"),
        'ぱ' => Some("pa"),
        'ぴ' => Some("pi"),
        'ぷ' => Some("pu"),
        'ぺ' => Some("pe"),
        'ぽ' => Some("po"),
        'ま' => Some("ma"),
        'み' => Some("mi"),
        'む' => Some("mu"),
        'め' => Some("me"),
        'も' => Some("mo"),
        'や' => Some("ya"),
        'ゆ' => Some("yu"),
        'よ' => Some("yo"),
        'ら' => Some("ra"),
        'り' => Some("ri"),
        'る' => Some("ru"),
        'れ' => Some("re"),
        'ろ' => Some("ro"),
        'わ' => Some("wa"),
        'ゐ' => Some("wi"),
        'ゑ' => Some("we"),
        'を' => Some("wo"),
        'ん' => Some("n"),
        'っ' => Some("t"),
        _ => None,
    }
}

/// Reads [`kana_latn`].
pub fn lookup_kana_latn(c: char) -> (r: Option<&'static str>)
    ensures
        r == kana_latn(c),
{
    match c {
        'ア' => Some("a"),
        'イ' => Some("i"),
        'ウ' => Some("u"),
        'エ' => Some("e"),
        'オ' => Some("o"),
        'カ' => Some("ka"),
        'キ' => Some("ki"),
        'ク' => Some("ku"),
        'ケ' => Some("ke"),
        'コ' => Some("ko"),
        'サ' => Some("sa"),
        'シ' => Some("si"),
        'ス' => Some("su"),
        'セ' => Some("se"),
        'ソ' => Some("so"),
        'タ' => Some("ta"),
        'チ' => Some("ci"),
        'テ' => Some("te"),
        'ト' => Some("to"),
        'ナ' => Some("na"),
        'ニ' => Some("ni"),
        'ヌ' => Some("nu"),
        'ネ' => Some("ne"),
        'ノ' => Some("no"),
        'ハ' => Some("ha"),
        'ヒ' => Some("hi"),
        'フ' => Some("hu"),
        'ヘ' => Some("he"),
        'ホ' => Some("ho"),
        'パ' => Some("pa"),
        'ピ' => Some("pi"),
        'プ' => Some("pu"),
        'ペ' => Some("pe"),
        'ポ' => Some("po"),
        'マ' => Some("ma"),
        'ミ' => Some("mi"),
        'ム' => Some("mu"),
        'メ' => Some("me"),
        'モ' => Some("mo"),
        'ヤ' => Some("ya"),
        'ユ' => Some("yu"),
        'ヨ' => Some("yo"),
        'ラ' => Some("ra"),
        'リ' => Some("ri"),
        'ル' => Some("ru"),
        'レ' => Some("re"),
        'ロ' => Some("ro"),
        'ワ' => Some("wa"),
        'ヲ' => Some("wo"),
        'ン' => Some("n"),
        'ﾑ' => Some("m"),
        'ﾇ' => Some("n"),
        'ｳ' => Some("w"),
        'ｲ' => Some("y"),
        'ﾌ' => Some("h"),
        'ｼ' => Some("s"),
        'ﾂ' => Some("t"),
        'ﾄ' => Some("t"),
        'ｸ' => Some("k"),
        'ﾊ' => Some("x"),
        'ﾋ' => Some("x"),
        'ﾍ' => Some("x"),
        'ﾎ' => Some("x"),
        'ｱ' => Some("a"),
        'ｴ' => Some("e"),
        'ｵ' => Some("o"),
        'ﾗ' => Some("r"),
        'ﾘ' => Some("r"),
        'ﾙ' => Some("r"),
        'ﾚ' => Some("r"),
        'ﾛ' => Some("r"),
        'ﾝ' => Some("n"),
        'ㇺ' => Some("m"),
        'ㇴ' => Some("n"),
        'ゥ' => Some("w"),
        'ィ' => Some("y"),
        'ㇷ' => Some("h"),
        'ㇱ' => Some("s"),
        'ッ' => Some("t"),
        'ㇳ' => Some("t"),
        'ㇰ' => Some("k"),
        'ㇵ' => Some("x"),
        'ㇶ' => Some("x"),
        'ㇸ' => Some("x"),
        'ㇹ' => Some("x"),
        'ァ' => Some("a"),
        'ェ' => Some("e"),
        'ォ' => Some("o"),
        'ㇻ' => Some("r"),
        'ㇼ' => Some("r"),
        'ㇽ' => Some("r"),
        'ㇾ' => Some("r"),
        'ㇿ' => Some("r"),
        'あ' => Some("a"),
        'い' => Some("i"),
        'う' => Some("u"),
        'え' => Some("e"),
        'お' => Some("o"),
        'か' => Some("ka"),
        'き' => Some("ki"),
        'く' => Some("ku"),
        'け' => Some("ke"),
        'こ' => Some("ko"),
        'さ' => Some("sa"),
        'し' => Some("si"),
        'す' => Some("su"),
        'せ' => Some("se"),
        'そ' => Some("so"),
        'た' => Some("ta"),
        'ち' => Some("ci"),
        'つ' => Some("tu"),
        'て' => Some("te"),
        'と' => Some("to"),
        'な' => Some("na"),
        'に' => Some("ni"),
        'ぬ' => Some("nu"),
        'ね' => Some("ne"),
        'の' => Some("no"),
        'は' => Some("ha"),
        'ひ' => Some("hi"),
        'ふ' => Some("hu"),
        'へ' => Some("he"),
        'ほ' => Some("ho"),
        'ぱ' => Some("pa"),
        'ぴ' => Some("pi"),
        'ぷ' => Some("pu"),
        'ぺ' => Some("pe"),
        'ぽ' => Some("po"),
        'ま' => Some("ma"),
        'み' => Some("mi"),
        'む' => Some("mu"),
        'め' => Some("me"),
        'も' => Some("mo"),
        'や' => Some("ya"),
        'ゆ' => Some("yu"),
        'よ' => Some("yo"),
        'ら' => Some("ra"),
        'り' => Some("ri"),
        'る' => Some("ru"),
        'れ' => Some("re"),
        'ろ' => Some("ro"),
        'わ' => Some("wa"),
        'ゐ' => Some("wi"),
        'ゑ' => Some("we"),
        'を' => Some("wo"),
        'ん' => Some("n"),
        'っ' => Some("t"),
        _ => None,
    }
}

/// What a punctuation mark of Japanese text is written as in Latin text.
pub open spec fn respaced(c: char) -> Option<&'static str> {
    match c {
        '。' => Some(". "),
        '「' => Some(" \""),
        '」' => Some("\" "),
        '『' => Some(" '"),
        '』' => Some("' "),
        '！' => Some("! "),
        '？' => Some("? "),
        '、' => Some(", "),
        '\u{3000}' => Some(" "),
        _ => None,
    }
}

/// Reads [`respaced`].
pub fn lookup_respaced(c: char) -> (r: Option<&'static str>)
    ensures
        r == respaced(c),
{
    match c {
        '。' => Some(". "),
        '「' => Some(" \""),
        '」' => Some("\" "),
        '『' => Some(" '"),
        '』' => Some("' "),
        '！' => Some("! "),
        '？' => Some("? "),
        '、' => Some(", "),
        '\u{3000}' => Some(" "),
        _ => None,
    }
}

} // verus!
