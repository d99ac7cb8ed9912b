//! The tables of the Cyrillic converters.
use vstd::prelude::*;

verus! {

/// The Cyrillic letter of a small Latin letter; the apostrophe is written
/// as the hard sign.
pub open spec fn latn_cyrl(c: char) -> Option<char> {
    match c {
        'a' => Some('а'),
        'i' => Some('и'),
        'u' => Some('у'),
        'e' => Some('э'),
        'o' => Some('о'),
        'k' => Some('к'),
        's' => Some('с'),
        't' => Some('т'),
        'c' => Some('ц'),
        'h' => Some('х'),
        'm' => Some('м'),
        'n' => Some('н'),
        'p' => Some('п'),
        'r' => Some('р'),
        'w' => Some('в'),
        'y' => Some('й'),
        '\'' => Some('ъ'),
        _ => None,
    }
}

/// Reads [`latn_cyrl`].
pub fn lookup_latn_cyrl(c: char) -> (r: Option<char>)
    ensures
        r == latn_cyrl(c),
{
    match c {
        'a' => Some('а'),
        'i' => Some('и'),
        'u' => Some('у'),
        'e' => Some('э'),
        'o' => Some('о'),
        'k' => Some('к'),
        's' => Some('с'),
        't' => Some('т'),
        'c' => Some('ц'),
        'h' => Some('х'),
        'm' => Some('м'),
        'n' => Some('н'),
        'p' => Some('п'),
        'r' => Some('р'),
        'w' => Some('в'),
        'y' => Some('й'),
        '\'' => Some('ъ'),
        _ => None,
    }
}

/// The Cyrillic vowel that `y` and the vowel `v` are written as together.
pub open spec fn iotated(v: char) -> Option<char> {
    match v {
        'u' => Some('ю'),
        'a' => Some('я'),
        'o' => Some('ё'),
        'e' => Some('е'),
        _ => None,
    }
}

/// Reads [`iotated`].
pub fn lookup_iotated(v: char) -> (r: Option<char>)
    ensures
        r == iotated(v),
{
    match v {
        'u' => Some('ю'),
        'a' => Some('я'),
        'o' => Some('ё'),
        'e' => Some('е'),
        _ => None,
    }
}

/// The capital of a small Cyrillic letter of the orthography; any other
/// character is itself.
pub open spec fn cyrl_capital(c: char) -> char {
    match c {
        'а' => 'А',
        'и' => 'И',
        'у' => 'У',
        'э' => 'Э',
        'о' => 'О',
        'к' => 'К',
        'с' => 'С',
        'т' => 'Т',
        'ц' => 'Ц',
        'х' => 'Х',
        'м' => 'М',
        'н' => 'Н',
        'п' => 'П',
        'р' => 'Р',
        'в' => 'В',
        'й' => 'Й',
        'ъ' => 'Ъ',
        'ю' => 'Ю',
        'я' => 'Я',
        'ё' => 'Ё',
        'е' => 'Е',
        _ => c,
    }
}

/// Reads [`cyrl_capital`].
pub fn lookup_cyrl_capital(c: char) -> (r: char)
    ensures
        r == cyrl_capital(c),
{
    match c {
        'а' => 'А',
        'и' => 'И',
        'у' => 'У',
        'э' => 'Э',
        'о' => 'О',
        'к' => 'К',
        'с' => 'С',
        'т' => 'Т',
        'ц' => 'Ц',
        'х' => 'Х',
        'м' => 'М',
        'н' => 'Н',
        'п' => 'П',
        'р' => 'Р',
        'в' => 'В',
        'й' => 'Й',
        'ъ' => 'Ъ',
        'ю' => 'Ю',
        'я' => 'Я',
        'ё' => 'Ё',
        'е' => 'Е',
        _ => c,
    }
}

/// For a Cyrillic letter of the orthography, its small form and whether it
/// is a capital.
pub open spec fn cyrl_case(c: char) -> Option<(char, bool)> {
    match c {
        'а' => Some(('а', false)),
        'и' => Some(('и', false)),
        'у' => Some(('у', false)),
        'э' => Some(('э', false)),
        'о' => Some(('о', false)),
        'к' => Some(('к', false)),
        'с' => Some(('с', false)),
        'т' => Some(('т', false)),
        'ц' => Some(('ц', false)),
        'х' => Some(('х', false)),
        'м' => Some(('м', false)),
        'н' => Some(('н', false)),
        'п' => Some(('п', false)),
        'р' => Some(('р', false)),
        'в' => Some(('в', false)),
        'й' => Some(('й', false)),
        'ъ' => Some(('ъ', false)),
        'ю' => Some(('ю', false)),
        'я' => Some(('я', false)),
        'ё' => Some(('ё', false)),
        'е' => Some(('е', false)),
        'ь' => Some(('ь', false)),
        'А' => Some(('а', true)),
        'И' => Some(('и', true)),
        'У' => Some(('у', true)),
        'Э' => Some(('э', true)),
        'О' => Some(('о', true)),
        'К' => Some(('к', true)),
        'С' => Some(('с', true)),
        'Т' => Some(('т', true)),
        'Ц' => Some(('ц', true)),
        'Х' => Some(('х', true)),
        'М' => Some(('м', true)),
        'Н' => Some(('н', true)),
        'П' => Some(('п', true)),
        'Р' => Some(('р', true)),
        'В' => Some(('в', true)),
        'Й' => Some(('й', true)),
        'Ъ' => Some(('ъ', true)),
        'Ю' => Some(('ю', true)),
        'Я' => Some(('я', true)),
        'Ё' => Some(('ё', true)),
        'Е' => Some(('е', true)),
        'Ь' => Some(('ь', true)),
        _ => None,
    }
}

/// Reads [`cyrl_case`].
pub fn lookup_cyrl_case(c: char) -> (r: Option<(char, bool)>)
    ensures
        r == cyrl_case(c),
{
    match c {
        'а' => Some(('а', false)),
        'и' => Some(('и', false)),
        'у' => Some(('у', false)),
        'э' => Some(('э', false)),
        'о' => Some(('о', false)),
        'к' => Some(('к', false)),
        'с' => Some(('с', false)),
        'т' => Some(('т', false)),
        'ц' => Some(('ц', false)),
        'х' => Some(('х', false)),
        'м' => Some(('м', false)),
        'н' => Some(('н', false)),
        'п' => Some(('п', false)),
        'р' => Some(('р', false)),
        'в' => Some(('в', false)),
        'й' => Some(('й', false)),
        'ъ' => Some(('ъ', false)),
        'ю' => Some(('ю', false)),
        'я' => Some(('я', false)),
        'ё' => Some(('ё', false)),
        'е' => Some(('е', false)),
        'ь' => Some(('ь', false)),
        'А' => Some(('а', true)),
        'И' => Some(('и', true)),
        'У' => Some(('у', true)),
        'Э' => Some(('э', true)),
        'О' => Some(('о', true)),
        'К' => Some(('к', true)),
        'С' => Some(('с', true)),
        'Т' => Some(('т', true)),
        'Ц' => Some(('ц', true)),
        'Х' => Some(('х', true)),
        'М' => Some(('м', true)),
        'Н' => Some(('н', true)),
        'П' => Some(('п', true)),
        'Р' => Some(('р', true)),
        'В' => Some(('в', true)),
        'Й' => Some(('й', true)),
        'Ъ' => Some(('ъ', true)),
        'Ю' => Some(('ю', true)),
        'Я' => Some(('я', true)),
        'Ё' => Some(('ё', true)),
        'Е' => Some(('е', true)),
        'Ь' => Some(('ь', true)),
        _ => None,
    }
}

/// The Latin letters of a small Cyrillic letter: one, or `y` and a vowel.
pub open spec fn cyrl_latn(c: char) -> Option<(char, Option<char>)> {
    match c {
        'ю' => Some(('y', Some('u'))),
        'я' => Some(('y', Some('a'))),
        'ё' => Some(('y', Some('o'))),
        'е' => Some(('y', Some('e'))),
        'а' => Some(('a', None)),
        'и' => Some(('i', None)),
        'у' => Some(('u', None)),
        'э' => Some(('e', None)),
        'о' => Some(('o', None)),
        'к' => Some(('k', None)),
        'с' => Some(('s', None)),
        'т' => Some(('t', None)),
        'ц' => Some(('c', None)),
        'х' => Some(('h', None)),
        'м' => Some(('m', None)),
        'н' => Some(('n', None)),
        'п' => Some(('p', None)),
        'р' => Some(('r', None)),
        'в' => Some(('w', None)),
        'й' => Some(('y', None)),
        'ъ' => Some(('\'', None)),
        _ => None,
    }
}

/// Reads [`cyrl_latn`].
pub fn lookup_cyrl_latn(c: char) -> (r: Option<(char, Option<char>)>)
    ensures
        r == cyrl_latn(c),
{
    match c {
        'ю' => Some(('y', Some('u'))),
        'я' => Some(('y', Some('a'))),
        'ё' => Some(('y', Some('o'))),
        'е' => Some(('y', Some('e'))),
        'а' => Some(('a', None)),
        'и' => Some(('i', None)),
        'у' => Some(('u', None)),
        'э' => Some(('e', None)),
        'о' => Some(('o', None)),
        'к' => Some(('k', None)),
        'с' => Some(('s', None)),
        'т' => Some(('t', None)),
        'ц' => Some(('c', None)),
        'х' => Some(('h', None)),
        'м' => Some(('m', None)),
        'н' => Some(('n', None)),
        'п' => Some(('p', None)),
        'р' => Some(('r', None)),
        'в' => Some(('w', None)),
        'й' => Some(('y', None)),
        'ъ' => Some(('\'', None)),
        _ => None,
    }
}

/// The Latin vowel of a Cyrillic vowel that is not iotated.
pub open spec fn hard_vowel(c: char) -> Option<char> {
    match c {
        'у' => Some('u'),
        'а' => Some('a'),
        'о' => Some('o'),
        'э' => Some('e'),
        _ => None,
    }
}

/// Reads [`hard_vowel`].
pub fn lookup_hard_vowel(c: char) -> (r: Option<char>)
    ensures
        r == hard_vowel(c),
{
    match c {
        'у' => Some('u'),
        'а' => Some('a'),
        'о' => Some('o'),
        'э' => Some('e'),
        _ => None,
    }
}

} // verus!
