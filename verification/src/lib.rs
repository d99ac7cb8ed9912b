//! Transliteration of Ainu text between its Latin, Cyrillic and Katakana
//! orthographies, with script detection.
use vstd::prelude::*;

pub mod conversion;
pub mod detection;
pub mod syllable;
pub mod text;
pub mod unicode;
pub mod util;

pub use conversion::cyrillic::{convert_cyrl_to_latn, convert_latn_to_cyrl};
pub use conversion::katakana::{convert_kana_to_latn, convert_latn_to_kana};
pub use detection::detect;
pub use syllable::separate;

use conversion::cyrillic::{cyrl_to_latn, latn_to_cyrl};
use conversion::katakana::{kana_of_run, kana_to_latn, latn_of_run, latn_to_kana};
use detection::script_of;
use syllable::syllables;
use util::lemma_converted_nothing;

verus! {

/// The writing system that a piece of text is written in.
#[derive(Debug, PartialEq, Eq, Structural, Clone, Copy)]
pub enum Script {
    /// Katakana.
    Kana,
    /// The Latin alphabet.
    Latn,
    /// The Cyrillic alphabet.
    Cyrl,
    /// Letters of more than one of the scripts above.
    Mixed,
    /// No letter of any of the scripts above.
    Unknown,
}

/// Converts Cyrillic Ainu to Katakana, by way of the Latin orthography.
pub fn convert_cyrl_to_kana(cyrl: &str) -> (r: String)
    ensures
        r@ == latn_to_kana(cyrl_to_latn(cyrl@)),
{
    let latn = convert_cyrl_to_latn(cyrl);
    convert_latn_to_kana(latn.as_str())
}

/// Converts Katakana to Cyrillic Ainu, by way of the Latin orthography.
pub fn convert_kana_to_cyrl(kana: &str) -> (r: String)
    ensures
        r@ == latn_to_cyrl(kana_to_latn(kana@)),
{
    let latn = convert_kana_to_latn(kana);
    convert_latn_to_cyrl(latn.as_str())
}

/// The empty text converts to the empty text in every direction, has no
/// syllables and is of no known script.
pub proof fn lemma_empty_text()
    ensures
        latn_to_kana(Seq::empty()) == Seq::<char>::empty(),
        kana_to_latn(Seq::empty()) == Seq::<char>::empty(),
        latn_to_cyrl(Seq::empty()) == Seq::<char>::empty(),
        cyrl_to_latn(Seq::empty()) == Seq::<char>::empty(),
        latn_to_kana(cyrl_to_latn(Seq::empty())) == Seq::<char>::empty(),
        latn_to_cyrl(kana_to_latn(Seq::empty())) == Seq::<char>::empty(),
        syllables(Seq::empty()) == Seq::<Seq<char>>::empty(),
        script_of(Seq::empty()) == Script::Unknown,
{
    lemma_converted_nothing(true, kana_of_run());
    lemma_converted_nothing(false, latn_of_run());
}

} // verus!
