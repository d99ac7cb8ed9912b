//! The converters between the three orthographies.
pub mod cyrillic;
pub mod cyrl_table;
pub mod kana_table;
pub mod katakana;
pub mod latin;
