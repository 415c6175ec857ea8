//! Utilities for Japanese text.
//!
//! The heart of the crate is [`furi`]: the bracketed furigana notation, as
//! in `[音楽|おん|がく]が[好|す]き`, with strict and lenient parsing, the
//! projections to kana and to kanji, comparison of sequences, and the
//! normaliser that merges and repairs blocks. What these do is stated over
//! the model in [`furi::model`], and [`furi::laws`] proves what holds of
//! them together.
//!
//! Around it stand [`reading`] (a kana text with an optional kanji text),
//! [`alphabet`] and [`trait_ext`] (the script of characters and strings),
//! [`tokenize`] (cutting text by script) and [`hiragana`] (syllables and
//! their romaji). [`text`] holds what all of them share.
pub mod alphabet;
pub mod furi;
pub mod hiragana;
pub mod reading;
pub mod text;
pub mod tokenize;
pub mod trait_ext;

pub use trait_ext::JapaneseExt;
