use jp_utils::alphabet::{Alphabet, Kana};
use jp_utils::tokenize::{by_alphabet, words_in, words_with_alphabet};
use jp_utils::trait_ext::CharClass;
use jp_utils::JapaneseExt;

#[test]
fn is_kanji() {
    assert_eq!("音".is_kanji(), true);
    assert_eq!("々".is_kanji(), true);
    assert_eq!("あ".is_kanji(), false);
    assert_eq!("、".is_kanji(), false);
}

#[test]
fn is_symbol() {
    assert_eq!("、".is_symbol(), true);
    assert_eq!("音".is_symbol(), false);
    assert_eq!("々".is_symbol(), false);
    assert_eq!("あ".is_symbol(), false);
}

#[test]
fn test_alphabet_eq() {
    assert_eq!("音楽".get_alphabet(), Alphabet::Kanji);
    assert_eq!("、".get_alphabet(), Alphabet::Symbol);
    assert_eq!("お".get_alphabet(), Alphabet::hiragana());
    assert_eq!("お".get_alphabet(), Alphabet::kana());
    assert!("お".is_in_alphabet(Alphabet::kana()));
    assert!(!"お".is_in_alphabet(Alphabet::katakana()));
}

#[test]
fn test_small_kana() {
    assert!(!"よ".is_small_kana());
    for s in ["ょ", "ゃ", "ゅ", "ョ", "ャ", "ュ"] {
        assert!(s.is_small_kana());
    }
    assert!('ょ'.is_small_hiragana() && !'ょ'.is_small_katakana());
    assert!('ョ'.is_small_katakana() && 'ョ'.is_small_kana());
}

#[test]
fn alphabets() {
    assert!(Alphabet::hiragana().is_hiragana() && Alphabet::hiragana().is_kana());
    assert!(Alphabet::katakana().is_katakana() && Alphabet::katakana().is_japanese());
    assert!(!Alphabet::kana().is_kana());
    assert!(Alphabet::Kanji.is_kanji() && Alphabet::Kanji.is_japanese());
    assert!(Alphabet::Symbol.is_symbol() && !Alphabet::Symbol.is_japanese());
    assert!(Alphabet::Romaji.is_romaji() && Alphabet::Other.is_other());
    assert!(Kana::Both.is_both() && Kana::Hiragana.is_hiragana() && Kana::Katakana.is_katakana());
    assert_eq!(Kana::Both, Kana::Hiragana);
    assert_ne!(Kana::Katakana, Kana::Hiragana);
    assert_ne!(Alphabet::Kanji, Alphabet::Symbol);
    assert!(Alphabet::hiragana().eq_both_kana(&Alphabet::katakana()));
    assert!(!Alphabet::hiragana().eq_both_kana(&Alphabet::Kanji));
    assert!(Alphabet::Kanji.eq_both_kana(&Alphabet::Kanji));
    assert!(!Alphabet::Kanji.eq_both_kana(&Alphabet::hiragana()));
}

#[test]
fn characters() {
    assert_eq!('あ'.get_alphabet(), Alphabet::hiragana());
    assert_eq!('ア'.get_alphabet(), Alphabet::katakana());
    assert_eq!('音'.get_alphabet(), Alphabet::Kanji);
    assert_eq!('Ａ'.get_alphabet(), Alphabet::Kanji);
    assert_eq!('、'.get_alphabet(), Alphabet::Symbol);
    assert_eq!('a'.get_alphabet(), Alphabet::Other);
    assert!('あ'.is_kana() && 'あ'.has_kana() && 'あ'.is_hiragana() && !'あ'.is_katakana());
    assert!('ア'.is_katakana() && 'ア'.has_katakana());
    assert!('音'.is_kanji() && '音'.has_kanji() && '音'.is_japanese() && '音'.has_japanese());
    assert_eq!('音'.kanji_count(), 1);
    assert_eq!('あ'.kanji_count(), 0);
    assert!('、'.is_symbol() && '、'.has_symbol());
    assert!('Ａ'.is_roman_letter() && 'Ａ'.has_roman_letter());
    assert!('の'.is_particle() && !'あ'.is_particle());
    assert!('音'.starts_with_alphabet(Alphabet::Kanji));
    assert!('音'.is_in_alphabet(Alphabet::Kanji));
    assert_eq!('音'.real_len(), 1);
    assert!(!'a'.is_japanese());
    assert!(CharClass::Kana.contains('ア') && !CharClass::Kana.contains('a'));
}

#[test]
fn strings() {
    assert!("かな".is_kana() && "かな".is_hiragana() && !"かな".is_katakana());
    assert!("カナ".is_katakana() && "かナ".has_katakana() && !"かナ".is_katakana());
    assert!("音楽が".has_kana() && !"音楽が".is_kana());
    assert!("音楽が".has_kanji() && !"音楽が".is_kanji());
    assert_eq!("音楽が好き".kanji_count(), 3);
    assert_eq!("音楽が好き".real_len(), 5);
    assert_eq!("".real_len(), 0);
    assert!("音楽が、".is_japanese() && !"音楽a".is_japanese() && "音楽a".has_japanese());
    assert!(!"abc".has_japanese());
    assert!("あ、".has_symbol() && !"あ".has_symbol());
    assert!("ＡＢ".is_roman_letter() && "aＢ".has_roman_letter() && !"ab".has_roman_letter());
    assert!("をの".is_particle() && !"をあ".is_particle());
    assert!("ゃゅ".is_small_hiragana() && "ャュ".is_small_katakana() && !"ゃュ".is_small_kana());
    assert!("音あ".starts_with_alphabet(Alphabet::Kanji));
    assert!(!"あ音".starts_with_alphabet(Alphabet::Kanji));
    assert!(!"".starts_with_alphabet(Alphabet::Kanji));
    assert_eq!("音あ".get_alphabet(), Alphabet::Other);
    assert_eq!("カナ".get_alphabet(), Alphabet::katakana());
    assert_eq!("".get_alphabet(), Alphabet::Symbol);
}

#[test]
fn test_by_alphabet() {
    assert_eq!(
        by_alphabet("これは漢字で書いたテキストです", true),
        ["これは", "漢字", "で", "書", "いたテキストです"]
    );
    assert_eq!(
        by_alphabet("このテキストはかなだけでかいた", true),
        ["このテキストはかなだけでかいた"]
    );
    assert_eq!(
        by_alphabet("朝に道を聞かば、夕べに死すとも可なり", true),
        ["朝", "に", "道", "を", "聞", "かば", "、", "夕", "べに", "死", "すとも", "可", "なり"]
    );
    assert_eq!(by_alphabet("このテキスト", false), ["この", "テキスト"]);
    assert_eq!(by_alphabet("", true), Vec::<&str>::new());
}

#[test]
fn test_words_with_alphabet() {
    let s = "朝に道を聞かば、夕べに死すとも可なり";
    assert_eq!(words_with_alphabet(s, Alphabet::Kanji), ["朝", "道", "聞", "夕", "死", "可"]);
    assert_eq!(
        words_with_alphabet(s, Alphabet::kana()),
        ["に", "を", "かば", "べに", "すとも", "なり"]
    );
    assert_eq!(words_in(s, Alphabet::Symbol), ["、"]);
    assert_eq!(words_in("", Alphabet::Kanji), Vec::<&str>::new());
    // The ideographic space is a symbol, and white space at the ends is left aside.
    assert_eq!(words_in("　朝　", Alphabet::Symbol), ["　", "　"]);
    assert_eq!(words_with_alphabet("　朝　", Alphabet::Symbol), Vec::<&str>::new());
    assert_eq!(words_with_alphabet(" 朝に ", Alphabet::Kanji), ["朝"]);
}
