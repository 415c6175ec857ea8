use jp_utils::hiragana::{to_romaji, Consonant, Syllable, SyllableSplit, Vowel};

#[test]
pub fn test_split() {
    assert_eq!(Syllable::from_char('a').get_splitted(), None);
    assert_eq!(Syllable::from_char('a').is_valid(), false);
    assert_eq!(Syllable::from_char('ん').is_valid(), true);
    assert_eq!(Syllable::from_char('こ').is_valid(), true);
    assert_eq!(Syllable::from_char('お').is_valid(), true);

    assert_eq!(
        Syllable::from_char('ん').to_romaji_char().unwrap(),
        "n".to_string()
    );

    assert_eq!(
        Syllable::from_char('そ')
            .to_dakuten()
            .to_romaji_char()
            .unwrap(),
        "zo".to_string()
    );

    assert_eq!(
        Syllable::from_char('ぞ').to_romaji_char().unwrap(),
        "zo".to_string()
    );

    assert_eq!(
        Syllable::from_char('か').to_romaji_char().unwrap(),
        "ka".to_string()
    );

    assert_eq!(
        Syllable::from_char('あ')
            .get_splitted()
            .unwrap()
            .in_romaji(),
        (None, Some('a'))
    );

    assert_eq!(
        Syllable::from_char('ん')
            .get_splitted()
            .unwrap()
            .in_romaji(),
        (Some('n'), None)
    );

    assert_eq!(
        Syllable::from_char('ず')
            .get_splitted()
            .unwrap()
            .in_romaji(),
        (Some('z'), Some('u'))
    );

    assert_eq!(
        Syllable::from_char('か')
            .get_splitted()
            .unwrap()
            .in_romaji(),
        (Some('k'), Some('a'))
    );

    assert_eq!(
        Syllable::from_char('づ')
            .get_splitted()
            .unwrap()
            .in_romaji(),
        (Some('d'), Some('u'))
    );

    assert_eq!(
        Syllable::from_char('じ')
            .get_splitted()
            .unwrap()
            .in_romaji(),
        (Some('z'), Some('i'))
    );

    assert_eq!(
        Syllable::from_char('ち')
            .get_splitted()
            .unwrap()
            .in_romaji(),
        (Some('t'), Some('i'))
    );

    assert_eq!(
        Syllable::from_char('る')
            .get_splitted()
            .unwrap()
            .in_romaji(),
        (Some('r'), Some('u'))
    );
}

#[test]
fn romaji_of_words() {
    assert_eq!(to_romaji("かな"), Some("kana".to_string()));
    assert_eq!(to_romaji("おんがく"), Some("ongaku".to_string()));
    assert_eq!(to_romaji(""), Some(String::new()));
    assert_eq!(to_romaji("かaな"), None);
    assert_eq!(to_romaji("カナ"), None);
}

#[test]
fn letters_and_conversions() {
    assert_eq!(Vowel::from_romaji('o'), Vowel::O);
    assert_eq!(Vowel::U.to_romaji(), 'u');
    assert_eq!(Consonant::Vowels.to_romaji(), None);
    assert_eq!(Consonant::NSpecial.to_romaji(), Some('n'));
    assert_eq!(Consonant::W.to_romaji(), Some('w'));
    let split = Syllable::from('を').get_splitted().unwrap();
    assert_eq!(split, SyllableSplit { consonant: Some(Consonant::W), vowel: Some(Vowel::O) });
    assert_eq!(split.consonant(), Some(Consonant::W));
    assert_eq!(split.vowel(), Some(Vowel::O));
    assert_eq!(split.to_romaji_char(), "wo");
    assert_eq!(char::from(Syllable::from_char('ょ')), 'ょ');
    assert_eq!(Syllable::from_char('ょ').get_splitted().unwrap().in_romaji(), (Some('y'), Some('o')));
    assert_eq!(Syllable::from_char('な').to_dakuten().get_char(), 'な');
    assert_eq!(Syllable::from_char('ふ').to_dakuten().get_char(), 'ぶ');
}
