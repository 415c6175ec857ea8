use jp_utils::furi::segment::{AsSegment, SegmentRef};
use jp_utils::furi::Furigana;
use jp_utils::reading::ReadingRef;

#[test]
fn test_furigana() {
    let furi = Furigana::new_unchecked("[音楽|おん|がく]が[大好|だい|す]きです");
    assert_eq!(furi.kanji().to_string(), "音楽が大好きです");
    assert_eq!(furi.kana().to_string(), "おんがくがだいすきです");
    assert_eq!(furi.kana_str(), furi.kana().to_string());
    assert_eq!(furi.kanji_str(), furi.kanji().to_string());
    assert_eq!(
        furi.to_reading(),
        ReadingRef::new_with_kanji("おんがくがだいすきです", "音楽が大好きです")
    );

    assert!(furi.has_kana());
    assert!(furi.has_kanji());
    assert!(furi.contains_kanji('音'));
    assert!(!furi.contains_kanji('弱'));
    assert_eq!(furi.segment_count(), 4);
    assert_eq!(
        furi.segment_at(std::hint::black_box(2)),
        furi.segments().to_vec().into_iter().nth(2)
    );
    assert_eq!(furi.segment_at(1), Some(SegmentRef::new_kana("が")));
    assert_eq!(
        furi.as_segments(),
        vec![
            SegmentRef::new_kanji_mult("音楽", &["おん", "がく"]),
            SegmentRef::new_kana("が"),
            SegmentRef::new_kanji_mult("大好", &["だい", "す"]),
            SegmentRef::new_kana("きです")
        ]
    );
    assert_eq!(furi.as_segments(), furi.as_segments_ref());
    assert_eq!(furi.as_ref().raw(), furi.raw());

    let mut furi2 = furi.as_owned();
    furi2.push_segment(SegmentRef::new_kana("よ"));
    assert_eq!(
        furi2.as_segments(),
        vec![
            SegmentRef::new_kanji_mult("音楽", &["おん", "がく"]),
            SegmentRef::new_kana("が"),
            SegmentRef::new_kanji_mult("大好", &["だい", "す"]),
            SegmentRef::new_kana("きですよ")
        ]
    );
    furi2.push_str("ね").unwrap();
    assert_eq!(
        furi2.as_segments(),
        vec![
            SegmentRef::new_kanji_mult("音楽", &["おん", "がく"]),
            SegmentRef::new_kana("が"),
            SegmentRef::new_kanji_mult("大好", &["だい", "す"]),
            SegmentRef::new_kana("きですよね")
        ]
    );

    assert_eq!(
        furi2.segment_range(1..3),
        vec![
            SegmentRef::new_kana("が"),
            SegmentRef::new_kanji_mult("大好", &["だい", "す"]),
        ]
    );

    assert_eq!(
        furi.kanji_segments(),
        furi.segments()
            .to_vec()
            .into_iter()
            .filter(|i| i.is_kanji())
            .collect::<Vec<_>>()
    );
    assert_eq!(
        furi.kana_segments(),
        furi.segments()
            .to_vec()
            .into_iter()
            .filter(|i| i.is_kana())
            .collect::<Vec<_>>()
    );
}

#[test]
fn test_furigana2() {
    let furi = Furigana::new("[2|][x|えっくす]+[1|]の[定義|てい|ぎ][域|いき]が[A|えい]=[[1|],[2|]]のとき、[f|えふ]の[値域|ち|いき]は[f|えふ]([A|えい]) = [[3|],[5|]]となる。").unwrap();
    assert_eq!(
        furi.kanji().to_string(),
        "2x+1の定義域がA=[1,2]のとき、fの値域はf(A) = [3,5]となる。"
    );
}

#[test]
fn test_furigana3() {
    let furi = Furigana("[2|][x|えっくす]+[1|]の[定義|てい|ぎ][域|いき]が[A|えい]=[[1|],[2|]]のとき、[f|えふ]の[値域|ち|いき]は[f|えふ]([A|えい]) = [[3|],[5|]]となる。".to_string());
    let furi = furi.as_deref();
    assert_eq!(
        furi.kanji().to_string(),
        "2x+1の定義域がA=[1,2]のとき、fの値域はf(A) = [3,5]となる。"
    );
}

#[test]
fn test_replace_seg() {
    let new = Furigana::new_unchecked("[音楽|おん|がく]が[大好|だい|す]きです")
        .replace_seg(("おんがく", "音楽"), "セックス");
    assert_eq!(new, Furigana("セックスが[大好|だい|す]きです"))
}

#[test]
fn test_is_empty() {
    assert!(Furigana("").is_empty())
}

#[test]
fn scenario_sentence() {
    let furi = Furigana("[音楽|おん|がく]が[大好|だい|す]きです");
    assert_eq!(furi.kana_str(), "おんがくがだいすきです");
    assert_eq!(furi.kanji_str(), "音楽が大好きです");
    assert!(furi.has_kanji());
    assert_eq!(furi.segment_count(), 4);
    assert_eq!(furi.to_seq().len(), 4);
    assert!(furi.to_seq().has_kanji());
}

#[test]
fn scenario_empty_input() {
    let furi = Furigana("");
    let seq = furi.to_seq();
    assert!(seq.is_empty());
    assert_eq!(seq.len(), 0);
    assert_eq!(furi.kana_str(), "");
    assert_eq!(furi.kanji_str(), "");
    assert!(!furi.has_kana());
    assert!(!furi.has_kanji());
    assert!(!furi.to_reading().has_kanji());
    assert!(Furigana::new("").is_ok());
}

#[test]
fn segment_range_is_clamped() {
    let furi = Furigana("[音楽|おん|がく]が[大好|だい|す]きです");
    assert_eq!(furi.segment_range(3..10), vec![SegmentRef::new_kana("きです")]);
    assert_eq!(furi.segment_range(5..10), Vec::<SegmentRef>::new());
    assert_eq!(furi.segment_range(2..1), Vec::<SegmentRef>::new());
    assert_eq!(furi.segment_at(4), None);
}

#[test]
fn push_str_refuses_malformed_text() {
    let mut furi = Furigana("あ".to_string());
    assert!(furi.push_str("[音楽]").is_err());
    assert_eq!(furi.raw(), "あ");
    furi.push_str_unchecked("[音楽]");
    assert_eq!(furi.raw(), "あ[音楽]");
    assert_eq!(furi.into_inner(), "あ[音楽]".to_string());
}

#[test]
fn kana_without_fallback() {
    let furi = Furigana("[Wi|ワイ][-|][Fi|ファイ] って");
    assert_eq!(furi.kana_str(), "ワイ-ファイ って");
    assert_eq!(furi.kana().no_kanji_fallback().parse(), "ワイファイ って");
    assert_eq!(furi.kana().char_count(), 9);
    assert_eq!(furi.kana().len(), "ワイ-ファイ って".len());
    assert!(!furi.kana().is_empty());
    assert!(Furigana("[|]").kana().no_kanji_fallback().is_empty());
}

#[test]
fn replace_seg_keeps_other_segments() {
    let furi = Furigana("[音|おん]が[音|おと]");
    let out = furi.replace_seg(("おん", "音"), ("がく", "楽"));
    assert_eq!(out, "[楽|がく]が[音|おと]");
    let kana = furi.replace_seg("が", "は");
    assert_eq!(kana, "[音|おん]は[音|おと]".to_string());
}
