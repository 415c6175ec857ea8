use jp_utils::furi::segment::{AsSegment, Segment, SegmentRef};
use jp_utils::furi::seq::FuriSequence;
use jp_utils::furi::Furigana;
use jp_utils::reading::Reading;

const LONG: &str = "[拝金主義|はい|きん|しゅ|ぎ]は[問題|もん|だい][拝金主義|はい|きん|しゅ|ぎ]は[問題|もん|だい][拝金主義|はい|きん|しゅ|ぎ]は[問題|もん|だい]";

#[test]
fn test_to_kana() {
    let seq = FuriSequence::parse_ref("[音楽|おん|がく]が[好|す]き").unwrap();
    assert_eq!(seq.as_kana(), "おんがくがすき");
    let seq = FuriSequence::parse_ref(LONG).unwrap();
    assert_eq!(
        seq.as_kana(),
        "はいきんしゅぎはもんだいはいきんしゅぎはもんだいはいきんしゅぎはもんだい"
    );
}

#[test]
fn test_to_kanji() {
    let seq = FuriSequence::parse_ref("[音楽|おん|がく]が[好|す]き").unwrap();
    assert_eq!(seq.as_kanji(), "音楽が好き");
    let seq = FuriSequence::parse_ref(LONG).unwrap();
    assert_eq!(seq.as_kanji(), "拝金主義は問題拝金主義は問題拝金主義は問題");
}

#[test]
fn test_iter() {
    let seq = FuriSequence::parse_ref("[音楽|おんがく]が[好|す]き").unwrap();
    let exp = vec![
        SegmentRef::new_kanji("音楽", &["おんがく"]),
        SegmentRef::new_kana("が"),
        SegmentRef::new_kanji("好", &["す"]),
        SegmentRef::new_kana("き"),
    ];
    let mut iter = seq.iter();
    for e in exp.iter() {
        assert_eq!(iter.next().unwrap().as_ref(), e);
    }
    assert!(iter.next().is_none());
    assert_eq!(seq.as_slice(), exp.as_slice());
    assert_eq!(seq.part_at(1), Some(&exp[1]));
    assert_eq!(seq.part_at(4), None);
    assert_eq!(seq.into_parts(), exp);
}

#[test]
fn round_trip() {
    for s in [
        "",
        "かな",
        "[音楽|おん|がく]が[好|す]き",
        "[音楽|おんがく]",
        "[2|]",
        "[大丈||じょう]",
        "=[[1|],[2|]]a]",
        LONG,
    ] {
        let seq = FuriSequence::parse_ref(s).unwrap();
        assert_eq!(seq.encode(), s);
        assert_eq!(seq.to_string(), s);
        assert_eq!(seq.to_owned().encode(), s);
        assert_eq!(FuriSequence::from_str(s).unwrap(), seq.to_owned());
    }
}

#[test]
fn projections_agree_with_the_parsed_sequence() {
    for s in [
        "",
        "かな",
        "[音楽|おん|がく]が[好|す]き",
        "[6|][時|じ]",
        "[音楽]",
        "[音楽||]",
        "[拝金主義|はい|]",
        "が[好す",
        "=[[1|],[2|]]",
    ] {
        let furi = Furigana(s);
        let reading = furi.to_seq().to_reading();
        assert_eq!(furi.kana_str(), reading.kana());
        assert_eq!(furi.kanji_str(), reading.kanji_or_kana());
        assert_eq!(furi.has_kanji(), reading.has_kanji());
        assert_eq!(furi.to_reading(), reading);
        assert_eq!(Reading::from_segments(furi.as_segments().as_slice()), reading);
        assert_eq!(furi.to_seq().kana_reading().to_string(), furi.kana_str());
        assert_eq!(furi.to_seq().kanji_reading().to_string(), furi.kanji_str());
    }
}

#[test]
fn readings_of_a_sequence() {
    let seq = FuriSequence::from_str("[音楽|おん|がく]が[6|]").unwrap();
    assert_eq!(seq.kana_reading().to_string(), "おんがくが6");
    assert_eq!(seq.kana_reading().str_len(), 6);
    assert_eq!(seq.kana_reading().len(), "おんがくが6".len());
    assert_eq!(seq.kanji_reading().to_string(), "音楽が6");
    assert_eq!(seq.kanji_reading().str_len(), 4);
    assert!(!seq.kana_reading().is_empty());
    assert!(FuriSequence::<Segment>::new().kana_reading().is_empty());
    assert!(FuriSequence::<Segment>::default().is_empty());
    assert_eq!(seq.to_reading(), Reading::new_with_kanji("おんがくが6".into(), "音楽が6".into()));
    let kana = FuriSequence::from_str("かな").unwrap();
    assert_eq!(kana.to_reading(), Reading::new("かな".into()));
}

#[test]
fn building_a_sequence() {
    let mut seq = FuriSequence::with_capacity(2);
    assert!(seq.is_empty());
    seq.push_part(Segment::new_kanji("音楽".into(), &["おん".to_string(), "がく".to_string()]));
    seq.push_part(Segment::new_kana("が".into()));
    assert_eq!(seq.len(), 2);
    assert!(seq.has_kanji());
    assert_eq!(seq.encode(), "[音楽|おん|がく]が");
    assert_eq!(seq, FuriSequence::from_str("[音楽|おん|がく]が").unwrap());
    assert!(!FuriSequence::new_with_parts(vec![SegmentRef::new_kana("が")]).has_kanji());
}

#[test]
fn flattening() {
    let seq = FuriSequence::from_str("[音楽|おん|がく]が[大学|だいがく]").unwrap();
    assert_eq!(
        seq.flattened_iter(),
        vec![
            SegmentRef::new_kanji("音", &["おん"]),
            SegmentRef::new_kanji("楽", &["がく"]),
            SegmentRef::new_kana("が"),
            SegmentRef::new_kanji("大学", &["だいがく"]),
        ]
    );
    let odd = Furigana("[音楽|お|ん|がく]").to_seq();
    assert_eq!(odd.flattened_iter(), vec![SegmentRef::new_kanji("音楽", &["おんがく"])]);
    assert!(odd.part_at(0).unwrap().is_kanji());
}
