use jp_utils::furi::segment::kanji::{Kanji, KanjiRef};
use jp_utils::furi::segment::{AsSegment, ReadingPartRef, Segment, SegmentRef};
use jp_utils::furi::seq::FuriSequence;
use jp_utils::furi::Furigana;
use jp_utils::reading::{Reading, ReadingRef};

fn encoded(part: impl Into<Segment>) -> String {
    part.into().encode()
}

#[test]
fn test_encode_from_parts() {
    assert_eq!(encoded(("私", vec!["わたし"])), "[私|わたし]");
    assert_eq!(encoded("は"), "は");
    assert_eq!(encoded("ハ"), "ハ");
    assert_eq!(encoded(("音楽", vec!["おん", "がく"])), "[音楽|おん|がく]");
    assert_eq!(encoded(("大学生", vec!["だい", "がくせい"])), "[大学生|だいがくせい]");
    assert_eq!(encoded(("かな", Vec::<&str>::new())), "かな");
    assert_eq!(encoded(("音", "おん")), "[音|おん]");
    assert_eq!(encoded(("音", Some("おん"))), "[音|おん]");
    assert_eq!(encoded(("おん", None::<&str>)), "おん");
    assert_eq!(encoded("かな".to_string()), "かな");
    assert_eq!(encoded(("音".to_string(), "おん".to_string())), "[音|おん]");
    assert_eq!(encoded(("音".to_string(), Some("おん".to_string()))), "[音|おん]");
    assert_eq!(encoded(("おん".to_string(), None::<String>)), "おん");
}

#[test]
fn borrowed_segments_from_parts() {
    let owned = Segment::from(("音楽", vec!["おん", "がく"]));
    assert_eq!(SegmentRef::from(&owned), SegmentRef::new_kanji("音楽", &["おん", "がく"]));
    assert_eq!(SegmentRef::from("かな"), SegmentRef::new_kana("かな"));
    assert_eq!(SegmentRef::from(("音", "おん")), SegmentRef::new_kanji("音", &["おん"]));
    assert_eq!(SegmentRef::from(("音", Some("おん"))), SegmentRef::new_kanji("音", &["おん"]));
    assert_eq!(SegmentRef::from(("おん", None)), SegmentRef::new_kana("おん"));
    assert_eq!(
        SegmentRef::from(("音楽", vec!["おん", "がく"])),
        SegmentRef::new_kanji("音楽", &["おん", "がく"])
    );
}

#[test]
fn sequences_and_text() {
    let seq = FuriSequence::from(vec![
        SegmentRef::new_kanji("音楽", &["おん", "がく"]),
        SegmentRef::new_kana("が"),
    ]);
    assert_eq!(seq.len(), 2);
    let owned = seq.to_owned();
    assert_eq!(Reading::from(&owned), Reading::new_with_kanji("おんがくが".into(), "音楽が".into()));
    let furi = Furigana::from(seq);
    assert_eq!(furi, "[音楽|おん|がく]が");
    assert_eq!(Reading::from(&furi), Reading::new_with_kanji("おんがくが".into(), "音楽が".into()));
    let mut more = FuriSequence::from_str("あ").unwrap();
    more.extend(owned.into_parts());
    assert_eq!(more.encode(), "あ[音楽|おん|がく]が");
}

#[test]
fn readings_in_the_notation() {
    assert_eq!(ReadingRef::new_with_kanji("おんがく", "音楽").encode(), "[音楽|おんがく]");
    assert_eq!(ReadingRef::new("おんがく").encode(), "おんがく");
    let mut furi = Furigana("あ".to_string());
    furi.extend(&[SegmentRef::new_kanji("音", &["おん"]), SegmentRef::new_kana("が")]);
    assert_eq!(furi, "あ[音|おん]が");
}

#[test]
fn older_names() {
    let seg = Segment::from(("音楽", vec!["おん", "がく"]));
    assert_eq!(seg.as_ref_part(), ReadingPartRef::new_kanji("音楽", &["おん", "がく"]));
    assert_eq!(seg.kana_reading(), "おんがく");
    assert_eq!(seg.readings().unwrap(), ["おん", "がく"]);
    assert_eq!(seg.detailed_readings(), Some(true));
    assert_eq!(Segment::from(("音楽", "おんがく")).detailed_readings(), Some(false));
    let kana = Segment::from("かな");
    assert_eq!(kana.kana_reading(), "かな");
    assert!(kana.readings().is_none());
    assert_eq!(kana.detailed_readings(), None);
    let k = KanjiRef::new("音楽", &["おん", "がく"]);
    let o = Kanji::new("音楽".into(), &["おん".to_string(), "がく".to_string()]);
    assert!(k == o && o == k && o == o.clone() && k == k.clone());
    assert!(k != Kanji::new("音楽".into(), &["おん".to_string()]));
    assert!(KanjiRef::new("音", &["おん", "がく"]) != o);
}
