use jp_utils::furi::segment::encode::FuriEncoder;
use jp_utils::furi::segment::kanji::{AsKanjiRef, AsKanjiSegment, Kanji, KanjiRef};
use jp_utils::furi::segment::{AsSegment, AsSegmentRef, Segment, SegmentRef};
use jp_utils::furi::Furigana;
use jp_utils::reading::{Reading, ReadingRef};

#[test]
fn test_encode() {
    assert_eq!(SegmentRef::new_kanji("私", &["わたし"]).encode(), "[私|わたし]");
    assert_eq!(SegmentRef::new_kana("は").encode(), "は");
    assert_eq!(SegmentRef::new_kana("ハ").encode(), "ハ");
    assert_eq!(SegmentRef::new_kanji("音楽", &["おん", "がく"]).encode(), "[音楽|おん|がく]");
    assert_eq!(
        SegmentRef::new_kanji("大学生", &["だい", "がくせい"]).encode(),
        "[大学生|だいがくせい]"
    );
    assert_eq!(
        Segment::new_kanji("音楽".into(), &["おん".to_string(), "がく".to_string()]).encode(),
        "[音楽|おん|がく]"
    );
}

#[test]
fn test_furi_enc_new() {
    for furi in [
        "",
        "おんがくが[好|す]",
        "[音楽|おん|がく]が[好|す]き",
        "[楽|たの]しい",
        "[音楽おん|がく]が[好す",
        "[2|][x|えっくす]+[1|]の[定義|てい|ぎ][域|いき]が[A|えい]=[[1|],[2|]]のとき",
    ] {
        let mut buf = String::new();
        let mut encoder = FuriEncoder::new(&mut buf);
        for seg in Furigana(furi).as_segments_ref() {
            encoder.write_seg(seg);
        }
        assert_eq!(buf, furi);
    }
}

#[test]
fn encoder_writes_at_the_end() {
    let mut buf = String::from("前");
    let mut enc = FuriEncoder::new(&mut buf);
    enc.write_kana("かな");
    enc.write_block("音楽", "おんがく");
    enc.write_reading(("おん", "音"));
    enc.write_reading("は");
    enc.write_kanji(&KanjiRef::new("大学", &["だい", "がく"]));
    assert_eq!(buf, "前かな[音楽|おんがく][音|おん]は[大学|だい|がく]");
}

#[test]
fn kanji_segments() {
    let k = KanjiRef::new("音楽", &["おん", "がく"]);
    assert_eq!(*k.literals(), "音楽");
    assert_eq!(k.readings(), &["おん", "がく"]);
    assert_eq!(k.full_reading(), "おんがく");
    assert!(k.is_detailed());
    assert!(k.is_valid());
    assert!(!k.is_empty());
    assert!(!k.is_single());
    assert_eq!(k.lit_count(), 2);
    assert_eq!(k.reading_count(), 2);
    assert_eq!(k.to_reading(), ReadingRef::new_with_kanji("おんがく", "音楽"));
    let owned: Kanji = k.to_owned();
    assert_eq!(owned.as_ref(), k);
    assert_eq!((&owned).as_kanji_ref(), k);
    assert_eq!(k.as_kanji_ref(), k);
    assert_eq!(owned.literals(), "音楽");
    let odd = Kanji::new("大学生".into(), &["だい".to_string(), "がくせい".to_string()]);
    assert!(!odd.is_detailed());
    assert!(!odd.is_valid());
    assert_eq!(odd.full_reading(), "だいがくせい");
    assert!(Kanji::new("好".into(), &["す".to_string()]).is_single());
    assert!(Kanji::new("".into(), &["す".to_string()]).is_empty());
}

#[test]
fn segments_as_readings() {
    let seg = SegmentRef::new_kanji("音楽", &["おん", "がく"]);
    assert!(seg.is_kanji() && !seg.is_kana());
    assert_eq!(seg.as_kana(), None);
    assert_eq!(seg.get_kana_reading(), "おんがく");
    assert_eq!(*seg.main_reading(), "音楽");
    assert_eq!(seg.to_reading(), Reading::new_with_kanji("おんがく".into(), "音楽".into()));
    assert!(seg.eq_reading(("おんがく", "音楽")));
    assert!(!seg.eq_reading("おんがく"));
    assert!(!seg.eq_reading(("おんがく", "音")));
    let kana = Segment::new_kana("かな".into());
    assert!(kana.is_kana() && !kana.is_kanji());
    assert!(kana.as_kanji().is_none());
    assert_eq!(kana.as_kana().unwrap(), "かな");
    assert_eq!(kana.get_kana_reading(), "かな");
    assert_eq!(kana.main_reading(), "かな");
    assert!(kana.eq_reading("かな"));
    assert!(!kana.eq_reading(("かな", "仮名")));
    assert!(!kana.is_empty());
    assert!(Segment::new_kana(String::new()).is_empty());
    assert_eq!(kana.as_ref(), SegmentRef::new_kana("かな"));
    assert_eq!((&kana).as_seg_ref(), SegmentRef::new_kana("かな"));
    assert_eq!(seg.clone().convert_to_kana(), SegmentRef::new_kana("音楽"));
    assert_eq!(seg.to_owned(), seg);
    assert_eq!(seg.clone(), seg);
    assert_eq!(seg.to_owned().clone(), seg);
    assert_eq!(seg.clone().encode(), "[音楽|おん|がく]");
    assert_ne!(seg, SegmentRef::new_kanji("音楽", &["おん"]));
}
