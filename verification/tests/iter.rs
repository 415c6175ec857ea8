use jp_utils::furi::segment::encode::{multi_block, reading, sequence, single_block};
use jp_utils::furi::segment::kanji::KanjiRef;
use jp_utils::furi::segment::{
    AsSegment, AsSegmentMut, FlattenIter, FlattenKanjiIter, LitReadingsIter, ReadingIter, Segment,
    SegmentIter, SegmentRef,
};
use jp_utils::reading::ReadingRef;

fn flattened(p: &str) -> Vec<(String, String)> {
    let part = Segment::from_str(p).unwrap();
    let mut iter = FlattenIter::new(&part);
    let mut out = vec![];
    while let Some(seg) = iter.next() {
        out.push((seg.main_reading().clone(), seg.get_kana_reading()));
    }
    out
}

fn pairs(v: &[(&str, &str)]) -> Vec<(String, String)> {
    v.iter().map(|(a, b)| (a.to_string(), b.to_string())).collect()
}

#[test]
fn test_flatten_kanji_iter() {
    assert_eq!(flattened("[音楽|おん|がく]"), pairs(&[("音", "おん"), ("楽", "がく")]));
    assert_eq!(flattened("[大学|だいがく]"), pairs(&[("大学", "だいがく")]));
    assert_eq!(
        flattened("[四字熟語|よ|じ|じゅく|ご]"),
        pairs(&[("四", "よ"), ("字", "じ"), ("熟", "じゅく"), ("語", "ご")])
    );
}

#[test]
fn test_flatten_kana_iter() {
    assert_eq!(flattened("おんがく"), pairs(&[("おんがく", "おんがく")]));
    assert_eq!(flattened("へんたい"), pairs(&[("へんたい", "へんたい")]));
    let part = SegmentRef::new_kana("おんがく");
    let mut iter = part.as_kana().map(|_| FlattenIter::new(&part)).unwrap();
    assert!(iter.next().unwrap().is_kana());
    assert!(iter.next().is_none());
    assert!(iter.next().is_none());
}

#[test]
fn test_lit_readings_iter() {
    for (s, exp) in [
        ("[音楽|おん|がく]", vec![("音", "おん"), ("楽", "がく")]),
        ("[大学|だい|がく]", vec![("大", "だい"), ("学", "がく")]),
        ("[大学|だいがく]", vec![("大学", "だいがく")]),
    ] {
        let seg = SegmentRef::from_str_checked(s).unwrap();
        assert!(seg.is_kanji());
        let mut iter = LitReadingsIter::new(seg.as_kanji().unwrap());
        for (e_lit, e_read) in exp {
            let (got_lit, got_read) = iter.next().unwrap();
            assert_eq!(e_lit, got_lit);
            assert_eq!(e_read, got_read);
        }
        assert_eq!(iter.next(), None);
    }
}

#[test]
fn test_reading_iter() {
    for (part, expected) in [
        (
            "[音楽|おん|がく]",
            vec![ReadingRef::new_with_kanji("おん", "音"), ReadingRef::new_with_kanji("がく", "楽")],
        ),
        ("[音楽|おんがく]", vec![ReadingRef::new_with_kanji("おんがく", "音楽")]),
        ("かな", vec![ReadingRef::new("かな")]),
        ("[音楽|お|ん|がく]", vec![ReadingRef::new_with_kanji("おんがく", "音楽")]),
    ] {
        let part = SegmentRef::from_str_unchecked(part);
        let mut iter = SegmentIter::new(&part);
        for expect in expected {
            assert_eq!(iter.next().unwrap(), expect);
        }
        assert!(iter.next().is_none());
    }
}

#[test]
fn reading_pairs() {
    let part = SegmentRef::from_str_unchecked("[音楽|おん|がく]");
    let mut iter = ReadingIter::new(&part);
    assert_eq!(iter.next(), Some(("音".to_string(), Some("おん".to_string()))));
    assert_eq!(iter.next(), Some(("楽".to_string(), Some("がく".to_string()))));
    assert_eq!(iter.next(), None);
    let kana = Segment::new_kana("かな".into());
    let mut iter = ReadingIter::new(&kana);
    assert_eq!(iter.next(), Some(("かな".to_string(), None)));
    assert_eq!(iter.next(), None);
}

#[test]
fn kanji_cursor() {
    let k = KanjiRef::new("音楽", &["おん", "がく"]);
    let mut iter = FlattenKanjiIter::new(&k);
    assert_eq!(iter.next().unwrap(), SegmentRef::new_kanji("音", &["おん"]));
    assert_eq!(iter.next().unwrap(), SegmentRef::new_kanji("楽", &["がく"]));
    assert!(iter.next().is_none());
}

#[test]
fn blocks() {
    assert_eq!(single_block("音楽", "おんがく"), "[音楽|おんがく]");
    assert_eq!(multi_block("音楽", &["おん", "がく"]), "[音楽|おん|がく]");
    assert_eq!(multi_block("音", &["おん".to_string()]), "[音|おん]");
    assert_eq!(multi_block("音", &[] as &[&str]), "[音|]");
    assert_eq!(reading("おんがく", Some("音楽")), "[音楽|おんがく]");
    assert_eq!(reading("おんがく", None::<&str>), "おんがく");
    let parts = [SegmentRef::new_kanji("音楽", &["おん", "がく"]), SegmentRef::new_kana("が")];
    assert_eq!(sequence(&parts), "[音楽|おん|がく]が");
}

#[test]
fn changing_segments() {
    let mut seg = Segment::new_kana("おん".into());
    seg.add_reading("がく".into());
    assert_eq!(seg, SegmentRef::new_kana("おん"));
    seg.set_kana("おと".into());
    assert_eq!(seg, SegmentRef::new_kana("おと"));
    seg.set_kanji("音".into());
    assert_eq!(seg, SegmentRef::new_kanji("音", &["おと"]));
    seg.set_kana("かな".into());
    assert_eq!(seg, SegmentRef::new_kanji("音", &["おと"]));
    seg.add_reading("ね".into());
    assert_eq!(seg, SegmentRef::new_kanji("音", &["おと", "ね"]));
    seg.set_kanji("音色".into());
    assert_eq!(seg.encode(), "[音色|おと|ね]");

    let mut r = SegmentRef::new_kana("おん");
    r.set_kanji("音");
    r.add_reading("がく");
    r.set_kanji("音楽");
    assert_eq!(r, SegmentRef::new_kanji("音楽", &["おん", "がく"]));
    let mut k = SegmentRef::new_kana("か");
    k.set_kana("な");
    assert_eq!(k, SegmentRef::new_kana("な"));
}
