use jp_utils::reading::traits::AsReadingRef;
use jp_utils::reading::{Reading, ReadingOwned, ReadingRef};

#[test]
fn readings() {
    let r = Reading::new_with_kanji("おんがく".into(), "音楽".into());
    assert!(r.has_kanji());
    assert_eq!(r.kana(), "おんがく");
    assert_eq!(r.kanji(), Some("音楽"));
    assert_eq!(r.kanji_or_kana(), "音楽");
    assert_eq!(r, ReadingRef::new_with_kanji("おんがく", "音楽"));
    assert_eq!(r, Reading::new_raw("おんがく".into(), Some("音楽".into())));
    assert_ne!(r, Reading::new("おんがく".into()));
    let k = Reading::new("かな".into());
    assert!(!k.has_kanji());
    assert_eq!(k.kanji(), None);
    assert_eq!(k.kanji_or_kana(), "かな");
    assert_eq!(k.as_reading_ref(), ReadingRef::new("かな"));
    assert_eq!(k, Reading::new_raw("かな".into(), None));
}

#[test]
fn borrowed_and_owned_readings() {
    let r = ReadingRef::new_raw("おん", Some("音"));
    assert!(r.has_kanji());
    assert_eq!(r.kana(), "おん");
    assert_eq!(r.kanji(), Some("音"));
    assert_eq!(r.as_reading_ref(), r);
    assert!(!ReadingRef::new("おん").has_kanji());
    let o = ReadingOwned::new_with_kanji("おん".into(), "音".into());
    assert!(o.has_kanji());
    assert_eq!(o.kana(), "おん");
    assert_eq!(o.kanji(), Some(&"音".to_string()));
    assert_eq!(o.as_reading_ref(), r);
    assert_eq!(ReadingOwned::new("おん".into()), ReadingOwned::new_raw("おん".into(), None));
    let kana = "おん".to_string();
    let kanji = "音".to_string();
    assert_eq!((&kana, &kanji).as_reading_ref(), r);
    assert_eq!((&kana, Some(&kanji)).as_reading_ref(), r);
    assert_eq!((&kana, &Some(kanji.clone())).as_reading_ref(), r);
    assert_eq!(("おん", Some("音")).as_reading_ref(), r);
    assert_eq!(("おん", "音").as_reading_ref(), r);
    assert_eq!("おん".as_reading_ref(), ReadingRef::new("おん"));
    assert_eq!((&kana).as_reading_ref(), ReadingRef::new("おん"));
    assert_eq!((&kana, &Some(&kanji)).as_reading_ref(), r);
    assert_eq!((&kana, &None::<&String>).as_reading_ref(), ReadingRef::new("おん"));
}
