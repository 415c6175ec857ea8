use jp_utils::furi::compare::FuriComparator;
use jp_utils::furi::segment::{Segment, SegmentRef};
use jp_utils::furi::seq::FuriSequence;

fn eq(a: &str, b: &str, lit_match: bool) -> bool {
    let a = FuriSequence::from_str(a).unwrap();
    let b = FuriSequence::from_str(b).unwrap();
    let forth = FuriComparator::new(lit_match).eq_seq(&a, &b);
    let back = FuriComparator::new(lit_match).eq_seq(&b, &a);
    assert_eq!(forth, back);
    forth
}

#[test]
fn test_eq() {
    assert!(eq("[音楽|おん|がく]", "[音|おん][楽|がく]", true));
    assert!(eq("[音楽|おん|がく]", "[音|おん][楽|がく]", false));
    assert!(eq("[音楽|おん|がく]", "[音楽|おんがく]", false));
}

#[test]
fn test_not_eq() {
    assert!(!eq("[音楽|おん|がく]", "[音楽|おんがく]", true));
}

#[test]
fn literal_mode_ignores_grouping() {
    assert!(eq("[音楽|おん|がく]", "[音|おん][楽|がく]", true));
}

#[test]
fn reading_mode_ignores_segmentation() {
    assert!(eq("[音楽|おんがく]", "[音|おん][楽|がく]", false));
    assert!(!eq("[音楽|おんがく]", "[音|おん][楽|がく]", true));
}

#[test]
fn comparator_is_reflexive() {
    for s in ["", "かな", "[音楽|おん|がく]が[好|す]き", "[音楽|おんがく]"] {
        assert!(eq(s, s, true));
        assert!(eq(s, s, false));
    }
}

#[test]
fn sequences_of_other_length_differ() {
    assert!(!eq("[音|おん]", "[音|おん][楽|がく]", true));
    assert!(!eq("[音|おん]", "[音|おん][楽|がく]", false));
    assert!(!eq("", "[音|おん]", true));
    assert!(!eq("", "あ", false));
    assert!(!eq("あい", "あ", true));
}

#[test]
fn owned_and_borrowed_sequences_compare() {
    let a = FuriSequence::from_str("[音楽|おん|がく]が").unwrap();
    let b = FuriSequence::parse_ref("[音|おん][楽|がく]が").unwrap();
    assert!(FuriComparator::new(true).eq_seq(&a, &b));
    assert!(FuriComparator::new(false).eq_seq(&b, &a));
}

#[test]
fn segments_compare_like_sequences_of_one() {
    let detailed = SegmentRef::new_kanji("音楽", &["おん", "がく"]);
    let collapsed = Segment::from_str("[音楽|おんがく]").unwrap();
    assert!(FuriComparator::new(false).eq(&detailed, &collapsed));
    assert!(!FuriComparator::new(true).eq(&detailed, &collapsed));
    assert!(FuriComparator::new(true).eq(&detailed, &detailed.to_owned()));
    let kana = SegmentRef::new_kana("おんがく");
    assert!(!FuriComparator::new(false).eq(&kana, &collapsed));
    assert!(FuriComparator::new(true).eq(&kana, &kana));
}
