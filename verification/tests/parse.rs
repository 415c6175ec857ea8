use jp_utils::furi::parse::reading::FuriToReadingParser;
use jp_utils::furi::parse::{FuriParser, FuriParserGen, ParseError, ParseErrorKind};
use jp_utils::furi::segment::{AsSegment, ReadingPart, Segment, SegmentRef};
use jp_utils::furi::seq::FuriSequence;
use jp_utils::furi::Furigana;

const SENTENCES: [&str; 8] = [
    "おんがくが[好|す]",
    "おんがくが[好|す]きです",
    "[音楽|おん|がく]が[好|す]き",
    "[音楽|おん|がく]が[好|す]きです",
    "[拝金主義|はい|きん|しゅ|ぎ]は[問題|もん|だい][拝金主義|はい|きん|しゅ|ぎ]は[問題|もん|だい][拝金主義|はい|きん|しゅ|ぎ]は[問題|もん|だい]",
    "[楽|たの]しい",
    "この[人|ひと]が[嫌|きら]いです。",
    "[2|][x|えっくす]+[1|]の[定義|てい|ぎ][域|いき]が[A|えい]=[[1|],[2|]]のとき、[f|えふ]の[値域|ち|いき]は[f|えふ]([A|えい]) = [[3|],[5|]]となる。",
];

#[test]
fn parse_test_empty() {
    let e = ReadingPart::from_str("").unwrap();
    assert!(e.is_empty());
}

#[test]
fn mod_test_empty() {
    let e = Segment::from_str("").unwrap();
    assert!(e.is_empty());

    let mut p = FuriParser::new("");
    assert_eq!(p.next(), None);
}

#[test]
fn test_empty_kanji_block() {
    let s = "[高校生|こう|こう|せい]の[時|とき]は[毎朝|まい|あさ][6|][時|じ]に[起|お]きていた。";
    let (kana, _kanji) = FuriToReadingParser::parse_kanji_and_kana(s);
    assert_eq!(kana, "こうこうせいのときはまいあさ6じにおきていた。");
}

#[test]
fn test_parse_furigana() {
    for furi in SENTENCES {
        let parsed = FuriParser::new(furi).to_vec().unwrap();
        let seq = FuriSequence::new_with_parts(parsed);
        assert_eq!(seq.encode(), furi);
        assert_eq!(Furigana(furi).to_reading(), seq.to_reading());
    }
}

#[test]
fn test_to_reading() {
    for furi in SENTENCES {
        let reading = FuriParser::new(furi).to_reading().unwrap();
        let exp = FuriSequence::parse_ref(furi).unwrap().to_reading();
        assert_eq!(reading, exp);
        assert_eq!(Furigana(furi).to_reading(), reading);
        assert_eq!(FuriParser::new(furi).unchecked().to_reading(), reading);
    }
}

#[test]
fn test_err() {
    // Lenient parsing takes anything.
    for furi in ["[おんがく]", "[おんがく|]", "[音楽]", "[音楽|]", "[]"] {
        let segs = FuriParser::new(furi).unchecked().to_vec();
        assert_eq!(segs.len(), 1);
        assert!(segs[0].is_kanji());
    }
}

fn strict_error(furi: &str) -> ParseError {
    let err = FuriParser::new(furi).to_vec().unwrap_err();
    assert!(!FuriParser::check(furi));
    assert_eq!(FuriParser::validate(furi), Err(err));
    assert_eq!(FuriSequence::parse_ref(furi).unwrap_err(), err);
    assert_eq!(FuriSequence::from_str(furi).unwrap_err(), err);
    assert_eq!(Furigana::new(furi).unwrap_err(), err);
    err
}

#[test]
fn test_parse_furigana_error() {
    assert_eq!(
        strict_error("[音楽|おん|がく]が[好す]き"),
        ParseError { kind: ParseErrorKind::MissingReading, offset: "[音楽|おん|がく]が".len() }
    );
    assert_eq!(
        strict_error("[音楽おん|がく]が[好す]き").kind,
        ParseErrorKind::MissingReading
    );
    assert_eq!(
        strict_error("[拝金主義|はい|きん|しゅ|ぎ]は[問題|も|ん|だい]"),
        ParseError {
            kind: ParseErrorKind::ReadingCountMismatch,
            offset: "[拝金主義|はい|きん|しゅ|ぎ]は".len()
        }
    );
    assert_eq!(
        strict_error("[拝金主義|はい|きん|しゅ|ぎ]]は[問題|も|ん|だい]").kind,
        ParseErrorKind::ReadingCountMismatch
    );
    assert_eq!(
        strict_error("[拝金主義|はい|きん|しゅ|ぎ|e]は[問題|もん|だい]"),
        ParseError { kind: ParseErrorKind::ReadingCountMismatch, offset: 0 }
    );
    assert_eq!(
        strict_error("[拝金主義|はい|]"),
        ParseError { kind: ParseErrorKind::ReadingCountMismatch, offset: 0 }
    );
}

#[test]
fn scenario_malformed_block() {
    let furi = "[拝金主義|はい|]";
    assert_eq!(strict_error(furi).kind, ParseErrorKind::ReadingCountMismatch);
    let segs = FuriParser::new(furi).unchecked().to_vec();
    assert_eq!(segs, vec![SegmentRef::new_kanji("拝金主義", &["はい", ""])]);
}

#[test]
fn every_error_kind() {
    assert_eq!(
        strict_error("が[好す"),
        ParseError { kind: ParseErrorKind::UnterminatedBlock, offset: "が".len() }
    );
    assert_eq!(
        strict_error("[音楽|おん|がく]が[好す"),
        ParseError {
            kind: ParseErrorKind::UnterminatedBlock,
            offset: "[音楽|おん|がく]が".len()
        }
    );
    assert_eq!(
        strict_error("あ[|おん]"),
        ParseError { kind: ParseErrorKind::EmptyLiteral, offset: "あ".len() }
    );
    assert_eq!(strict_error("[]").kind, ParseErrorKind::MissingReading);
    assert_eq!(strict_error("[音楽]").kind, ParseErrorKind::MissingReading);
    // The first refusal in the text is reported.
    assert_eq!(strict_error("[|a][b]").kind, ParseErrorKind::EmptyLiteral);
}

#[test]
fn brackets_that_close_nothing_are_plain_text() {
    assert!(FuriParser::check("a]b"));
    assert!(FuriParser::check("=[[1|],[2|]]"));
    let segs = Furigana("=[[1|],[2|]]").as_segments_ref();
    assert_eq!(
        segs,
        vec![
            SegmentRef::new_kana("=["),
            SegmentRef::new_kanji("1", &[""]),
            SegmentRef::new_kana(","),
            SegmentRef::new_kanji("2", &[""]),
            SegmentRef::new_kana("]"),
        ]
    );
}

#[test]
fn spans_partition_the_text() {
    for furi in SENTENCES.iter().chain(["[音楽おん|がく]が[好す", "]a[b", "[[", "]]"].iter()) {
        let mut gen = FuriParserGen::new(furi);
        let mut joined = String::new();
        let mut last_plain = false;
        while let Some((text, bracketed)) = gen.next() {
            assert!(!text.is_empty());
            if bracketed {
                assert!(text.starts_with('[') && text.ends_with(']'));
                assert!(!text[1..text.len() - 1].contains(['[', ']']));
            } else {
                assert!(!last_plain);
            }
            last_plain = !bracketed;
            joined.push_str(text);
        }
        assert_eq!(&joined, furi);
        assert_eq!(gen.next(), None);
    }
}

#[test]
fn lenient_block_without_separator_has_one_empty_reading() {
    let seg = SegmentRef::from_str_unchecked("[音楽]");
    assert_eq!(seg, SegmentRef::new_kanji("音楽", &[""]));
    assert_eq!(seg.encode(), "[音楽|]");
    assert!(SegmentRef::from_str_checked("[音楽]").is_err());
    assert_eq!(
        SegmentRef::from_str_checked("[音楽|おん|がく]").unwrap(),
        SegmentRef::new_kanji("音楽", &["おん", "がく"])
    );
    assert_eq!(SegmentRef::from_str_checked("おん").unwrap(), SegmentRef::new_kana("おん"));
    assert_eq!(
        FuriParser::from_seg_str("[音|おん]", true).unwrap(),
        SegmentRef::new_kanji("音", &["おん"])
    );
    assert_eq!(Segment::from_str_unchecked("[音楽|お|ん|がく]").encode(), "[音楽|おんがく]");
}

#[test]
fn test_parse_to_kana() {
    assert_eq!(
        FuriToReadingParser::new("[音楽|おん|がく]が[好|す]き", true).parse(),
        "おんがくがすき"
    );
    assert_eq!(
        FuriToReadingParser::new(
            "[2|][x|えっくす]+[1|]の[定義|てい|ぎ]が[A|えい]=[[1|],[2|]] = [[3|],[5|]]",
            true
        )
        .parse(),
        "2えっくす+1のていぎがえい=[1,2] = [3,5]"
    );
}

#[test]
fn test_parse_to_kanji() {
    assert_eq!(
        FuriToReadingParser::new("[音楽|おん|がく]が[好|す]き", false).parse(),
        "音楽が好き"
    );
    assert_eq!(FuriToReadingParser::new("[[3|],[5|]]ああ", false).parse(), "[3,5]ああ");
    assert_eq!(
        FuriToReadingParser::new(
            "[2|][x|えっくす]+[1|]の[定義|てい|ぎ]が[A|えい]=[[1|],[2|]] = [[3|],[5|]]",
            false
        )
        .parse(),
        "2x+1の定義がA=[1,2] = [3,5]"
    );
}

#[test]
fn both_projections_in_one_pass() {
    let (kana, kanji) = FuriToReadingParser::parse_kanji_and_kana("[音楽|おん|がく]が[好|す]き");
    assert_eq!(kana, "おんがくがすき");
    assert_eq!(kanji, Some("音楽が好き".to_string()));
    let (kana, kanji) = FuriToReadingParser::parse_kanji_and_kana("かなだけ");
    assert_eq!(kana, "かなだけ");
    assert_eq!(kanji, None);
}
