use jp_utils::furi::cformat::CodeFormatter;
use jp_utils::furi::Furigana;

const SPECIAL: &str = "[2|][x|えっくす]+[1|]の[定義|てい|ぎ][域|いき]が[A|えい]=[[1|],[2|]]のとき、[f|えふ]の[値域|ち|いき]は[f|えふ]([A|えい]) = [[3|],[5|]]となる。";

fn merge(src: &str, dst: &str) {
    let furi = Furigana(src);
    let res = furi.code_formatter().merge_kanji_parts().finish();
    assert_eq!(res.raw(), dst);

    let r = res.to_reading();
    assert_eq!(furi.kana_str(), r.kana());
    assert_eq!(furi.kanji_str(), r.kanji().unwrap());

    assert_eq!(Furigana(dst).kana_str(), res.kana_str());
    assert_eq!(Furigana(dst).kanji_str(), res.kanji_str());

    assert_eq!(Furigana(dst).kana_str(), furi.kana_str());
    assert_eq!(Furigana(dst).kanji_str(), furi.kanji_str());
}

#[test]
fn test_merge_parts() {
    merge("[大|だい][丈|じょう][夫|ぶ]", "[大丈夫|だい|じょう|ぶ]");
    merge("それは[大|だい][丈|じょう][夫|ぶ]", "それは[大丈夫|だい|じょう|ぶ]");
    merge("それは[大|だい][丈|じょう]です", "それは[大丈|だい|じょう]です");
    merge("それは[大|だい][丈夫|じょうぶ]だよ", "それは[大|だい][丈夫|じょうぶ]だよ");
    merge(
        "それは[音|おん][楽|がく][大学|だいがく]です",
        "それは[音楽|おん|がく][大学|だいがく]です",
    );
    merge(
        "それは[音|おん][楽|がく][大学|だい|がく]です",
        "それは[音楽大学|おん|がく|だい|がく]です",
    );
    merge(
        "[Wi|ワイ][-|][Fi|ファイ] ってフランス[語|ご]ではどう[発音|はつ|おん]するんですか？",
        "[Wi|ワイ][-|][Fi|ファイ] ってフランス[語|ご]ではどう[発音|はつ|おん]するんですか？",
    );
    merge(
        "[高校生|こう|こう|せい]の[時|とき]は[毎朝|まい|あさ][6|][時|じ]に[起|お]きていた。",
        "[高校生|こう|こう|せい]の[時|とき]は[毎朝|まい|あさ][6|][時|じ]に[起|お]きていた。",
    );
    merge(
        SPECIAL,
        "[2|][x|えっくす]+[1|]の[定義域|てい|ぎ|いき]が[A|えい]=[[1|],[2|]]のとき、[f|えふ]の[値域|ち|いき]は[f|えふ]([A|えい]) = [[3|],[5|]]となる。",
    );
}

fn merge_lossy(src: &str, dst: &str) {
    let furi = Furigana(src);
    let res = CodeFormatter::new(&furi).lossy().merge_kanji_parts().finish();
    assert_eq!(res.raw(), dst);
}

#[test]
fn test_merge_parts_lossy() {
    merge_lossy("[大|だい][丈|じょう][夫|ぶ]", "[大丈夫|だい|じょう|ぶ]");
    merge_lossy("それは[大|だい][丈|じょう][夫|ぶ]", "それは[大丈夫|だい|じょう|ぶ]");
    merge_lossy("それは[大|だい][丈|じょう]です", "それは[大丈|だい|じょう]です");
    merge_lossy("それは[大|だい][丈夫|じょうぶ]だよ", "それは[大丈夫|だいじょうぶ]だよ");
    merge_lossy(
        "それは[音|おん][楽|がく][大学|だいがく]です",
        "それは[音楽大学|おんがくだいがく]です",
    );
    merge_lossy(
        "それは[音|おん][楽|がく][大学|だい|がく]です",
        "それは[音楽大学|おん|がく|だい|がく]です",
    );
}

fn remove_empty(s: &str, exp: &str) {
    let furi = Furigana(s);
    let out = CodeFormatter::new(&furi).remove_empty_kanji().finish();
    assert_eq!(out, exp);
}

#[test]
fn test_remove_empty_kanji() {
    remove_empty("[Wi|ワイ][-|][Fi|ファイ] って", "[Wi|ワイ]-[Fi|ファイ] って");
    remove_empty("[毎朝|まい|あさ][6|][時|じ]に", "[毎朝|まい|あさ]6[時|じ]に");
    remove_empty(
        SPECIAL,
        "2[x|えっくす]+1の[定義|てい|ぎ][域|いき]が[A|えい]=[1,2]のとき、[f|えふ]の[値域|ち|いき]は[f|えふ]([A|えい]) = [3,5]となる。",
    );
}

fn fix(s: &str, exp: &str) {
    let furi = Furigana(s);
    let out = CodeFormatter::new(&furi).fix_kanji_blocks().finish();
    assert_eq!(out, exp);
}

#[test]
fn test_fix_kanji_blocks() {
    fix("[音楽大|おんがく|だい]", "[音楽大|おんがくだい]");
    for same in [
        "おんがくが[好|す]",
        "おんがくが[好|す]きです",
        "[音楽|おん|がく]が[好|す]き",
        "[拝金主義|はい|きん|しゅ|ぎ]は[問題|もん|だい][拝金主義|はい|きん|しゅ|ぎ]は[問題|もん|だい][拝金主義|はい|きん|しゅ|ぎ]は[問題|もん|だい]",
        "[楽|たの]しい",
        "[音楽おん|がく]が[好す",
        "この[人|ひと]が[嫌|きら]いです。",
        SPECIAL,
    ] {
        fix(same, same);
    }
}

#[test]
fn scenario_normalize_all() {
    let furi = Furigana("それは[大|だい][丈|じょう][夫|ぶ]");
    assert_eq!(furi.code_formatter().apply_all(), "それは[大丈夫|だい|じょう|ぶ]");
}

#[test]
fn apply_all_runs_the_passes_in_order() {
    let furi = Furigana("[毎|まい][朝|あさ][6|][時間目|じ|かんめ]に");
    let all = furi.code_formatter().apply_all();
    assert_eq!(all, "[毎朝|まい|あさ]6[時間目|じかんめ]に");
    let stepwise = furi
        .code_formatter()
        .merge_kanji_parts()
        .remove_empty_kanji()
        .fix_kanji_blocks()
        .finish();
    assert_eq!(all, stepwise);
    assert_eq!(all.kana_str(), furi.kana_str());
    assert_eq!(all.kanji_str(), furi.kanji_str());
}

#[test]
fn a_pass_works_on_what_the_pass_before_wrote() {
    // The first pass writes nothing at all; the second must not start over.
    let furi = Furigana("[|]");
    let out = furi.code_formatter().remove_empty_kanji().fix_kanji_blocks().finish();
    assert_eq!(out, "");
    assert_eq!(furi.code_formatter().finish(), "");
}

#[test]
fn merged_block_keeps_empty_readings_of_its_members() {
    merge("[大丈||じょう][夫|ぶ]", "[大丈夫||じょう|ぶ]");
    remove_empty("[大丈||じょう]", "[大丈||じょう]");
}

#[test]
fn normalizer_keeps_the_reading() {
    for s in [
        "それは[大|だい][丈|じょう][夫|ぶ]",
        "[Wi|ワイ][-|][Fi|ファイ] ってフランス[語|ご]ではどう[発音|はつ|おん]するんですか？",
        "[高校生|こう|こう|せい]の[時|とき]は[毎朝|まい|あさ][6|][時|じ]に[起|お]きていた。",
        "[音楽大|おんがく|だい][学|がく]",
        "[音楽]が[好|す]き",
        "",
        // A `[` in plain text that stays in front of a block.
        "=[[1|おん]",
        // A `[` that nothing closes, and a `]` that closes nothing.
        "[音楽|おん|がく]が[好す",
        "a]b[x|]c",
        // Hollow blocks alone and among themselves.
        "[大丈||]",
        "[大丈||][夫婦||]が",
    ] {
        let furi = Furigana(s);
        let out = furi.code_formatter().apply_all();
        assert_eq!(out.kana_str(), furi.kana_str());
        assert_eq!(out.kanji_str(), furi.kanji_str());
    }
}

#[test]
fn normalizer_changes_the_reading_of_other_text() {
    // A `[` in plain text pairs up with a `]` once the empty blocks between
    // them are gone.
    let furi = Furigana("=[[1|],[2|]]");
    let out = furi.code_formatter().apply_all();
    assert_eq!(out, "=[1,2|]");
    assert_eq!(furi.kana_str(), "=[1,2]");
    assert_eq!(out.kana_str(), "=1,2");
    // A block whose readings are all empty loses its fallback in a run.
    let hollow = Furigana("[大丈||][夫|ぶ]");
    assert_eq!(hollow.kana_str(), "大丈ぶ");
    assert_eq!(hollow.code_formatter().apply_all().kana_str(), "ぶ");
}
