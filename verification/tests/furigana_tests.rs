use rubytext::furigana::annotate_tokens;
use rubytext::furigana::token_reading;
use rubytext::furigana::tokens_are_sliceable;
use rubytext::furigana::TokenInfo;

fn tok(start: usize, end: usize, detail: Option<&str>) -> TokenInfo {
    TokenInfo { byte_start: start, byte_end: end, detail: detail.map(|d| d.to_string()) }
}

#[test]
fn reading_converts_and_filters() {
    assert_eq!(token_reading(&Some("ネコ".to_string())), Some("ねこ".to_string()));
    assert_eq!(token_reading(&Some("  ネコ  ".to_string())), Some("ねこ".to_string()));
    assert_eq!(token_reading(&Some("*".to_string())), None);
    assert_eq!(token_reading(&Some("  ".to_string())), None);
    assert_eq!(token_reading(&Some("".to_string())), None);
    assert_eq!(token_reading(&None), None);
}

#[test]
fn annotates_with_ruby_markup() {
    let text = "猫が好き";
    let tokens = vec![
        tok(0, 3, Some("ネコ")),
        tok(3, 6, Some("ガ")),
        tok(6, 12, Some("スキ")),
    ];
    assert!(tokens_are_sliceable(text, &tokens));
    assert_eq!(
        annotate_tokens(text, &tokens),
        "<ruby>猫<rt>ねこ</rt></ruby>が<ruby>好き<rt>すき</rt></ruby>"
    );
}

#[test]
fn reading_equal_to_surface_gets_no_gloss() {
    // "が" reads "ガ", which converts back to "が" and equals the surface.
    let text = "が";
    let tokens = vec![tok(0, 3, Some("ガ"))];
    assert_eq!(annotate_tokens(text, &tokens), "が");
}

#[test]
fn placeholder_and_missing_readings_emit_plain_surface() {
    let text = "abc";
    let tokens = vec![tok(0, 1, Some("*")), tok(1, 2, None), tok(2, 3, Some("  "))];
    assert_eq!(annotate_tokens(text, &tokens), "abc");
}

#[test]
fn gaps_and_trailing_text_are_preserved() {
    let text = "a b c";
    // Tokens cover only "a" and "b"; the gaps and the tail survive.
    let tokens = vec![tok(0, 1, None), tok(2, 3, None)];
    assert_eq!(annotate_tokens(text, &tokens), "a b c");
}

#[test]
fn surfaces_and_readings_are_escaped() {
    let text = "<a>";
    let tokens = vec![tok(0, 3, Some("ヨミ&"))];
    assert_eq!(
        annotate_tokens(text, &tokens),
        "<ruby>&lt;a&gt;<rt>よみ&amp;</rt></ruby>"
    );
}

#[test]
fn empty_token_list_escapes_the_whole_text() {
    assert_eq!(annotate_tokens("a<b", &vec![]), "a&lt;b");
    assert_eq!(annotate_tokens("", &vec![]), "");
}

#[test]
fn out_of_range_offsets_are_clamped() {
    let text = "abc";
    let tokens = vec![tok(0, 100, None)];
    assert!(tokens_are_sliceable(text, &tokens));
    assert_eq!(annotate_tokens(text, &tokens), "abc");
}

#[test]
fn misaligned_offsets_fail_the_slicing_check() {
    let text = "猫";
    assert!(!tokens_are_sliceable(text, &vec![tok(0, 1, None)]));
    assert!(!tokens_are_sliceable(text, &vec![tok(1, 3, None)]));
    assert!(tokens_are_sliceable(text, &vec![tok(0, 3, None)]));
}

#[test]
fn reversed_ranges_fail_the_slicing_check() {
    let text = "abc";
    assert!(!tokens_are_sliceable(text, &vec![tok(2, 1, None)]));
}

#[test]
fn round_trip_of_surfaces_over_multibyte_text() {
    // Strip the markup the renderer emits and compare with the input.
    let text = "母は料理が上手です";
    let tokens = vec![
        tok(0, 3, Some("ハハ")),
        tok(3, 6, Some("ハ")),
        tok(6, 12, Some("リョウリ")),
        tok(12, 15, Some("ガ")),
        tok(15, 21, Some("ジョウズ")),
        tok(21, 27, Some("デス")),
    ];
    let annotated = annotate_tokens(text, &tokens);
    let mut surfaces = String::new();
    let mut rest = annotated.as_str();
    while let Some(open) = rest.find("<ruby>") {
        surfaces.push_str(&rest[..open]);
        let after = &rest[open + 6..];
        let rt = after.find("<rt>").unwrap();
        surfaces.push_str(&after[..rt]);
        let close = after.find("</rt></ruby>").unwrap();
        rest = &after[close + 12..];
    }
    surfaces.push_str(rest);
    assert_eq!(surfaces, text);
}
