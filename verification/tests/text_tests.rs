use rubytext::text::escape_html;
use rubytext::text::katakana_to_hiragana;
use rubytext::text::str_is_blank;
use rubytext::text::trim_str;

#[test]
fn escapes_the_five_unsafe_characters() {
    assert_eq!(escape_html("&<>\"'"), "&amp;&lt;&gt;&quot;&#39;");
}

#[test]
fn escape_leaves_plain_text_alone() {
    assert_eq!(escape_html("hello world"), "hello world");
    assert_eq!(escape_html(""), "");
}

#[test]
fn escape_keeps_multibyte_text_intact() {
    assert_eq!(escape_html("日本語<テスト>"), "日本語&lt;テスト&gt;");
}

#[test]
fn katakana_maps_to_hiragana_by_fixed_offset() {
    assert_eq!(katakana_to_hiragana("カタカナ"), "かたかな");
    assert_eq!(katakana_to_hiragana("ネコ"), "ねこ");
}

#[test]
fn katakana_block_boundaries() {
    // First and last remapped codepoints.
    assert_eq!(katakana_to_hiragana("\u{30A1}"), "\u{3041}");
    assert_eq!(katakana_to_hiragana("\u{30F6}"), "\u{3096}");
    // Just outside the block: unchanged.
    assert_eq!(katakana_to_hiragana("\u{30A0}"), "\u{30A0}");
    assert_eq!(katakana_to_hiragana("ー"), "ー");
    assert_eq!(katakana_to_hiragana("・"), "・");
}

#[test]
fn katakana_conversion_passes_other_scripts_through() {
    assert_eq!(katakana_to_hiragana("abc ひらがな 漢字"), "abc ひらがな 漢字");
}

#[test]
fn blank_detection() {
    assert!(str_is_blank(""));
    assert!(str_is_blank("   "));
    assert!(str_is_blank(" \t\r\n\u{3000}"));
    assert!(!str_is_blank(" a "));
}

#[test]
fn trimming_strips_both_ends() {
    assert_eq!(trim_str("  hello  "), "hello");
    assert_eq!(trim_str("\u{3000}日本語\t"), "日本語");
    assert_eq!(trim_str("   "), "");
    assert_eq!(trim_str("inner  space"), "inner  space");
}
