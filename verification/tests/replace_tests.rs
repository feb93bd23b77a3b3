use rubytext::replace::ReplacementEngine;
use rubytext::replace::ReplacementRulePayload;

fn rule(pattern: &str, replacement: &str, flags: &str) -> ReplacementRulePayload {
    ReplacementRulePayload {
        pattern: pattern.to_string(),
        replacement: replacement.to_string(),
        flags: flags.to_string(),
    }
}

#[test]
fn rules_apply_in_install_order() {
    let mut engine = ReplacementEngine::new();
    let diags = engine.set_text_replacements(vec![rule("a", "b", ""), rule("b", "c", "")]);
    assert!(diags.is_empty());
    assert_eq!(engine.apply_text_replacements("a"), "c");
}

#[test]
fn swapping_rule_order_changes_the_result() {
    let mut engine = ReplacementEngine::new();
    engine.set_text_replacements(vec![rule("b", "c", ""), rule("a", "b", "")]);
    assert_eq!(engine.apply_text_replacements("a"), "b");
}

#[test]
fn no_rules_returns_input_unchanged() {
    let engine = ReplacementEngine::new();
    assert_eq!(engine.apply_text_replacements(""), "");
    assert_eq!(engine.apply_text_replacements("日本語のテキスト"), "日本語のテキスト");
    assert_eq!(engine.apply_text_replacements("plain"), "plain");
}

#[test]
fn empty_input_stays_empty_under_nonmatching_rules() {
    let mut engine = ReplacementEngine::new();
    engine.set_text_replacements(vec![rule("a", "b", "")]);
    assert_eq!(engine.apply_text_replacements(""), "");
}

#[test]
fn a_rule_matching_the_empty_string_can_rewrite_it() {
    let mut engine = ReplacementEngine::new();
    engine.set_text_replacements(vec![rule("^", "x", "")]);
    assert_eq!(engine.apply_text_replacements(""), "x");
}

#[test]
fn installing_replaces_the_previous_set() {
    let mut engine = ReplacementEngine::new();
    engine.set_text_replacements(vec![rule("a", "b", "")]);
    engine.set_text_replacements(vec![rule("x", "y", "")]);
    // The old rule is gone; only the new one applies.
    assert_eq!(engine.apply_text_replacements("ax"), "ay");
}

#[test]
fn case_insensitive_flag() {
    let mut engine = ReplacementEngine::new();
    engine.set_text_replacements(vec![rule("abc", "x", "I")]);
    assert_eq!(engine.apply_text_replacements("ABC abc AbC"), "x x x");
}

#[test]
fn unrecognized_flags_are_ignored() {
    let mut engine = ReplacementEngine::new();
    let diags = engine.set_text_replacements(vec![rule("a", "b", "zq9")]);
    assert!(diags.is_empty());
    assert_eq!(engine.apply_text_replacements("a"), "b");
}

#[test]
fn backreferences_expand_in_the_replacement() {
    let mut engine = ReplacementEngine::new();
    engine.set_text_replacements(vec![rule("(a)(b)", "$2$1", "")]);
    assert_eq!(engine.apply_text_replacements("ab"), "ba");
}

#[test]
fn uncompilable_rule_is_skipped_with_a_diagnostic() {
    let mut engine = ReplacementEngine::new();
    let diags = engine.set_text_replacements(vec![
        rule("(", "x", ""),
        rule("b", "c", ""),
    ]);
    assert_eq!(diags.len(), 1);
    // The rest of the batch still installed.
    assert_eq!(engine.apply_text_replacements("ab"), "ac");
}

#[test]
fn blank_pattern_is_skipped_silently() {
    let mut engine = ReplacementEngine::new();
    let diags = engine.set_text_replacements(vec![rule("   ", "x", ""), rule("a", "b", "")]);
    assert!(diags.is_empty());
    assert_eq!(engine.apply_text_replacements("a a"), "b b");
}

#[test]
fn dot_matches_newline_flag() {
    let mut engine = ReplacementEngine::new();
    engine.set_text_replacements(vec![rule("a.b", "x", "s")]);
    assert_eq!(engine.apply_text_replacements("a\nb"), "x");
}

#[test]
fn multibyte_substitution() {
    let mut engine = ReplacementEngine::new();
    engine.set_text_replacements(vec![rule("猫", "ねこ", "")]);
    assert_eq!(engine.apply_text_replacements("猫が好き"), "ねこが好き");
}
