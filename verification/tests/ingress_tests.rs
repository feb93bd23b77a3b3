use rubytext::clipboard::ClipboardWatcher;
use rubytext::http_api::chat_completions_text;
use rubytext::http_api::extract_content_text;
use rubytext::http_api::HttpServerState;
use rubytext::http_api::OpenAIChatCompletionRequest;
use rubytext::http_api::OpenAIContent;
use rubytext::http_api::OpenAIContentPart;
use rubytext::http_api::OpenAIMessage;
use rubytext::replace::ReplacementEngine;
use rubytext::replace::ReplacementRulePayload;

fn msg(role: &str, text: &str) -> OpenAIMessage {
    OpenAIMessage { role: role.to_string(), content: OpenAIContent::Text(text.to_string()) }
}

fn part(text: Option<&str>) -> OpenAIContentPart {
    OpenAIContentPart { text: text.map(|t| t.to_string()) }
}

#[test]
fn disabled_route_forwards_nothing() {
    let engine = ReplacementEngine::new();
    let request = OpenAIChatCompletionRequest { messages: vec![msg("user", "hello")] };
    assert_eq!(chat_completions_text(false, &engine, &request), None);
}

#[test]
fn enabled_route_forwards_the_last_user_message() {
    let engine = ReplacementEngine::new();
    let request = OpenAIChatCompletionRequest {
        messages: vec![
            msg("system", "be brief"),
            msg("user", "first"),
            msg("assistant", "ok"),
            msg("user", "  second  "),
        ],
    };
    assert_eq!(chat_completions_text(true, &engine, &request), Some("second".to_string()));
}

#[test]
fn role_comparison_ignores_ascii_case() {
    let engine = ReplacementEngine::new();
    let request = OpenAIChatCompletionRequest { messages: vec![msg("USER", "shout")] };
    assert_eq!(chat_completions_text(true, &engine, &request), Some("shout".to_string()));
}

#[test]
fn forwarded_text_is_rewritten_by_the_rules() {
    let mut engine = ReplacementEngine::new();
    engine.set_text_replacements(vec![ReplacementRulePayload {
        pattern: "cat".to_string(),
        replacement: "dog".to_string(),
        flags: "".to_string(),
    }]);
    let request = OpenAIChatCompletionRequest { messages: vec![msg("user", "a cat")] };
    assert_eq!(chat_completions_text(true, &engine, &request), Some("a dog".to_string()));
}

#[test]
fn request_without_user_text_forwards_nothing() {
    let engine = ReplacementEngine::new();
    let no_user = OpenAIChatCompletionRequest { messages: vec![msg("assistant", "hi")] };
    assert_eq!(chat_completions_text(true, &engine, &no_user), None);
    let blank_user = OpenAIChatCompletionRequest { messages: vec![msg("user", "   ")] };
    assert_eq!(chat_completions_text(true, &engine, &blank_user), None);
    let empty = OpenAIChatCompletionRequest { messages: vec![] };
    assert_eq!(chat_completions_text(true, &engine, &empty), None);
}

#[test]
fn structured_content_takes_the_first_nonblank_part() {
    let content = OpenAIContent::Parts(vec![part(None), part(Some("  ")), part(Some("yo"))]);
    assert_eq!(extract_content_text(&content), Some("yo".to_string()));
    let all_blank = OpenAIContent::Parts(vec![part(None), part(Some(" "))]);
    assert_eq!(extract_content_text(&all_blank), None);
    let plain = OpenAIContent::Text("x".to_string());
    assert_eq!(extract_content_text(&plain), Some("x".to_string()));
}

#[test]
fn default_content_is_the_empty_string() {
    match OpenAIContent::default() {
        OpenAIContent::Text(t) => assert_eq!(t, ""),
        OpenAIContent::Parts(_) => panic!("default content should be plain text"),
    }
}

#[test]
fn server_state_records_and_reports_the_last_bind_error() {
    let mut state = HttpServerState::new();
    assert!(state.get_http_server_error().is_none());
    let payload = state.record_http_error(17889, "address in use".to_string());
    assert_eq!(payload.port, 17889);
    assert_eq!(payload.message, "address in use");
    let fetched = state.get_http_server_error().unwrap();
    assert_eq!(fetched.port, 17889);
    assert_eq!(fetched.message, "address in use");
}

#[test]
fn clipboard_forwards_new_text_once() {
    let engine = ReplacementEngine::new();
    let mut watcher = ClipboardWatcher::new();
    watcher.set_clipboard_watch(true);
    let first = watcher.handle_snapshot(&engine, Some("hello".to_string()));
    assert_eq!(first, Some("hello".to_string()));
    // The identical snapshot right after is deduplicated.
    let second = watcher.handle_snapshot(&engine, Some("hello".to_string()));
    assert_eq!(second, None);
}

#[test]
fn toggling_does_not_reset_the_dedupe_state() {
    let engine = ReplacementEngine::new();
    let mut watcher = ClipboardWatcher::new();
    watcher.set_clipboard_watch(true);
    watcher.handle_snapshot(&engine, Some("hello".to_string()));
    watcher.set_clipboard_watch(false);
    watcher.set_clipboard_watch(true);
    // The clipboard is unchanged, so nothing is re-forwarded.
    assert_eq!(watcher.handle_snapshot(&engine, Some("hello".to_string())), None);
    // A genuinely new value goes through.
    assert_eq!(
        watcher.handle_snapshot(&engine, Some("world".to_string())),
        Some("world".to_string())
    );
}

#[test]
fn disabled_watcher_forwards_nothing() {
    let engine = ReplacementEngine::new();
    let mut watcher = ClipboardWatcher::new();
    assert_eq!(watcher.handle_snapshot(&engine, Some("hello".to_string())), None);
    watcher.set_clipboard_watch(true);
    // It was never forwarded, so it still goes through once enabled.
    assert_eq!(
        watcher.handle_snapshot(&engine, Some("hello".to_string())),
        Some("hello".to_string())
    );
}

#[test]
fn blank_or_failed_reads_are_skipped() {
    let engine = ReplacementEngine::new();
    let mut watcher = ClipboardWatcher::new();
    watcher.set_clipboard_watch(true);
    assert_eq!(watcher.handle_snapshot(&engine, None), None);
    assert_eq!(watcher.handle_snapshot(&engine, Some("   ".to_string())), None);
}

#[test]
fn snapshot_whose_rewrite_is_empty_is_not_forwarded() {
    let mut engine = ReplacementEngine::new();
    engine.set_text_replacements(vec![ReplacementRulePayload {
        pattern: "a+".to_string(),
        replacement: "".to_string(),
        flags: "".to_string(),
    }]);
    let mut watcher = ClipboardWatcher::new();
    watcher.set_clipboard_watch(true);
    assert_eq!(watcher.handle_snapshot(&engine, Some("aaa".to_string())), None);
}

#[test]
fn snapshot_text_is_trimmed_before_rewriting() {
    let engine = ReplacementEngine::new();
    let mut watcher = ClipboardWatcher::new();
    watcher.set_clipboard_watch(true);
    assert_eq!(
        watcher.handle_snapshot(&engine, Some("  padded  ".to_string())),
        Some("padded".to_string())
    );
}

#[test]
fn poll_delay_follows_the_toggle() {
    let mut watcher = ClipboardWatcher::new();
    assert_eq!(watcher.poll_delay_ms(), 500);
    watcher.set_clipboard_watch(true);
    assert_eq!(watcher.poll_delay_ms(), 1500);
}
