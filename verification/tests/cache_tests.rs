use rubytext::cache::cache_key;
use rubytext::cache::TranslationCache;

#[test]
fn cache_key_is_the_hex_xxh3_of_the_text() {
    for text in ["", "hello", "日本語のテキスト", "a b c"] {
        let expected = format!("{:016x}", xxhash_rust::xxh3::xxh3_64(text.as_bytes()));
        assert_eq!(cache_key(text), expected);
    }
}

#[test]
fn cache_key_is_sixteen_lowercase_hex_digits() {
    let key = cache_key("anything");
    assert_eq!(key.len(), 16);
    assert!(key.chars().all(|c| c.is_ascii_hexdigit() && !c.is_ascii_uppercase()));
}

#[test]
fn get_after_put_returns_the_stored_translation() {
    let mut cache = TranslationCache::new();
    cache.store_translation("hello".to_string(), "こんにちは".to_string(), 10);
    assert_eq!(cache.get_cached_translation("hello"), Some("こんにちは".to_string()));
}

#[test]
fn blank_put_leaves_prior_value_unchanged() {
    let mut cache = TranslationCache::new();
    cache.store_translation("hello".to_string(), "first".to_string(), 1);
    cache.store_translation("hello".to_string(), "".to_string(), 2);
    cache.store_translation("hello".to_string(), "   ".to_string(), 3);
    assert_eq!(cache.get_cached_translation("hello"), Some("first".to_string()));
}

#[test]
fn blank_put_on_empty_cache_stores_nothing() {
    let mut cache = TranslationCache::new();
    cache.store_translation("hello".to_string(), "  ".to_string(), 1);
    assert_eq!(cache.get_cached_translation("hello"), None);
}

#[test]
fn get_on_unseen_text_returns_no_value() {
    let cache = TranslationCache::new();
    assert_eq!(cache.get_cached_translation("never stored"), None);
}

#[test]
fn second_put_replaces_the_first() {
    let mut cache = TranslationCache::new();
    cache.store_translation("hello".to_string(), "first".to_string(), 1);
    cache.store_translation("hello".to_string(), "second".to_string(), 2);
    assert_eq!(cache.get_cached_translation("hello"), Some("second".to_string()));
}

#[test]
fn distinct_texts_are_stored_independently() {
    let mut cache = TranslationCache::new();
    cache.store_translation("one".to_string(), "1".to_string(), 1);
    cache.store_translation("two".to_string(), "2".to_string(), 1);
    assert_eq!(cache.get_cached_translation("one"), Some("1".to_string()));
    assert_eq!(cache.get_cached_translation("two"), Some("2".to_string()));
}
