use ai_semantic_cache::key::{CacheKey, CanonicalPrompt};

#[test]
fn canonicalization_idempotent_across_whitespace() {
    let a = CanonicalPrompt::from_messages(&[("user", "  hello   world  ")]);
    let b = CanonicalPrompt::from_messages(&[("user", "hello world")]);
    assert_eq!(a, b);
}

#[test]
fn canonicalization_preserves_case() {
    let a = CanonicalPrompt::from_messages(&[("user", "Hello")]);
    let b = CanonicalPrompt::from_messages(&[("user", "hello")]);
    assert_ne!(a, b);
}

#[test]
fn cache_key_changes_with_model() {
    let p = CanonicalPrompt::from_messages(&[("user", "hi")]);
    let k1 = CacheKey::new("ns", "gpt-4o", &p);
    let k2 = CacheKey::new("ns", "gpt-3.5-turbo", &p);
    assert_ne!(k1.as_redis_key(), k2.as_redis_key());
}

#[test]
fn cache_key_changes_with_namespace() {
    let p = CanonicalPrompt::from_messages(&[("user", "hi")]);
    let k1 = CacheKey::new("team-a", "gpt-4o", &p);
    let k2 = CacheKey::new("team-b", "gpt-4o", &p);
    assert_ne!(k1.as_redis_key(), k2.as_redis_key());
}

#[test]
fn sha256_hex_is_64_chars() {
    let p = CanonicalPrompt::from_text("hello");
    assert_eq!(p.sha256_hex().len(), 64);
}

#[test]
fn correlation_prefix_is_12_chars() {
    let p = CanonicalPrompt::from_text("hello");
    let k = CacheKey::new("ns", "gpt-4o", &p);
    assert_eq!(k.correlation_prefix().len(), 12);
}

#[test]
fn messages_are_joined_by_separators() {
    let p = CanonicalPrompt::from_messages(&[
        ("system", "\tBe\n brief. "),
        ("user", "What\u{a0}is\u{2003}it?"),
    ]);
    assert_eq!(p.as_str(), "system\u{1F}Be brief.\u{1E}user\u{1F}What is it?");
    assert_eq!(CanonicalPrompt::from_messages(&[]).as_str(), "");
    assert_eq!(CanonicalPrompt::from_messages(&[("user", "   ")]).as_str(), "user\u{1F}");
}

#[test]
fn text_is_collapsed() {
    assert_eq!(CanonicalPrompt::from_text(" a \r\n b\u{3000}").as_str(), "a b");
    assert_eq!(CanonicalPrompt::from_text("").as_str(), "");
}

#[test]
fn digest_is_that_of_the_canonical_text() {
    assert_eq!(
        CanonicalPrompt::from_text(" hello ").sha256_hex(),
        "2cf24dba5fb0a30e26e83b2ac5b9e29e1b161e5c1fa7425e73043362938b9824"
    );
}

#[test]
fn redis_key_and_prefix_are_exact() {
    let k = CacheKey::new("ns", "gpt-4o", &CanonicalPrompt::from_text("hello"));
    assert_eq!(
        k.as_redis_key(),
        "ns:gpt-4o:2cf24dba5fb0a30e26e83b2ac5b9e29e1b161e5c1fa7425e73043362938b9824"
    );
    assert_eq!(k.correlation_prefix(), "2cf24dba5fb0");
    assert_eq!(k.clone(), k);
}

#[test]
fn prefix_of_a_short_digest_is_all_of_it() {
    let k = CacheKey {
        namespace: "n".to_string(),
        model: "m".to_string(),
        prompt_sha: "abc".to_string(),
    };
    assert_eq!(k.correlation_prefix(), "abc");
}
