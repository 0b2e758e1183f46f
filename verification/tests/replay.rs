use ai_semantic_cache::ieee::Single;
use ai_semantic_cache::replay::{
    build_replay, CacheEvent, X_CACHE, X_CACHE_KEY, X_CACHE_NAMESPACE, X_CACHE_SCORE,
};
use ai_semantic_cache::store::CachedPayload;

fn payload() -> CachedPayload {
    CachedPayload {
        status: 200,
        headers: vec![("content-type".into(), "application/json".into())],
        body: b"{}".to_vec(),
        usage_total_tokens: Some(123),
        written_at: 0,
    }
}

fn score(v: f32) -> Option<Single> {
    Some(Single { bits: v.to_bits() })
}

#[test]
fn replay_preserves_status_and_body() {
    let r = build_replay(
        &payload(),
        CacheEvent::HitSemantic,
        score(0.95),
        "ns",
        "abc123def456",
    );
    assert_eq!(r.status, 200);
    assert_eq!(r.body, b"{}".to_vec());
}

#[test]
fn replay_appends_cache_headers() {
    let r = build_replay(&payload(), CacheEvent::HitExact, None, "ns", "abc123def456");
    assert!(r
        .headers
        .iter()
        .any(|(k, v)| k == X_CACHE && v == "hit-exact"));
    assert!(r
        .headers
        .iter()
        .any(|(k, v)| k == X_CACHE_NAMESPACE && v == "ns"));
    assert!(r
        .headers
        .iter()
        .any(|(k, v)| k == X_CACHE_KEY && v == "abc123def456"));
    assert!(!r.headers.iter().any(|(k, _)| k == X_CACHE_SCORE));
}

#[test]
fn replay_includes_score_only_for_semantic() {
    let r = build_replay(&payload(), CacheEvent::HitSemantic, score(0.953), "ns", "x");
    assert!(r
        .headers
        .iter()
        .any(|(k, v)| k == X_CACHE_SCORE && v == "0.9530"));
}

#[test]
fn replay_preserves_existing_content_type() {
    let r = build_replay(&payload(), CacheEvent::HitExact, None, "ns", "x");
    assert!(r
        .headers
        .iter()
        .any(|(k, v)| k == "content-type" && v == "application/json"));
}

#[test]
fn replay_headers_are_in_order() {
    let r = build_replay(&payload(), CacheEvent::HitSemantic, score(1.0), "ns", "x");
    let want = vec![
        ("content-type", "application/json"),
        ("x-cache", "hit-semantic"),
        ("x-cache-score", "1.0000"),
        ("x-cache-namespace", "ns"),
        ("x-cache-key", "x"),
    ];
    let got: Vec<(&str, &str)> = r.headers.iter().map(|(k, v)| (k.as_str(), v.as_str())).collect();
    assert_eq!(got, want);
}

#[test]
fn every_event_has_its_header_value() {
    let all = [
        (CacheEvent::HitExact, "hit-exact"),
        (CacheEvent::HitSemantic, "hit-semantic"),
        (CacheEvent::Miss, "miss"),
        (CacheEvent::BypassStream, "bypass-stream"),
        (CacheEvent::BypassError, "bypass-error"),
        (CacheEvent::SkipUnparseable, "skip-unparseable"),
    ];
    for (event, value) in all {
        assert_eq!(event.header_value(), value);
    }
}
