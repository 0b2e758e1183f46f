use ai_semantic_cache::error::{CacheError, EmbedError, StoreError};

#[test]
fn embed_errors_have_messages() {
    assert_eq!(EmbedError::Unauthorized.message(), "embedder: unauthorized");
    assert_eq!(
        EmbedError::Upstream { status: 503, body: "dead".to_string() }.message(),
        "embedder: upstream 503: dead"
    );
    assert_eq!(EmbedError::Timeout.message(), "embedder: timeout");
    assert_eq!(
        EmbedError::Malformed("x".to_string()).message(),
        "embedder: malformed response: x"
    );
    assert_eq!(
        EmbedError::DimensionMismatch { expected: 1536, got: 3 }.message(),
        "embedder: dimension mismatch: expected 1536, got 3"
    );
}

#[test]
fn store_errors_have_messages() {
    assert_eq!(
        StoreError::Upstream { status: 0, body: "b".to_string() }.message(),
        "store: upstream 0: b"
    );
    assert_eq!(StoreError::Timeout.message(), "store: timeout");
    assert_eq!(StoreError::Malformed("m".to_string()).message(), "store: malformed: m");
    assert_eq!(StoreError::NotFound.message(), "store: not found");
}

#[test]
fn cache_errors_show_their_cause() {
    assert_eq!(CacheError::from(EmbedError::Timeout).message(), "embedder: timeout");
    assert_eq!(CacheError::from(StoreError::NotFound).message(), "store: not found");
    assert_eq!(CacheError::Extract("no prompt".to_string()).message(), "extract: no prompt");
}
