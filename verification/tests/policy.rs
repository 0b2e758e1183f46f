use ai_semantic_cache::driver::Driver;
use ai_semantic_cache::policy::{
    build_driver_config, build_embedder_config, check_azure, check_pinecone, check_qdrant, Config,
    EmbedderConfig, AZURE_POLICY_NAME, PINECONE_POLICY_NAME, QDRANT_POLICY_NAME,
};
use pdk::hl::Uri;

fn path(url: &str) -> String {
    url.parse::<Uri>().unwrap().path().to_string()
}

fn plain() -> Config {
    Config {
        bypass_on_stream: None,
        cache_response_status_codes: None,
        exact_caching: None,
        failure_mode: None,
        namespace: "test-ns".to_string(),
        prompt_extractor: None,
        similarity_threshold: None,
        ttl_seconds: None,
    }
}

fn configured() -> Config {
    Config {
        bypass_on_stream: Some(true),
        cache_response_status_codes: Some(vec![200]),
        exact_caching: Some(false),
        failure_mode: Some("fail_open".to_string()),
        namespace: "test-ns".to_string(),
        prompt_extractor: Some("openai".to_string()),
        similarity_threshold: Some(0.92f64.to_bits()),
        ttl_seconds: Some(3600),
    }
}

/// Whether a policy starts with those addresses.
fn starts(check: Result<(), String>) -> bool {
    check.is_ok() && Driver::start(build_driver_config("p", &configured())).is_ok()
}

#[test]
fn configure_accepts_well_formed_urls() {
    assert!(starts(check_pinecone(
        &path("https://api.openai.com/v1"),
        &path("https://my-index.svc.aws-us-east-1.pinecone.io"),
    )));
}

#[test]
fn configure_rejects_baseurl_ending_in_embeddings() {
    assert!(
        !starts(check_pinecone(
            &path("https://api.openai.com/v1/embeddings"),
            &path("https://my-index.svc.aws-us-east-1.pinecone.io"),
        )),
        "baseUrl ending in `/embeddings` must fail policy init"
    );
}

#[test]
fn configure_rejects_indexhost_ending_in_query() {
    assert!(
        !starts(check_pinecone(
            &path("https://api.openai.com/v1"),
            &path("https://my-index.svc.aws-us-east-1.pinecone.io/query"),
        )),
        "indexHost ending in `/query` must fail policy init"
    );
}

#[test]
fn configure_rejects_indexhost_ending_in_vectors_upsert() {
    assert!(
        !starts(check_pinecone(
            &path("https://api.openai.com/v1"),
            &path("https://my-index.svc.aws-us-east-1.pinecone.io/vectors/upsert"),
        )),
        "indexHost ending in `/vectors/upsert` must fail policy init"
    );
}

#[test]
fn tests_configure_accepts_well_formed_urls() {
    assert!(starts(check_qdrant(
        &path("https://api.openai.com/v1"),
        &path("http://qdrant:6333"),
    )));
}

#[test]
fn tests_configure_rejects_baseurl_ending_in_embeddings() {
    assert!(
        !starts(check_qdrant(
            &path("https://api.openai.com/v1/embeddings"),
            &path("http://qdrant:6333"),
        )),
        "embedder.baseUrl ending in `/embeddings` must fail policy init"
    );
}

#[test]
fn configure_rejects_vectordb_baseurl_ending_in_collections() {
    assert!(
        !starts(check_qdrant(
            &path("https://api.openai.com/v1"),
            &path("http://qdrant:6333/collections"),
        )),
        "vectordb.baseUrl ending in `/collections` must fail policy init"
    );
}

#[test]
fn configure_rejects_vectordb_baseurl_ending_in_points_search() {
    assert!(
        !starts(check_qdrant(
            &path("https://api.openai.com/v1"),
            &path("http://qdrant:6333/points/search"),
        )),
        "vectordb.baseUrl ending in `/points/search` must fail policy init"
    );
}

#[test]
fn azure_addresses_are_checked() {
    assert!(check_azure("/v1", "/").is_ok());
    let e = check_azure("/v1", "/indexes/").unwrap_err();
    assert!(e.starts_with("vectordb.endpoint must NOT include `/indexes`"));
    assert!(check_azure("/v1", "/indexes/x/docs").is_err());
    let e = check_azure("/embeddings", "/docs").unwrap_err();
    assert!(e.starts_with("embedder.baseUrl must NOT include `/embeddings`"));
}

#[test]
fn defaults_fill_in_what_is_not_configured() {
    let d = build_driver_config(PINECONE_POLICY_NAME, &plain());
    assert_eq!(d.policy_name, "ai-semantic-cache-policy-openai-pinecone");
    assert_eq!(d.namespace, "test-ns");
    assert_eq!(d.similarity_threshold.bits, (0.92f64 as f32).to_bits());
    assert_eq!(d.ttl_seconds, 3600);
    assert!(d.exact_caching);
    assert!(d.bypass_on_stream);
    assert_eq!(d.prompt_extractor, "openai");
    assert_eq!(d.cache_response_status_codes, vec![200]);
    assert_eq!(d.failure_mode, "fail_open");
    assert_eq!(QDRANT_POLICY_NAME, "ai-semantic-cache-policy-openai-qdrant");
    assert_eq!(AZURE_POLICY_NAME, "ai-semantic-cache-policy-openai-azure-ai-search");
}

#[test]
fn settings_are_taken_over() {
    let mut c = configured();
    c.bypass_on_stream = Some(false);
    c.cache_response_status_codes = Some(vec![200, -1, 65736, i64::MIN]);
    c.similarity_threshold = Some(0.5f64.to_bits());
    c.ttl_seconds = Some(-1);
    c.prompt_extractor = Some("vertex".to_string());
    c.failure_mode = Some("fail_closed".to_string());
    let d = build_driver_config(QDRANT_POLICY_NAME, &c);
    assert!(!d.exact_caching);
    assert!(!d.bypass_on_stream);
    assert_eq!(
        d.cache_response_status_codes,
        vec![200, -1i64 as u16, 65736i64 as u16, i64::MIN as u16]
    );
    assert_eq!(d.similarity_threshold.bits, 0.5f32.to_bits());
    assert_eq!(d.ttl_seconds, u64::MAX);
    assert_eq!(d.prompt_extractor, "vertex");
    assert_eq!(d.failure_mode, "fail_closed");
}

#[test]
fn the_embedder_is_configured() {
    let emb = EmbedderConfig {
        api_key: None,
        auth_header: None,
        auth_scheme: None,
        base_path: "/v1".to_string(),
        dimension: 3,
        model: "m".to_string(),
        timeout_ms: None,
    };
    let e = build_embedder_config(&emb);
    assert_eq!(e.base_url, "/v1");
    assert_eq!(e.model, "m");
    assert_eq!(e.api_key, None);
    assert_eq!(e.auth_header, "Authorization");
    assert_eq!(e.auth_scheme, "Bearer");
    assert_eq!(e.dimension, 3);
    assert_eq!(e.timeout_ms, 5000);
    let emb = EmbedderConfig {
        api_key: Some("k".to_string()),
        auth_header: Some("api-key".to_string()),
        auth_scheme: Some(String::new()),
        base_path: "/".to_string(),
        dimension: -1,
        model: "m".to_string(),
        timeout_ms: Some(7),
    };
    let e = build_embedder_config(&emb);
    assert_eq!(e.auth_header_value(), Some(("api-key".to_string(), "k".to_string())));
    assert_eq!(e.dimension, -1i64 as usize);
    assert_eq!(e.timeout_ms, 7);
}
