use ai_semantic_cache::config::FailureMode;
use ai_semantic_cache::driver::{
    body_sha_full, body_sha_prefix, decoration_score, document_key_prefix, exact_kv_key,
    exact_lookup, exact_store, extract_usage_total_tokens, kv_key_of, log_record, mark,
    reject_service_path_with_suffix, request_key_prefix, strip_sensitive_headers, Driver,
    DriverConfig, ExactCacheEntry, FilterStep, Verdict, EXACT_CACHE_KV_NAMESPACE,
};
use ai_semantic_cache::engine::{RequestDecision, RequestStep};
use ai_semantic_cache::extract::PromptExtractor;
use ai_semantic_cache::ieee::Single;
use ai_semantic_cache::json::{parse_json, Json};
use ai_semantic_cache::key::{CacheKey, CanonicalPrompt};
use ai_semantic_cache::replay::{build_replay, CacheEvent, ReplayResponse};
use ai_semantic_cache::store::CachedPayload;

const BODY: &[u8] = br#"{"model":"gpt-4o","messages":[{"role":"user","content":"hi"}]}"#;
const STREAM: &[u8] =
    br#"{"model":"gpt-4o","messages":[{"role":"user","content":"hi"}],"stream":true}"#;

fn prompt_prefix() -> String {
    let prompt = CanonicalPrompt::from_messages(&[("user", "hi")]);
    CacheKey::new("ns", "gpt-4o", &prompt).correlation_prefix()
}

fn settings() -> DriverConfig {
    DriverConfig {
        policy_name: "p",
        namespace: "ns".to_string(),
        similarity_threshold: Single { bits: 0.92f32.to_bits() },
        ttl_seconds: 3600,
        exact_caching: true,
        bypass_on_stream: true,
        prompt_extractor: "openai".to_string(),
        cache_response_status_codes: vec![200, 201],
        failure_mode: "fail_open".to_string(),
    }
}

fn pair(k: &str, v: &str) -> (String, String) {
    (k.to_string(), v.to_string())
}

#[test]
fn body_sha_prefix_is_12_hex_chars() {
    let p = body_sha_prefix(b"hello");
    assert_eq!(p.len(), 12);
    assert!(p.chars().all(|c| c.is_ascii_hexdigit()));
}

#[test]
fn exact_kv_key_includes_namespace_and_full_sha() {
    let k = exact_kv_key("ns", b"hello");
    assert!(k.starts_with("ns:"));
    assert_eq!(k.len(), "ns:".len() + 64);
}

#[test]
fn strip_sensitive_headers_drops_auth_and_cookies() {
    let h = vec![
        ("Content-Type".into(), "application/json".into()),
        ("Authorization".into(), "Bearer x".into()),
        ("Set-Cookie".into(), "a=b".into()),
        ("X-Request-Id".into(), "abc".into()),
    ];
    let out = strip_sensitive_headers(&h);
    assert_eq!(out.len(), 2);
    assert!(out.iter().any(|(k, _)| k == "Content-Type"));
    assert!(out.iter().any(|(k, _)| k == "X-Request-Id"));
}

#[test]
fn digests_of_bodies_are_exact() {
    let sha = "2cf24dba5fb0a30e26e83b2ac5b9e29e1b161e5c1fa7425e73043362938b9824";
    assert_eq!(body_sha_full(b"hello"), sha);
    assert_eq!(body_sha_prefix(b"hello"), "2cf24dba5fb0");
    assert_eq!(exact_kv_key("ns", b"hello"), format!("ns:{sha}"));
    assert_eq!(EXACT_CACHE_KV_NAMESPACE, "ai-semantic-cache:exact");
}

#[test]
fn full_addresses_are_rejected() {
    let suffixes = ["/embeddings", "/v1/embeddings"];
    assert!(reject_service_path_with_suffix("f", "/v1", &suffixes).is_ok());
    assert!(reject_service_path_with_suffix("f", "/", &suffixes).is_ok());
    assert!(reject_service_path_with_suffix("f", "/embeddings/x", &suffixes).is_ok());
    let e = reject_service_path_with_suffix("embedder.baseUrl", "/v1/embeddings//", &suffixes)
        .unwrap_err();
    assert_eq!(
        e,
        "embedder.baseUrl must NOT include `/embeddings` — the policy appends it. Got path \
         `/v1/embeddings//`. Set the URL to the resource root (e.g. `https://api.openai.com/v1`) \
         and let the policy append the endpoint sub-path."
    );
}

#[test]
fn a_configuration_starts() {
    let d = Driver::start(settings()).unwrap();
    assert_eq!(d.engine.config.namespace, "ns");
    assert_eq!(d.engine.config.failure_mode, FailureMode::FailOpen);
    assert!(!d.engine.config.exact_caching);
    assert!(d.engine.config.bypass_on_stream);
    assert_eq!(d.engine.config.cache_response_status_codes, vec![200, 201]);
    assert_eq!(d.engine.extractor, PromptExtractor::Openai);
    assert_eq!(d.exact_ttl_ms, Some(3_600_000));
    let mut c = settings();
    c.exact_caching = false;
    c.failure_mode = "fail_closed".to_string();
    let d = Driver::start(c).unwrap();
    assert_eq!(d.exact_ttl_ms, None);
    assert_eq!(d.engine.config.failure_mode, FailureMode::FailClosed);
}

#[test]
fn every_extractor_has_its_name() {
    let names = [
        ("openai", PromptExtractor::Openai),
        ("anthropic", PromptExtractor::Anthropic),
        ("cohere", PromptExtractor::Cohere),
        ("mistral", PromptExtractor::Mistral),
        ("bedrock", PromptExtractor::Bedrock),
        ("vertex", PromptExtractor::Vertex),
    ];
    for (name, want) in names {
        let mut c = settings();
        c.prompt_extractor = name.to_string();
        assert_eq!(c.extractor().unwrap(), want);
    }
}

#[test]
fn wrong_configurations_are_refused() {
    let mut c = settings();
    c.failure_mode = "fail".to_string();
    assert_eq!(
        Driver::start(c).unwrap_err().message(""),
        "unknown failure_mode: fail"
    );
    let mut c = settings();
    c.prompt_extractor = "OpenAI".to_string();
    assert_eq!(
        Driver::start(c).unwrap_err().message(""),
        "unknown prompt_extractor: OpenAI"
    );
    let mut c = settings();
    c.prompt_extractor = "dataweave".to_string();
    assert_eq!(
        Driver::start(c).unwrap_err().message(""),
        "prompt_extractor=dataweave is not yet implemented (v2 backlog); use one of: openai, \
         anthropic, cohere, mistral, bedrock, vertex"
    );
    let mut c = settings();
    c.similarity_threshold = Single { bits: 2f32.to_bits() };
    c.failure_mode = "fail".to_string();
    assert_eq!(
        Driver::start(c).unwrap_err().message("2"),
        "threshold must be in [0.0, 1.5], got 2"
    );
}

#[test]
fn the_lifetime_of_an_exact_entry_saturates() {
    let ms = |secs: u64| {
        let mut c = settings();
        c.ttl_seconds = secs;
        c.exact_ttl_ms().unwrap()
    };
    assert_eq!(ms(0), 0);
    assert_eq!(ms(4_294_967), 4_294_967_000);
    assert_eq!(ms(4_294_968), u32::MAX);
    assert_eq!(ms(0x1_0000_0000), 0);
    assert_eq!(ms(0x1_0000_0001), 1000);
    assert_eq!(ms(u64::MAX), u32::MAX);
}

#[test]
fn a_stored_response_answers_the_identical_request() {
    let d = Driver::start(settings()).unwrap();
    let key = match d.request_filter(BODY) {
        FilterStep::LookupExact { kv_key } => kv_key,
        other => panic!("expected a lookup, got {other:?}"),
    };
    assert_eq!(key, exact_kv_key("ns", BODY));
    let decision = RequestDecision::Forward {
        key: CacheKey::new("ns", "gpt-4o", &CanonicalPrompt::from_text("x")),
        embedding: Some(vec![]),
    };
    let headers = vec![pair("Set-Cookie", "s"), pair("etag", "t")];
    let upstream = br#"{"usage":{"total_tokens":7}}"#;
    let plan = d.response_filter(&decision, BODY, 201, &headers, upstream, 99);
    let (k, entry) = plan.exact.unwrap();
    assert_eq!(k, key);
    assert_eq!(entry.usage_total_tokens, Some(7));
    assert_eq!(plan.semantic.unwrap().payload.written_at, 99);
    match d.after_lookup(BODY, Some(entry)) {
        FilterStep::Respond { response, event } => {
            assert_eq!(event, CacheEvent::HitExact);
            assert_eq!(response.status, 201);
            assert_eq!(response.body, upstream);
            assert_eq!(
                response.headers,
                vec![
                    pair("etag", "t"),
                    pair("x-cache", "hit-exact"),
                    pair("x-cache-namespace", "ns"),
                    pair("x-cache-key", &prompt_prefix()),
                ]
            );
        }
        other => panic!("expected a response, got {other:?}"),
    }
}

#[test]
fn an_exact_miss_goes_to_the_engine() {
    let d = Driver::start(settings()).unwrap();
    assert!(matches!(
        d.after_lookup(BODY, None),
        FilterStep::Engine(RequestStep::Embed(_))
    ));
    let mut c = settings();
    c.exact_caching = false;
    let d = Driver::start(c).unwrap();
    assert!(matches!(
        d.request_filter(BODY),
        FilterStep::Engine(RequestStep::Embed(_))
    ));
    assert!(matches!(
        d.request_filter(b"?"),
        FilterStep::Engine(RequestStep::Decided(RequestDecision::ForwardNoWrite {
            event: CacheEvent::SkipUnparseable
        }))
    ));
}

#[test]
fn an_exact_entry_is_a_payload() {
    let entry = ExactCacheEntry {
        status: 200,
        headers: vec![pair("a", "b")],
        body: b"x".to_vec(),
        usage_total_tokens: Some(3),
    };
    let p = exact_lookup(Some(entry)).unwrap();
    assert_eq!(p.status, 200);
    assert_eq!(p.headers, vec![pair("a", "b")]);
    assert_eq!(p.body, b"x");
    assert_eq!(p.usage_total_tokens, Some(3));
    assert_eq!(p.written_at, 0);
    assert!(exact_lookup(None).is_none());
}

#[test]
fn streams_are_bypassed_before_the_exact_cache() {
    let d = Driver::start(settings()).unwrap();
    assert!(matches!(
        d.request_filter(STREAM),
        FilterStep::Engine(RequestStep::Decided(RequestDecision::ForwardNoWrite {
            event: CacheEvent::BypassStream
        }))
    ));
    assert!(matches!(d.request_filter(b"?"), FilterStep::LookupExact { .. }));
    let mut c = settings();
    c.bypass_on_stream = false;
    let d = Driver::start(c).unwrap();
    assert!(matches!(d.request_filter(STREAM), FilterStep::LookupExact { .. }));
    let skipped = RequestStep::Decided(RequestDecision::ForwardNoWrite {
        event: CacheEvent::SkipUnparseable,
    });
    assert!(matches!(d.before_engine(skipped, b"?"), FilterStep::LookupExact { .. }));
    let bypassed = RequestStep::Decided(RequestDecision::ForwardNoWrite {
        event: CacheEvent::BypassStream,
    });
    assert!(matches!(
        d.before_engine(bypassed, b"?"),
        FilterStep::Engine(RequestStep::Decided(_))
    ));
}

#[test]
fn failed_lookups_follow_the_failure_mode() {
    let d = Driver::start(settings()).unwrap();
    assert!(matches!(
        d.after_failed_lookup(BODY, "timed out"),
        FilterStep::Engine(RequestStep::Embed(_))
    ));
    let mut c = settings();
    c.failure_mode = "fail_closed".to_string();
    let d = Driver::start(c).unwrap();
    let decision = match d.after_failed_lookup(BODY, "timed out") {
        FilterStep::Engine(RequestStep::Decided(decision)) => decision,
        other => panic!("expected a decision, got {other:?}"),
    };
    match d.verdict(decision, BODY) {
        Verdict::Refuse { status, reason, .. } => {
            assert_eq!(status, 503);
            assert_eq!(reason, "exact-cache lookup failed: timed out");
        }
        other => panic!("expected a refusal, got {other:?}"),
    }
}

#[test]
fn a_request_has_one_key_prefix() {
    let prefix = prompt_prefix();
    assert_ne!(prefix, body_sha_prefix(BODY));
    let digits = |t: &str| t.len() == 12 && t.chars().all(|c| "0123456789abcdef".contains(c));
    assert!(digits(&prefix));
    assert_eq!(request_key_prefix(PromptExtractor::Openai, BODY), prefix);
    assert_eq!(request_key_prefix(PromptExtractor::Openai, STREAM), prefix);
    let document = parse_json(BODY).unwrap();
    assert_eq!(document_key_prefix(PromptExtractor::Openai, &document, b"hello"), prefix);
    assert_eq!(
        document_key_prefix(PromptExtractor::Vertex, &document, b"hello"),
        "2cf24dba5fb0"
    );
    assert_eq!(request_key_prefix(PromptExtractor::Openai, b"hello"), "2cf24dba5fb0");
    let d = Driver::start(settings()).unwrap();
    let bypassed = RequestDecision::ForwardNoWrite { event: CacheEvent::BypassStream };
    assert_eq!(
        d.mark_response(&bypassed, STREAM),
        mark(CacheEvent::BypassStream, "ns", &prefix)
    );
    assert!(digits(&d.mark_response(&bypassed, b"?")[2].1));
    assert!(digits(&d.mark_refusal(BODY)[2].1));
    assert_eq!(
        mark(CacheEvent::Miss, "n", "k"),
        vec![
            pair("x-cache", "miss"),
            pair("x-cache-namespace", "n"),
            pair("x-cache-key", "k"),
        ]
    );
}

#[test]
fn an_exact_entry_is_stored_without_sensitive_headers() {
    let headers = vec![pair("Authorization", "x"), pair("a", "b")];
    let (k, entry) = exact_store("ns", b"hello", 200, &headers, b"body", None);
    assert_eq!(k, exact_kv_key("ns", b"hello"));
    assert_eq!(entry.headers, vec![pair("a", "b")]);
    assert_eq!(entry.body, b"body");
}

#[test]
fn verdicts_follow_decisions() {
    let d = Driver::start(settings()).unwrap();
    let refused = d.verdict(RequestDecision::FailClosed { reason: "r".to_string() }, BODY);
    match refused {
        Verdict::Refuse { status, headers, body, reason } => {
            assert_eq!(status, 503);
            assert_eq!(headers, d.mark_refusal(BODY));
            assert_eq!(
                headers,
                vec![
                    pair("x-cache", "bypass-error"),
                    pair("x-cache-namespace", "ns"),
                    pair("x-cache-key", &prompt_prefix()),
                ]
            );
            assert_eq!(body, b"semantic cache infrastructure unavailable".to_vec());
            assert_eq!(reason, "r");
        }
        other => panic!("expected a refusal, got {other:?}"),
    }
    assert!(matches!(
        d.verdict(RequestDecision::ForwardNoWrite { event: CacheEvent::BypassStream }, BODY),
        Verdict::Continue {
            decision: RequestDecision::ForwardNoWrite { event: CacheEvent::BypassStream },
            event: CacheEvent::BypassStream,
        }
    ));
    let key = CacheKey::new("ns", "m", &CanonicalPrompt::from_text("x"));
    assert!(matches!(
        d.verdict(RequestDecision::Forward { key, embedding: None }, BODY),
        Verdict::Continue {
            decision: RequestDecision::Forward { .. },
            event: CacheEvent::Miss,
        }
    ));
    let response = ReplayResponse { status: 200, headers: vec![], body: vec![] };
    assert!(matches!(
        d.verdict(
            RequestDecision::ShortCircuit { response, event: CacheEvent::HitSemantic },
            BODY
        ),
        Verdict::Respond { event: CacheEvent::HitSemantic, .. }
    ));
}

#[test]
fn forwarded_responses_carry_the_marks() {
    let d = Driver::start(settings()).unwrap();
    let key = CacheKey::new("ns", "m", &CanonicalPrompt::from_text("hello"));
    let decision = RequestDecision::Forward { key, embedding: None };
    assert_eq!(
        d.mark_response(&decision, b"body"),
        vec![
            pair("x-cache", "miss"),
            pair("x-cache-namespace", "ns"),
            pair("x-cache-key", "2cf24dba5fb0"),
        ]
    );
    let decision = RequestDecision::ForwardNoWrite { event: CacheEvent::BypassError };
    assert_eq!(
        d.mark_response(&decision, b"hello"),
        vec![
            pair("x-cache", "bypass-error"),
            pair("x-cache-namespace", "ns"),
            pair("x-cache-key", "2cf24dba5fb0"),
        ]
    );
}

#[test]
fn only_allowed_misses_are_written() {
    let d = Driver::start(settings()).unwrap();
    let forwarded = RequestDecision::Forward {
        key: CacheKey::new("ns", "m", &CanonicalPrompt::from_text("x")),
        embedding: None,
    };
    let plan = d.response_filter(&forwarded, b"q", 200, &[], b"r", 0);
    assert!(plan.exact.is_some());
    assert!(plan.semantic.is_none());
    let plan = d.response_filter(&forwarded, b"q", 429, &[], b"r", 0);
    assert!(plan.exact.is_none());
    let bypassed = RequestDecision::ForwardNoWrite { event: CacheEvent::BypassError };
    let plan = d.response_filter(&bypassed, b"q", 200, &[], b"r", 0);
    assert!(plan.exact.is_none() && plan.semantic.is_none());
    let mut c = settings();
    c.exact_caching = false;
    let d = Driver::start(c).unwrap();
    assert!(d.response_filter(&forwarded, b"q", 200, &[], b"r", 0).exact.is_none());
}

#[test]
fn usage_is_read_off_the_body() {
    assert_eq!(extract_usage_total_tokens(br#"{"usage":{"total_tokens":42}}"#), Some(42));
    assert_eq!(extract_usage_total_tokens(br#"{"usage":{"total_tokens":-1}}"#), None);
    assert_eq!(extract_usage_total_tokens(br#"{"usage":{}}"#), None);
    assert_eq!(extract_usage_total_tokens(b"{}"), None);
    assert_eq!(extract_usage_total_tokens(b"no"), None);
}

#[test]
fn the_score_of_a_decorated_response() {
    let r = ReplayResponse {
        status: 200,
        headers: vec![pair("a", "b"), pair("X-Cache-SCORE", "0.9530"), pair("x-cache-score", "1")],
        body: vec![],
    };
    assert_eq!(decoration_score(&r), Some("0.9530".to_string()));
    let r = ReplayResponse { status: 200, headers: vec![], body: vec![] };
    assert_eq!(decoration_score(&r), None);
}

#[test]
fn events_are_recorded() {
    let record = log_record("p", CacheEvent::HitSemantic, Some(Single { bits: 0.5f32.to_bits() }));
    assert_eq!(record.text_field("policy"), Some("p"));
    assert_eq!(record.text_field("event"), Some("hit-semantic"));
    assert_eq!(record.get("score").unwrap().as_double_bits(), Some(0.5f64.to_bits()));
    let record = log_record("p", CacheEvent::Miss, None);
    assert!(record.get("score").is_none());
    let record = log_record("p", CacheEvent::Miss, Some(Single { bits: f32::NAN.to_bits() }));
    assert_eq!(record.get("score"), Some(&Json::Null));
    assert_ne!(record, parse_json(b"{}").unwrap());
}

#[test]
fn the_score_of_a_replay_is_read_back() {
    let payload = CachedPayload {
        status: 200,
        headers: vec![pair("a", "b")],
        body: vec![],
        usage_total_tokens: None,
        written_at: 0,
    };
    let score = Single { bits: 0.953f32.to_bits() };
    let r = build_replay(&payload, CacheEvent::HitSemantic, Some(score), "ns", "k");
    assert_eq!(decoration_score(&r), Some("0.9530".to_string()));
}

#[test]
fn keys_of_the_exact_cache_differ() {
    assert_eq!(kv_key_of("ns", "ab"), "ns:ab");
    assert_ne!(exact_kv_key("a", b"x"), exact_kv_key("b", b"x"));
    assert_ne!(exact_kv_key("a", b"x"), exact_kv_key("a", b"y"));
    assert_eq!(exact_kv_key("a", b"x"), exact_kv_key("a", b"x"));
}
