use ai_semantic_cache::config::{FailureMode, Threshold, Ttl};
use ai_semantic_cache::engine::{
    sanitize_headers, Engine, EngineConfig, RequestDecision, RequestStep,
};
use ai_semantic_cache::error::{EmbedError, StoreError};
use ai_semantic_cache::extract::PromptExtractor;
use ai_semantic_cache::ieee::Single;
use ai_semantic_cache::key::{CacheKey, CanonicalPrompt};
use ai_semantic_cache::replay::CacheEvent;
use ai_semantic_cache::store::{CachedPayload, Match};
use std::cell::Cell;
use std::collections::HashMap;

fn num(v: f32) -> Single {
    Single { bits: v.to_bits() }
}

struct FakeEmbedder {
    fixed: Vec<Single>,
    fail: bool,
}

impl FakeEmbedder {
    fn embed(&self, _text: &str) -> Result<Vec<Single>, EmbedError> {
        if self.fail {
            Err(EmbedError::Timeout)
        } else {
            Ok(self.fixed.clone())
        }
    }
}

#[derive(Default)]
struct FakeStore {
    exact: HashMap<String, CachedPayload>,
    topk: HashMap<(String, String), Vec<(CacheKey, f32, CachedPayload)>>,
    fail_query: bool,
    fail_exact: bool,
    queries: Cell<u32>,
}

impl FakeStore {
    fn query_topk(&self, ns: &str, model: &str, _k: usize) -> Result<Vec<Match>, StoreError> {
        self.queries.set(self.queries.get() + 1);
        if self.fail_query {
            return Err(StoreError::Timeout);
        }
        Ok(match self.topk.get(&(ns.to_string(), model.to_string())) {
            Some(v) => v
                .iter()
                .map(|(key, score, payload)| Match {
                    key: key.clone(),
                    score: num(*score),
                    payload: payload.clone(),
                })
                .collect(),
            None => Vec::new(),
        })
    }

    fn get_exact(&self, key: &CacheKey) -> Result<Option<CachedPayload>, StoreError> {
        self.queries.set(self.queries.get() + 1);
        if self.fail_exact {
            return Err(StoreError::Malformed("bad".to_string()));
        }
        Ok(self.exact.get(&key.as_redis_key()).cloned())
    }
}

fn cfg() -> EngineConfig {
    EngineConfig {
        namespace: "ns".to_string(),
        similarity_threshold: Threshold::new(num(0.92)).unwrap(),
        ttl: Ttl::from_seconds(3600),
        exact_caching: true,
        bypass_on_stream: true,
        cache_response_status_codes: vec![200],
        failure_mode: FailureMode::FailOpen,
    }
}

fn engine() -> Engine {
    Engine { config: cfg(), extractor: PromptExtractor::Openai }
}

/// Drives an engine with the answers of the fakes.
fn on_request(e: &Engine, body: &[u8], emb: &FakeEmbedder, st: &FakeStore) -> RequestDecision {
    let mut step = e.on_request(body);
    loop {
        step = match step {
            RequestStep::Decided(d) => return d,
            RequestStep::GetExact(p) => {
                let found = st.get_exact(&p.key);
                e.on_exact(p, found)
            }
            RequestStep::Embed(p) => {
                let embedded = emb.embed(p.prompt.as_str());
                e.on_embedding(p, embedded)
            }
            RequestStep::Query { pending, embedding, k } => {
                let found = st.query_topk(&pending.key.namespace, &pending.key.model, k);
                RequestStep::Decided(e.on_matches(pending, embedding, found))
            }
        };
    }
}

fn working() -> FakeEmbedder {
    FakeEmbedder { fixed: vec![num(0.1); 4], fail: false }
}

fn failing() -> FakeEmbedder {
    FakeEmbedder { fixed: vec![num(0.1); 4], fail: true }
}

fn cached(body: &[u8], tokens: Option<u64>) -> CachedPayload {
    CachedPayload {
        status: 200,
        headers: vec![],
        body: body.to_vec(),
        usage_total_tokens: tokens,
        written_at: 0,
    }
}

fn hi_key() -> CacheKey {
    CacheKey::new("ns", "gpt-4o", &CanonicalPrompt::from_messages(&[("user", "hi")]))
}

const HI: &[u8] = br#"{"model":"gpt-4o","messages":[{"role":"user","content":"hi"}]}"#;

#[test]
fn miss_returns_forward_with_embedding() {
    let body = br#"{"model":"gpt-4o","messages":[{"role":"user","content":"hi"}]}"#;
    match on_request(&engine(), body, &working(), &FakeStore::default()) {
        RequestDecision::Forward { embedding: Some(v), .. } => assert_eq!(v.len(), 4),
        other => panic!("expected Forward, got {other:?}"),
    }
}

#[test]
fn bypass_on_stream_short_circuits_no_lookup() {
    let body = br#"{"model":"gpt-4o","stream":true,"messages":[{"role":"user","content":"hi"}]}"#;
    let store = FakeStore::default();
    match on_request(&engine(), body, &failing(), &store) {
        RequestDecision::ForwardNoWrite { event: CacheEvent::BypassStream } => {}
        other => panic!("expected BypassStream, got {other:?}"),
    }
    assert_eq!(store.queries.get(), 0);
}

#[test]
fn unparseable_body_short_circuits() {
    let body = b"not json";
    match on_request(&engine(), body, &working(), &FakeStore::default()) {
        RequestDecision::ForwardNoWrite { event: CacheEvent::SkipUnparseable } => {}
        other => panic!("expected SkipUnparseable, got {other:?}"),
    }
}

#[test]
fn fail_open_on_embedder_error_means_forward_no_write() {
    let body = br#"{"model":"gpt-4o","messages":[{"role":"user","content":"hi"}]}"#;
    match on_request(&engine(), body, &failing(), &FakeStore::default()) {
        RequestDecision::ForwardNoWrite { event: CacheEvent::BypassError } => {}
        other => panic!("expected BypassError, got {other:?}"),
    }
}

#[test]
fn fail_closed_on_embedder_error_returns_failclosed() {
    let body = br#"{"model":"gpt-4o","messages":[{"role":"user","content":"hi"}]}"#;
    let mut e = engine();
    e.config.failure_mode = FailureMode::FailClosed;
    match on_request(&e, body, &failing(), &FakeStore::default()) {
        RequestDecision::FailClosed { reason } => assert_eq!(reason, "embedder: embedder: timeout"),
        other => panic!("expected FailClosed, got {other:?}"),
    }
}

#[test]
fn semantic_hit_above_threshold() {
    let body = br#"{"model":"gpt-4o","messages":[{"role":"user","content":"hi"}]}"#;
    let mut store = FakeStore::default();
    let prompt = CanonicalPrompt::from_messages(&[("user", "hi")]);
    let key = CacheKey::new("ns", "gpt-4o", &prompt);
    store.topk.insert(
        ("ns".to_string(), "gpt-4o".to_string()),
        vec![(key, 0.95, cached(b"cached", Some(10)))],
    );
    match on_request(&engine(), body, &working(), &store) {
        RequestDecision::ShortCircuit { event: CacheEvent::HitSemantic, response } => {
            assert_eq!(response.body, b"cached");
        }
        other => panic!("expected HitSemantic, got {other:?}"),
    }
}

#[test]
fn semantic_miss_below_threshold() {
    let body = br#"{"model":"gpt-4o","messages":[{"role":"user","content":"hi"}]}"#;
    let mut store = FakeStore::default();
    let key = CacheKey::new("ns", "gpt-4o", &CanonicalPrompt::from_messages(&[("user", "hi")]));
    store.topk.insert(
        ("ns".to_string(), "gpt-4o".to_string()),
        vec![(key, 0.85, cached(b"old", None))],
    );
    match on_request(&engine(), body, &working(), &store) {
        RequestDecision::Forward { .. } => {}
        other => panic!("expected Forward, got {other:?}"),
    }
}

#[test]
fn exact_hit_short_circuits_without_embedding() {
    let body = br#"{"model":"gpt-4o","messages":[{"role":"user","content":"hi"}]}"#;
    let mut store = FakeStore::default();
    let key = CacheKey::new("ns", "gpt-4o", &CanonicalPrompt::from_messages(&[("user", "hi")]));
    store.exact.insert(key.as_redis_key(), cached(b"x", None));
    let embedder = FakeEmbedder { fixed: vec![num(0.0); 4], fail: true };
    match on_request(&engine(), body, &embedder, &store) {
        RequestDecision::ShortCircuit { event: CacheEvent::HitExact, .. } => {}
        other => panic!("expected HitExact, got {other:?}"),
    }
}

#[test]
fn on_response_writes_only_for_allowed_status() {
    let body = br#"{"model":"gpt-4o","messages":[{"role":"user","content":"hi"}]}"#;
    let e = engine();
    let dec = on_request(&e, body, &working(), &FakeStore::default());
    assert!(e.on_response(&dec, 429, &[], b"err", None, 7).is_none());
    let w = e.on_response(&dec, 200, &[], b"ok", Some(50), 7).unwrap();
    assert_eq!(w.key, hi_key());
    assert_eq!(w.embedding, vec![num(0.1); 4]);
    assert_eq!(w.ttl, Ttl::from_seconds(3600));
    assert_eq!(w.payload.status, 200);
    assert_eq!(w.payload.body, b"ok");
    assert_eq!(w.payload.usage_total_tokens, Some(50));
    assert_eq!(w.payload.written_at, 7);
}

#[test]
fn sanitize_strips_sensitive_and_hop_by_hop_headers() {
    let headers = vec![
        ("Content-Type".into(), "application/json".into()),
        ("Authorization".into(), "Bearer secret".into()),
        ("Set-Cookie".into(), "sid=abc".into()),
        ("WWW-Authenticate".into(), "Basic".into()),
        ("Connection".into(), "keep-alive".into()),
        ("Transfer-Encoding".into(), "chunked".into()),
        ("X-Request-Id".into(), "r-1".into()),
    ];
    let out = sanitize_headers(&headers);
    let names: Vec<&str> = out.iter().map(|(k, _)| k.as_str()).collect();
    assert!(names.contains(&"Content-Type"));
    assert!(names.contains(&"X-Request-Id"));
    assert!(!names.iter().any(|k| k.eq_ignore_ascii_case("authorization")));
    assert!(!names.iter().any(|k| k.eq_ignore_ascii_case("set-cookie")));
    assert!(!names.iter().any(|k| k.eq_ignore_ascii_case("www-authenticate")));
    assert!(!names.iter().any(|k| k.eq_ignore_ascii_case("connection")));
    assert!(!names.iter().any(|k| k.eq_ignore_ascii_case("transfer-encoding")));
}

#[test]
fn every_sensitive_header_is_stripped() {
    let names = [
        "authorization",
        "Proxy-Authenticate",
        "PROXY-AUTHORIZATION",
        "www-authenticate",
        "set-cookie",
        "Cookie",
        "connection",
        "Keep-Alive",
        "transfer-encoding",
        "TE",
        "trailer",
        "Upgrade",
    ];
    let headers: Vec<(String, String)> =
        names.iter().map(|n| (n.to_string(), "v".to_string())).collect();
    assert!(sanitize_headers(&headers).is_empty());
    let kept = vec![
        ("b".to_string(), "1".to_string()),
        ("a".to_string(), "2".to_string()),
        ("b".to_string(), "3".to_string()),
        ("cookies".to_string(), "4".to_string()),
    ];
    assert_eq!(sanitize_headers(&kept), kept);
    assert_eq!(sanitize_headers(&sanitize_headers(&kept)), kept);
}

#[test]
fn first_step_follows_the_configuration() {
    let mut e = engine();
    assert!(matches!(e.on_request(HI), RequestStep::GetExact(_)));
    e.config.exact_caching = false;
    match e.on_request(HI) {
        RequestStep::Embed(p) => {
            assert_eq!(p.key, hi_key());
            assert_eq!(p.prompt.as_str(), "user\u{1F}hi");
        }
        other => panic!("expected Embed, got {other:?}"),
    }
    e.config.bypass_on_stream = false;
    let body = br#"{"model":"gpt-4o","stream":true,"messages":[{"role":"user","content":"hi"}]}"#;
    assert!(matches!(e.on_request(body), RequestStep::Embed(_)));
    assert!(matches!(
        e.on_request(br#"{"model":"gpt-4o"}"#),
        RequestStep::Decided(RequestDecision::ForwardNoWrite { event: CacheEvent::SkipUnparseable })
    ));
}

#[test]
fn exact_hit_is_replayed_with_the_key_of_the_request() {
    let mut store = FakeStore::default();
    let mut payload = cached(b"x", None);
    payload.headers.push(("a".to_string(), "b".to_string()));
    store.exact.insert(hi_key().as_redis_key(), payload);
    match on_request(&engine(), HI, &failing(), &store) {
        RequestDecision::ShortCircuit { response, .. } => {
            let got: Vec<(&str, &str)> =
                response.headers.iter().map(|(k, v)| (k.as_str(), v.as_str())).collect();
            let prefix = hi_key().correlation_prefix();
            assert_eq!(
                got,
                vec![
                    ("a", "b"),
                    ("x-cache", "hit-exact"),
                    ("x-cache-namespace", "ns"),
                    ("x-cache-key", prefix.as_str()),
                ]
            );
        }
        other => panic!("expected HitExact, got {other:?}"),
    }
    assert_eq!(store.queries.get(), 1);
}

#[test]
fn semantic_hit_carries_the_score_and_the_key_of_the_match() {
    let mut store = FakeStore::default();
    let key = CacheKey {
        namespace: "ns".to_string(),
        model: "gpt-4o".to_string(),
        prompt_sha: "0123456789abcdef".to_string(),
    };
    store.topk.insert(
        ("ns".to_string(), "gpt-4o".to_string()),
        vec![
            (key, 0.92, cached(b"first", None)),
            (hi_key(), 0.99, cached(b"second", None)),
        ],
    );
    match on_request(&engine(), HI, &working(), &store) {
        RequestDecision::ShortCircuit { response, event } => {
            assert_eq!(event, CacheEvent::HitSemantic);
            assert_eq!(response.body, b"first");
            assert!(response.headers.contains(&("x-cache-score".to_string(), "0.9200".to_string())));
            assert!(response
                .headers
                .contains(&("x-cache-key".to_string(), "0123456789ab".to_string())));
        }
        other => panic!("expected HitSemantic, got {other:?}"),
    }
}

#[test]
fn a_threshold_above_one_turns_semantic_hits_off() {
    let mut store = FakeStore::default();
    store.topk.insert(
        ("ns".to_string(), "gpt-4o".to_string()),
        vec![(hi_key(), 1.0, cached(b"x", None))],
    );
    let mut e = engine();
    e.config.similarity_threshold = Threshold::new(num(1.01)).unwrap();
    assert!(matches!(
        on_request(&e, HI, &working(), &store),
        RequestDecision::Forward { .. }
    ));
    e.config.similarity_threshold = Threshold::new(num(1.0)).unwrap();
    assert!(matches!(
        on_request(&e, HI, &working(), &store),
        RequestDecision::ShortCircuit { .. }
    ));
}

#[test]
fn a_score_that_is_not_a_number_is_no_hit() {
    let mut store = FakeStore::default();
    store.topk.insert(
        ("ns".to_string(), "gpt-4o".to_string()),
        vec![(hi_key(), f32::NAN, cached(b"x", None))],
    );
    assert!(matches!(
        on_request(&engine(), HI, &working(), &store),
        RequestDecision::Forward { .. }
    ));
}

#[test]
fn store_errors_open_and_closed() {
    let query = FakeStore { fail_query: true, ..FakeStore::default() };
    let exact = FakeStore { fail_exact: true, ..FakeStore::default() };
    let mut e = engine();
    assert!(matches!(
        on_request(&e, HI, &working(), &query),
        RequestDecision::ForwardNoWrite { event: CacheEvent::BypassError }
    ));
    assert!(matches!(
        on_request(&e, HI, &working(), &exact),
        RequestDecision::Forward { .. }
    ));
    e.config.failure_mode = FailureMode::FailClosed;
    match on_request(&e, HI, &working(), &query) {
        RequestDecision::FailClosed { reason } => assert_eq!(reason, "store: store: timeout"),
        other => panic!("expected FailClosed, got {other:?}"),
    }
    match on_request(&e, HI, &working(), &exact) {
        RequestDecision::FailClosed { reason } => assert_eq!(reason, "store: store: malformed: bad"),
        other => panic!("expected FailClosed, got {other:?}"),
    }
}

#[test]
fn nothing_is_written_for_what_was_not_forwarded() {
    let e = engine();
    let d = RequestDecision::ForwardNoWrite { event: CacheEvent::BypassError };
    assert!(e.on_response(&d, 200, &[], b"ok", None, 0).is_none());
    let d = RequestDecision::FailClosed { reason: String::new() };
    assert!(e.on_response(&d, 200, &[], b"ok", None, 0).is_none());
    let d = RequestDecision::Forward { key: hi_key(), embedding: None };
    assert!(e.on_response(&d, 200, &[], b"ok", None, 0).is_none());
}

#[test]
fn what_is_written_holds_no_sensitive_header() {
    let e = engine();
    let d = RequestDecision::Forward { key: hi_key(), embedding: Some(vec![]) };
    let headers = vec![
        ("Set-Cookie".to_string(), "s".to_string()),
        ("etag".to_string(), "t".to_string()),
    ];
    let w = e.on_response(&d, 200, &headers, b"ok", None, 0).unwrap();
    assert_eq!(w.payload.headers, vec![("etag".to_string(), "t".to_string())]);
}
