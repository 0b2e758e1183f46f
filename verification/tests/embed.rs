use ai_semantic_cache::embed::{
    check_probe, read_embedding, unreachable_embedder, OpenAICompatibleEmbedderConfig,
};
use ai_semantic_cache::error::EmbedError;
use ai_semantic_cache::json::{parse_json, Json};
use ai_semantic_cache::store::Method;

fn cfg(scheme: &str, header: &str, key: Option<&str>) -> OpenAICompatibleEmbedderConfig {
    OpenAICompatibleEmbedderConfig {
        base_url: "https://api.openai.com/v1".to_string(),
        model: "text-embedding-3-small".to_string(),
        api_key: key.map(String::from),
        auth_header: header.to_string(),
        auth_scheme: scheme.to_string(),
        dimension: 1536,
        timeout_ms: 5000,
    }
}

#[test]
fn bearer_authorization() {
    let c = cfg("Bearer", "Authorization", Some("sk-abc"));
    let (h, v) = c.auth_header_value().unwrap();
    assert_eq!(h, "Authorization");
    assert_eq!(v, "Bearer sk-abc");
}

#[test]
fn azure_raw_key_header() {
    let c = cfg("", "api-key", Some("k"));
    let (h, v) = c.auth_header_value().unwrap();
    assert_eq!(h, "api-key");
    assert_eq!(v, "k");
}

#[test]
fn x_api_key_header() {
    let c = cfg("", "X-API-Key", Some("k"));
    let (h, v) = c.auth_header_value().unwrap();
    assert_eq!(h, "X-API-Key");
    assert_eq!(v, "k");
}

#[test]
fn no_api_key_means_no_auth_header() {
    let c = cfg("Bearer", "Authorization", None);
    assert!(c.auth_header_value().is_none());
}

#[test]
fn embeddings_url_trims_trailing_slash() {
    let mut c = cfg("Bearer", "Authorization", Some("k"));
    c.base_url = "https://x.example.com/v1/".to_string();
    assert_eq!(c.embeddings_url(), "https://x.example.com/v1/embeddings");
}

#[test]
fn embeddings_url_of_the_root() {
    let mut c = cfg("Bearer", "Authorization", Some("k"));
    c.base_url = "///".to_string();
    assert_eq!(c.embeddings_url(), "/embeddings");
}

#[test]
fn request_carries_model_input_and_dimension() {
    let mut c = cfg("Bearer", "Authorization", Some("sk"));
    c.base_url = "/v1".to_string();
    let call = c.request("hello");
    assert_eq!(call.method, Method::Post);
    assert_eq!(call.path, "/v1/embeddings");
    assert_eq!(call.timeout_ms, 5000);
    assert_eq!(
        call.headers,
        vec![
            ("content-type".to_string(), "application/json".to_string()),
            ("Authorization".to_string(), "Bearer sk".to_string()),
        ]
    );
    let body = call.body.unwrap();
    assert_eq!(body.text_field("model"), Some("text-embedding-3-small"));
    assert_eq!(body.text_field("input"), Some("hello"));
    assert_eq!(body.get("dimensions").unwrap().as_u64(), Some(1536));
    assert_eq!(
        body,
        parse_json(br#"{"model":"text-embedding-3-small","input":"hello","dimensions":1536}"#)
            .map(|j| match j {
                // The parser yields the fields in alphabetical order.
                Json::Object(mut f) => {
                    f.sort_by_key(|(k, _)| match k.as_str() {
                        "model" => 0,
                        "input" => 1,
                        _ => 2,
                    });
                    Json::Object(f)
                }
                other => other,
            })
            .unwrap()
    );
    assert_eq!(cfg("", "h", None).request("x").headers.len(), 1);
}

#[test]
fn reply_gives_the_vector() {
    let mut c = cfg("", "", None);
    c.dimension = 3;
    let v = c
        .reply(200, br#"{"data":[{"embedding":[0.1,-2,"x",1e-50]}]}"#)
        .unwrap();
    let got: Vec<f32> = v.iter().map(|s| f32::from_bits(s.bits)).collect();
    assert_eq!(got, vec![0.1f32, -2.0, 0.0]);
}

#[test]
fn reply_reports_each_error() {
    let mut c = cfg("", "", None);
    c.dimension = 2;
    assert!(matches!(c.reply(401, b"no"), Err(EmbedError::Unauthorized)));
    match c.reply(503, b"dead \xff") {
        Err(EmbedError::Upstream { status, body }) => {
            assert_eq!(status, 503);
            assert_eq!(body, "dead \u{fffd}");
        }
        _ => panic!("expected an upstream error"),
    }
    match c.reply(65536 + 200, br#"{"data":[{"embedding":[1]}]}"#) {
        Err(EmbedError::DimensionMismatch { expected, got }) => {
            assert_eq!((expected, got), (2, 1));
        }
        _ => panic!("expected a dimension mismatch"),
    }
    match c.reply(200, b"{") {
        Err(EmbedError::Malformed(m)) => {
            assert_eq!(m, serde_json::from_slice::<serde_json::Value>(b"{").unwrap_err().to_string());
        }
        _ => panic!("expected a malformed reply"),
    }
    for body in [&b"{}"[..], br#"{"data":[]}"#, br#"{"data":[{"embedding":"x"}]}"#] {
        match c.reply(299, body) {
            Err(EmbedError::Malformed(m)) => assert_eq!(m, "missing data[0].embedding"),
            _ => panic!("expected a malformed reply"),
        }
    }
}

#[test]
fn embedding_is_read_off_a_document() {
    let doc = parse_json(br#"{"data":[{"embedding":[1,2]},{"embedding":[3]}]}"#).unwrap();
    let v = read_embedding(2, &doc).unwrap();
    assert_eq!(v[0].bits, 1f32.to_bits());
    assert_eq!(v[1].bits, 2f32.to_bits());
}

#[test]
fn an_unsent_call_has_no_status() {
    assert_eq!(unreachable_embedder("refused").message(), "embedder: upstream 0: refused");
}

#[test]
fn only_a_vector_of_another_size_refuses_a_configuration() {
    let mut c = cfg("", "", None);
    c.dimension = 2;
    let answer = c.reply(200, br#"{"data":[{"embedding":[1,2,3]}]}"#);
    assert_eq!(
        check_probe(&answer),
        Some("embedder: dimension mismatch: expected 2, got 3".to_string())
    );
    assert_eq!(check_probe(&c.reply(200, br#"{"data":[{"embedding":[1,2]}]}"#)), None);
    assert_eq!(check_probe(&c.reply(200, br#"{"ok":true}"#)), None);
    assert_eq!(check_probe(&c.reply(401, b"")), None);
    assert_eq!(check_probe(&Err(unreachable_embedder("refused"))), None);
}
