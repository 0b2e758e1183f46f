use ai_semantic_cache::error::StoreError;
use ai_semantic_cache::ieee::Single;
use ai_semantic_cache::json::Json;
use ai_semantic_cache::key::CacheKey;
use ai_semantic_cache::store::{
    decode_body, encode_body, exact_answer, matches_of, read_lookup, read_reply, read_write,
    status_of, timeout, unreachable_store, unsigned_of, CachedPayload, Candidate,
};

fn entry(n: u16) -> CachedPayload {
    CachedPayload {
        status: n,
        headers: vec![],
        body: vec![],
        usage_total_tokens: None,
        written_at: 0,
    }
}

fn candidate(sha: &str, score: f32) -> Candidate {
    Candidate {
        key: CacheKey {
            namespace: "ns".to_string(),
            model: "m".to_string(),
            prompt_sha: sha.to_string(),
        },
        score: Single { bits: score.to_bits() },
        cached: String::new(),
    }
}

#[test]
fn bodies_round_trip_through_base64() {
    for body in [&b""[..], b"f", b"fo", b"foo", b"\x00\xff\xfe{}"] {
        assert_eq!(decode_body(&encode_body(body)).unwrap(), body);
    }
    assert_eq!(encode_body(b"hello"), "aGVsbG8=");
    assert_eq!(encode_body(b"{}"), "e30=");
    assert_eq!(encode_body(b"f"), "Zg==");
    assert_eq!(encode_body(b"foo"), "Zm9v");
    assert_eq!(encode_body(b"\xfb\xef\xff\x00"), "++//AA==");
    assert_eq!(encode_body(b""), "");
    assert_eq!(decode_body("aGVsbG8=").unwrap(), b"hello");
    assert!(decode_body("aGVsbG8").is_err());
    assert!(decode_body("[1]").is_err());
}

#[test]
fn base64_texts_have_their_shape() {
    let bytes: Vec<u8> = (0..=255).collect();
    for n in 0..bytes.len() {
        let text = encode_body(&bytes[..n]);
        assert_eq!(text.len(), n.div_ceil(3) * 4);
        let digits = text.trim_end_matches('=');
        assert_eq!(text.len() - digits.len(), (3 - n % 3) % 3);
        assert!(digits.chars().all(|c| c.is_ascii_alphanumeric() || c == '+' || c == '/'));
    }
}

#[test]
fn replies_are_read() {
    assert!(read_write(200, b"").is_ok());
    assert_eq!(read_reply(204, b"").unwrap(), Json::Null);
    assert_eq!(read_reply(299, b"true").unwrap(), Json::Bool(true));
    match read_reply(404, b"gone \xff") {
        Err(StoreError::Upstream { status, body }) => {
            assert_eq!(status, 404);
            assert_eq!(body, "gone \u{fffd}");
        }
        _ => panic!("expected an upstream error"),
    }
    assert!(matches!(read_reply(300, b""), Err(StoreError::Upstream { status: 300, .. })));
    assert!(matches!(read_reply(199, b""), Err(StoreError::Upstream { status: 199, .. })));
    assert!(matches!(read_reply(200, b"{"), Err(StoreError::Malformed(_))));
    assert!(matches!(read_write(500, b""), Err(StoreError::Upstream { status: 500, .. })));
}

#[test]
fn lookups_are_read() {
    assert!(read_lookup(404, b"x").unwrap().is_none());
    assert_eq!(read_lookup(200, b"1e0").unwrap().unwrap().as_double_bits(), Some(1f64.to_bits()));
    assert!(matches!(read_lookup(200, b""), Err(StoreError::Malformed(_))));
    assert!(matches!(read_lookup(500, b""), Err(StoreError::Upstream { status: 500, .. })));
}

#[test]
fn statuses_have_sixteen_bits() {
    assert_eq!(status_of(200), 200);
    assert_eq!(status_of(0x1_00c8), 200);
}

#[test]
fn signed_settings_are_read_as_unsigned() {
    assert_eq!(timeout(None), 5000);
    assert_eq!(timeout(Some(250)), 250);
    for n in [0i64, 1, -1, i64::MIN, i64::MAX, -5000] {
        assert_eq!(unsigned_of(n), n as u64);
        assert_eq!(timeout(Some(n)), n as u64);
    }
}

#[test]
fn candidates_become_matches_in_order() {
    let found = matches_of(vec![
        (candidate("a", 0.9), Ok(entry(1))),
        (candidate("b", 0.8), Ok(entry(2))),
    ])
    .unwrap();
    assert_eq!(found.len(), 2);
    assert_eq!(found[0].key.prompt_sha, "a");
    assert_eq!(found[0].score.bits, 0.9f32.to_bits());
    assert_eq!(found[0].payload.status, 1);
    assert_eq!(found[1].payload.status, 2);
    assert!(matches_of(vec![]).unwrap().is_empty());
}

#[test]
fn an_entry_that_cannot_be_read_is_an_error() {
    let r = matches_of(vec![
        (candidate("a", 0.9), Ok(entry(1))),
        (candidate("b", 0.8), Err("first".to_string())),
        (candidate("c", 0.7), Err("second".to_string())),
    ]);
    match r {
        Err(StoreError::Malformed(m)) => assert_eq!(m, "first"),
        _ => panic!("expected a malformed entry"),
    }
}

#[test]
fn an_exact_answer_is_what_the_text_parses_to() {
    assert!(exact_answer(None).unwrap().is_none());
    assert_eq!(exact_answer(Some(Ok(entry(7)))).unwrap().unwrap().status, 7);
    match exact_answer(Some(Err("bad".to_string()))) {
        Err(StoreError::Malformed(m)) => assert_eq!(m, "bad"),
        _ => panic!("expected a malformed entry"),
    }
}

#[test]
fn an_unanswered_call_has_no_status() {
    assert_eq!(unreachable_store("refused").message(), "store: upstream 0: refused");
}
