use ai_semantic_cache::azure::{self, AzureAiSearchStore};
use ai_semantic_cache::error::StoreError;
use ai_semantic_cache::ieee::Single;
use ai_semantic_cache::json::{parse_json, Json};
use ai_semantic_cache::key::CacheKey;
use ai_semantic_cache::pinecone::{self, PineconeStore};
use ai_semantic_cache::qdrant::{self, QdrantStore};
use ai_semantic_cache::store::Method;
use serde_json::Value;

fn key() -> CacheKey {
    CacheKey {
        namespace: "team-a".to_string(),
        model: "gpt-4o".to_string(),
        prompt_sha: "ab12".to_string(),
    }
}

fn vector() -> Vec<Single> {
    vec![Single { bits: 0.5f32.to_bits() }, Single { bits: (-1f32).to_bits() }]
}

fn headers(h: &[(&str, &str)]) -> Vec<(String, String)> {
    h.iter().map(|(k, v)| (k.to_string(), v.to_string())).collect()
}

/// A document of the library as one of `serde_json`, for comparison.
fn value(j: &Json) -> Value {
    match j {
        Json::Null => Value::Null,
        Json::Bool(b) => Value::Bool(*b),
        Json::Number(n) => match n.unsigned {
            Some(u) => Value::from(u),
            None => Value::from(f64::from_bits(n.double_bits.unwrap())),
        },
        Json::Text(s) => Value::String(s.clone()),
        Json::Array(v) => Value::Array(v.iter().map(value).collect()),
        Json::Object(f) => Value::Object(f.iter().map(|(k, v)| (k.clone(), value(v))).collect()),
    }
}

fn expect(body: &Option<Json>, want: &str) {
    let want: Value = serde_json::from_str(want).unwrap();
    assert_eq!(value(body.as_ref().unwrap()), want);
}

fn pinecone_store(path: &str) -> PineconeStore {
    PineconeStore {
        base_path: path.to_string(),
        api_key: "pc".to_string(),
        timeout_ms: None,
    }
}

fn qdrant_store(path: &str, api_key: Option<&str>) -> QdrantStore {
    QdrantStore {
        base_path: path.to_string(),
        collection: "c".to_string(),
        api_key: api_key.map(String::from),
        timeout_ms: Some(100),
    }
}

fn azure_store() -> AzureAiSearchStore {
    AzureAiSearchStore {
        base_path: "/".to_string(),
        index_name: "idx".to_string(),
        api_key: "az".to_string(),
        api_version: None,
        vector_field: None,
        timeout_ms: None,
    }
}

#[test]
fn pinecone_upsert() {
    let call = pinecone_store("/").upsert(&key(), &vector(), "{\"p\":1}");
    assert_eq!(call.method, Method::Post);
    assert_eq!(call.path, "/vectors/upsert");
    assert_eq!(call.timeout_ms, 5000);
    assert_eq!(
        call.headers,
        headers(&[
            ("content-type", "application/json"),
            ("Api-Key", "pc"),
            ("X-Pinecone-API-Version", "2025-01"),
        ])
    );
    expect(
        &call.body,
        r#"{"vectors":[{"id":"team-a:gpt-4o:ab12","values":[0.5,-1.0],"metadata":
            {"namespace":"team-a","model":"gpt-4o","payload":"{\"p\":1}"}}]}"#,
    );
}

#[test]
fn pinecone_query() {
    let call = pinecone_store("/base//").query_topk("ns", "m", &vector(), 1);
    assert_eq!(call.path, "/base/query");
    expect(
        &call.body,
        r#"{"vector":[0.5,-1.0],"topK":1,"includeMetadata":true,
            "filter":{"namespace":{"$eq":"ns"},"model":{"$eq":"m"}}}"#,
    );
}

#[test]
fn pinecone_fetch_and_delete() {
    let call = pinecone_store("").get_exact(&key());
    assert_eq!(call.method, Method::Get);
    assert_eq!(call.path, "/vectors/fetch?ids=team-a:gpt-4o:ab12");
    assert_eq!(
        call.headers,
        headers(&[("Api-Key", "pc"), ("X-Pinecone-API-Version", "2025-01")])
    );
    assert!(call.body.is_none());
    let call = pinecone_store("").delete(&key());
    assert_eq!(call.path, "/vectors/delete");
    expect(&call.body, r#"{"ids":["team-a:gpt-4o:ab12"]}"#);
}

#[test]
fn pinecone_query_reply() {
    let found = pinecone::query_reply(
        200,
        br#"{"matches":[
            {"id":"team-a:gpt-4o:ab:12","score":0.97,"metadata":{"payload":"x"}},
            {"id":"one","metadata":{"payload":"y"}},
            {"id":"one:two","score":1,"metadata":{"payload":"z"}},
            {"score":"1","metadata":{"payload":""}},
            {"id":"n:m:s","score":0.5,"metadata":{}},
            {"id":"n:m:s","score":0.5}
        ]}"#,
    )
    .unwrap();
    assert_eq!(found.len(), 4);
    assert_eq!(found[0].key.namespace, "team-a");
    assert_eq!(found[0].key.model, "gpt-4o:ab");
    assert_eq!(found[0].key.prompt_sha, "12");
    assert_eq!(found[0].score.bits, (0.97f64 as f32).to_bits());
    assert_eq!(found[0].cached, "x");
    assert_eq!(found[1].key.namespace, "one");
    assert_eq!(found[1].key.model, "");
    assert_eq!(found[1].score.bits, 0);
    assert_eq!(found[2].key.model, "two");
    assert_eq!(found[2].key.prompt_sha, "");
    assert_eq!(found[2].score.bits, 1f32.to_bits());
    assert_eq!(found[3].key.namespace, "");
    assert_eq!(found[3].score.bits, 0);
    assert!(pinecone::query_reply(200, b"").unwrap().is_empty());
    assert!(pinecone::query_reply(200, b"{}").unwrap().is_empty());
    assert!(matches!(
        pinecone::query_reply(404, b""),
        Err(StoreError::Upstream { status: 404, .. })
    ));
}

#[test]
fn pinecone_gives_back_what_was_upserted() {
    let call = pinecone_store("").upsert(&key(), &vector(), "cached text");
    let body = call.body.unwrap();
    let reply = match body {
        Json::Object(mut f) => Json::Object(vec![("matches".to_string(), f.remove(0).1)]),
        _ => panic!("expected an object"),
    };
    let found = pinecone::read_candidates(&reply);
    assert_eq!(found.len(), 1);
    assert_eq!(found[0].key, key());
    assert_eq!(found[0].cached, "cached text");
}

#[test]
fn pinecone_keys_may_hold_colons() {
    let k = CacheKey {
        namespace: "ns".to_string(),
        model: "anthropic.model-v2:1".to_string(),
        prompt_sha: "abc123".to_string(),
    };
    assert_eq!(pinecone::read_id(&k.as_redis_key()), k);
    let found = pinecone::query_reply(
        200,
        br#"{"matches":[
            {"id":"ns:anthropic.model-v2:1:abc123","score":1,"metadata":{"payload":"x"}},
            {"id":"a:b:m:1:ab","metadata":{"namespace":"a:b","model":"m:1","payload":"y"}},
            {"id":"a:b:m:ab","metadata":{"namespace":7,"model":"b:m","payload":"z"}},
            {"id":"ns:m:ab","metadata":{"namespace":"other","model":"m","payload":""}},
            {"id":"a:b:m:ab","metadata":{"namespace":"a:b","payload":""}}
        ]}"#,
    )
    .unwrap();
    assert_eq!(found.len(), 5);
    assert_eq!(found[0].key, k);
    assert_eq!(found[1].key.namespace, "a:b");
    assert_eq!(found[1].key.model, "m:1");
    assert_eq!(found[1].key.prompt_sha, "ab");
    assert_eq!(found[2].key.namespace, "a");
    assert_eq!(found[2].key.model, "b:m");
    assert_eq!(found[2].key.prompt_sha, "ab");
    assert_eq!(found[3].key, pinecone::read_id("ns:m:ab"));
    assert_eq!(found[3].key.namespace, "ns");
    assert_eq!(found[4].key.namespace, "a");
    assert_eq!(found[4].key.model, "b:m");
    let mut k = k;
    k.namespace = "team:a".to_string();
    let call = pinecone_store("").upsert(&k, &vector(), "cached text");
    let reply = match call.body.unwrap() {
        Json::Object(mut f) => Json::Object(vec![("matches".to_string(), f.remove(0).1)]),
        _ => panic!("expected an object"),
    };
    assert_eq!(pinecone::read_candidates(&reply)[0].key, k);
}

#[test]
fn pinecone_fetch_reply() {
    let body = br#"{"vectors":{"team-a:gpt-4o:ab12":{"metadata":{"payload":"x"}}}}"#;
    assert_eq!(pinecone::exact_reply(&key(), 200, body).unwrap(), Some("x".to_string()));
    assert_eq!(pinecone::exact_reply(&key(), 404, b"").unwrap(), None);
    assert_eq!(pinecone::exact_reply(&key(), 200, br#"{"vectors":{}}"#).unwrap(), None);
    assert_eq!(pinecone::exact_reply(&key(), 200, b"{}").unwrap(), None);
    assert!(matches!(
        pinecone::exact_reply(&key(), 200, b""),
        Err(StoreError::Malformed(_))
    ));
    assert!(matches!(
        pinecone::exact_reply(&key(), 500, b""),
        Err(StoreError::Upstream { status: 500, .. })
    ));
}

#[test]
fn qdrant_point_ids_are_uuids() {
    // The first sixteen bytes of the digest of "team-a:gpt-4o:ab12", with the
    // version and the variant set.
    let full = ai_semantic_cache::driver::body_sha_full(b"team-a:gpt-4o:ab12");
    let id = qdrant::point_id(&key());
    assert_eq!(id.len(), 36);
    let plain: String = id.chars().filter(|c| *c != '-').collect();
    assert_eq!(&plain[0..12], &full[0..12]);
    assert_eq!(&plain[12..13], "5");
    assert_eq!(&plain[13..16], &full[13..16]);
    assert!("89ab".contains(&plain[16..17]));
    assert_eq!(&plain[17..32], &full[17..32]);
    let hyphens: Vec<usize> =
        id.char_indices().filter(|(_, c)| *c == '-').map(|(i, _)| i).collect();
    assert_eq!(hyphens, vec![8, 13, 18, 23]);
    assert_eq!(qdrant::point_id(&key()), id);
    let mut other = key();
    other.model = "gpt-4".to_string();
    assert_ne!(qdrant::point_id(&other), id);
}

#[test]
fn qdrant_upsert() {
    let call = qdrant_store("/q/", Some("qd")).upsert(&key(), &vector(), "x");
    assert_eq!(call.method, Method::Put);
    assert_eq!(call.path, "/q/collections/c/points?wait=true");
    assert_eq!(call.timeout_ms, 100);
    assert_eq!(
        call.headers,
        headers(&[("content-type", "application/json"), ("api-key", "qd")])
    );
    let want = format!(
        r#"{{"points":[{{"id":"{}","vector":[0.5,-1.0],"payload":{{"namespace":"team-a",
            "model":"gpt-4o","prompt_sha":"ab12","cached":"x"}}}}]}}"#,
        qdrant::point_id(&key())
    );
    expect(&call.body, &want);
}

#[test]
fn qdrant_search_lookup_and_delete() {
    let store = qdrant_store("/", None);
    let call = store.query_topk("ns", "m", &vector(), 1);
    assert_eq!(call.method, Method::Post);
    assert_eq!(call.path, "/collections/c/points/search");
    assert_eq!(call.headers, headers(&[("content-type", "application/json")]));
    expect(
        &call.body,
        r#"{"vector":[0.5,-1.0],"limit":1,"with_payload":true,"filter":{"must":[
            {"key":"namespace","match":{"value":"ns"}},
            {"key":"model","match":{"value":"m"}}]}}"#,
    );
    let id = qdrant::point_id(&key());
    let call = store.get_exact(&key());
    assert_eq!(call.method, Method::Post);
    assert_eq!(call.path, "/collections/c/points");
    expect(&call.body, &format!(r#"{{"ids":["{id}"],"with_payload":true}}"#));
    let call = store.delete(&key());
    assert_eq!(call.path, "/collections/c/points/delete?wait=true");
    expect(&call.body, &format!(r#"{{"points":["{id}"]}}"#));
}

#[test]
fn qdrant_replies() {
    let found = qdrant::query_reply(
        200,
        br#"{"result":[
            {"score":0.9,"payload":{"namespace":"n","model":"m","prompt_sha":"s","cached":"x"}},
            {"score":0.9},
            {"payload":{"cached":5}},
            {"payload":{"cached":"y"}}
        ]}"#,
    )
    .unwrap();
    assert_eq!(found.len(), 2);
    assert_eq!(found[0].key.as_redis_key(), "n:m:s");
    assert_eq!(found[0].score.bits, 0.9f32.to_bits());
    assert_eq!(found[1].key.as_redis_key(), "::");
    assert_eq!(found[1].cached, "y");
    // A collection that does not exist is an error of the search...
    assert!(matches!(
        qdrant::query_reply(404, b"none"),
        Err(StoreError::Upstream { status: 404, .. })
    ));
    // ...but an entry that does not exist is none of the lookup.
    assert_eq!(qdrant::exact_reply(404, b"none").unwrap(), None);
    assert_eq!(qdrant::exact_reply(200, b"").unwrap(), None);
    assert_eq!(qdrant::exact_reply(200, br#"{"result":[]}"#).unwrap(), None);
    assert_eq!(
        qdrant::exact_reply(200, br#"{"result":[{"payload":{"cached":"x"}}]}"#).unwrap(),
        Some("x".to_string())
    );
    assert!(matches!(
        qdrant::exact_reply(500, b""),
        Err(StoreError::Upstream { status: 500, .. })
    ));
}

#[test]
fn qdrant_gives_back_what_was_upserted() {
    let call = qdrant_store("", None).upsert(&key(), &vector(), "cached text");
    let points = match call.body.unwrap() {
        Json::Object(mut f) => f.remove(0).1,
        _ => panic!("expected an object"),
    };
    let reply = Json::Object(vec![("result".to_string(), points)]);
    let found = qdrant::read_candidates(&reply);
    assert_eq!(found.len(), 1);
    assert_eq!(found[0].key, key());
    assert_eq!(found[0].cached, "cached text");
    assert_eq!(qdrant::read_exact(&reply), Some("cached text".to_string()));
}

#[test]
fn azure_document_ids() {
    let mut k = key();
    assert_eq!(azure::doc_id(&k), "team-a_gpt-4o_ab12");
    k.namespace = "a:b".to_string();
    k.model = "m/1:2".to_string();
    assert_eq!(azure::doc_id(&k), "a_b_m=2F1_2_ab12");
    k.namespace = "é=b c".to_string();
    k.model = "gpt-3.5-turbo".to_string();
    assert_eq!(azure::doc_id(&k), "=C3=A9=b=20c_gpt-3=2E5-turbo_ab12");
    assert!(azure::doc_id(&k)
        .chars()
        .all(|c| c.is_ascii_alphanumeric() || c == '_' || c == '-' || c == '='));
}

#[test]
fn azure_upsert() {
    let call = azure_store().upsert(&key(), &vector(), "x");
    assert_eq!(call.method, Method::Post);
    assert_eq!(call.path, "/indexes/idx/docs/index?api-version=2024-07-01");
    assert_eq!(
        call.headers,
        headers(&[("content-type", "application/json"), ("api-key", "az")])
    );
    expect(
        &call.body,
        r#"{"value":[{"@search.action":"mergeOrUpload","id":"team-a_gpt-4o_ab12",
            "namespace":"team-a","model":"gpt-4o","prompt_sha":"ab12","cached":"x",
            "embedding":[0.5,-1.0]}]}"#,
    );
    let mut store = azure_store();
    store.vector_field = Some("cached".to_string());
    store.api_version = Some("v".to_string());
    let call = store.upsert(&key(), &vector(), "x");
    assert_eq!(call.path, "/indexes/idx/docs/index?api-version=v");
    expect(
        &call.body,
        r#"{"value":[{"@search.action":"mergeOrUpload","id":"team-a_gpt-4o_ab12",
            "namespace":"team-a","model":"gpt-4o","prompt_sha":"ab12","cached":[0.5,-1.0]}]}"#,
    );
}

#[test]
fn azure_search() {
    let mut store = azure_store();
    store.base_path = "/svc".to_string();
    store.vector_field = Some("vec".to_string());
    let call = store.query_topk("o'ns'", "m", &vector(), 1);
    assert_eq!(call.path, "/svc/indexes/idx/docs/search?api-version=2024-07-01");
    expect(
        &call.body,
        r#"{"count":false,"select":"id,namespace,model,prompt_sha,cached",
            "filter":"namespace eq 'o''ns''' and model eq 'm'",
            "vectorQueries":[{"kind":"vector","vector":[0.5,-1.0],"fields":"vec","k":1}]}"#,
    );
}

#[test]
fn azure_lookup_and_delete() {
    let mut k = key();
    k.model = "m 1/é".to_string();
    let call = azure_store().get_exact(&k);
    assert_eq!(call.method, Method::Get);
    assert_eq!(
        call.path,
        "/indexes/idx/docs/team-a_m%3D201%3D2F%3DC3%3DA9_ab12?api-version=2024-07-01"
    );
    assert!(call.body.is_none());
    let call = azure_store().delete(&key());
    assert_eq!(call.path, "/indexes/idx/docs/index?api-version=2024-07-01");
    expect(
        &call.body,
        r#"{"value":[{"@search.action":"delete","id":"team-a_gpt-4o_ab12"}]}"#,
    );
}

#[test]
fn azure_texts_are_escaped() {
    assert_eq!(azure::escape_odata("it's"), "it''s");
    assert_eq!(azure::escape_odata("''"), "''''");
    assert_eq!(azure::escape_odata(""), "");
    assert_eq!(azure::urlencode("AZaz09-_.~"), "AZaz09-_.~");
    assert_eq!(azure::urlencode("=%\n"), "%3D%25%0A");
}

#[test]
fn azure_replies() {
    let found = azure::query_reply(
        200,
        br#"{"value":[
            {"@search.score":0.75,"namespace":"n","model":"m","prompt_sha":"s","cached":"x"},
            {"@search.score":0.75}
        ]}"#,
    )
    .unwrap();
    assert_eq!(found.len(), 1);
    assert_eq!(found[0].key.as_redis_key(), "n:m:s");
    assert_eq!(found[0].score.bits, 0.75f32.to_bits());
    assert!(matches!(
        azure::query_reply(404, b""),
        Err(StoreError::Upstream { status: 404, .. })
    ));
    assert_eq!(azure::exact_reply(200, br#"{"cached":"x"}"#).unwrap(), Some("x".to_string()));
    assert_eq!(azure::exact_reply(200, b"{}").unwrap(), None);
    assert_eq!(azure::exact_reply(404, b"").unwrap(), None);
    assert!(matches!(azure::exact_reply(200, b""), Err(StoreError::Malformed(_))));
}

#[test]
fn azure_gives_back_what_was_upserted() {
    let call = azure_store().upsert(&key(), &vector(), "cached text");
    let reply = call.body.unwrap();
    let found = azure::read_candidates(&reply);
    assert_eq!(found.len(), 1);
    assert_eq!(found[0].key, key());
    assert_eq!(found[0].cached, "cached text");
    assert!(azure::read_candidates(&parse_json(b"{}").unwrap()).is_empty());
}

#[test]
fn qdrant_uuids_are_exact() {
    assert_eq!(qdrant::uuid_of(&[0xff; 32]), "ffffffff-ffff-5fff-bfff-ffffffffffff");
    assert_eq!(qdrant::uuid_of(&[0; 32]), "00000000-0000-5000-8000-000000000000");
}
