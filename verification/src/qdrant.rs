//! The Qdrant REST API as a vector store: `PUT /collections/<name>/points`,
//! `POST .../points/search` with a payload filter, `POST .../points` and
//! `POST .../points/delete`.

use vstd::prelude::*;
use vstd::utf8::*;

use crate::digest;
use crate::error::{StoreError, StoreFault};
use crate::ieee::Single;
use crate::json;
use crate::json::{Json, JsonTree};
use crate::key::{CacheKey, KeyView};
use crate::store;
use crate::store::{Call, CallView, Candidate, CandidateView, Method};
use crate::text;

verus! {

/// A Qdrant collection. `base_path` is the path of the cluster's address, to
/// which the paths of the API are appended.
#[derive(Debug)]
pub struct QdrantStore {
    pub base_path: String,
    pub collection: String,
    pub api_key: Option<String>,
    pub timeout_ms: Option<i64>,
}

// ---------------------------------------------------------------------
// Point ids
// ---------------------------------------------------------------------

/// The first sixteen bytes of a digest, with the version (5) and the variant
/// (RFC 4122) of a UUID set.
pub open spec fn uuid_bytes(digest: Seq<u8>) -> Seq<u8> {
    digest.take(16).update(6, (digest[6] % 16 + 0x50) as u8).update(
        8,
        (digest[8] % 64 + 0x80) as u8,
    )
}

/// A UUID as text: its digits in groups of 8, 4, 4, 4 and 12.
pub open spec fn uuid_text(hex: Seq<char>) -> Seq<char> {
    hex.subrange(0, 8) + seq!['-'] + hex.subrange(8, 12) + seq!['-'] + hex.subrange(12, 16)
        + seq!['-'] + hex.subrange(16, 20) + seq!['-'] + hex.subrange(20, 32)
}

/// The shape of a UUID of version 5 and of the RFC 4122 variant: 36 characters,
/// hyphens where they belong, hexadecimal digits elsewhere.
pub open spec fn is_uuid(id: Seq<char>) -> bool {
    &&& id.len() == 36
    &&& id[8] == '-' && id[13] == '-' && id[18] == '-' && id[23] == '-'
    &&& id[14] == '5'
    &&& id[19] == '8' || id[19] == '9' || id[19] == 'a' || id[19] == 'b'
    &&& forall|i: int|
        0 <= i < 36 && i != 8 && i != 13 && i != 18 && i != 23 ==> {
            let c = #[trigger] id[i];
            '0' <= c <= '9' || 'a' <= c <= 'f'
        }
}

/// Whatever the digest, the result is a UUID.
pub proof fn digest_gives_uuid(d: Seq<u8>)
    requires
        d.len() == 32,
    ensures
        is_uuid(uuid_text(digest::hex_text(uuid_bytes(d)))),
{
    let bytes = uuid_bytes(d);
    let hex = digest::hex_text(bytes);
    digest::hex_text_is_hex(bytes);
    let id = uuid_text(hex);
    assert(hex.len() == 32);
    assert(id[14] == hex[12]);
    assert(id[19] == hex[16]);
    assert(bytes[6] as int / 16 == 5);
    assert(8 <= bytes[8] as int / 16 < 12);
    assert forall|i: int| 0 <= i < 36 && i != 8 && i != 13 && i != 18 && i != 23 implies ({
        let c = #[trigger] id[i];
        '0' <= c <= '9' || 'a' <= c <= 'f'
    }) by {
        let j = if i < 8 {
            i
        } else if i < 13 {
            i - 1
        } else if i < 18 {
            i - 2
        } else if i < 23 {
            i - 3
        } else {
            i - 4
        };
        assert(id[i] == hex[j]);
    }
}

/// The id of the point of a key: a UUID made of the digest of
/// `namespace:model:prompt_sha`.
pub open spec fn point_id_of(key: KeyView) -> Seq<char> {
    uuid_text(digest::hex_text(uuid_bytes(digest::sha256(encode_utf8(key.redis_key())))))
}

/// Makes a UUID of a digest.
pub fn uuid_of(digest: &[u8]) -> (r: String)
    requires
        digest@.len() == 32,
    ensures
        r@ == uuid_text(digest::hex_text(uuid_bytes(digest@))),
        is_uuid(r@),
{
    let mut bytes: Vec<u8> = Vec::new();
    let mut i: usize = 0;
    while i < 16
        invariant
            i <= 16,
            digest@.len() == 32,
            bytes@ == digest@.take(i as int),
        decreases 16 - i,
    {
        bytes.push(digest[i]);
        assert(digest@.take(i + 1) =~= digest@.take(i as int).push(digest@[i as int]));
        i += 1;
    }
    bytes.set(6, digest[6] % 16 + 0x50);
    bytes.set(8, digest[8] % 64 + 0x80);
    assert(bytes@ =~= uuid_bytes(digest@));
    let hex = digest::hex_encode(bytes.as_slice());
    let chars = text::chars_of(hex.as_str());
    let mut out = text::text_of(&chars, 0, 8);
    out.push('-');
    out.append(text::text_of(&chars, 8, 12).as_str());
    out.push('-');
    out.append(text::text_of(&chars, 12, 16).as_str());
    out.push('-');
    out.append(text::text_of(&chars, 16, 20).as_str());
    out.push('-');
    out.append(text::text_of(&chars, 20, 32).as_str());
    proof {
        assert(out@ =~= uuid_text(hex@));
        digest_gives_uuid(digest@);
    }
    out
}

/// Derives a deterministic UUID-shaped point id from the composite cache key.
/// Qdrant accepts numeric or UUID ids; a UUID takes 122 bits from the digest, so
/// that two keys do not meet by chance in one point.
pub fn point_id(key: &CacheKey) -> (r: String)
    ensures
        r@ == point_id_of(key@),
        is_uuid(r@),
{
    let composite = key.as_redis_key();
    let digest = digest::sha256_digest(composite.as_str().as_bytes());
    uuid_of(digest.as_slice())
}

// ---------------------------------------------------------------------
// Calls
// ---------------------------------------------------------------------

/// What is stored beside the vector of an entry.
pub open spec fn point_payload(key: KeyView, payload_json: Seq<char>) -> JsonTree {
    JsonTree::Object(
        seq![
            ("namespace"@, JsonTree::Text(key.namespace)),
            ("model"@, JsonTree::Text(key.model)),
            ("prompt_sha"@, JsonTree::Text(key.prompt_sha)),
            ("cached"@, JsonTree::Text(payload_json)),
        ],
    )
}

/// The body of an upsert: one point.
pub open spec fn upsert_body(
    key: KeyView,
    vector: Seq<Single>,
    payload_json: Seq<char>,
) -> JsonTree {
    JsonTree::Object(
        seq![
            (
                "points"@,
                JsonTree::Array(
                    seq![
                        JsonTree::Object(
                            seq![
                                ("id"@, JsonTree::Text(point_id_of(key))),
                                ("vector"@, json::vector_tree(vector)),
                                ("payload"@, point_payload(key, payload_json)),
                            ],
                        ),
                    ],
                ),
            ),
        ],
    )
}

/// The condition that a field of the payload has that text.
pub open spec fn matches_value(field: Seq<char>, value: Seq<char>) -> JsonTree {
    JsonTree::Object(
        seq![
            ("key"@, JsonTree::Text(field)),
            ("match"@, JsonTree::Object(seq![("value"@, JsonTree::Text(value))])),
        ],
    )
}

/// The conditions on every entry that a query may return.
pub open spec fn filter_conditions(namespace: Seq<char>, model: Seq<char>) -> Seq<JsonTree> {
    seq![matches_value("namespace"@, namespace), matches_value("model"@, model)]
}

/// The body of a query: the vector, how many entries are wanted, and the filter
/// on namespace and model.
pub open spec fn query_body(
    namespace: Seq<char>,
    model: Seq<char>,
    vector: Seq<Single>,
    k: usize,
) -> JsonTree {
    JsonTree::Object(
        seq![
            ("vector"@, json::vector_tree(vector)),
            ("limit"@, json::unsigned_tree(k as u64)),
            ("with_payload"@, JsonTree::Bool(true)),
            (
                "filter"@,
                JsonTree::Object(
                    seq![("must"@, JsonTree::Array(filter_conditions(namespace, model)))],
                ),
            ),
        ],
    )
}

/// The body of a lookup.
pub open spec fn exact_body(key: KeyView) -> JsonTree {
    JsonTree::Object(
        seq![
            ("ids"@, JsonTree::Array(seq![JsonTree::Text(point_id_of(key))])),
            ("with_payload"@, JsonTree::Bool(true)),
        ],
    )
}

/// The body of a deletion.
pub open spec fn delete_body(key: KeyView) -> JsonTree {
    JsonTree::Object(
        seq![("points"@, JsonTree::Array(seq![JsonTree::Text(point_id_of(key))]))],
    )
}

impl QdrantStore {
    /// A path of the API under the collection.
    pub open spec fn path(self, suffix: Seq<char>) -> Seq<char> {
        text::without_trailing_slashes(self.base_path@) + "/collections/"@ + self.collection@
            + suffix
    }

    /// The headers of a call: the key only where one is configured.
    pub open spec fn headers(self) -> Seq<(Seq<char>, Seq<char>)> {
        let first = seq![("content-type"@, "application/json"@)];
        match self.api_key {
            Some(k) => first.push(("api-key"@, k@)),
            None => first,
        }
    }

    /// A call with a body.
    pub open spec fn call(self, method: Method, suffix: Seq<char>, body: JsonTree) -> CallView {
        CallView {
            method,
            path: self.path(suffix),
            headers: self.headers(),
            body: Some(body),
            timeout_ms: store::timeout_of(self.timeout_ms),
        }
    }

    /// A path of the API under the collection.
    pub fn full_path(&self, suffix: &str) -> (r: String)
        ensures
            r@ == self.path(suffix@),
    {
        let mut out = text::trim_trailing_slashes(self.base_path.as_str());
        out.append("/collections/");
        out.append(self.collection.as_str());
        out.append(suffix);
        out
    }

    /// The headers of a call.
    pub fn auth_headers(&self) -> (r: Vec<(String, String)>)
        ensures
            store::header_views(r@) == self.headers(),
    {
        let mut headers = store::no_headers();
        store::push_header(&mut headers, "content-type", "application/json");
        if let Some(k) = &self.api_key {
            store::push_header(&mut headers, "api-key", k.as_str());
        }
        assert(store::header_views(headers@) =~= self.headers());
        headers
    }

    fn json_call(&self, method: Method, suffix: &str, body: Json) -> (r: Call)
        ensures
            r@ == self.call(method, suffix@, body@),
    {
        Call {
            method,
            path: self.full_path(suffix),
            headers: self.auth_headers(),
            body: Some(body),
            timeout_ms: store::timeout(self.timeout_ms),
        }
    }

    /// `PUT /collections/{name}/points?wait=true` with one point. The point's
    /// `payload` carries `namespace`, `model`, `prompt_sha`, and the cached HTTP
    /// response (as a JSON-encoded string).
    pub fn upsert(&self, key: &CacheKey, vector: &[Single], payload_json: &str) -> (r: Call)
        ensures
            r@ == self.call(
                Method::Put,
                "/points?wait=true"@,
                upsert_body(key@, vector@, payload_json@),
            ),
    {
        let id = point_id(key);
        let payload = json::object4(
            "namespace",
            Json::text(key.namespace.as_str()),
            "model",
            Json::text(key.model.as_str()),
            "prompt_sha",
            Json::text(key.prompt_sha.as_str()),
            "cached",
            Json::text(payload_json),
        );
        let point = json::object3(
            "id",
            Json::text(id.as_str()),
            "vector",
            json::vector(vector),
            "payload",
            payload,
        );
        self.json_call(
            Method::Put,
            "/points?wait=true",
            json::object1("points", json::array1(point)),
        )
    }

    /// `POST /collections/{name}/points/search` with payload filter on
    /// `(namespace, model)` and `limit = k`.
    pub fn query_topk(&self, namespace: &str, model: &str, vector: &[Single], k: usize) -> (r: Call)
        ensures
            r@ == self.call(
                Method::Post,
                "/points/search"@,
                query_body(namespace@, model@, vector@, k),
            ),
    {
        let by_namespace = json::object2(
            "key",
            Json::text("namespace"),
            "match",
            json::object1("value", Json::text(namespace)),
        );
        let by_model = json::object2(
            "key",
            Json::text("model"),
            "match",
            json::object1("value", Json::text(model)),
        );
        let body = json::object4(
            "vector",
            json::vector(vector),
            "limit",
            json::unsigned(k as u64),
            "with_payload",
            Json::Bool(true),
            "filter",
            json::object1("must", json::array2(by_namespace, by_model)),
        );
        self.json_call(Method::Post, "/points/search", body)
    }

    /// `POST /collections/{name}/points` with `{ ids: [<id>], with_payload: true }`.
    pub fn get_exact(&self, key: &CacheKey) -> (r: Call)
        ensures
            r@ == self.call(Method::Post, "/points"@, exact_body(key@)),
    {
        let id = point_id(key);
        let body = json::object2(
            "ids",
            json::array1(Json::text(id.as_str())),
            "with_payload",
            Json::Bool(true),
        );
        self.json_call(Method::Post, "/points", body)
    }

    /// `POST /collections/{name}/points/delete?wait=true` with the id of the point.
    pub fn delete(&self, key: &CacheKey) -> (r: Call)
        ensures
            r@ == self.call(Method::Post, "/points/delete?wait=true"@, delete_body(key@)),
    {
        let id = point_id(key);
        self.json_call(
            Method::Post,
            "/points/delete?wait=true",
            json::object1("points", json::array1(Json::text(id.as_str()))),
        )
    }
}

// ---------------------------------------------------------------------
// Replies
// ---------------------------------------------------------------------

/// What an entry of a search's reply gives: its key, its score and its cached
/// text; nothing where it has no such text.
pub open spec fn candidate_of(entry: JsonTree) -> Option<CandidateView> {
    match entry.get("payload"@) {
        Some(payload) => match payload.text_field("cached"@) {
            Some(cached) => Some(
                CandidateView {
                    key: store::key_fields(payload),
                    score: store::score_of(entry, "score"@),
                    cached,
                },
            ),
            None => None,
        },
        None => None,
    }
}

/// The candidates among the entries of a reply, in order.
pub open spec fn candidates_among(entries: Seq<JsonTree>) -> Seq<CandidateView>
    decreases entries.len(),
{
    if entries.len() == 0 {
        seq![]
    } else {
        let before = candidates_among(entries.drop_last());
        match candidate_of(entries.last()) {
            Some(c) => before.push(c),
            None => before,
        }
    }
}

/// The candidates of a search's reply: those under `result`.
pub open spec fn candidates_of(document: JsonTree) -> Seq<CandidateView> {
    match document.items_field("result"@) {
        Some(entries) => candidates_among(entries),
        None => seq![],
    }
}

/// The cached text of a lookup's reply: that of the first point under `result`.
pub open spec fn exact_text(document: JsonTree) -> Option<Seq<char>> {
    match document.items_field("result"@) {
        Some(points) => if points.len() > 0 {
            match points[0].get("payload"@) {
                Some(payload) => payload.text_field("cached"@),
                None => None,
            }
        } else {
            None
        },
        None => None,
    }
}

/// What the reply to a search gives.
pub open spec fn query_answer(code: u32, body: Seq<u8>) -> Result<Seq<CandidateView>, StoreFault> {
    match store::reply_document(code, body) {
        Ok(document) => Ok(candidates_of(document)),
        Err(e) => Err(e),
    }
}

/// What the reply to a lookup gives: nothing where the status is 404.
pub open spec fn exact_answer(code: u32, body: Seq<u8>) -> Result<Option<Seq<char>>, StoreFault> {
    if store::status16(code) == 404 {
        Ok(None)
    } else {
        match store::reply_document(code, body) {
            Ok(document) => Ok(exact_text(document)),
            Err(e) => Err(e),
        }
    }
}

fn read_candidate(entry: &Json) -> (r: Option<Candidate>)
    ensures
        (match r {
            Some(c) => Some(c@),
            None => None,
        }) == candidate_of(entry@),
{
    let payload = match entry.get("payload") {
        Some(p) => p,
        None => return None,
    };
    let cached = match payload.text_field("cached") {
        Some(t) => t,
        None => return None,
    };
    Some(
        Candidate {
            key: store::read_key(payload),
            score: store::read_score(entry, "score"),
            cached: text::owned(cached),
        },
    )
}

/// Reads the candidates of a search's reply.
pub fn read_candidates(document: &Json) -> (r: Vec<Candidate>)
    ensures
        store::candidate_views(r@) == candidates_of(document@),
{
    let mut out: Vec<Candidate> = Vec::new();
    assert(store::candidate_views(out@) =~= seq![]);
    let entries = match document.items_field("result") {
        Some(e) => e,
        None => return out,
    };
    let ghost all = json::trees(entries@);
    assert(all.take(0) =~= seq![]);
    let mut i: usize = 0;
    while i < entries.len()
        invariant
            i <= entries@.len(),
            all == json::trees(entries@),
            store::candidate_views(out@) == candidates_among(all.take(i as int)),
        decreases entries@.len() - i,
    {
        let ghost before = out@;
        proof {
            assert(all.take(i + 1).drop_last() =~= all.take(i as int));
            assert(all.take(i + 1).last() == entries@[i as int]@);
        }
        if let Some(c) = read_candidate(&entries[i]) {
            out.push(c);
            assert(store::candidate_views(out@) =~= store::candidate_views(before).push(c@));
        }
        i += 1;
    }
    assert(all.take(i as int) =~= all);
    out
}

/// Reads the cached text of a lookup's reply.
pub fn read_exact(document: &Json) -> (r: Option<String>)
    ensures
        (match r {
            Some(t) => Some(t@),
            None => None,
        }) == exact_text(document@),
{
    let points = match document.items_field("result") {
        Some(p) => p,
        None => return None,
    };
    if points.len() == 0 {
        return None;
    }
    assert(json::trees(points@)[0] == points@[0]@);
    let payload = match points[0].get("payload") {
        Some(p) => p,
        None => return None,
    };
    match payload.text_field("cached") {
        Some(t) => Some(text::owned(t)),
        None => None,
    }
}

/// Reads the reply to a search.
pub fn query_reply(code: u32, body: &[u8]) -> (r: Result<Vec<Candidate>, StoreError>)
    ensures
        (match r {
            Ok(v) => Ok(store::candidate_views(v@)),
            Err(e) => Err(e@),
        }) == query_answer(code, body@),
{
    match store::read_reply(code, body) {
        Ok(document) => Ok(read_candidates(&document)),
        Err(e) => Err(e),
    }
}

/// Reads the reply to a lookup.
pub fn exact_reply(code: u32, body: &[u8]) -> (r: Result<Option<String>, StoreError>)
    ensures
        (match r {
            Ok(Some(t)) => Ok(Some(t@)),
            Ok(None) => Ok(None),
            Err(e) => Err(e@),
        }) == exact_answer(code, body@),
{
    if store::status_of(code) == 404 {
        return Ok(None);
    }
    match store::read_reply(code, body) {
        Ok(document) => Ok(read_exact(&document)),
        Err(e) => Err(e),
    }
}

// ---------------------------------------------------------------------
// Laws
// ---------------------------------------------------------------------

/// The payload of an entry holds the text and the key that were upserted.
proof fn lemma_point_payload(key: KeyView, payload_json: Seq<char>)
    ensures
        point_payload(key, payload_json).text_field("cached"@) == Some(payload_json),
        store::key_fields(point_payload(key, payload_json)) == key,
{
    reveal_strlit("namespace");
    reveal_strlit("model");
    reveal_strlit("prompt_sha");
    reveal_strlit("cached");
    assert("namespace"@.len() == 9);
    assert("model"@.len() == 5);
    assert("prompt_sha"@.len() == 10);
    assert("cached"@.len() == 6);
    reveal_with_fuel(json::first_field, 5);
    let fields = point_payload(key, payload_json)->Object_0;
    assert(fields.drop_first()[0] == fields[1]);
    assert(fields.drop_first().drop_first()[0] == fields[2]);
    assert(fields.drop_first().drop_first().drop_first()[0] == fields[3]);
}

/// A point that a search returns with the payload that was upserted gives back
/// the key and the text that were upserted.
pub proof fn upserted_entry_is_found(entry: JsonTree, key: KeyView, payload_json: Seq<char>)
    requires
        entry.get("payload"@) == Some(point_payload(key, payload_json)),
    ensures
        candidate_of(entry) == Some(
            CandidateView {
                key,
                score: store::score_of(entry, "score"@),
                cached: payload_json,
            },
        ),
{
    lemma_point_payload(key, payload_json);
}

/// A lookup that returns the payload that was upserted gives back the text.
pub proof fn upserted_entry_is_fetched(
    document: JsonTree,
    points: Seq<JsonTree>,
    key: KeyView,
    payload_json: Seq<char>,
)
    requires
        document.items_field("result"@) == Some(points),
        points.len() > 0,
        points[0].get("payload"@) == Some(point_payload(key, payload_json)),
    ensures
        exact_text(document) == Some(payload_json),
{
    lemma_point_payload(key, payload_json);
}

/// Every search is filtered by the server on the namespace and the model.
pub proof fn query_filters_namespace_and_model(
    namespace: Seq<char>,
    model: Seq<char>,
    vector: Seq<Single>,
    k: usize,
)
    ensures
        query_body(namespace, model, vector, k).get("filter"@) matches Some(f) && f.items_field(
            "must"@,
        ) == Some(filter_conditions(namespace, model)),
{
    reveal_strlit("vector");
    reveal_strlit("limit");
    reveal_strlit("with_payload");
    reveal_strlit("filter");
    assert("vector"@[0] == 'v');
    assert("filter"@[0] == 'f');
    assert("limit"@.len() == 5);
    assert("with_payload"@.len() == 12);
    assert("filter"@.len() == 6);
    reveal_with_fuel(json::first_field, 5);
    let fields = query_body(namespace, model, vector, k)->Object_0;
    assert(fields.drop_first()[0] == fields[1]);
    assert(fields.drop_first().drop_first()[0] == fields[2]);
    assert(fields.drop_first().drop_first().drop_first()[0] == fields[3]);
}

/// The candidates of a reply are read one by one, in order: those of two lists
/// behind each other are those of the one, and behind them those of the other.
pub proof fn candidates_are_read_in_order(a: Seq<JsonTree>, b: Seq<JsonTree>)
    ensures
        candidates_among(a + b) == candidates_among(a) + candidates_among(b),
    decreases b.len(),
{
    if b.len() == 0 {
        assert(a + b =~= a);
        assert(candidates_among(a) + candidates_among(b) =~= candidates_among(a));
    } else {
        candidates_are_read_in_order(a, b.drop_last());
        assert((a + b).drop_last() =~= a + b.drop_last());
        assert((a + b).last() == b.last());
        assert(candidates_among(a + b) =~= candidates_among(a) + candidates_among(b));
    }
}

/// An entry with a cached text is a candidate, and one without is left out.
pub proof fn entries_with_text_are_candidates(document: JsonTree, entry: JsonTree)
    requires
        document.items_field("result"@) == Some(seq![entry]),
    ensures
        match candidate_of(entry) {
            Some(c) => candidates_of(document) == seq![c],
            None => candidates_of(document).len() == 0,
        },
{
    assert(seq![entry].drop_last() =~= seq![]);
    assert(candidates_among(seq![]) =~= seq![]);
    if let Some(c) = candidate_of(entry) {
        assert(candidates_among(seq![entry]) =~= seq![c]);
    }
}

/// A search asks for the entries nearest to that very vector, for that many of
/// them and for their payload, and every entry must have the namespace and the
/// model.
pub proof fn search_asks_for_the_nearest(
    namespace: Seq<char>,
    model: Seq<char>,
    vector: Seq<Single>,
    k: usize,
)
    ensures
        ({
            let body = query_body(namespace, model, vector, k);
            let must = body.get("filter"@)->0.items_field("must"@)->0;
            &&& body.get("vector"@) == Some(json::vector_tree(vector))
            &&& body.get("limit"@) is Some && body.get("limit"@)->0.unsigned() == Some(k as u64)
            &&& body.get("with_payload"@) == Some(JsonTree::Bool(true))
            &&& body.get("filter"@) is Some && body.get("filter"@)->0.items_field("must"@) is Some
            &&& must.len() == 2
            &&& must[0].text_field("key"@) == Some("namespace"@)
            &&& must[0].get("match"@) is Some && must[0].get("match"@)->0.text_field("value"@)
                == Some(namespace)
            &&& must[1].text_field("key"@) == Some("model"@)
            &&& must[1].get("match"@) is Some && must[1].get("match"@)->0.text_field("value"@)
                == Some(model)
        }),
{
    let body = query_body(namespace, model, vector, k);
    query_filters_namespace_and_model(namespace, model, vector, k);
    lemma_condition("namespace"@, namespace);
    lemma_condition("model"@, model);
    reveal_strlit("vector");
    reveal_strlit("limit");
    reveal_strlit("with_payload");
    assert("vector"@.len() == 6);
    assert("limit"@.len() == 5);
    assert("with_payload"@.len() == 12);
    let fields = body->Object_0;
    json::first_field_counts(fields, 0, "vector"@);
    json::first_field_counts(fields, 1, "limit"@);
    json::first_field_counts(fields, 2, "with_payload"@);
}

proof fn lemma_condition(field: Seq<char>, value: Seq<char>)
    ensures
        matches_value(field, value).text_field("key"@) == Some(field),
        matches_value(field, value).get("match"@) is Some,
        matches_value(field, value).get("match"@)->0.text_field("value"@) == Some(value),
{
    reveal_strlit("key");
    reveal_strlit("match");
    assert("key"@.len() == 3);
    assert("match"@.len() == 5);
    let fields = matches_value(field, value)->Object_0;
    json::first_field_counts(fields, 0, "key"@);
    json::first_field_counts(fields, 1, "match"@);
    json::first_field_counts(fields[1].1->Object_0, 0, "value"@);
}

/// What is upserted is one point: the vector, and beside it a payload with the
/// key and the cached text. A search for its namespace and model lets it pass, and
/// the lookup and the deletion of the key name the same id.
pub proof fn upserted_point_is_found_again(
    key: KeyView,
    vector: Seq<Single>,
    payload_json: Seq<char>,
)
    ensures
        ({
            let points = upsert_body(key, vector, payload_json).items_field("points"@)->0;
            let point = points[0];
            let payload = point.get("payload"@)->0;
            let asked = exact_body(key).items_field("ids"@)->0;
            let dropped = delete_body(key).items_field("points"@)->0;
            &&& upsert_body(key, vector, payload_json).items_field("points"@) is Some
            &&& points.len() == 1
            &&& point.get("vector"@) == Some(json::vector_tree(vector))
            &&& payload.text_field("namespace"@) == Some(key.namespace)
            &&& payload.text_field("model"@) == Some(key.model)
            &&& candidate_of(point) is Some
            &&& candidate_of(point)->0.key == key
            &&& candidate_of(point)->0.cached == payload_json
            &&& exact_body(key).items_field("ids"@) is Some && asked.len() == 1
            &&& exact_body(key).get("with_payload"@) == Some(JsonTree::Bool(true))
            &&& delete_body(key).items_field("points"@) is Some && dropped.len() == 1
            &&& point.text_field("id"@) == asked[0].text()
            &&& point.text_field("id"@) == dropped[0].text()
            &&& point.text_field("id"@) is Some
        }),
{
    reveal_strlit("id");
    reveal_strlit("vector");
    reveal_strlit("payload");
    reveal_strlit("ids");
    reveal_strlit("with_payload");
    reveal_strlit("namespace");
    reveal_strlit("model");
    assert("id"@.len() == 2);
    assert("vector"@.len() == 6);
    assert("payload"@.len() == 7);
    assert("ids"@.len() == 3);
    assert("with_payload"@.len() == 12);
    assert("namespace"@.len() == 9);
    assert("model"@.len() == 5);
    let up = upsert_body(key, vector, payload_json);
    json::first_field_counts(up->Object_0, 0, "points"@);
    let point = up->Object_0[0].1->Array_0[0];
    let fields = point->Object_0;
    json::first_field_counts(fields, 0, "id"@);
    json::first_field_counts(fields, 1, "vector"@);
    json::first_field_counts(fields, 2, "payload"@);
    let payload = point_payload(key, payload_json)->Object_0;
    json::first_field_counts(payload, 0, "namespace"@);
    json::first_field_counts(payload, 1, "model"@);
    upserted_entry_is_found(point, key, payload_json);
    let exact = exact_body(key)->Object_0;
    json::first_field_counts(exact, 0, "ids"@);
    json::first_field_counts(exact, 1, "with_payload"@);
    json::first_field_counts(delete_body(key)->Object_0, 0, "points"@);
}

/// The id of a point is spelled by the digest of the whole key: its first sixteen
/// bytes, but for the digits of the version and of the variant.
pub proof fn point_id_follows_the_digest(key: KeyView)
    ensures
        ({
            let d = digest::sha256(encode_utf8(key.redis_key()));
            let hex = digest::hex_text(d);
            let id = point_id_of(key);
            d.len() == 32 ==> {
                &&& id.subrange(0, 8) == hex.subrange(0, 8)
                &&& id.subrange(9, 13) == hex.subrange(8, 12)
                &&& id.subrange(15, 18) == hex.subrange(13, 16)
                &&& id.subrange(20, 23) == hex.subrange(17, 20)
                &&& id.subrange(24, 36) == hex.subrange(20, 32)
                &&& is_uuid(id)
            }
        }),
{
    let d = digest::sha256(encode_utf8(key.redis_key()));
    if d.len() == 32 {
        let hex = digest::hex_text(d);
        let own = digest::hex_text(uuid_bytes(d));
        let id = point_id_of(key);
        digest_gives_uuid(d);
        assert forall|i: int| 0 <= i < 32 && i != 12 && i != 16 implies own[i] == #[trigger] hex[i] by {
            assert(i == 13 || i == 17 || uuid_bytes(d)[i / 2] == d[i / 2]);
        }
        assert(id.subrange(0, 8) =~= hex.subrange(0, 8));
        assert(id.subrange(9, 13) =~= hex.subrange(8, 12));
        assert(id.subrange(15, 18) =~= hex.subrange(13, 16));
        assert(id.subrange(20, 23) =~= hex.subrange(17, 20));
        assert(id.subrange(24, 36) =~= hex.subrange(20, 32));
    }
}

/// Calls go to the collection, under the address of the cluster without its
/// trailing slashes, and carry the key where one is configured.
pub proof fn calls_name_the_collection(
    store: QdrantStore,
    method: Method,
    suffix: Seq<char>,
    body: JsonTree,
)
    ensures
        ({
            let call = store.call(method, suffix, body);
            let base = text::without_trailing_slashes(store.base_path@);
            &&& call.method == method
            &&& call.body == Some(body)
            &&& call.path == base + "/collections/"@ + store.collection@ + suffix
            &&& call.timeout_ms == store::timeout_of(store.timeout_ms)
            &&& store.api_key is None ==> call.headers == seq![
                ("content-type"@, "application/json"@),
            ]
            &&& store.api_key matches Some(k) ==> call.headers == seq![
                ("content-type"@, "application/json"@),
                ("api-key"@, k@),
            ]
        }),
{
    if let Some(k) = store.api_key {
        assert(store.headers() =~= seq![
            ("content-type"@, "application/json"@),
            ("api-key"@, k@),
        ]);
    }
}

/// The lookup of a key takes the first point of the reply; a missing collection or
/// point is nothing found, and another error stays one.
pub proof fn lookup_takes_the_first_point(code: u32, body: Seq<u8>, document: JsonTree)
    requires
        code <= 0xffff,
    ensures
        code == 404 ==> exact_answer(code, body) == Ok::<Option<Seq<char>>, StoreFault>(None),
        code != 404 && (code < 200 || code > 299) ==> exact_answer(code, body) is Err,
        code < 200 || code > 299 ==> query_answer(code, body) is Err,
        200 <= code <= 299 && body.len() > 0 && json::json_parse(body) == Ok::<
            JsonTree,
            Seq<char>,
        >(document) ==> {
            &&& exact_answer(code, body) == Ok::<Option<Seq<char>>, StoreFault>(
                exact_text(document),
            )
            &&& query_answer(code, body) == Ok::<Seq<CandidateView>, StoreFault>(
                candidates_of(document),
            )
        },
        document.items_field("result"@) matches Some(points) ==> points.len() == 0 ==> exact_text(
            document,
        ) is None,
{
}

/// A point is a candidate exactly if its payload holds a cached text: with that
/// text, the score of the point and the key that the payload names.
pub proof fn candidate_is_read_off_the_point(entry: JsonTree, points: JsonTree)
    ensures
        candidate_of(entry) is Some <==> entry.get("payload"@) is Some && entry.get(
            "payload"@,
        )->0.text_field("cached"@) is Some,
        candidate_of(entry) matches Some(c) ==> {
            let payload = entry.get("payload"@)->0;
            &&& payload.text_field("cached"@) == Some(c.cached)
            &&& c.score == store::score_of(entry, "score"@)
            &&& c.key.namespace == store::text_or_empty(payload, "namespace"@)
            &&& c.key.model == store::text_or_empty(payload, "model"@)
            &&& c.key.prompt_sha == store::text_or_empty(payload, "prompt_sha"@)
        },
        points.items_field("result"@) == Some(seq![entry]) ==> exact_text(points)
            == match candidate_of(entry) {
            Some(c) => Some(c.cached),
            None => None,
        },
        points.items_field("result"@) is None ==> exact_text(points) is None && candidates_of(
            points,
        ).len() == 0,
{
}

} // verus!
