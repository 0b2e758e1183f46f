//! The Pinecone serverless REST API as a vector store: `/vectors/upsert`,
//! `/query` with a metadata filter, `/vectors/fetch` and `/vectors/delete`.

use vstd::prelude::*;
use vstd::utf8::*;

use crate::digest;
use crate::error::{StoreError, StoreFault};
use crate::ieee::Single;
use crate::json;
use crate::json::{Json, JsonTree};
use crate::key;
use crate::key::{CacheKey, KeyView};
use crate::store;
use crate::store::{Call, CallView, Candidate, CandidateView, Method};
use crate::text;

verus! {

/// A Pinecone index. `base_path` is the path of its address, to which the paths
/// of the API are appended.
#[derive(Debug)]
pub struct PineconeStore {
    pub base_path: String,
    pub api_key: String,
    pub timeout_ms: Option<i64>,
}

// ---------------------------------------------------------------------
// Keys in ids
// ---------------------------------------------------------------------

/// The place of the first colon, or the end where there is none.
pub open spec fn first_colon(s: Seq<char>) -> nat
    decreases s.len(),
{
    if s.len() == 0 || s[0] == ':' {
        0
    } else {
        1 + first_colon(s.drop_first())
    }
}

/// What stands before the first colon.
pub open spec fn before_colon(s: Seq<char>) -> Seq<char> {
    s.take(first_colon(s) as int)
}

/// What stands behind the first colon; nothing where there is none.
pub open spec fn behind_colon(s: Seq<char>) -> Seq<char> {
    if first_colon(s) < s.len() {
        s.skip(first_colon(s) as int + 1)
    } else {
        seq![]
    }
}

/// The place of the last colon of a text that has one.
pub open spec fn last_colon(s: Seq<char>) -> nat
    decreases s.len(),
{
    if s.len() == 0 {
        0
    } else if s.last() == ':' {
        (s.len() - 1) as nat
    } else {
        last_colon(s.drop_last())
    }
}

/// The key that an id spells: the namespace before its first colon, the digest
/// behind its last one and the model between them. An id with a single colon has
/// no digest.
pub open spec fn key_of_id(id: Seq<char>) -> KeyView {
    let first = first_colon(id) as int;
    let last = last_colon(id) as int;
    if first < last {
        KeyView {
            namespace: id.take(first),
            model: id.subrange(first + 1, last),
            prompt_sha: id.skip(last + 1),
        }
    } else {
        KeyView { namespace: before_colon(id), model: behind_colon(id), prompt_sha: seq![] }
    }
}

/// The first colon is at most at the end, and no colon stands before it.
proof fn lemma_first_colon(s: Seq<char>)
    ensures
        first_colon(s) <= s.len(),
        first_colon(s) < s.len() ==> s[first_colon(s) as int] == ':',
        forall|i: int| 0 <= i < first_colon(s) ==> s[i] != ':',
    decreases s.len(),
{
    if s.len() > 0 && s[0] != ':' {
        let t = s.drop_first();
        lemma_first_colon(t);
        assert forall|i: int| 0 <= i < first_colon(s) implies s[i] != ':' by {
            if i > 0 {
                assert(s[i] == t[i - 1]);
            }
        }
        if first_colon(s) < s.len() {
            assert(s[first_colon(s) as int] == t[first_colon(t) as int]);
        }
    }
}

/// The first colon is the one that no colon stands before.
proof fn lemma_first_colon_at(s: Seq<char>, n: nat)
    requires
        n <= s.len(),
        n < s.len() ==> s[n as int] == ':',
        forall|i: int| 0 <= i < n ==> s[i] != ':',
    ensures
        first_colon(s) == n,
{
    lemma_first_colon(s);
    if first_colon(s) < n {
        assert(s[first_colon(s) as int] != ':');
    }
    if n < first_colon(s) {
        assert(s[n as int] != ':');
    }
}

/// The last colon is the one that no colon stands behind.
proof fn lemma_last_colon_at(s: Seq<char>, n: nat)
    requires
        n < s.len(),
        s[n as int] == ':',
        forall|i: int| n < i < s.len() ==> s[i] != ':',
    ensures
        last_colon(s) == n,
    decreases s.len(),
{
    if n < s.len() - 1 {
        let t = s.drop_last();
        assert(s[s.len() - 1] != ':');
        assert forall|i: int| n < i < t.len() implies t[i] != ':' by {
            assert(t[i] == s[i]);
        }
        lemma_last_colon_at(t, n);
    }
}

/// A text without a colon has no last one.
proof fn lemma_no_last_colon(s: Seq<char>)
    requires
        forall|i: int| 0 <= i < s.len() ==> s[i] != ':',
    ensures
        last_colon(s) == 0,
    decreases s.len(),
{
    if s.len() > 0 {
        let t = s.drop_last();
        assert(s[s.len() - 1] != ':');
        assert forall|i: int| 0 <= i < t.len() implies t[i] != ':' by {
            assert(t[i] == s[i]);
        }
        lemma_no_last_colon(t);
    }
}

/// Reads the key that an id spells.
pub fn read_id(id: &str) -> (r: CacheKey)
    ensures
        r@ == key_of_id(id@),
{
    let chars = text::chars_of(id);
    let n: usize = chars.len();
    let mut first: usize = 0;
    while first < n && chars[first] != ':'
        invariant
            chars@ == id@,
            n == chars@.len(),
            first <= n,
            forall|j: int| 0 <= j < first ==> id@[j] != ':',
        decreases n - first,
    {
        first += 1;
    }
    proof {
        lemma_first_colon_at(id@, first as nat);
    }
    assert(chars@.subrange(0, first as int) =~= id@.take(first as int));
    let namespace = text::text_of(&chars, 0, first);
    if first == n {
        proof {
            lemma_no_last_colon(id@);
        }
        return CacheKey { namespace, model: String::new(), prompt_sha: String::new() };
    }
    let mut last: usize = n - 1;
    while chars[last] != ':'
        invariant
            chars@ == id@,
            n == chars@.len(),
            first <= last < n,
            id@[first as int] == ':',
            forall|j: int| last < j < n ==> id@[j] != ':',
        decreases last,
    {
        last -= 1;
    }
    proof {
        lemma_last_colon_at(id@, last as nat);
    }
    if first == last {
        assert(chars@.subrange(first + 1, n as int) =~= behind_colon(id@));
        let model = text::text_of(&chars, first + 1, n);
        return CacheKey { namespace, model, prompt_sha: String::new() };
    }
    assert(chars@.subrange(last + 1, n as int) =~= id@.skip(last + 1));
    CacheKey {
        namespace,
        model: text::text_of(&chars, first + 1, last),
        prompt_sha: text::text_of(&chars, last + 1, n),
    }
}

/// A text without colons.
pub open spec fn colon_free(s: Seq<char>) -> bool {
    forall|i: int| 0 <= i < s.len() ==> #[trigger] s[i] != ':'
}

/// The key of a prompt has a digest without colons, whatever its namespace and its
/// model hold.
pub proof fn digests_are_colon_free(namespace: Seq<char>, model: Seq<char>, prompt: Seq<char>)
    ensures
        colon_free(key::key_of(namespace, model, prompt).prompt_sha),
{
    digest::hex_text_is_hex(digest::sha256(encode_utf8(prompt)));
}

/// The digest of a key is what stands behind the last colon of its id, whatever
/// the namespace and the model hold.
proof fn lemma_id_ends_in_digest(key: KeyView)
    requires
        colon_free(key.prompt_sha),
    ensures
        key_of_id(key.redis_key()).prompt_sha == key.prompt_sha,
        last_colon(key.redis_key()) == key.namespace.len() + 1 + key.model.len(),
        first_colon(key.redis_key()) <= key.namespace.len(),
{
    let id = key.redis_key();
    let n = key.namespace.len() as int;
    let last = (n + 1 + key.model.len()) as nat;
    assert(id[last as int] == ':');
    assert forall|i: int| last < i < id.len() implies id[i] != ':' by {
        assert(id[i] == key.prompt_sha[i - last - 1]);
    }
    lemma_last_colon_at(id, last);
    lemma_first_colon(id);
    assert(id[n] == ':');
    assert(id.skip(last as int + 1) =~= key.prompt_sha);
}

/// The id of an entry spells its key, if neither the namespace nor the digest has
/// a colon. The model may have any number.
pub proof fn id_spells_key(key: KeyView)
    requires
        colon_free(key.namespace),
        colon_free(key.prompt_sha),
    ensures
        key_of_id(key.redis_key()) == key,
{
    let id = key.redis_key();
    let n = key.namespace.len();
    lemma_id_ends_in_digest(key);
    assert forall|i: int| 0 <= i < n implies id[i] != ':' by {
        assert(id[i] == key.namespace[i]);
    }
    lemma_first_colon_at(id, n);
    assert(id.take(n as int) =~= key.namespace);
    assert(id.subrange(n as int + 1, last_colon(id) as int) =~= key.model);
}

// ---------------------------------------------------------------------
// Calls
// ---------------------------------------------------------------------

/// What is stored beside the vector of an entry.
pub open spec fn metadata(key: KeyView, payload_json: Seq<char>) -> JsonTree {
    JsonTree::Object(
        seq![
            ("namespace"@, JsonTree::Text(key.namespace)),
            ("model"@, JsonTree::Text(key.model)),
            ("payload"@, JsonTree::Text(payload_json)),
        ],
    )
}

/// The body of an upsert: one vector, whose id is the composite cache key.
pub open spec fn upsert_body(
    key: KeyView,
    vector: Seq<Single>,
    payload_json: Seq<char>,
) -> JsonTree {
    JsonTree::Object(
        seq![
            (
                "vectors"@,
                JsonTree::Array(
                    seq![
                        JsonTree::Object(
                            seq![
                                ("id"@, JsonTree::Text(key.redis_key())),
                                ("values"@, json::vector_tree(vector)),
                                ("metadata"@, metadata(key, payload_json)),
                            ],
                        ),
                    ],
                ),
            ),
        ],
    )
}

/// The condition that a field has that text.
pub open spec fn equals(value: Seq<char>) -> JsonTree {
    JsonTree::Object(seq![("$eq"@, JsonTree::Text(value))])
}

/// The body of a query: the vector, how many entries are wanted, and the filter
/// on namespace and model.
pub open spec fn query_body(
    namespace: Seq<char>,
    model: Seq<char>,
    vector: Seq<Single>,
    k: usize,
) -> JsonTree {
    JsonTree::Object(
        seq![
            ("vector"@, json::vector_tree(vector)),
            ("topK"@, json::unsigned_tree(k as u64)),
            ("includeMetadata"@, JsonTree::Bool(true)),
            (
                "filter"@,
                JsonTree::Object(
                    seq![("namespace"@, equals(namespace)), ("model"@, equals(model))],
                ),
            ),
        ],
    )
}

/// The body of a deletion.
pub open spec fn delete_body(key: KeyView) -> JsonTree {
    JsonTree::Object(
        seq![("ids"@, JsonTree::Array(seq![JsonTree::Text(key.redis_key())]))],
    )
}

impl PineconeStore {
    /// A path of the API on the host of the index.
    pub open spec fn path(self, path: Seq<char>) -> Seq<char> {
        text::without_trailing_slashes(self.base_path@) + path
    }

    /// The headers of a call without a body.
    pub open spec fn get_headers(self) -> Seq<(Seq<char>, Seq<char>)> {
        seq![("Api-Key"@, self.api_key@), ("X-Pinecone-API-Version"@, "2025-01"@)]
    }

    /// The headers of a call with a body.
    pub open spec fn post_headers(self) -> Seq<(Seq<char>, Seq<char>)> {
        seq![
            ("content-type"@, "application/json"@),
            ("Api-Key"@, self.api_key@),
            ("X-Pinecone-API-Version"@, "2025-01"@),
        ]
    }

    /// A call that posts a body.
    pub open spec fn post(self, path: Seq<char>, body: JsonTree) -> CallView {
        CallView {
            method: Method::Post,
            path: self.path(path),
            headers: self.post_headers(),
            body: Some(body),
            timeout_ms: store::timeout_of(self.timeout_ms),
        }
    }

    /// A path of the API on the host of the index.
    pub fn full_path(&self, path: &str) -> (r: String)
        ensures
            r@ == self.path(path@),
    {
        let base = text::trim_trailing_slashes(self.base_path.as_str());
        text::join2(base.as_str(), path)
    }

    fn json_post(&self, path: &str, body: Json) -> (r: Call)
        ensures
            r@ == self.post(path@, body@),
    {
        let mut headers = store::no_headers();
        store::push_header(&mut headers, "content-type", "application/json");
        store::push_header(&mut headers, "Api-Key", self.api_key.as_str());
        store::push_header(&mut headers, "X-Pinecone-API-Version", "2025-01");
        assert(store::header_views(headers@) =~= self.post_headers());
        Call {
            method: Method::Post,
            path: self.full_path(path),
            headers,
            body: Some(body),
            timeout_ms: store::timeout(self.timeout_ms),
        }
    }

    /// `POST /vectors/upsert` with one vector. The vector ID is the composite
    /// cache key; metadata carries `namespace` and `model` so a query can filter
    /// on them.
    pub fn upsert(&self, key: &CacheKey, vector: &[Single], payload_json: &str) -> (r: Call)
        ensures
            r@ == self.post("/vectors/upsert"@, upsert_body(key@, vector@, payload_json@)),
    {
        let id = key.as_redis_key();
        let metadata = json::object3(
            "namespace",
            Json::text(key.namespace.as_str()),
            "model",
            Json::text(key.model.as_str()),
            "payload",
            Json::text(payload_json),
        );
        let entry = json::object3(
            "id",
            Json::text(id.as_str()),
            "values",
            json::vector(vector),
            "metadata",
            metadata,
        );
        self.json_post("/vectors/upsert", json::object1("vectors", json::array1(entry)))
    }

    /// `POST /query` with metadata filter on `(namespace, model)` and `topK = k`.
    pub fn query_topk(&self, namespace: &str, model: &str, vector: &[Single], k: usize) -> (r: Call)
        ensures
            r@ == self.post("/query"@, query_body(namespace@, model@, vector@, k)),
    {
        let filter = json::object2(
            "namespace",
            json::object1("$eq", Json::text(namespace)),
            "model",
            json::object1("$eq", Json::text(model)),
        );
        let body = json::object4(
            "vector",
            json::vector(vector),
            "topK",
            json::unsigned(k as u64),
            "includeMetadata",
            Json::Bool(true),
            "filter",
            filter,
        );
        self.json_post("/query", body)
    }

    /// `GET /vectors/fetch?ids=<id>`.
    pub fn get_exact(&self, key: &CacheKey) -> (r: Call)
        ensures
            r@ == (CallView {
                method: Method::Get,
                path: self.path("/vectors/fetch?ids="@ + key@.redis_key()),
                headers: self.get_headers(),
                body: None,
                timeout_ms: store::timeout_of(self.timeout_ms),
            }),
    {
        let id = key.as_redis_key();
        let mut headers = store::no_headers();
        store::push_header(&mut headers, "Api-Key", self.api_key.as_str());
        store::push_header(&mut headers, "X-Pinecone-API-Version", "2025-01");
        assert(store::header_views(headers@) =~= self.get_headers());
        Call {
            method: Method::Get,
            path: self.full_path(text::join2("/vectors/fetch?ids=", id.as_str()).as_str()),
            headers,
            body: None,
            timeout_ms: store::timeout(self.timeout_ms),
        }
    }

    /// `POST /vectors/delete` with the id of the entry.
    pub fn delete(&self, key: &CacheKey) -> (r: Call)
        ensures
            r@ == self.post("/vectors/delete"@, delete_body(key@)),
    {
        let id = key.as_redis_key();
        self.json_post(
            "/vectors/delete",
            json::object1("ids", json::array1(Json::text(id.as_str()))),
        )
    }
}

// ---------------------------------------------------------------------
// Replies
// ---------------------------------------------------------------------

/// The text of `metadata.payload`.
pub open spec fn payload_text(entry: JsonTree) -> Option<Seq<char>> {
    match entry.get("metadata"@) {
        Some(m) => m.text_field("payload"@),
        None => None,
    }
}

/// The key of an entry, which is the one that its id spells. An id with more than
/// two colons can be split in several ways: the metadata tell where the namespace
/// ends, if what they name is what the id holds.
pub open spec fn entry_key(id: Seq<char>, metadata: JsonTree) -> KeyView {
    let spelled = key_of_id(id);
    match (metadata.text_field("namespace"@), metadata.text_field("model"@)) {
        (Some(namespace), Some(model)) => {
            let named = KeyView { namespace, model, prompt_sha: spelled.prompt_sha };
            if named.redis_key() == id {
                named
            } else {
                spelled
            }
        },
        _ => spelled,
    }
}

/// What an entry of a query's reply gives: its key, its score and its cached
/// text; nothing where it has no such text.
pub open spec fn candidate_of(entry: JsonTree) -> Option<CandidateView> {
    match payload_text(entry) {
        Some(cached) => Some(
            CandidateView {
                key: entry_key(
                    store::text_or_empty(entry, "id"@),
                    entry.get("metadata"@)->0,
                ),
                score: store::score_of(entry, "score"@),
                cached,
            },
        ),
        None => None,
    }
}

/// The candidates among the entries of a reply, in order.
pub open spec fn candidates_among(entries: Seq<JsonTree>) -> Seq<CandidateView>
    decreases entries.len(),
{
    if entries.len() == 0 {
        seq![]
    } else {
        let before = candidates_among(entries.drop_last());
        match candidate_of(entries.last()) {
            Some(c) => before.push(c),
            None => before,
        }
    }
}

/// The candidates of a query's reply: those under `matches`.
pub open spec fn candidates_of(document: JsonTree) -> Seq<CandidateView> {
    match document.items_field("matches"@) {
        Some(entries) => candidates_among(entries),
        None => seq![],
    }
}

/// The cached text of a fetch's reply, `{vectors: {<id>: {metadata: {...}}}}`.
pub open spec fn exact_text(key: KeyView, document: JsonTree) -> Option<Seq<char>> {
    match document.get("vectors"@) {
        Some(vectors) => match vectors.get(key.redis_key()) {
            Some(entry) => payload_text(entry),
            None => None,
        },
        None => None,
    }
}

/// What the reply to a query gives.
pub open spec fn query_answer(code: u32, body: Seq<u8>) -> Result<Seq<CandidateView>, StoreFault> {
    match store::reply_document(code, body) {
        Ok(document) => Ok(candidates_of(document)),
        Err(e) => Err(e),
    }
}

/// What the reply to a fetch gives.
pub open spec fn exact_answer(key: KeyView, code: u32, body: Seq<u8>) -> Result<
    Option<Seq<char>>,
    StoreFault,
> {
    match store::lookup_document(code, body) {
        Ok(Some(document)) => Ok(exact_text(key, document)),
        Ok(None) => Ok(None),
        Err(e) => Err(e),
    }
}

fn read_entry_key(id: &str, metadata: &Json) -> (r: CacheKey)
    ensures
        r@ == entry_key(id@, metadata@),
{
    let spelled = read_id(id);
    match (metadata.text_field("namespace"), metadata.text_field("model")) {
        (Some(namespace), Some(model)) => {
            let named = CacheKey {
                namespace: text::owned(namespace),
                model: text::owned(model),
                prompt_sha: spelled.prompt_sha.clone(),
            };
            let named_id = named.as_redis_key();
            if text::same_text(named_id.as_str(), id) {
                named
            } else {
                spelled
            }
        },
        _ => spelled,
    }
}

fn read_candidate(entry: &Json) -> (r: Option<Candidate>)
    ensures
        (match r {
            Some(c) => Some(c@),
            None => None,
        }) == candidate_of(entry@),
{
    let metadata = match entry.get("metadata") {
        Some(m) => m,
        None => return None,
    };
    let cached = match metadata.text_field("payload") {
        Some(t) => t,
        None => return None,
    };
    let id = store::read_text(entry, "id");
    Some(
        Candidate {
            key: read_entry_key(id.as_str(), metadata),
            score: store::read_score(entry, "score"),
            cached: text::owned(cached),
        },
    )
}

/// Reads the candidates of a query's reply.
pub fn read_candidates(document: &Json) -> (r: Vec<Candidate>)
    ensures
        store::candidate_views(r@) == candidates_of(document@),
{
    let mut out: Vec<Candidate> = Vec::new();
    assert(store::candidate_views(out@) =~= seq![]);
    let entries = match document.items_field("matches") {
        Some(e) => e,
        None => return out,
    };
    let ghost all = json::trees(entries@);
    assert(all.take(0) =~= seq![]);
    let mut i: usize = 0;
    while i < entries.len()
        invariant
            i <= entries@.len(),
            all == json::trees(entries@),
            store::candidate_views(out@) == candidates_among(all.take(i as int)),
        decreases entries@.len() - i,
    {
        let ghost before = out@;
        proof {
            assert(all.take(i + 1).drop_last() =~= all.take(i as int));
            assert(all.take(i + 1).last() == entries@[i as int]@);
        }
        if let Some(c) = read_candidate(&entries[i]) {
            out.push(c);
            assert(store::candidate_views(out@) =~= store::candidate_views(before).push(c@));
        }
        i += 1;
    }
    assert(all.take(i as int) =~= all);
    out
}

/// Reads the cached text of a fetch's reply.
pub fn read_exact(key: &CacheKey, document: &Json) -> (r: Option<String>)
    ensures
        (match r {
            Some(t) => Some(t@),
            None => None,
        }) == exact_text(key@, document@),
{
    let id = key.as_redis_key();
    let vectors = match document.get("vectors") {
        Some(v) => v,
        None => return None,
    };
    let entry = match vectors.get(id.as_str()) {
        Some(e) => e,
        None => return None,
    };
    let metadata = match entry.get("metadata") {
        Some(m) => m,
        None => return None,
    };
    match metadata.text_field("payload") {
        Some(t) => Some(text::owned(t)),
        None => None,
    }
}

/// Reads the reply to a query.
pub fn query_reply(code: u32, body: &[u8]) -> (r: Result<Vec<Candidate>, StoreError>)
    ensures
        (match r {
            Ok(v) => Ok(store::candidate_views(v@)),
            Err(e) => Err(e@),
        }) == query_answer(code, body@),
{
    match store::read_reply(code, body) {
        Ok(document) => Ok(read_candidates(&document)),
        Err(e) => Err(e),
    }
}

/// Reads the reply to a fetch.
pub fn exact_reply(key: &CacheKey, code: u32, body: &[u8]) -> (r: Result<
    Option<String>,
    StoreError,
>)
    ensures
        (match r {
            Ok(Some(t)) => Ok(Some(t@)),
            Ok(None) => Ok(None),
            Err(e) => Err(e@),
        }) == exact_answer(key@, code, body@),
{
    match store::read_lookup(code, body) {
        Ok(Some(document)) => Ok(read_exact(key, &document)),
        Ok(None) => Ok(None),
        Err(e) => Err(e),
    }
}

// ---------------------------------------------------------------------
// Laws
// ---------------------------------------------------------------------

/// The metadata of an entry hold what was upserted.
proof fn lemma_metadata(key: KeyView, payload_json: Seq<char>)
    ensures
        metadata(key, payload_json).text_field("namespace"@) == Some(key.namespace),
        metadata(key, payload_json).text_field("model"@) == Some(key.model),
        metadata(key, payload_json).text_field("payload"@) == Some(payload_json),
{
    reveal_strlit("namespace");
    reveal_strlit("model");
    reveal_strlit("payload");
    assert("namespace"@.len() == 9);
    assert("model"@.len() == 5);
    assert("payload"@.len() == 7);
    let fields = metadata(key, payload_json)->Object_0;
    reveal_with_fuel(json::first_field, 4);
    assert(fields.drop_first()[0] == fields[1]);
    assert(fields.drop_first().drop_first()[0] == fields[2]);
}

/// The last colon of a text whose last colon is not its first character.
proof fn lemma_last_colon(s: Seq<char>)
    ensures
        0 < last_colon(s) ==> last_colon(s) < s.len() && s[last_colon(s) as int] == ':',
    decreases s.len(),
{
    if s.len() > 0 && s.last() != ':' {
        lemma_last_colon(s.drop_last());
    }
}

/// The key of an entry whose id has two colons or more is one that the id spells,
/// whatever its metadata hold.
pub proof fn entry_key_spells_id(id: Seq<char>, metadata: JsonTree)
    requires
        first_colon(id) < last_colon(id),
    ensures
        entry_key(id, metadata).redis_key() == id,
{
    lemma_first_colon(id);
    lemma_last_colon(id);
    assert(key_of_id(id).redis_key() =~= id);
}

/// An entry that the index returns with the id and the metadata that were
/// upserted gives back the key and the text that were upserted, whatever the
/// namespace and the model hold.
pub proof fn upserted_entry_is_found(entry: JsonTree, key: KeyView, payload_json: Seq<char>)
    requires
        colon_free(key.prompt_sha),
        entry.get("id"@) == Some(JsonTree::Text(key.redis_key())),
        entry.get("metadata"@) == Some(metadata(key, payload_json)),
    ensures
        candidate_of(entry) == Some(
            CandidateView {
                key,
                score: store::score_of(entry, "score"@),
                cached: payload_json,
            },
        ),
{
    lemma_metadata(key, payload_json);
    lemma_id_ends_in_digest(key);
}

/// An entry whose metadata hold the text alone gives back the key as its id
/// spells it: the one that was upserted, if the namespace has no colon.
pub proof fn id_alone_gives_key(
    entry: JsonTree,
    metadata: JsonTree,
    key: KeyView,
    payload_json: Seq<char>,
)
    requires
        colon_free(key.namespace),
        colon_free(key.prompt_sha),
        entry.get("id"@) == Some(JsonTree::Text(key.redis_key())),
        entry.get("metadata"@) == Some(metadata),
        metadata.text_field("namespace"@) is None,
        metadata.text_field("model"@) is None,
        metadata.text_field("payload"@) == Some(payload_json),
    ensures
        candidate_of(entry) == Some(
            CandidateView {
                key,
                score: store::score_of(entry, "score"@),
                cached: payload_json,
            },
        ),
{
    id_spells_key(key);
}

/// A fetch that returns the metadata that were upserted under the id of the key
/// gives back the text that was upserted.
pub proof fn upserted_entry_is_fetched(
    document: JsonTree,
    vectors: JsonTree,
    entry: JsonTree,
    key: KeyView,
    payload_json: Seq<char>,
)
    requires
        document.get("vectors"@) == Some(vectors),
        vectors.get(key.redis_key()) == Some(entry),
        entry.get("metadata"@) == Some(metadata(key, payload_json)),
    ensures
        exact_text(key, document) == Some(payload_json),
{
    lemma_metadata(key, payload_json);
}

/// Every query is filtered by the server on the namespace and the model, so that
/// no entry of another model or namespace is returned.
pub proof fn query_filters_namespace_and_model(
    namespace: Seq<char>,
    model: Seq<char>,
    vector: Seq<Single>,
    k: usize,
)
    ensures
        query_body(namespace, model, vector, k).get("filter"@) matches Some(f) && {
            &&& f.get("namespace"@) == Some(equals(namespace))
            &&& f.get("model"@) == Some(equals(model))
        },
{
    reveal_strlit("vector");
    reveal_strlit("topK");
    reveal_strlit("includeMetadata");
    reveal_strlit("filter");
    reveal_strlit("namespace");
    reveal_strlit("model");
    assert("vector"@[0] == 'v');
    assert("filter"@[0] == 'f');
    assert("topK"@.len() == 4);
    assert("includeMetadata"@.len() == 15);
    assert("namespace"@.len() == 9);
    assert("model"@.len() == 5);
    assert("filter"@.len() == 6);
    reveal_with_fuel(json::first_field, 5);
    let fields = query_body(namespace, model, vector, k)->Object_0;
    assert(fields.drop_first()[0] == fields[1]);
    assert(fields.drop_first().drop_first()[0] == fields[2]);
    assert(fields.drop_first().drop_first().drop_first()[0] == fields[3]);
    let filter = fields[3].1->Object_0;
    assert(filter.drop_first()[0] == filter[1]);
}

/// The candidates of a reply are read one by one, in order: those of two lists
/// behind each other are those of the one, and behind them those of the other.
pub proof fn candidates_are_read_in_order(a: Seq<JsonTree>, b: Seq<JsonTree>)
    ensures
        candidates_among(a + b) == candidates_among(a) + candidates_among(b),
    decreases b.len(),
{
    if b.len() == 0 {
        assert(a + b =~= a);
        assert(candidates_among(a) + candidates_among(b) =~= candidates_among(a));
    } else {
        candidates_are_read_in_order(a, b.drop_last());
        assert((a + b).drop_last() =~= a + b.drop_last());
        assert((a + b).last() == b.last());
        assert(candidates_among(a + b) =~= candidates_among(a) + candidates_among(b));
    }
}

/// An entry with a cached text is a candidate, and one without is left out.
pub proof fn entries_with_text_are_candidates(document: JsonTree, entry: JsonTree)
    requires
        document.items_field("matches"@) == Some(seq![entry]),
    ensures
        match candidate_of(entry) {
            Some(c) => candidates_of(document) == seq![c],
            None => candidates_of(document).len() == 0,
        },
{
    assert(seq![entry].drop_last() =~= seq![]);
    assert(candidates_among(seq![]) =~= seq![]);
    if let Some(c) = candidate_of(entry) {
        assert(candidates_among(seq![entry]) =~= seq![c]);
    }
}

/// A query asks for the entries nearest to that very vector, for that many of them
/// and for their metadata, and every entry must have the namespace and the model.
pub proof fn query_asks_for_the_nearest(
    namespace: Seq<char>,
    model: Seq<char>,
    vector: Seq<Single>,
    k: usize,
)
    ensures
        ({
            let body = query_body(namespace, model, vector, k);
            let filter = body.get("filter"@)->0;
            &&& body.get("vector"@) == Some(json::vector_tree(vector))
            &&& body.get("topK"@) is Some && body.get("topK"@)->0.unsigned() == Some(k as u64)
            &&& body.get("includeMetadata"@) == Some(JsonTree::Bool(true))
            &&& body.get("filter"@) is Some
            &&& filter.get("namespace"@) is Some && filter.get("namespace"@)->0.text_field("$eq"@)
                == Some(namespace)
            &&& filter.get("model"@) is Some && filter.get("model"@)->0.text_field("$eq"@) == Some(
                model,
            )
        }),
{
    query_filters_namespace_and_model(namespace, model, vector, k);
    reveal_strlit("vector");
    reveal_strlit("topK");
    reveal_strlit("includeMetadata");
    assert("vector"@.len() == 6);
    assert("topK"@.len() == 4);
    assert("includeMetadata"@.len() == 15);
    let fields = query_body(namespace, model, vector, k)->Object_0;
    json::first_field_counts(fields, 0, "vector"@);
    json::first_field_counts(fields, 1, "topK"@);
    json::first_field_counts(fields, 2, "includeMetadata"@);
    json::first_field_counts(equals(namespace)->Object_0, 0, "$eq"@);
    json::first_field_counts(equals(model)->Object_0, 0, "$eq"@);
}

/// What is upserted is one entry: its id is the text of the key, beside the vector
/// its metadata hold the namespace and the model that a query filters on and the
/// cached text, and reading it gives the key and the text back. The deletion of
/// the key names the same id.
pub proof fn upserted_vector_is_found_again(
    key: KeyView,
    vector: Seq<Single>,
    payload_json: Seq<char>,
)
    requires
        colon_free(key.prompt_sha),
    ensures
        ({
            let entries = upsert_body(key, vector, payload_json).items_field("vectors"@)->0;
            let entry = entries[0];
            let beside = entry.get("metadata"@)->0;
            let dropped = delete_body(key).items_field("ids"@)->0;
            &&& upsert_body(key, vector, payload_json).items_field("vectors"@) is Some
            &&& entries.len() == 1
            &&& entry.text_field("id"@) == Some(key.redis_key())
            &&& entry.get("values"@) == Some(json::vector_tree(vector))
            &&& beside.text_field("namespace"@) == Some(key.namespace)
            &&& beside.text_field("model"@) == Some(key.model)
            &&& candidate_of(entry) is Some
            &&& candidate_of(entry)->0.key == key
            &&& candidate_of(entry)->0.cached == payload_json
            &&& delete_body(key).items_field("ids"@) is Some && dropped.len() == 1
            &&& dropped[0].text() == Some(key.redis_key())
        }),
{
    reveal_strlit("id");
    reveal_strlit("values");
    reveal_strlit("metadata");
    assert("id"@.len() == 2);
    assert("values"@.len() == 6);
    assert("metadata"@.len() == 8);
    let up = upsert_body(key, vector, payload_json);
    json::first_field_counts(up->Object_0, 0, "vectors"@);
    let entry = up->Object_0[0].1->Array_0[0];
    let fields = entry->Object_0;
    json::first_field_counts(fields, 0, "id"@);
    json::first_field_counts(fields, 1, "values"@);
    json::first_field_counts(fields, 2, "metadata"@);
    lemma_metadata(key, payload_json);
    upserted_entry_is_found(entry, key, payload_json);
    json::first_field_counts(delete_body(key)->Object_0, 0, "ids"@);
}

/// Calls with a body go to the host of the index, under its address without its
/// trailing slashes, and carry the key and the version of the API.
pub proof fn calls_carry_the_key(store: PineconeStore, path: Seq<char>, body: JsonTree)
    ensures
        ({
            let call = store.post(path, body);
            &&& call.method == Method::Post
            &&& call.body == Some(body)
            &&& call.path == text::without_trailing_slashes(store.base_path@) + path
            &&& call.timeout_ms == store::timeout_of(store.timeout_ms)
            &&& call.headers == seq![("content-type"@, "application/json"@)] + store.get_headers()
            &&& store.get_headers() == seq![
                ("Api-Key"@, store.api_key@),
                ("X-Pinecone-API-Version"@, "2025-01"@),
            ]
        }),
{
    assert(store.post_headers() =~= seq![("content-type"@, "application/json"@)]
        + store.get_headers());
}

/// A fetch takes the entry of the key itself; a missing one is nothing found, and
/// an error stays one.
pub proof fn fetch_takes_the_entry_of_the_key(
    key: KeyView,
    code: u32,
    body: Seq<u8>,
    document: JsonTree,
    other: KeyView,
)
    requires
        code <= 0xffff,
    ensures
        code == 404 ==> exact_answer(key, code, body) == Ok::<Option<Seq<char>>, StoreFault>(None),
        code != 404 && (code < 200 || code > 299) ==> exact_answer(key, code, body) is Err,
        code < 200 || code > 299 ==> query_answer(code, body) is Err,
        200 <= code <= 299 && body.len() > 0 && json::json_parse(body) == Ok::<
            JsonTree,
            Seq<char>,
        >(document) ==> {
            &&& exact_answer(key, code, body) == Ok::<Option<Seq<char>>, StoreFault>(
                exact_text(key, document),
            )
            &&& query_answer(code, body) == Ok::<Seq<CandidateView>, StoreFault>(
                candidates_of(document),
            )
        },
        document.get("vectors"@) matches Some(vectors) ==> vectors.get(
            key.redis_key(),
        ) is None ==> exact_text(key, document) is None,
        key.redis_key() == other.redis_key() ==> exact_text(key, document) == exact_text(
            other,
            document,
        ),
{
}

/// An entry is a candidate exactly if its metadata hold a payload: with that text
/// and the score of the entry.
pub proof fn candidate_is_read_off_the_entry(entry: JsonTree)
    ensures
        candidate_of(entry) is Some <==> entry.get("metadata"@) is Some && entry.get(
            "metadata"@,
        )->0.text_field("payload"@) is Some,
        candidate_of(entry) matches Some(c) ==> {
            &&& entry.get("metadata"@)->0.text_field("payload"@) == Some(c.cached)
            &&& c.score == store::score_of(entry, "score"@)
        },
        entry.items_field("matches"@) is None ==> candidates_of(entry).len() == 0,
{
}

/// Metadata that do not spell the id are passed over.
pub proof fn other_metadata_are_passed_over(
    id: Seq<char>,
    metadata: JsonTree,
    namespace: Seq<char>,
    model: Seq<char>,
)
    requires
        metadata.text_field("namespace"@) == Some(namespace),
        metadata.text_field("model"@) == Some(model),
        forall|sha: Seq<char>|
            id != #[trigger] (KeyView { namespace, model, prompt_sha: sha }).redis_key(),
    ensures
        entry_key(id, metadata) == key_of_id(id),
{
}

/// An id with one colon spells a namespace and a model, and one without any a
/// namespace alone.
pub proof fn short_ids_spell_less(a: Seq<char>, b: Seq<char>)
    requires
        colon_free(a),
        colon_free(b),
    ensures
        key_of_id(a + seq![':'] + b) == (KeyView { namespace: a, model: b, prompt_sha: seq![] }),
        key_of_id(a) == (KeyView { namespace: a, model: seq![], prompt_sha: seq![] }),
{
    let id = a + seq![':'] + b;
    let n = a.len();
    assert forall|i: int| 0 <= i < n implies id[i] != ':' by {
        assert(id[i] == a[i]);
    }
    assert forall|i: int| n < i < id.len() implies id[i] != ':' by {
        assert(id[i] == b[i - n - 1]);
    }
    lemma_first_colon_at(id, n);
    lemma_last_colon_at(id, n);
    assert(id.take(n as int) =~= a);
    assert(id.skip(n as int + 1) =~= b);
    lemma_first_colon_at(a, n);
    lemma_no_last_colon(a);
    assert(a.take(n as int) =~= a);
}

} // verus!
