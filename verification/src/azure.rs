//! The Azure AI Search REST API as a vector store: `POST .../docs/index` for
//! upserts and deletions, `POST .../docs/search` for vector search and
//! `GET .../docs/<id>` for lookups, all under `/indexes/<name>`.

use vstd::prelude::*;
use vstd::utf8::*;

use crate::error::{StoreError, StoreFault};
use crate::ieee::Single;
use crate::json;
use crate::json::{Json, JsonTree};
use crate::key::{CacheKey, KeyView};
use crate::store;
use crate::store::{Call, CallView, Candidate, CandidateView, Method};
use crate::text;

verus! {

pub const DEFAULT_VECTOR_FIELD: &'static str = "embedding";

pub const DEFAULT_API_VERSION: &'static str = "2024-07-01";

/// An Azure AI Search index. `base_path` is the path of the service's endpoint,
/// to which the paths of the API are appended.
#[derive(Debug)]
pub struct AzureAiSearchStore {
    pub base_path: String,
    pub index_name: String,
    pub api_key: String,
    pub api_version: Option<String>,
    pub vector_field: Option<String>,
    pub timeout_ms: Option<i64>,
}

// ---------------------------------------------------------------------
// Document ids
// ---------------------------------------------------------------------

/// A character that a document key may hold: a letter, a digit, an underscore, a
/// dash or an equal sign.
pub open spec fn key_char(c: char) -> bool {
    ||| 'A' <= c <= 'Z'
    ||| 'a' <= c <= 'z'
    ||| '0' <= c <= '9'
    ||| c == '_'
    ||| c == '-'
    ||| c == '='
}

/// A byte that stands for itself in a document key.
pub open spec fn key_byte(b: u8) -> bool {
    ||| 65 <= b <= 90
    ||| 97 <= b <= 122
    ||| 48 <= b <= 57
    ||| b == 95
    ||| b == 45
    ||| b == 61
}

/// A byte as it stands in a document key: a colon is an underscore, and any other
/// byte that a key may not hold is an equal sign and two hexadecimal digits.
pub open spec fn key_text(b: u8) -> Seq<char> {
    if key_byte(b) {
        seq![b as char]
    } else if b == 58 {
        seq!['_']
    } else {
        seq!['=', upper_digit(b as int / 16), upper_digit(b as int % 16)]
    }
}

/// A byte string as a document key.
pub open spec fn key_encoded(bytes: Seq<u8>) -> Seq<char>
    decreases bytes.len(),
{
    if bytes.len() == 0 {
        seq![]
    } else {
        key_encoded(bytes.drop_last()) + key_text(bytes.last())
    }
}

/// The id of the document of a key: its parts, joined by underscores, in UTF-8 and
/// as a document key.
pub open spec fn doc_id_of(key: KeyView) -> Seq<char> {
    key_encoded(
        encode_utf8(key.namespace + seq!['_'] + key.model + seq!['_'] + key.prompt_sha),
    )
}

/// A document key holds only what it may, and at least one character for each
/// byte.
pub proof fn key_encoded_is_key(bytes: Seq<u8>)
    ensures
        key_encoded(bytes).len() >= bytes.len(),
        forall|i: int| 0 <= i < key_encoded(bytes).len() ==> key_char(#[trigger] key_encoded(bytes)[i]),
    decreases bytes.len(),
{
    if bytes.len() > 0 {
        let before = key_encoded(bytes.drop_last());
        let last = key_text(bytes.last());
        key_encoded_is_key(bytes.drop_last());
        assert forall|i: int| 0 <= i < last.len() implies key_char(#[trigger] last[i]) by {
        }
        assert forall|i: int| 0 <= i < key_encoded(bytes).len() implies key_char(
            #[trigger] key_encoded(bytes)[i],
        ) by {
            if i < before.len() {
                assert(key_encoded(bytes)[i] == before[i]);
            } else {
                assert(key_encoded(bytes)[i] == last[i - before.len()]);
            }
        }
    }
}

/// A text that may stand in a document key stands there unchanged.
pub proof fn key_text_is_kept(s: Seq<char>)
    requires
        forall|i: int| 0 <= i < s.len() ==> key_char(#[trigger] s[i]),
    ensures
        key_encoded(encode_utf8(s)) == s,
{
    is_ascii_chars_encode_utf8(s);
    lemma_key_bytes_kept(encode_utf8(s), s);
}

proof fn lemma_key_bytes_kept(bytes: Seq<u8>, s: Seq<char>)
    requires
        bytes.len() == s.len(),
        forall|i: int| 0 <= i < s.len() ==> key_char(#[trigger] s[i]) && bytes[i] == s[i] as u8,
    ensures
        key_encoded(bytes) == s,
    decreases s.len(),
{
    if s.len() == 0 {
        assert(key_encoded(bytes) =~= s);
    } else {
        let t = s.drop_last();
        assert forall|i: int| 0 <= i < t.len() implies key_char(#[trigger] t[i])
            && bytes.drop_last()[i] == t[i] as u8 by {
            assert(t[i] == s[i]);
        }
        lemma_key_bytes_kept(bytes.drop_last(), t);
        assert(key_char(s[s.len() - 1]));
        assert(key_text(bytes.last()) =~= seq![s.last()]);
        assert(key_encoded(bytes) =~= s);
    }
}

fn encode_key(s: &str) -> (r: String)
    ensures
        r@ == key_encoded(encode_utf8(s@)),
{
    let bytes = s.as_bytes();
    let mut out = String::new();
    let mut i: usize = 0;
    assert(bytes@.take(0) =~= seq![]);
    while i < bytes.len()
        invariant
            i <= bytes@.len(),
            out@ == key_encoded(bytes@.take(i as int)),
        decreases bytes@.len() - i,
    {
        let b: u8 = bytes[i];
        let ghost before = out@;
        proof {
            assert(bytes@.take(i + 1).drop_last() =~= bytes@.take(i as int));
            assert(bytes@.take(i + 1).last() == b);
        }
        if (65 <= b && b <= 90) || (97 <= b && b <= 122) || (48 <= b && b <= 57) || b == 95 || b
            == 45 || b == 61 {
            out.push(b as char);
        } else if b == 58 {
            out.push('_');
        } else {
            out.push('=');
            out.push(upper_digit_char(b / 16));
            out.push(upper_digit_char(b % 16));
        }
        assert(out@ =~= before + key_text(b));
        i += 1;
    }
    assert(bytes@.take(i as int) =~= bytes@);
    out
}

/// The id of the document of a key. Keys of the service consist of letters,
/// digits, underscores, dashes and equal signs; the underscore separates the
/// parts and stands for any colon that an operator's namespace brings in, and
/// every other character is written out by its bytes.
pub fn doc_id(key: &CacheKey) -> (r: String)
    ensures
        r@ == doc_id_of(key@),
        r@.len() > 0,
        forall|i: int| 0 <= i < r@.len() ==> key_char(r@[i]),
{
    let mut joined = key.namespace.clone();
    joined.push('_');
    joined.append(key.model.as_str());
    joined.push('_');
    joined.append(key.prompt_sha.as_str());
    proof {
        let s = key@.namespace + seq!['_'] + key@.model + seq!['_'] + key@.prompt_sha;
        assert(joined@ =~= s);
        key_encoded_is_key(encode_utf8(s));
        assert(encode_utf8(s) == encode_scalar(s[0] as u32) + encode_utf8(s.drop_first()));
    }
    encode_key(joined.as_str())
}

// ---------------------------------------------------------------------
// OData literals
// ---------------------------------------------------------------------

/// A text as it stands between the quotes of an OData literal: with its quotes
/// doubled.
pub open spec fn escaped(s: Seq<char>) -> Seq<char>
    decreases s.len(),
{
    if s.len() == 0 {
        seq![]
    } else if s[0] == '\'' {
        seq!['\'', '\''] + escaped(s.drop_first())
    } else {
        seq![s[0]] + escaped(s.drop_first())
    }
}

/// Doubles the quotes of a text.
pub fn escape_odata(s: &str) -> (r: String)
    ensures
        r@ == escaped(s@),
{
    let chars = text::chars_of(s);
    let mut out = String::new();
    let mut i: usize = 0;
    assert(s@.skip(0) =~= s@);
    assert(out@ + escaped(s@) =~= escaped(s@));
    while i < chars.len()
        invariant
            chars@ == s@,
            i <= chars@.len(),
            out@ + escaped(s@.skip(i as int)) == escaped(s@),
        decreases chars@.len() - i,
    {
        let ghost before = out@;
        let ghost rest = s@.skip(i as int);
        proof {
            assert(rest[0] == s@[i as int]);
            assert(rest.drop_first() =~= s@.skip(i + 1));
        }
        if chars[i] == '\'' {
            out.push('\'');
        }
        out.push(chars[i]);
        assert(out@ + escaped(s@.skip(i + 1)) =~= before + escaped(rest));
        i += 1;
    }
    assert(s@.skip(i as int).len() == 0);
    assert(out@ + escaped(s@.skip(i as int)) =~= out@);
    out
}

/// How an OData literal is read behind its opening quote: up to the first quote
/// that is not doubled. The literal's text, and what follows it.
pub open spec fn literal(t: Seq<char>) -> Option<(Seq<char>, Seq<char>)>
    decreases t.len(),
{
    if t.len() == 0 {
        None
    } else if t[0] != '\'' {
        match literal(t.drop_first()) {
            Some((s, rest)) => Some((seq![t[0]] + s, rest)),
            None => None,
        }
    } else if t.len() > 1 && t[1] == '\'' {
        match literal(t.skip(2)) {
            Some((s, rest)) => Some((seq!['\''] + s, rest)),
            None => None,
        }
    } else {
        Some((seq![], t.drop_first()))
    }
}

/// An escaped text between quotes is read as the text, whatever it holds: it
/// neither ends early nor reaches into what follows.
pub proof fn escaped_text_is_read_back(s: Seq<char>, rest: Seq<char>)
    requires
        rest.len() == 0 || rest[0] != '\'',
    ensures
        literal(escaped(s) + seq!['\''] + rest) == Some((s, rest)),
    decreases s.len(),
{
    let t = escaped(s) + seq!['\''] + rest;
    if s.len() == 0 {
        assert(t.drop_first() =~= rest);
        assert(t[0] == '\'');
        assert(t.len() > 1 ==> t[1] == rest[0]);
        assert(s =~= seq![]);
    } else {
        let s1 = s.drop_first();
        let t1 = escaped(s1) + seq!['\''] + rest;
        escaped_text_is_read_back(s1, rest);
        assert(seq![s[0]] + s1 =~= s);
        if s[0] == '\'' {
            assert(t.skip(2) =~= t1);
            assert(t[0] == '\'' && t[1] == '\'');
        } else {
            assert(t.drop_first() =~= t1);
            assert(t[0] == s[0]);
        }
    }
}

// ---------------------------------------------------------------------
// Percent encoding
// ---------------------------------------------------------------------

/// A byte that stands for itself in a path.
pub open spec fn unreserved(b: u8) -> bool {
    ||| 65 <= b <= 90
    ||| 97 <= b <= 122
    ||| 48 <= b <= 57
    ||| b == 45
    ||| b == 95
    ||| b == 46
    ||| b == 126
}

/// The upper-case hexadecimal digit of that value.
pub open spec fn upper_digit(n: int) -> char {
    if n < 10 {
        (n + 48) as char
    } else {
        (n + 55) as char
    }
}

/// A byte string in a path: every byte that does not stand for itself is a
/// percent sign and two hexadecimal digits.
pub open spec fn percent_encoded(bytes: Seq<u8>) -> Seq<char>
    decreases bytes.len(),
{
    if bytes.len() == 0 {
        seq![]
    } else if unreserved(bytes.last()) {
        percent_encoded(bytes.drop_last()).push(bytes.last() as char)
    } else {
        percent_encoded(bytes.drop_last()).push('%').push(
            upper_digit(bytes.last() as int / 16),
        ).push(upper_digit(bytes.last() as int % 16))
    }
}

fn upper_digit_char(n: u8) -> (r: char)
    requires
        n < 16,
    ensures
        r == upper_digit(n as int),
{
    if n < 10 {
        (n + 48) as char
    } else {
        (n + 55) as char
    }
}

/// Writes a text for a path, in UTF-8 and percent-encoded.
pub fn urlencode(s: &str) -> (r: String)
    ensures
        r@ == percent_encoded(encode_utf8(s@)),
{
    let bytes = s.as_bytes();
    let mut out = String::new();
    let mut i: usize = 0;
    assert(bytes@.take(0) =~= seq![]);
    while i < bytes.len()
        invariant
            i <= bytes@.len(),
            out@ == percent_encoded(bytes@.take(i as int)),
        decreases bytes@.len() - i,
    {
        let b: u8 = bytes[i];
        proof {
            assert(bytes@.take(i + 1).drop_last() =~= bytes@.take(i as int));
            assert(bytes@.take(i + 1).last() == b);
        }
        if (65 <= b && b <= 90) || (97 <= b && b <= 122) || (48 <= b && b <= 57) || b == 45 || b
            == 95 || b == 46 || b == 126 {
            out.push(b as char);
        } else {
            out.push('%');
            out.push(upper_digit_char(b / 16));
            out.push(upper_digit_char(b % 16));
        }
        i += 1;
    }
    assert(bytes@.take(i as int) =~= bytes@);
    out
}

/// The value of an upper-case hexadecimal digit.
pub open spec fn upper_value(c: char) -> int {
    if '0' <= c <= '9' {
        c as int - 48
    } else {
        c as int - 55
    }
}

/// What a percent-encoded text spells, read from its end.
pub open spec fn percent_decoded(t: Seq<char>) -> Seq<u8>
    decreases t.len(),
{
    if t.len() == 0 {
        seq![]
    } else if t.len() >= 3 && t[t.len() - 3] == '%' {
        percent_decoded(t.take(t.len() - 3)).push(
            (upper_value(t[t.len() - 2]) * 16 + upper_value(t[t.len() - 1])) as u8,
        )
    } else {
        percent_decoded(t.drop_last()).push(t.last() as u8)
    }
}

/// No percent sign is the last or the last but one character of an encoded text.
proof fn lemma_percent_places(bytes: Seq<u8>)
    ensures
        ({
            let t = percent_encoded(bytes);
            &&& t.len() >= 1 ==> t[t.len() - 1] != '%'
            &&& t.len() >= 2 ==> t[t.len() - 2] != '%'
        }),
    decreases bytes.len(),
{
    if bytes.len() > 0 {
        lemma_percent_places(bytes.drop_last());
    }
}

/// Percent encoding can be undone, so different ids stand in different paths.
pub proof fn percent_encoding_is_undone(bytes: Seq<u8>)
    ensures
        percent_decoded(percent_encoded(bytes)) == bytes,
    decreases bytes.len(),
{
    let t = percent_encoded(bytes);
    if bytes.len() == 0 {
        assert(percent_decoded(t) =~= bytes);
    } else {
        let before = percent_encoded(bytes.drop_last());
        let b = bytes.last();
        percent_encoding_is_undone(bytes.drop_last());
        lemma_percent_places(bytes.drop_last());
        assert(bytes.drop_last().push(b) =~= bytes);
        if unreserved(b) {
            assert(t.drop_last() =~= before);
            assert(t.last() as u8 == b);
            assert(t.len() >= 3 ==> t[t.len() - 3] == before[before.len() - 2]);
        } else {
            assert(t.take(t.len() - 3) =~= before);
            assert(t[t.len() - 3] == '%');
            assert(upper_value(upper_digit(b as int / 16)) == b as int / 16);
            assert(upper_value(upper_digit(b as int % 16)) == b as int % 16);
        }
    }
}

// ---------------------------------------------------------------------
// Calls
// ---------------------------------------------------------------------

/// The fields of a document beside its vector.
pub open spec fn document_fields(key: KeyView, payload_json: Seq<char>) -> Seq<
    (Seq<char>, JsonTree),
> {
    seq![
        ("@search.action"@, JsonTree::Text("mergeOrUpload"@)),
        ("id"@, JsonTree::Text(doc_id_of(key))),
        ("namespace"@, JsonTree::Text(key.namespace)),
        ("model"@, JsonTree::Text(key.model)),
        ("prompt_sha"@, JsonTree::Text(key.prompt_sha)),
        ("cached"@, JsonTree::Text(payload_json)),
    ]
}

/// The body of an upsert: one document, with the vector in the vector field.
pub open spec fn upsert_body(
    vector_field: Seq<char>,
    key: KeyView,
    vector: Seq<Single>,
    payload_json: Seq<char>,
) -> JsonTree {
    JsonTree::Object(
        seq![
            (
                "value"@,
                JsonTree::Array(
                    seq![
                        JsonTree::Object(
                            json::with_field(
                                document_fields(key, payload_json),
                                vector_field,
                                json::vector_tree(vector),
                            ),
                        ),
                    ],
                ),
            ),
        ],
    )
}

/// The filter on namespace and model.
pub open spec fn filter_of(namespace: Seq<char>, model: Seq<char>) -> Seq<char> {
    "namespace eq '"@ + escaped(namespace) + "' and model eq '"@ + escaped(model) + "'"@
}

/// The body of a search: the vector, how many entries are wanted, and the filter.
pub open spec fn query_body(
    vector_field: Seq<char>,
    namespace: Seq<char>,
    model: Seq<char>,
    vector: Seq<Single>,
    k: usize,
) -> JsonTree {
    JsonTree::Object(
        seq![
            ("count"@, JsonTree::Bool(false)),
            ("select"@, JsonTree::Text("id,namespace,model,prompt_sha,cached"@)),
            ("filter"@, JsonTree::Text(filter_of(namespace, model))),
            (
                "vectorQueries"@,
                JsonTree::Array(
                    seq![
                        JsonTree::Object(
                            seq![
                                ("kind"@, JsonTree::Text("vector"@)),
                                ("vector"@, json::vector_tree(vector)),
                                ("fields"@, JsonTree::Text(vector_field)),
                                ("k"@, json::unsigned_tree(k as u64)),
                            ],
                        ),
                    ],
                ),
            ),
        ],
    )
}

/// The body of a deletion.
pub open spec fn delete_body(key: KeyView) -> JsonTree {
    JsonTree::Object(
        seq![
            (
                "value"@,
                JsonTree::Array(
                    seq![
                        JsonTree::Object(
                            seq![
                                ("@search.action"@, JsonTree::Text("delete"@)),
                                ("id"@, JsonTree::Text(doc_id_of(key))),
                            ],
                        ),
                    ],
                ),
            ),
        ],
    )
}

impl AzureAiSearchStore {
    /// The field that holds the vector.
    pub open spec fn field(self) -> Seq<char> {
        match self.vector_field {
            Some(f) => f@,
            None => DEFAULT_VECTOR_FIELD@,
        }
    }

    /// The version of the API.
    pub open spec fn version(self) -> Seq<char> {
        match self.api_version {
            Some(v) => v@,
            None => DEFAULT_API_VERSION@,
        }
    }

    /// A path of the API under the index.
    pub open spec fn path(self, suffix: Seq<char>) -> Seq<char> {
        text::without_trailing_slashes(self.base_path@) + "/indexes/"@ + self.index_name@ + suffix
    }

    /// The headers of a call.
    pub open spec fn headers(self) -> Seq<(Seq<char>, Seq<char>)> {
        seq![("content-type"@, "application/json"@), ("api-key"@, self.api_key@)]
    }

    /// A call that posts a body.
    pub open spec fn post(self, suffix: Seq<char>, body: JsonTree) -> CallView {
        CallView {
            method: Method::Post,
            path: self.path(suffix),
            headers: self.headers(),
            body: Some(body),
            timeout_ms: store::timeout_of(self.timeout_ms),
        }
    }

    /// The field that holds the vector.
    pub fn vector_field(&self) -> (r: &str)
        ensures
            r@ == self.field(),
    {
        match &self.vector_field {
            Some(f) => f.as_str(),
            None => DEFAULT_VECTOR_FIELD,
        }
    }

    /// The version of the API.
    pub fn api_version(&self) -> (r: &str)
        ensures
            r@ == self.version(),
    {
        match &self.api_version {
            Some(v) => v.as_str(),
            None => DEFAULT_API_VERSION,
        }
    }

    /// The headers of a call.
    pub fn auth_headers(&self) -> (r: Vec<(String, String)>)
        ensures
            store::header_views(r@) == self.headers(),
    {
        let mut headers = store::no_headers();
        store::push_header(&mut headers, "content-type", "application/json");
        store::push_header(&mut headers, "api-key", self.api_key.as_str());
        assert(store::header_views(headers@) =~= self.headers());
        headers
    }

    /// A path of the API under the index.
    pub fn full_path(&self, suffix: &str) -> (r: String)
        ensures
            r@ == self.path(suffix@),
    {
        let mut out = text::trim_trailing_slashes(self.base_path.as_str());
        out.append("/indexes/");
        out.append(self.index_name.as_str());
        out.append(suffix);
        out
    }

    fn json_post(&self, suffix: &str, body: Json) -> (r: Call)
        ensures
            r@ == self.post(suffix@, body@),
    {
        Call {
            method: Method::Post,
            path: self.full_path(suffix),
            headers: self.auth_headers(),
            body: Some(body),
            timeout_ms: store::timeout(self.timeout_ms),
        }
    }

    /// `POST /indexes/<name>/docs/index?api-version=…` with a single
    /// `mergeOrUpload` action. The document carries `namespace`, `model`,
    /// `prompt_sha`, and the cached HTTP response (as a JSON-encoded string
    /// field).
    pub fn upsert(&self, key: &CacheKey, vector: &[Single], payload_json: &str) -> (r: Call)
        ensures
            r@ == self.post(
                "/docs/index?api-version="@ + self.version(),
                upsert_body(self.field(), key@, vector@, payload_json@),
            ),
    {
        let id = doc_id(key);
        let mut doc: Vec<(String, Json)> = Vec::new();
        assert(json::field_trees(doc@) =~= seq![]);
        json::push_field(&mut doc, "@search.action", Json::text("mergeOrUpload"));
        json::push_field(&mut doc, "id", Json::text(id.as_str()));
        json::push_field(&mut doc, "namespace", Json::text(key.namespace.as_str()));
        json::push_field(&mut doc, "model", Json::text(key.model.as_str()));
        json::push_field(&mut doc, "prompt_sha", Json::text(key.prompt_sha.as_str()));
        json::push_field(&mut doc, "cached", Json::text(payload_json));
        assert(json::field_trees(doc@) =~= document_fields(key@, payload_json@));
        json::put_field(&mut doc, self.vector_field(), json::vector(vector));
        let body = json::object1("value", json::array1(Json::object(doc)));
        let path = text::join2("/docs/index?api-version=", self.api_version());
        self.json_post(path.as_str(), body)
    }

    /// `POST /indexes/<name>/docs/search?api-version=…` with `vectorQueries`
    /// + an OData `$filter` on `(namespace, model)`.
    pub fn query_topk(&self, namespace: &str, model: &str, vector: &[Single], k: usize) -> (r: Call)
        ensures
            r@ == self.post(
                "/docs/search?api-version="@ + self.version(),
                query_body(self.field(), namespace@, model@, vector@, k),
            ),
    {
        let mut filter = text::owned("namespace eq '");
        filter.append(escape_odata(namespace).as_str());
        filter.append("' and model eq '");
        filter.append(escape_odata(model).as_str());
        filter.append("'");
        let vector_query = json::object4(
            "kind",
            Json::text("vector"),
            "vector",
            json::vector(vector),
            "fields",
            Json::text(self.vector_field()),
            "k",
            json::unsigned(k as u64),
        );
        let body = json::object4(
            "count",
            Json::Bool(false),
            "select",
            Json::text("id,namespace,model,prompt_sha,cached"),
            "filter",
            Json::text(filter.as_str()),
            "vectorQueries",
            json::array1(vector_query),
        );
        let path = text::join2("/docs/search?api-version=", self.api_version());
        self.json_post(path.as_str(), body)
    }

    /// `GET /indexes/<name>/docs/<id>?api-version=…`.
    pub fn get_exact(&self, key: &CacheKey) -> (r: Call)
        ensures
            r@ == (CallView {
                method: Method::Get,
                path: self.path(
                    "/docs/"@ + percent_encoded(encode_utf8(doc_id_of(key@))) + "?api-version="@
                        + self.version(),
                ),
                headers: self.headers(),
                body: None,
                timeout_ms: store::timeout_of(self.timeout_ms),
            }),
    {
        let id = doc_id(key);
        let mut path = text::owned("/docs/");
        path.append(urlencode(id.as_str()).as_str());
        path.append("?api-version=");
        path.append(self.api_version());
        Call {
            method: Method::Get,
            path: self.full_path(path.as_str()),
            headers: self.auth_headers(),
            body: None,
            timeout_ms: store::timeout(self.timeout_ms),
        }
    }

    /// `POST /indexes/<name>/docs/index?api-version=…` with a single `delete`
    /// action.
    pub fn delete(&self, key: &CacheKey) -> (r: Call)
        ensures
            r@ == self.post("/docs/index?api-version="@ + self.version(), delete_body(key@)),
    {
        let id = doc_id(key);
        let action = json::object2(
            "@search.action",
            Json::text("delete"),
            "id",
            Json::text(id.as_str()),
        );
        let path = text::join2("/docs/index?api-version=", self.api_version());
        self.json_post(path.as_str(), json::object1("value", json::array1(action)))
    }
}

// ---------------------------------------------------------------------
// Replies
// ---------------------------------------------------------------------

/// What an entry of a search's reply gives: its key, its score and its cached
/// text; nothing where it has no such text.
pub open spec fn candidate_of(entry: JsonTree) -> Option<CandidateView> {
    match entry.text_field("cached"@) {
        Some(cached) => Some(
            CandidateView {
                key: store::key_fields(entry),
                score: store::score_of(entry, "@search.score"@),
                cached,
            },
        ),
        None => None,
    }
}

/// The candidates among the entries of a reply, in order.
pub open spec fn candidates_among(entries: Seq<JsonTree>) -> Seq<CandidateView>
    decreases entries.len(),
{
    if entries.len() == 0 {
        seq![]
    } else {
        let before = candidates_among(entries.drop_last());
        match candidate_of(entries.last()) {
            Some(c) => before.push(c),
            None => before,
        }
    }
}

/// The candidates of a search's reply: those under `value`.
pub open spec fn candidates_of(document: JsonTree) -> Seq<CandidateView> {
    match document.items_field("value"@) {
        Some(entries) => candidates_among(entries),
        None => seq![],
    }
}

/// What the reply to a search gives.
pub open spec fn query_answer(code: u32, body: Seq<u8>) -> Result<Seq<CandidateView>, StoreFault> {
    match store::reply_document(code, body) {
        Ok(document) => Ok(candidates_of(document)),
        Err(e) => Err(e),
    }
}

/// The cached text of a lookup's reply.
pub open spec fn exact_text(document: JsonTree) -> Option<Seq<char>> {
    document.text_field("cached"@)
}

/// What the reply to a lookup gives.
pub open spec fn exact_answer(code: u32, body: Seq<u8>) -> Result<Option<Seq<char>>, StoreFault> {
    match store::lookup_document(code, body) {
        Ok(Some(document)) => Ok(exact_text(document)),
        Ok(None) => Ok(None),
        Err(e) => Err(e),
    }
}

fn read_candidate(entry: &Json) -> (r: Option<Candidate>)
    ensures
        (match r {
            Some(c) => Some(c@),
            None => None,
        }) == candidate_of(entry@),
{
    let cached = match entry.text_field("cached") {
        Some(t) => t,
        None => return None,
    };
    Some(
        Candidate {
            key: store::read_key(entry),
            score: store::read_score(entry, "@search.score"),
            cached: text::owned(cached),
        },
    )
}

/// Reads the candidates of a search's reply.
pub fn read_candidates(document: &Json) -> (r: Vec<Candidate>)
    ensures
        store::candidate_views(r@) == candidates_of(document@),
{
    let mut out: Vec<Candidate> = Vec::new();
    assert(store::candidate_views(out@) =~= seq![]);
    let entries = match document.items_field("value") {
        Some(e) => e,
        None => return out,
    };
    let ghost all = json::trees(entries@);
    assert(all.take(0) =~= seq![]);
    let mut i: usize = 0;
    while i < entries.len()
        invariant
            i <= entries@.len(),
            all == json::trees(entries@),
            store::candidate_views(out@) == candidates_among(all.take(i as int)),
        decreases entries@.len() - i,
    {
        let ghost before = out@;
        proof {
            assert(all.take(i + 1).drop_last() =~= all.take(i as int));
            assert(all.take(i + 1).last() == entries@[i as int]@);
        }
        if let Some(c) = read_candidate(&entries[i]) {
            out.push(c);
            assert(store::candidate_views(out@) =~= store::candidate_views(before).push(c@));
        }
        i += 1;
    }
    assert(all.take(i as int) =~= all);
    out
}

/// Reads the cached text of a lookup's reply.
pub fn read_exact(document: &Json) -> (r: Option<String>)
    ensures
        (match r {
            Some(t) => Some(t@),
            None => None,
        }) == exact_text(document@),
{
    match document.text_field("cached") {
        Some(t) => Some(text::owned(t)),
        None => None,
    }
}

/// Reads the reply to a search.
pub fn query_reply(code: u32, body: &[u8]) -> (r: Result<Vec<Candidate>, StoreError>)
    ensures
        (match r {
            Ok(v) => Ok(store::candidate_views(v@)),
            Err(e) => Err(e@),
        }) == query_answer(code, body@),
{
    match store::read_reply(code, body) {
        Ok(document) => Ok(read_candidates(&document)),
        Err(e) => Err(e),
    }
}

/// Reads the reply to a lookup.
pub fn exact_reply(code: u32, body: &[u8]) -> (r: Result<Option<String>, StoreError>)
    ensures
        (match r {
            Ok(Some(t)) => Ok(Some(t@)),
            Ok(None) => Ok(None),
            Err(e) => Err(e@),
        }) == exact_answer(code, body@),
{
    match store::read_lookup(code, body) {
        Ok(Some(document)) => Ok(read_exact(&document)),
        Ok(None) => Ok(None),
        Err(e) => Err(e),
    }
}

// ---------------------------------------------------------------------
// Laws
// ---------------------------------------------------------------------

/// A document that has the fields of an upserted one gives back the key and the
/// text that were upserted, unless the vector field takes one of their names.
pub proof fn upserted_entry_is_found(
    vector_field: Seq<char>,
    key: KeyView,
    vector: Seq<Single>,
    payload_json: Seq<char>,
)
    requires
        vector_field != "namespace"@,
        vector_field != "model"@,
        vector_field != "prompt_sha"@,
        vector_field != "cached"@,
    ensures
        ({
            let entry = JsonTree::Object(
                json::with_field(
                    document_fields(key, payload_json),
                    vector_field,
                    json::vector_tree(vector),
                ),
            );
            &&& candidate_of(entry) matches Some(c) && c.key == key && c.cached == payload_json
            &&& exact_text(entry) == Some(payload_json)
        }),
{
    reveal_strlit("@search.action");
    reveal_strlit("id");
    reveal_strlit("namespace");
    reveal_strlit("model");
    reveal_strlit("prompt_sha");
    reveal_strlit("cached");
    assert("@search.action"@.len() == 14);
    assert("id"@.len() == 2);
    assert("namespace"@.len() == 9);
    assert("model"@.len() == 5);
    assert("prompt_sha"@.len() == 10);
    assert("cached"@.len() == 6);
    let f0 = document_fields(key, payload_json);
    let v = json::vector_tree(vector);
    json::set_field_is_read(f0, vector_field, v, "namespace"@);
    json::set_field_is_read(f0, vector_field, v, "model"@);
    json::set_field_is_read(f0, vector_field, v, "prompt_sha"@);
    json::set_field_is_read(f0, vector_field, v, "cached"@);
    reveal_with_fuel(json::first_field, 7);
    let f1 = f0.drop_first();
    let f2 = f1.drop_first();
    let f3 = f2.drop_first();
    let f4 = f3.drop_first();
    let f5 = f4.drop_first();
    assert(f1[0] == f0[1] && f2[0] == f0[2] && f3[0] == f0[3] && f4[0] == f0[4] && f5[0] == f0[5]);
}

/// Every search is filtered by the server on the namespace and the model.
pub proof fn query_filters_namespace_and_model(
    vector_field: Seq<char>,
    namespace: Seq<char>,
    model: Seq<char>,
    vector: Seq<Single>,
    k: usize,
)
    ensures
        query_body(vector_field, namespace, model, vector, k).text_field("filter"@) == Some(
            filter_of(namespace, model),
        ),
{
    reveal_strlit("count");
    reveal_strlit("select");
    reveal_strlit("filter");
    assert("count"@.len() == 5);
    assert("select"@[0] == 's');
    assert("filter"@.len() == 6 && "filter"@[0] == 'f');
    reveal_with_fuel(json::first_field, 4);
    let fields = query_body(vector_field, namespace, model, vector, k)->Object_0;
    assert(fields.drop_first()[0] == fields[1]);
    assert(fields.drop_first().drop_first()[0] == fields[2]);
}

/// The filter of every search is, read as OData, the namespace and the model as
/// they are: whatever they hold, neither can end its literal early.
pub proof fn filter_holds_namespace_and_model(namespace: Seq<char>, model: Seq<char>)
    ensures
        ({
            let f = filter_of(namespace, model);
            let n = "namespace eq '"@.len() as int;
            let m = " and model eq '"@.len() as int;
            &&& f.take(n) == "namespace eq '"@
            &&& literal(f.skip(n)) matches Some((first, rest)) && {
                &&& first == namespace
                &&& rest.take(m) == " and model eq '"@
                &&& literal(rest.skip(m)) == Some((model, Seq::<char>::empty()))
            }
        }),
{
    reveal_strlit("namespace eq '");
    reveal_strlit("' and model eq '");
    reveal_strlit(" and model eq '");
    reveal_strlit("'");
    let f = filter_of(namespace, model);
    let n = "namespace eq '"@.len() as int;
    let m = " and model eq '"@.len() as int;
    assert("' and model eq '"@ =~= seq!['\''] + " and model eq '"@);
    assert("'"@ =~= seq!['\'']);
    let tail = escaped(model) + seq!['\''];
    let rest = " and model eq '"@ + tail;
    assert(f.take(n) =~= "namespace eq '"@);
    assert(f.skip(n) =~= escaped(namespace) + seq!['\''] + rest);
    assert(rest[0] == ' ');
    escaped_text_is_read_back(namespace, rest);
    assert(rest.take(m) =~= " and model eq '"@);
    assert(rest.skip(m) =~= tail);
    assert(tail + Seq::<char>::empty() =~= tail);
    escaped_text_is_read_back(model, Seq::<char>::empty());
}

/// The candidates of a reply are read one by one, in order: those of two lists
/// behind each other are those of the one, and behind them those of the other.
pub proof fn candidates_are_read_in_order(a: Seq<JsonTree>, b: Seq<JsonTree>)
    ensures
        candidates_among(a + b) == candidates_among(a) + candidates_among(b),
    decreases b.len(),
{
    if b.len() == 0 {
        assert(a + b =~= a);
        assert(candidates_among(a) + candidates_among(b) =~= candidates_among(a));
    } else {
        candidates_are_read_in_order(a, b.drop_last());
        assert((a + b).drop_last() =~= a + b.drop_last());
        assert((a + b).last() == b.last());
        assert(candidates_among(a + b) =~= candidates_among(a) + candidates_among(b));
    }
}

/// An entry with a cached text is a candidate, and one without is left out.
pub proof fn entries_with_text_are_candidates(document: JsonTree, entry: JsonTree)
    requires
        document.items_field("value"@) == Some(seq![entry]),
    ensures
        match candidate_of(entry) {
            Some(c) => candidates_of(document) == seq![c],
            None => candidates_of(document).len() == 0,
        },
{
    assert(seq![entry].drop_last() =~= seq![]);
    assert(candidates_among(seq![]) =~= seq![]);
    if let Some(c) = candidate_of(entry) {
        assert(candidates_among(seq![entry]) =~= seq![c]);
    }
}

/// A search asks for the entries nearest to that very vector, by the vector field,
/// for that many of them, for the fields of the key and for the cached text.
pub proof fn search_asks_for_the_nearest(
    vector_field: Seq<char>,
    namespace: Seq<char>,
    model: Seq<char>,
    vector: Seq<Single>,
    k: usize,
)
    ensures
        ({
            let body = query_body(vector_field, namespace, model, vector, k);
            let queries = body.items_field("vectorQueries"@)->0;
            &&& body.items_field("vectorQueries"@) is Some
            &&& queries.len() == 1
            &&& queries[0].text_field("kind"@) == Some("vector"@)
            &&& queries[0].get("vector"@) == Some(json::vector_tree(vector))
            &&& queries[0].text_field("fields"@) == Some(vector_field)
            &&& queries[0].get("k"@) is Some && queries[0].get("k"@)->0.unsigned() == Some(k as u64)
            &&& body.text_field("select"@) == Some("id,namespace,model,prompt_sha,cached"@)
        }),
{
    reveal_strlit("count");
    reveal_strlit("select");
    reveal_strlit("filter");
    reveal_strlit("vectorQueries");
    reveal_strlit("kind");
    reveal_strlit("vector");
    reveal_strlit("fields");
    reveal_strlit("k");
    assert("count"@.len() == 5);
    assert("select"@.len() == 6);
    assert("filter"@.len() == 6);
    assert("vectorQueries"@.len() == 13);
    assert("kind"@.len() == 4);
    assert("vector"@.len() == 6 && "vector"@[0] == 'v');
    assert("fields"@.len() == 6 && "fields"@[0] == 'f');
    assert("k"@.len() == 1);
    let fields = query_body(vector_field, namespace, model, vector, k)->Object_0;
    json::first_field_counts(fields, 1, "select"@);
    json::first_field_counts(fields, 3, "vectorQueries"@);
    let query = fields[3].1->Array_0[0]->Object_0;
    json::first_field_counts(query, 0, "kind"@);
    json::first_field_counts(query, 1, "vector"@);
    json::first_field_counts(query, 2, "fields"@);
    json::first_field_counts(query, 3, "k"@);
}

/// What is upserted is one document, with the vector in the vector field, the
/// namespace and the model that a search filters on, and the cached text; reading
/// it gives the key and the text back. The deletion of the key names the same id.
pub proof fn upserted_document_is_found_again(
    vector_field: Seq<char>,
    key: KeyView,
    vector: Seq<Single>,
    payload_json: Seq<char>,
)
    requires
        vector_field != "namespace"@,
        vector_field != "model"@,
        vector_field != "prompt_sha"@,
        vector_field != "cached"@,
        vector_field != "id"@,
        vector_field != "@search.action"@,
    ensures
        ({
            let documents = upsert_body(vector_field, key, vector, payload_json).items_field(
                "value"@,
            )->0;
            let document = documents[0];
            let dropped = delete_body(key).items_field("value"@)->0;
            &&& upsert_body(vector_field, key, vector, payload_json).items_field("value"@) is Some
            &&& documents.len() == 1
            &&& document.get(vector_field) == Some(json::vector_tree(vector))
            &&& document.text_field("@search.action"@) == Some("mergeOrUpload"@)
            &&& document.text_field("namespace"@) == Some(key.namespace)
            &&& document.text_field("model"@) == Some(key.model)
            &&& candidate_of(document) is Some
            &&& candidate_of(document)->0.key == key
            &&& candidate_of(document)->0.cached == payload_json
            &&& exact_text(document) == Some(payload_json)
            &&& delete_body(key).items_field("value"@) is Some && dropped.len() == 1
            &&& dropped[0].text_field("@search.action"@) == Some("delete"@)
            &&& document.text_field("id"@) == Some(doc_id_of(key))
            &&& dropped[0].text_field("id"@) == Some(doc_id_of(key))
        }),
{
    upserted_entry_is_found(vector_field, key, vector, payload_json);
    reveal_strlit("@search.action");
    reveal_strlit("id");
    reveal_strlit("namespace");
    reveal_strlit("model");
    assert("@search.action"@.len() == 14);
    assert("id"@.len() == 2);
    assert("namespace"@.len() == 9);
    assert("model"@.len() == 5);
    let f = document_fields(key, payload_json);
    let v = json::vector_tree(vector);
    json::set_field_is_read(f, vector_field, v, "@search.action"@);
    json::set_field_is_read(f, vector_field, v, "id"@);
    json::set_field_is_read(f, vector_field, v, "namespace"@);
    json::set_field_is_read(f, vector_field, v, "model"@);
    json::first_field_counts(f, 0, "@search.action"@);
    json::first_field_counts(f, 1, "id"@);
    json::first_field_counts(f, 2, "namespace"@);
    json::first_field_counts(f, 3, "model"@);
    let up = upsert_body(vector_field, key, vector, payload_json);
    json::first_field_counts(up->Object_0, 0, "value"@);
    json::first_field_counts(delete_body(key)->Object_0, 0, "value"@);
    let action = delete_body(key)->Object_0[0].1->Array_0[0]->Object_0;
    json::first_field_counts(action, 0, "@search.action"@);
    json::first_field_counts(action, 1, "id"@);
}

/// The id of a key whose parts may stand in a document key is its parts, joined by
/// underscores.
pub proof fn doc_id_holds_its_parts(key: KeyView)
    requires
        forall|i: int| 0 <= i < key.namespace.len() ==> key_char(#[trigger] key.namespace[i]),
        forall|i: int| 0 <= i < key.model.len() ==> key_char(#[trigger] key.model[i]),
        forall|i: int| 0 <= i < key.prompt_sha.len() ==> key_char(#[trigger] key.prompt_sha[i]),
    ensures
        doc_id_of(key) == key.namespace + seq!['_'] + key.model + seq!['_'] + key.prompt_sha,
{
    let s = key.namespace + seq!['_'] + key.model + seq!['_'] + key.prompt_sha;
    let n = key.namespace.len() as int;
    let m = n + 1 + key.model.len();
    assert forall|i: int| 0 <= i < s.len() implies key_char(#[trigger] s[i]) by {
        if i < n {
            assert(s[i] == key.namespace[i]);
        } else if n < i < m {
            assert(s[i] == key.model[i - n - 1]);
        } else if i > m {
            assert(s[i] == key.prompt_sha[i - m - 1]);
        }
    }
    key_text_is_kept(s);
}

/// The bytes of a text are written into its document key one by one: a colon as an
/// underscore, and any other that may not stand there by its two digits.
pub proof fn document_keys_are_written_by_bytes(a: Seq<u8>, b: u8)
    ensures
        ({
            let written = key_encoded(a.push(b));
            let own = written.skip(key_encoded(a).len() as int);
            &&& written.take(key_encoded(a).len() as int) == key_encoded(a)
            &&& key_byte(b) ==> own == seq![b as char]
            &&& b == 58 ==> own == seq!['_']
            &&& !key_byte(b) && b != 58 ==> own.len() == 3 && own[0] == '=' && upper_value(own[1])
                * 16 + upper_value(own[2]) == b
            &&& key_byte(b) ==> key_char(b as char)
        }),
{
    assert(a.push(b).drop_last() =~= a);
    let written = key_encoded(a.push(b));
    let n = key_encoded(a).len() as int;
    assert(written.take(n) =~= key_encoded(a));
    assert(written.skip(n) =~= key_text(b));
    assert(upper_value(upper_digit(b as int / 16)) == b as int / 16);
    assert(upper_value(upper_digit(b as int % 16)) == b as int % 16);
}

/// Calls with a body go to the index, under the address of the service without its
/// trailing slashes, and carry the key. Where the operator names no vector field or
/// version, the usual ones are used.
pub proof fn calls_name_the_index(store: AzureAiSearchStore, suffix: Seq<char>, body: JsonTree)
    ensures
        ({
            let call = store.post(suffix, body);
            let base = text::without_trailing_slashes(store.base_path@);
            &&& call.method == Method::Post
            &&& call.body == Some(body)
            &&& call.path == base + "/indexes/"@ + store.index_name@ + suffix
            &&& call.timeout_ms == store::timeout_of(store.timeout_ms)
            &&& call.headers == seq![
                ("content-type"@, "application/json"@),
                ("api-key"@, store.api_key@),
            ]
            &&& store.vector_field is None ==> store.field() == "embedding"@
            &&& store.vector_field matches Some(f) ==> store.field() == f@
            &&& store.api_version is None ==> store.version() == "2024-07-01"@
            &&& store.api_version matches Some(v) ==> store.version() == v@
        }),
{
}

/// A lookup that is answered with 404 found nothing, and another error stays one.
pub proof fn lookup_takes_the_document(code: u32, body: Seq<u8>, document: JsonTree)
    requires
        code <= 0xffff,
    ensures
        code == 404 ==> exact_answer(code, body) == Ok::<Option<Seq<char>>, StoreFault>(None),
        code != 404 && (code < 200 || code > 299) ==> exact_answer(code, body) is Err,
        code < 200 || code > 299 ==> query_answer(code, body) is Err,
        200 <= code <= 299 && body.len() > 0 && json::json_parse(body) == Ok::<
            JsonTree,
            Seq<char>,
        >(document) ==> {
            &&& exact_answer(code, body) == Ok::<Option<Seq<char>>, StoreFault>(
                document.text_field("cached"@),
            )
            &&& query_answer(code, body) == Ok::<Seq<CandidateView>, StoreFault>(
                candidates_of(document),
            )
        },
{
}

/// A document is a candidate exactly if it holds a cached text: with that text, the
/// score of the search and the key that the document names.
pub proof fn candidate_is_read_off_the_document(entry: JsonTree)
    ensures
        candidate_of(entry) is Some <==> entry.text_field("cached"@) is Some,
        candidate_of(entry) matches Some(c) ==> {
            &&& entry.text_field("cached"@) == Some(c.cached)
            &&& c.score == store::score_of(entry, "@search.score"@)
            &&& c.key.namespace == store::text_or_empty(entry, "namespace"@)
            &&& c.key.model == store::text_or_empty(entry, "model"@)
            &&& c.key.prompt_sha == store::text_or_empty(entry, "prompt_sha"@)
        },
        exact_text(entry) == entry.text_field("cached"@),
        entry.items_field("value"@) is None ==> candidates_of(entry).len() == 0,
{
}

/// A percent-encoded text holds letters, digits, `-`, `_`, `.`, `~` and percent
/// signs alone; of the bytes, exactly those that are such characters stand there
/// as they are.
pub proof fn percent_encoded_is_safe(bytes: Seq<u8>, b: u8)
    ensures
        forall|i: int|
            0 <= i < percent_encoded(bytes).len() ==> {
                let c = #[trigger] percent_encoded(bytes)[i];
                'A' <= c <= 'Z' || 'a' <= c <= 'z' || '0' <= c <= '9' || c == '-' || c == '_' || c
                    == '.' || c == '~' || c == '%'
            },
        percent_encoded(bytes.push(b)) == percent_encoded(bytes).push(b as char) <==> 65 <= b <= 90
            || 97 <= b <= 122 || 48 <= b <= 57 || b == 45 || b == 95 || b == 46 || b == 126,
    decreases bytes.len(),
{
    assert(bytes.push(b).drop_last() =~= bytes);
    if !unreserved(b) {
        assert(percent_encoded(bytes.push(b)).len() == percent_encoded(bytes).len() + 3);
    }
    if bytes.len() > 0 {
        let before = percent_encoded(bytes.drop_last());
        let t = percent_encoded(bytes);
        percent_encoded_is_safe(bytes.drop_last(), b);
        assert forall|i: int| 0 <= i < t.len() implies ({
            let c = #[trigger] t[i];
            'A' <= c <= 'Z' || 'a' <= c <= 'z' || '0' <= c <= '9' || c == '-' || c == '_' || c
                == '.' || c == '~' || c == '%'
        }) by {
            if i < before.len() {
                assert(t[i] == before[i]);
            }
        }
    }
}

/// A document key holds letters, digits, underscores, dashes and equal signs alone,
/// whatever the key holds.
pub proof fn document_ids_are_safe(key: KeyView)
    ensures
        forall|i: int|
            0 <= i < doc_id_of(key).len() ==> {
                let c = #[trigger] doc_id_of(key)[i];
                'A' <= c <= 'Z' || 'a' <= c <= 'z' || '0' <= c <= '9' || c == '_' || c == '-' || c
                    == '='
            },
{
    key_encoded_is_key(
        encode_utf8(key.namespace + seq!['_'] + key.model + seq!['_'] + key.prompt_sha),
    );
}

} // verus!
