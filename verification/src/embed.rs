//! Embeddings by an OpenAI-compatible endpoint: what is asked and what a reply
//! means.

use vstd::prelude::*;

use crate::error::{EmbedError, EmbedFault};
use crate::ieee;
use crate::ieee::Single;
use crate::json;
use crate::json::{Json, JsonTree};
use crate::store;
use crate::store::{Call, CallView, Method};
use crate::text;

verus! {

/// Where embeddings come from. `base_url` is the address, or the path, under
/// which the endpoint stands; `/embeddings` is appended to it.
#[derive(Debug)]
pub struct OpenAICompatibleEmbedderConfig {
    pub base_url: String,
    pub model: String,
    pub api_key: Option<String>,
    pub auth_header: String,
    pub auth_scheme: String,
    pub dimension: usize,
    pub timeout_ms: u64,
}

impl Clone for OpenAICompatibleEmbedderConfig {
    fn clone(&self) -> (r: OpenAICompatibleEmbedderConfig)
        ensures
            r == *self,
    {
        OpenAICompatibleEmbedderConfig {
            base_url: self.base_url.clone(),
            model: self.model.clone(),
            api_key: match &self.api_key {
                Some(k) => Some(k.clone()),
                None => None,
            },
            auth_header: self.auth_header.clone(),
            auth_scheme: self.auth_scheme.clone(),
            dimension: self.dimension,
            timeout_ms: self.timeout_ms,
        }
    }
}

/// The credential as it stands in its header: the scheme, where there is one,
/// a space and the key.
pub open spec fn credential(scheme: Seq<char>, key: Seq<char>) -> Seq<char> {
    if scheme.len() == 0 {
        key
    } else {
        scheme + seq![' '] + key
    }
}

impl OpenAICompatibleEmbedderConfig {
    /// The header that authenticates a call, where a key is configured.
    pub open spec fn auth(self) -> Option<(Seq<char>, Seq<char>)> {
        match self.api_key {
            Some(k) => Some((self.auth_header@, credential(self.auth_scheme@, k@))),
            None => None,
        }
    }

    /// The address of the endpoint.
    pub open spec fn url(self) -> Seq<char> {
        text::without_trailing_slashes(self.base_url@) + "/embeddings"@
    }

    /// The headers of a call.
    pub open spec fn call_headers(self) -> Seq<(Seq<char>, Seq<char>)> {
        let first = seq![("content-type"@, "application/json"@)];
        match self.auth() {
            Some(h) => first.push(h),
            None => first,
        }
    }

    /// The call that asks for the embedding of a text.
    pub open spec fn embed_request(self, text: Seq<char>) -> CallView {
        CallView {
            method: Method::Post,
            path: self.url(),
            headers: self.call_headers(),
            body: Some(
                JsonTree::Object(
                    seq![
                        ("model"@, JsonTree::Text(self.model@)),
                        ("input"@, JsonTree::Text(text)),
                        ("dimensions"@, json::unsigned_tree(self.dimension as u64)),
                    ],
                ),
            ),
            timeout_ms: self.timeout_ms,
        }
    }

    /// The header that authenticates a call, where a key is configured.
    pub fn auth_header_value(&self) -> (r: Option<(String, String)>)
        ensures
            (match r {
                Some((h, v)) => Some((h@, v@)),
                None => None,
            }) == self.auth(),
    {
        match &self.api_key {
            Some(k) => {
                let v = if self.auth_scheme.as_str().unicode_len() == 0 {
                    k.clone()
                } else {
                    let mut s = self.auth_scheme.clone();
                    s.push(' ');
                    s.append(k.as_str());
                    assert(s@ =~= self.auth_scheme@ + seq![' '] + k@);
                    s
                };
                Some((self.auth_header.clone(), v))
            },
            None => None,
        }
    }

    /// The address of the endpoint.
    pub fn embeddings_url(&self) -> (r: String)
        ensures
            r@ == self.url(),
    {
        let trimmed = text::trim_trailing_slashes(self.base_url.as_str());
        text::join2(trimmed.as_str(), "/embeddings")
    }

    /// The call that asks for the embedding of a text. It names the dimension, so
    /// that a model that can will return a vector of the configured size, which
    /// must match that of the vector store.
    pub fn request(&self, text: &str) -> (r: Call)
        ensures
            r@ == self.embed_request(text@),
    {
        let mut headers = store::no_headers();
        store::push_header(&mut headers, "content-type", "application/json");
        if let Some((h, v)) = self.auth_header_value() {
            store::push_header(&mut headers, h.as_str(), v.as_str());
        }
        assert(store::header_views(headers@) =~= self.call_headers());
        let body = json::object3(
            "model",
            Json::text(self.model.as_str()),
            "input",
            Json::text(text),
            "dimensions",
            json::unsigned(self.dimension as u64),
        );
        Call {
            method: Method::Post,
            path: self.embeddings_url(),
            headers,
            body: Some(body),
            timeout_ms: self.timeout_ms,
        }
    }

    /// Reads the reply to a call.
    pub fn reply(&self, code: u32, body: &[u8]) -> (r: Result<Vec<Single>, EmbedError>)
        ensures
            vector_view(r) == reply_vector(self.dimension, code, body@),
    {
        let status = store::status_of(code);
        if status == 401 {
            return Err(EmbedError::Unauthorized);
        }
        if !(200 <= status && status < 300) {
            return Err(EmbedError::Upstream { status, body: text::text_lossy(body) });
        }
        match json::parse_json(body) {
            Ok(document) => read_embedding(self.dimension, &document),
            Err(e) => Err(EmbedError::Malformed(e)),
        }
    }
}

/// What a call gives that could not be sent or was not answered.
pub fn unreachable_embedder(reason: &str) -> (r: EmbedError)
    ensures
        r@ == (EmbedFault::Upstream { status: 0, body: reason@ }),
{
    EmbedError::Upstream { status: 0, body: text::owned(reason) }
}

/// The view of a vector that was read, or of the error.
pub open spec fn vector_view(r: Result<Vec<Single>, EmbedError>) -> Result<
    Seq<Single>,
    EmbedFault,
> {
    match r {
        Ok(v) => Ok(v@),
        Err(e) => Err(e@),
    }
}

/// The list under `data[0].embedding`.
pub open spec fn embedding_items(document: JsonTree) -> Option<Seq<JsonTree>> {
    match document.items_field("data"@) {
        Some(data) => if data.len() > 0 {
            data[0].items_field("embedding"@)
        } else {
            None
        },
        None => None,
    }
}

/// The numbers of a list in single precision, in order; what is no number is
/// left out.
pub open spec fn numbers(items: Seq<JsonTree>) -> Seq<Single>
    decreases items.len(),
{
    if items.len() == 0 {
        seq![]
    } else {
        let before = numbers(items.drop_last());
        match items.last().double_bits() {
            Some(bits) => before.push(ieee::to_single(bits)),
            None => before,
        }
    }
}

/// The vector of a document: that of `data[0].embedding`, if it has the expected
/// dimension.
pub open spec fn embedding_of(dimension: usize, document: JsonTree) -> Result<
    Seq<Single>,
    EmbedFault,
> {
    match embedding_items(document) {
        None => Err(EmbedFault::Malformed("missing data[0].embedding"@)),
        Some(items) => {
            let v = numbers(items);
            if v.len() != dimension {
                Err(EmbedFault::DimensionMismatch { expected: dimension, got: v.len() as usize })
            } else {
                Ok(v)
            }
        },
    }
}

/// What a reply says: the error that it reports, or its vector.
pub open spec fn reply_vector(dimension: usize, code: u32, body: Seq<u8>) -> Result<
    Seq<Single>,
    EmbedFault,
> {
    let status = store::status16(code);
    if status == 401 {
        Err(EmbedFault::Unauthorized)
    } else if !store::successful(status) {
        Err(EmbedFault::Upstream { status, body: text::lossy_text(body) })
    } else {
        match json::json_parse(body) {
            Ok(document) => embedding_of(dimension, document),
            Err(e) => Err(EmbedFault::Malformed(e)),
        }
    }
}

/// Why a configuration is refused at startup, given the answer to a first call:
/// the endpoint returns vectors of another size.
pub open spec fn probe_fault(probe: Result<Seq<Single>, EmbedFault>) -> Option<Seq<char>> {
    match probe {
        Err(e) => if e is DimensionMismatch {
            Some(e.text())
        } else {
            None
        },
        Ok(_) => None,
    }
}

/// Checks the answer to a first call at startup. An endpoint that cannot be
/// reached yet is no reason to refuse the configuration; one that returns
/// vectors of another size is.
pub fn check_probe(probe: &Result<Vec<Single>, EmbedError>) -> (r: Option<String>)
    ensures
        (match r {
            Some(m) => Some(m@),
            None => None,
        }) == probe_fault(vector_view(*probe)),
{
    match probe {
        Err(e) => match e {
            EmbedError::DimensionMismatch { .. } => Some(e.message()),
            _ => None,
        },
        Ok(_) => None,
    }
}

fn read_numbers(items: &Vec<Json>) -> (r: Vec<Single>)
    ensures
        r@ == numbers(json::trees(items@)),
{
    let mut out: Vec<Single> = Vec::new();
    let ghost all = json::trees(items@);
    assert(all.take(0) =~= seq![]);
    let mut i: usize = 0;
    while i < items.len()
        invariant
            i <= items@.len(),
            all == json::trees(items@),
            out@ == numbers(all.take(i as int)),
        decreases items@.len() - i,
    {
        proof {
            assert(all.take(i + 1).drop_last() =~= all.take(i as int));
            assert(all.take(i + 1).last() == items@[i as int]@);
        }
        if let Some(bits) = items[i].as_double_bits() {
            out.push(ieee::narrow(bits));
        }
        i += 1;
    }
    assert(all.take(i as int) =~= all);
    out
}

/// Reads the vector of a document.
pub fn read_embedding(dimension: usize, document: &Json) -> (r: Result<Vec<Single>, EmbedError>)
    ensures
        vector_view(r) == embedding_of(dimension, document@),
{
    let data = match document.items_field("data") {
        Some(d) => d,
        None => return Err(EmbedError::Malformed(text::owned("missing data[0].embedding"))),
    };
    if data.len() == 0 {
        return Err(EmbedError::Malformed(text::owned("missing data[0].embedding")));
    }
    assert(json::trees(data@)[0] == data@[0]@);
    let items = match data[0].items_field("embedding") {
        Some(e) => e,
        None => return Err(EmbedError::Malformed(text::owned("missing data[0].embedding"))),
    };
    let v = read_numbers(items);
    if v.len() != dimension {
        return Err(EmbedError::DimensionMismatch { expected: dimension, got: v.len() });
    }
    Ok(v)
}

// ---------------------------------------------------------------------
// Laws
// ---------------------------------------------------------------------

/// A vector of finite numbers that an endpoint sends back as JSON numbers is read
/// as it was.
pub proof fn embedding_is_read_back(v: Seq<Single>)
    requires
        forall|i: int| 0 <= i < v.len() ==> (#[trigger] v[i]).finite(),
    ensures
        numbers(Seq::new(v.len(), |i: int| json::single_tree(v[i]))) == v,
    decreases v.len(),
{
    let items = Seq::new(v.len(), |i: int| json::single_tree(v[i]));
    if v.len() == 0 {
        assert(numbers(items) =~= v);
    } else {
        let w = v.drop_last();
        assert forall|i: int| 0 <= i < w.len() implies (#[trigger] w[i]).finite() by {
            assert(w[i] == v[i]);
        }
        embedding_is_read_back(w);
        assert(items.drop_last() =~= Seq::new(w.len(), |i: int| json::single_tree(w[i])));
        assert(v[v.len() - 1].finite());
        json::single_is_read_back(v.last());
        assert(w.push(v.last()) =~= v);
    }
}

/// The call that asks for an embedding posts that very text, the model and the
/// dimension, to the endpoint, with the credential where one is configured.
pub proof fn request_asks_for_the_text(
    cfg: OpenAICompatibleEmbedderConfig,
    text: Seq<char>,
)
    ensures
        ({
            let call = cfg.embed_request(text);
            let body = call.body->0;
            &&& call.method == Method::Post
            &&& call.body is Some
            &&& body.text_field("input"@) == Some(text)
            &&& body.text_field("model"@) == Some(cfg.model@)
            &&& body.get("dimensions"@) matches Some(d) && d.unsigned() == Some(
                cfg.dimension as u64,
            )
            &&& call.timeout_ms == cfg.timeout_ms
            &&& call.headers[0] == ("content-type"@, "application/json"@)
            &&& cfg.api_key is None ==> call.headers.len() == 1
            &&& cfg.api_key matches Some(k) ==> {
                &&& call.headers.len() == 2
                &&& call.headers[1].0 == cfg.auth_header@
                &&& text::has_suffix(call.headers[1].1, k@)
                &&& cfg.auth_scheme@.len() == 0 ==> call.headers[1].1 == k@
                &&& cfg.auth_scheme@.len() > 0 ==> call.headers[1].1 == cfg.auth_scheme@ + seq![' ']
                    + k@
            }
        }),
{
    reveal_strlit("model");
    reveal_strlit("input");
    reveal_strlit("dimensions");
    assert("model"@.len() == 5 && "model"@[0] == 'm');
    assert("input"@.len() == 5 && "input"@[0] == 'i');
    assert("dimensions"@.len() == 10);
    let fields = cfg.embed_request(text).body->0->Object_0;
    json::first_field_counts(fields, 0, "model"@);
    json::first_field_counts(fields, 1, "input"@);
    json::first_field_counts(fields, 2, "dimensions"@);
    if let Some(k) = cfg.api_key {
        text::suffix_is_the_end(seq![], cfg.auth_scheme@ + seq![' '], k@);
        text::suffix_is_the_end(seq![], seq![], k@);
        assert(Seq::<char>::empty() + k@ =~= k@);
    }
}

/// The address of the endpoint is the configured one without its trailing slashes,
/// with `/embeddings` behind it.
pub proof fn endpoint_ignores_trailing_slashes(
    a: OpenAICompatibleEmbedderConfig,
    b: OpenAICompatibleEmbedderConfig,
)
    requires
        b.base_url@ == a.base_url@.push('/'),
    ensures
        a.url() == b.url(),
        text::has_suffix(a.url(), "/embeddings"@),
        a.url().take(a.url().len() - "/embeddings"@.len()) == text::without_trailing_slashes(
            a.base_url@,
        ),
{
    assert(b.base_url@.drop_last() =~= a.base_url@);
    let front = text::without_trailing_slashes(a.base_url@);
    text::suffix_is_the_end(seq![], front, "/embeddings"@);
    assert(a.url().take(front.len() as int) =~= front);
}

/// A vector that is accepted has the configured dimension, and it is the whole of
/// the first embedding of the reply: every number of it, in order.
pub proof fn accepted_embedding_is_whole(
    dimension: usize,
    document: JsonTree,
    data: Seq<JsonTree>,
    items: Seq<JsonTree>,
)
    requires
        document.items_field("data"@) == Some(data),
        data.len() > 0,
        data[0].items_field("embedding"@) == Some(items),
        forall|i: int| 0 <= i < items.len() ==> (#[trigger] items[i]).double_bits() is Some,
        items.len() <= usize::MAX,
    ensures
        items.len() == dimension ==> (embedding_of(dimension, document) matches Ok(v) && v.len()
            == dimension && forall|i: int|
            #![trigger v[i]]
            0 <= i < v.len() ==> v[i] == ieee::to_single(items[i].double_bits()->0)),
        items.len() != dimension ==> embedding_of(dimension, document) == Err::<
            Seq<Single>,
            EmbedFault,
        >(EmbedFault::DimensionMismatch { expected: dimension, got: items.len() as usize }),
{
    lemma_all_numbers(items);
}

proof fn lemma_all_numbers(items: Seq<JsonTree>)
    requires
        forall|i: int| 0 <= i < items.len() ==> (#[trigger] items[i]).double_bits() is Some,
    ensures
        numbers(items).len() == items.len(),
        forall|i: int|
            #![trigger numbers(items)[i]]
            0 <= i < items.len() ==> numbers(items)[i] == ieee::to_single(items[i].double_bits()->0),
    decreases items.len(),
{
    if items.len() > 0 {
        let before = items.drop_last();
        assert forall|i: int| 0 <= i < before.len() implies (
        #[trigger] before[i]).double_bits() is Some by {
            assert(before[i] == items[i]);
        }
        lemma_all_numbers(before);
        assert(items[items.len() - 1].double_bits() is Some);
        assert forall|i: int|
            #![trigger numbers(items)[i]]
            0 <= i < items.len() implies numbers(items)[i] == ieee::to_single(
            items[i].double_bits()->0,
        ) by {
            if i < before.len() {
                assert(numbers(items)[i] == numbers(before)[i]);
                assert(before[i] == items[i]);
            }
        }
    }
}

/// Whatever is accepted has the configured dimension; a reply without an embedding
/// is malformed.
pub proof fn accepted_embedding_has_the_dimension(dimension: usize, document: JsonTree)
    ensures
        embedding_of(dimension, document) matches Ok(v) ==> v.len() == dimension,
        document.items_field("data"@) is None ==> embedding_of(dimension, document) == Err::<
            Seq<Single>,
            EmbedFault,
        >(EmbedFault::Malformed("missing data[0].embedding"@)),
        embedding_of(dimension, document) is Ok ==> document.items_field("data"@) is Some,
{
}

/// A status of the two hundreds is read as an embedding; 401 is a refused
/// credential, and any other status an error that keeps it.
pub proof fn replies_by_status(dimension: usize, code: u32, body: Seq<u8>)
    requires
        code <= 0xffff,
    ensures
        code == 401 ==> reply_vector(dimension, code, body) == Err::<Seq<Single>, EmbedFault>(
            EmbedFault::Unauthorized,
        ),
        code != 401 && (code < 200 || code > 299) ==> reply_vector(dimension, code, body) == Err::<
            Seq<Single>,
            EmbedFault,
        >(EmbedFault::Upstream { status: code as u16, body: text::lossy_text(body) }),
        200 <= code <= 299 ==> match json::json_parse(body) {
            Ok(document) => reply_vector(dimension, code, body) == embedding_of(
                dimension,
                document,
            ),
            Err(e) => reply_vector(dimension, code, body) == Err::<Seq<Single>, EmbedFault>(
                EmbedFault::Malformed(e),
            ),
        },
{
}

/// Only vectors of another size are a reason not to start.
pub proof fn only_a_wrong_size_stops_the_start(
    v: Seq<Single>,
    e: EmbedFault,
    expected: usize,
    got: usize,
)
    ensures
        probe_fault(Ok(v)) is None,
        !(e is DimensionMismatch) ==> probe_fault(Err(e)) is None,
        probe_fault(Err(EmbedFault::DimensionMismatch { expected, got })) == Some(
            (EmbedFault::DimensionMismatch { expected, got }).text(),
        ),
{
}

/// The numbers of a list are read one by one, in order; what is no number is left
/// out.
pub proof fn numbers_are_read_in_order(a: Seq<JsonTree>, b: Seq<JsonTree>, t: JsonTree)
    ensures
        numbers(a + b) == numbers(a) + numbers(b),
        numbers(seq![t]) == match t.double_bits() {
            Some(bits) => seq![ieee::to_single(bits)],
            None => seq![],
        },
    decreases b.len(),
{
    assert(seq![t].drop_last() =~= seq![]);
    assert(numbers(seq![]) =~= seq![]);
    if let Some(bits) = t.double_bits() {
        assert(numbers(seq![t]) =~= seq![ieee::to_single(bits)]);
    }
    if b.len() == 0 {
        assert(a + b =~= a);
        assert(numbers(a) + numbers(b) =~= numbers(a));
    } else {
        numbers_are_read_in_order(a, b.drop_last(), t);
        assert((a + b).drop_last() =~= a + b.drop_last());
        assert((a + b).last() == b.last());
        assert(numbers(a + b) =~= numbers(a) + numbers(b));
    }
}

/// What is stated of a reply is stated of the whole of it.
pub proof fn vectors_are_seen_whole(v: Vec<Single>, e: EmbedError)
    ensures
        vector_view(Ok(v)) == Ok::<Seq<Single>, EmbedFault>(v@),
        vector_view(Err(e)) == Err::<Seq<Single>, EmbedFault>(e@),
{
}

} // verus!
