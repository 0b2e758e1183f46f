//! The decisions of the cache about a request and about its response.
//!
//! A request takes up to three calls before it is decided: a lookup of the
//! exact key, an embedding and a query for similar entries. [`Engine`] says
//! after each answer what comes next; whoever drives it makes the calls.

use vstd::prelude::*;
use vstd::slice::slice_to_vec;
use vstd::utf8::*;

use crate::config;
use crate::config::{FailureMode, Threshold, Ttl};
use crate::digest;
use crate::error::{EmbedError, EmbedFault, StoreError, StoreFault};
use crate::extract;
use crate::extract::{ExtractOutcome, OutcomeView, PromptExtractor};
use crate::ieee;
use crate::ieee::Single;
use crate::json;
use crate::json::{Json, JsonTree};
use crate::key;
use crate::key::{CacheKey, CanonicalPrompt, KeyView};
use crate::replay;
use crate::replay::{CacheEvent, ReplayResponse, ReplayView};
use crate::store;
use crate::store::{CachedPayload, Match, MatchView, PayloadView};
use crate::text;

verus! {

// ---------------------------------------------------------------------
// Headers that are never cached
// ---------------------------------------------------------------------

/// Headers stripped from upstream responses before persistence and replay,
/// whatever the case of their letters: hop-by-hop and auth-bearing headers must
/// never round-trip through a shared cache.
pub open spec fn sensitive(name: Seq<char>) -> bool {
    let lower = text::lowered(name);
    ||| lower == "authorization"@
    ||| lower == "proxy-authenticate"@
    ||| lower == "proxy-authorization"@
    ||| lower == "www-authenticate"@
    ||| lower == "set-cookie"@
    ||| lower == "cookie"@
    ||| lower == "connection"@
    ||| lower == "keep-alive"@
    ||| lower == "transfer-encoding"@
    ||| lower == "te"@
    ||| lower == "trailer"@
    ||| lower == "upgrade"@
}

/// Whether a header must not be cached.
pub fn is_sensitive(name: &str) -> (r: bool)
    ensures
        r == sensitive(name@),
{
    let owned = text::to_lower(name);
    let lower = owned.as_str();
    text::same_text(lower, "authorization") || text::same_text(lower, "proxy-authenticate")
        || text::same_text(lower, "proxy-authorization") || text::same_text(
        lower,
        "www-authenticate",
    ) || text::same_text(lower, "set-cookie") || text::same_text(lower, "cookie")
        || text::same_text(lower, "connection") || text::same_text(lower, "keep-alive")
        || text::same_text(lower, "transfer-encoding") || text::same_text(lower, "te")
        || text::same_text(lower, "trailer") || text::same_text(lower, "upgrade")
}

/// The headers that may be cached, in order.
pub open spec fn sanitized(headers: Seq<(Seq<char>, Seq<char>)>) -> Seq<(Seq<char>, Seq<char>)>
    decreases headers.len(),
{
    if headers.len() == 0 {
        seq![]
    } else if sensitive(headers.last().0) {
        sanitized(headers.drop_last())
    } else {
        sanitized(headers.drop_last()).push(headers.last())
    }
}

/// Drops the headers that must not be cached.
pub fn sanitize_headers(headers: &[(String, String)]) -> (r: Vec<(String, String)>)
    ensures
        store::header_views(r@) == sanitized(store::header_views(headers@)),
{
    let mut out = store::no_headers();
    let ghost all = store::header_views(headers@);
    assert(all.take(0) =~= seq![]);
    let mut i: usize = 0;
    while i < headers.len()
        invariant
            i <= headers@.len(),
            all == store::header_views(headers@),
            store::header_views(out@) == sanitized(all.take(i as int)),
        decreases headers@.len() - i,
    {
        proof {
            assert(all.take(i + 1).drop_last() =~= all.take(i as int));
            assert(all.take(i + 1).last() == all[i as int]);
        }
        if !is_sensitive(headers[i].0.as_str()) {
            store::push_header(&mut out, headers[i].0.as_str(), headers[i].1.as_str());
        }
        i += 1;
    }
    assert(all.take(i as int) =~= all);
    out
}

// ---------------------------------------------------------------------
// Types
// ---------------------------------------------------------------------

#[derive(Debug)]
pub struct EngineConfig {
    pub namespace: String,
    pub similarity_threshold: Threshold,
    pub ttl: Ttl,
    pub exact_caching: bool,
    pub bypass_on_stream: bool,
    pub cache_response_status_codes: Vec<u16>,
    pub failure_mode: FailureMode,
}

impl Clone for EngineConfig {
    fn clone(&self) -> (r: EngineConfig)
        ensures
            r.namespace == self.namespace,
            r.similarity_threshold == self.similarity_threshold,
            r.ttl == self.ttl,
            r.exact_caching == self.exact_caching,
            r.bypass_on_stream == self.bypass_on_stream,
            r.cache_response_status_codes@ == self.cache_response_status_codes@,
            r.failure_mode == self.failure_mode,
    {
        EngineConfig {
            namespace: self.namespace.clone(),
            similarity_threshold: self.similarity_threshold,
            ttl: self.ttl,
            exact_caching: self.exact_caching,
            bypass_on_stream: self.bypass_on_stream,
            cache_response_status_codes: slice_to_vec(self.cache_response_status_codes.as_slice()),
            failure_mode: self.failure_mode,
        }
    }
}

/// Decides for one configuration and one request shape.
#[derive(Debug)]
pub struct Engine {
    pub config: EngineConfig,
    pub extractor: PromptExtractor,
}

#[derive(Debug)]
pub enum RequestDecision {
    /// Forward upstream; on response, possibly write the entry.
    Forward { key: CacheKey, embedding: Option<Vec<Single>> },
    /// Forward upstream and do not write back.
    ForwardNoWrite { event: CacheEvent },
    /// Short-circuit with a cached payload.
    ShortCircuit { response: ReplayResponse, event: CacheEvent },
    /// Return a 503 immediately (fail_closed terminal error).
    FailClosed { reason: String },
}

/// A request whose decision is still open.
#[derive(Debug)]
pub struct Pending {
    pub key: CacheKey,
    pub prompt: CanonicalPrompt,
}

/// What comes next for a request.
#[derive(Debug)]
pub enum RequestStep {
    /// The request is decided.
    Decided(RequestDecision),
    /// Look up the entry of the key.
    GetExact(Pending),
    /// Embed the prompt.
    Embed(Pending),
    /// Query for the `k` entries most similar to the embedding, within the
    /// namespace and the model of the key.
    Query { pending: Pending, embedding: Vec<Single>, k: usize },
}

/// An entry to be written to the store.
#[derive(Debug)]
pub struct StoreWrite {
    pub key: CacheKey,
    pub embedding: Vec<Single>,
    pub payload: CachedPayload,
    pub ttl: Ttl,
}

/// The view of a [`RequestDecision`].
#[verifier::ext_equal]
pub enum DecisionView {
    Forward { key: KeyView, embedding: Option<Seq<Single>> },
    ForwardNoWrite { event: CacheEvent },
    ShortCircuit { response: ReplayView, event: CacheEvent },
    FailClosed { reason: Seq<char> },
}

/// The view of a [`Pending`].
#[verifier::ext_equal]
pub struct PendingView {
    pub key: KeyView,
    pub prompt: Seq<char>,
}

/// The view of a [`RequestStep`].
#[verifier::ext_equal]
pub enum StepView {
    Decided(DecisionView),
    GetExact(PendingView),
    Embed(PendingView),
    Query { pending: PendingView, embedding: Seq<Single>, k: usize },
}

/// The view of a [`StoreWrite`].
#[verifier::ext_equal]
pub struct WriteView {
    pub key: KeyView,
    pub embedding: Seq<Single>,
    pub payload: PayloadView,
    pub ttl: u64,
}

impl View for RequestDecision {
    type V = DecisionView;

    open spec fn view(&self) -> DecisionView {
        match self {
            RequestDecision::Forward { key, embedding } => DecisionView::Forward {
                key: key@,
                embedding: match embedding {
                    Some(v) => Some(v@),
                    None => None,
                },
            },
            RequestDecision::ForwardNoWrite { event } => DecisionView::ForwardNoWrite {
                event: *event,
            },
            RequestDecision::ShortCircuit { response, event } => DecisionView::ShortCircuit {
                response: response@,
                event: *event,
            },
            RequestDecision::FailClosed { reason } => DecisionView::FailClosed { reason: reason@ },
        }
    }
}

impl View for Pending {
    type V = PendingView;

    open spec fn view(&self) -> PendingView {
        PendingView { key: self.key@, prompt: self.prompt@ }
    }
}

impl View for RequestStep {
    type V = StepView;

    open spec fn view(&self) -> StepView {
        match self {
            RequestStep::Decided(d) => StepView::Decided(d@),
            RequestStep::GetExact(p) => StepView::GetExact(p@),
            RequestStep::Embed(p) => StepView::Embed(p@),
            RequestStep::Query { pending, embedding, k } => StepView::Query {
                pending: pending@,
                embedding: embedding@,
                k: *k,
            },
        }
    }
}

impl View for StoreWrite {
    type V = WriteView;

    open spec fn view(&self) -> WriteView {
        WriteView {
            key: self.key@,
            embedding: self.embedding@,
            payload: self.payload@,
            ttl: self.ttl@,
        }
    }
}

// ---------------------------------------------------------------------
// What is decided
// ---------------------------------------------------------------------

/// Forwarding without a write, for that reason.
pub open spec fn no_write(event: CacheEvent) -> DecisionView {
    DecisionView::ForwardNoWrite { event }
}

/// What comes first for a request, given its document.
pub open spec fn first_step(cfg: EngineConfig, kind: PromptExtractor, body: JsonTree) -> StepView {
    match extract::outcome(kind, body) {
        OutcomeView::Skip(_) => StepView::Decided(no_write(CacheEvent::SkipUnparseable)),
        OutcomeView::Found(e) => if cfg.bypass_on_stream && e.stream {
            StepView::Decided(no_write(CacheEvent::BypassStream))
        } else {
            let pending = PendingView {
                key: key::key_of(cfg.namespace@, e.model, e.prompt),
                prompt: e.prompt,
            };
            if cfg.exact_caching {
                StepView::GetExact(pending)
            } else {
                StepView::Embed(pending)
            }
        },
    }
}

/// What comes first for a request body: one that is no JSON is forwarded.
pub open spec fn request_step(
    cfg: EngineConfig,
    kind: PromptExtractor,
    parsed: Result<JsonTree, Seq<char>>,
) -> StepView {
    match parsed {
        Ok(body) => first_step(cfg, kind, body),
        Err(_) => StepView::Decided(no_write(CacheEvent::SkipUnparseable)),
    }
}

/// What comes after the lookup of the exact key.
pub open spec fn exact_step(
    cfg: EngineConfig,
    pending: PendingView,
    found: Result<Option<PayloadView>, StoreFault>,
) -> StepView {
    match found {
        Ok(Some(payload)) => StepView::Decided(
            DecisionView::ShortCircuit {
                response: replay::replay(
                    payload,
                    CacheEvent::HitExact,
                    None,
                    cfg.namespace@,
                    pending.key.prefix(),
                ),
                event: CacheEvent::HitExact,
            },
        ),
        Ok(None) => StepView::Embed(pending),
        Err(e) => if cfg.failure_mode == FailureMode::FailClosed {
            StepView::Decided(DecisionView::FailClosed { reason: "store: "@ + e.text() })
        } else {
            StepView::Embed(pending)
        },
    }
}

/// What comes after the embedding.
pub open spec fn embedding_step(
    cfg: EngineConfig,
    pending: PendingView,
    embedded: Result<Seq<Single>, EmbedFault>,
) -> StepView {
    match embedded {
        Ok(embedding) => StepView::Query { pending, embedding, k: 1 },
        Err(e) => if cfg.failure_mode == FailureMode::FailClosed {
            StepView::Decided(DecisionView::FailClosed { reason: "embedder: "@ + e.text() })
        } else {
            StepView::Decided(no_write(CacheEvent::BypassError))
        },
    }
}

/// The decision after the query: the first match counts, if its score reaches
/// the threshold.
pub open spec fn query_decision(
    cfg: EngineConfig,
    pending: PendingView,
    embedding: Seq<Single>,
    found: Result<Seq<MatchView>, StoreFault>,
) -> DecisionView {
    match found {
        Ok(matches) => if matches.len() > 0 && matches[0].score.at_least(
            cfg.similarity_threshold@,
        ) {
            DecisionView::ShortCircuit {
                response: replay::replay(
                    matches[0].payload,
                    CacheEvent::HitSemantic,
                    Some(matches[0].score),
                    cfg.namespace@,
                    matches[0].key.prefix(),
                ),
                event: CacheEvent::HitSemantic,
            }
        } else {
            DecisionView::Forward { key: pending.key, embedding: Some(embedding) }
        },
        Err(e) => if cfg.failure_mode == FailureMode::FailClosed {
            DecisionView::FailClosed { reason: "store: "@ + e.text() }
        } else {
            no_write(CacheEvent::BypassError)
        },
    }
}

/// The view of what a lookup answers.
pub open spec fn found_view(r: Result<Option<CachedPayload>, StoreError>) -> Result<
    Option<PayloadView>,
    StoreFault,
> {
    match r {
        Ok(Some(p)) => Ok(Some(p@)),
        Ok(None) => Ok(None),
        Err(e) => Err(e@),
    }
}

/// The view of what an embedder answers.
pub open spec fn embedded_view(r: Result<Vec<Single>, EmbedError>) -> Result<
    Seq<Single>,
    EmbedFault,
> {
    match r {
        Ok(v) => Ok(v@),
        Err(e) => Err(e@),
    }
}

/// The entry to be written when the response to a request has come: none unless
/// the request was forwarded with an embedding and the status is one of those
/// to be cached.
pub open spec fn response_write(
    cfg: EngineConfig,
    decision: DecisionView,
    status: u16,
    headers: Seq<(Seq<char>, Seq<char>)>,
    body: Seq<u8>,
    usage_total_tokens: Option<u64>,
    written_at: u64,
) -> Option<WriteView> {
    match decision {
        DecisionView::Forward { key, embedding: Some(embedding) } => if
            cfg.cache_response_status_codes@.contains(status) {
            Some(
                WriteView {
                    key,
                    embedding,
                    payload: PayloadView {
                        status,
                        headers: sanitized(headers),
                        body,
                        usage_total_tokens,
                        written_at,
                    },
                    ttl: cfg.ttl@,
                },
            )
        } else {
            None
        },
        _ => None,
    }
}

/// Whether a list holds a status.
pub fn lists_status(codes: &Vec<u16>, status: u16) -> (r: bool)
    ensures
        r == codes@.contains(status),
{
    let mut i: usize = 0;
    while i < codes.len()
        invariant
            i <= codes@.len(),
            forall|j: int| 0 <= j < i ==> codes@[j] != status,
        decreases codes@.len() - i,
    {
        if codes[i] == status {
            assert(codes@[i as int] == status);
            return true;
        }
        i += 1;
    }
    false
}

/// The key of a step that has one holds a digest: sixty-four hexadecimal digits.
pub open spec fn keyed_by_digest(step: StepView) -> bool {
    match step {
        StepView::Decided(_) => true,
        StepView::GetExact(p) => digest::is_hex_of(p.key.prompt_sha, 64),
        StepView::Embed(p) => digest::is_hex_of(p.key.prompt_sha, 64),
        StepView::Query { pending, .. } => digest::is_hex_of(pending.key.prompt_sha, 64),
    }
}

impl Engine {
    /// What comes first for a request body.
    pub fn on_request(&self, body: &[u8]) -> (r: RequestStep)
        ensures
            r@ == request_step(self.config, self.extractor, json::json_parse(body@)),
            keyed_by_digest(r@),
    {
        match json::parse_json(body) {
            Ok(document) => self.on_document(&document),
            Err(_) => RequestStep::Decided(
                RequestDecision::ForwardNoWrite { event: CacheEvent::SkipUnparseable },
            ),
        }
    }

    /// What comes first for a request, given its document.
    pub fn on_document(&self, body: &Json) -> (r: RequestStep)
        ensures
            r@ == first_step(self.config, self.extractor, body@),
            keyed_by_digest(r@),
    {
        let extracted = match self.extractor.extract(body) {
            ExtractOutcome::Found(e) => e,
            ExtractOutcome::Skip(_) => return RequestStep::Decided(
                RequestDecision::ForwardNoWrite { event: CacheEvent::SkipUnparseable },
            ),
        };
        if self.config.bypass_on_stream && extracted.stream {
            return RequestStep::Decided(
                RequestDecision::ForwardNoWrite { event: CacheEvent::BypassStream },
            );
        }
        let key = CacheKey::new(
            self.config.namespace.as_str(),
            extracted.model.as_str(),
            &extracted.prompt,
        );
        let pending = Pending { key, prompt: extracted.prompt };
        if self.config.exact_caching {
            RequestStep::GetExact(pending)
        } else {
            RequestStep::Embed(pending)
        }
    }

    /// What comes after the lookup of the exact key.
    pub fn on_exact(
        &self,
        pending: Pending,
        found: Result<Option<CachedPayload>, StoreError>,
    ) -> (r: RequestStep)
        ensures
            r@ == exact_step(self.config, pending@, found_view(found)),
    {
        match found {
            Ok(Some(payload)) => {
                let response = replay::build_replay(
                    &payload,
                    CacheEvent::HitExact,
                    None,
                    self.config.namespace.as_str(),
                    pending.key.correlation_prefix().as_str(),
                );
                RequestStep::Decided(
                    RequestDecision::ShortCircuit { response, event: CacheEvent::HitExact },
                )
            },
            Ok(None) => RequestStep::Embed(pending),
            Err(e) => if self.config.failure_mode == FailureMode::FailClosed {
                RequestStep::Decided(
                    RequestDecision::FailClosed {
                        reason: text::join2("store: ", e.message().as_str()),
                    },
                )
            } else {
                RequestStep::Embed(pending)
            },
        }
    }

    /// What comes after the embedding.
    pub fn on_embedding(
        &self,
        pending: Pending,
        embedded: Result<Vec<Single>, EmbedError>,
    ) -> (r: RequestStep)
        ensures
            r@ == embedding_step(self.config, pending@, embedded_view(embedded)),
            embedded matches Ok(v) ==> r@ == (StepView::Query {
                pending: pending@,
                embedding: v@,
                k: 1,
            }),
    {
        match embedded {
            Ok(embedding) => RequestStep::Query { pending, embedding, k: 1 },
            Err(e) => if self.config.failure_mode == FailureMode::FailClosed {
                RequestStep::Decided(
                    RequestDecision::FailClosed {
                        reason: text::join2("embedder: ", e.message().as_str()),
                    },
                )
            } else {
                RequestStep::Decided(
                    RequestDecision::ForwardNoWrite { event: CacheEvent::BypassError },
                )
            },
        }
    }

    /// The decision after the query.
    pub fn on_matches(
        &self,
        pending: Pending,
        embedding: Vec<Single>,
        found: Result<Vec<Match>, StoreError>,
    ) -> (r: RequestDecision)
        ensures
            r@ == query_decision(self.config, pending@, embedding@, store::matches_view(found)),
    {
        match found {
            Ok(matches) => {
                if matches.len() > 0 && matches[0].score.ge(
                    self.config.similarity_threshold.value(),
                ) {
                    assert(store::match_views(matches@)[0] == matches@[0]@);
                    let response = replay::build_replay(
                        &matches[0].payload,
                        CacheEvent::HitSemantic,
                        Some(matches[0].score),
                        self.config.namespace.as_str(),
                        matches[0].key.correlation_prefix().as_str(),
                    );
                    return RequestDecision::ShortCircuit {
                        response,
                        event: CacheEvent::HitSemantic,
                    };
                }
                RequestDecision::Forward { key: pending.key, embedding: Some(embedding) }
            },
            Err(e) => if self.config.failure_mode == FailureMode::FailClosed {
                RequestDecision::FailClosed {
                    reason: text::join2("store: ", e.message().as_str()),
                }
            } else {
                RequestDecision::ForwardNoWrite { event: CacheEvent::BypassError }
            },
        }
    }

    /// The entry to be written back when the response of the upstream has come;
    /// `written_at` is the time of the write in UNIX seconds. None where the
    /// request was not forwarded with an embedding, or where the status is not
    /// in the allow-list.
    pub fn on_response(
        &self,
        decision: &RequestDecision,
        upstream_status: u16,
        upstream_headers: &[(String, String)],
        upstream_body: &[u8],
        usage_total_tokens: Option<u64>,
        written_at: u64,
    ) -> (r: Option<StoreWrite>)
        ensures
            (match r {
                Some(w) => Some(w@),
                None => None,
            }) == response_write(
                self.config,
                decision@,
                upstream_status,
                store::header_views(upstream_headers@),
                upstream_body@,
                usage_total_tokens,
                written_at,
            ),
    {
        let (key, embedding) = match decision {
            RequestDecision::Forward { key, embedding: Some(e) } => (key, e),
            _ => return None,
        };
        if !lists_status(&self.config.cache_response_status_codes, upstream_status) {
            return None;
        }
        let payload = CachedPayload {
            status: upstream_status,
            headers: sanitize_headers(upstream_headers),
            body: slice_to_vec(upstream_body),
            usage_total_tokens,
            written_at,
        };
        Some(
            StoreWrite {
                key: key.clone(),
                embedding: slice_to_vec(embedding.as_slice()),
                payload,
                ttl: self.config.ttl,
            },
        )
    }
}

// ---------------------------------------------------------------------
// Laws
// ---------------------------------------------------------------------

/// The decision once the prompt has been embedded, given the answers of the
/// embedder and of the query.
pub open spec fn decided_from_embedding(
    cfg: EngineConfig,
    pending: PendingView,
    embedded: Result<Seq<Single>, EmbedFault>,
    found: Result<Seq<MatchView>, StoreFault>,
) -> DecisionView {
    match embedding_step(cfg, pending, embedded) {
        StepView::Query { pending, embedding, k } => query_decision(
            cfg,
            pending,
            embedding,
            found,
        ),
        StepView::Decided(d) => d,
        _ => arbitrary(),
    }
}

/// The decision about a request, step by step, given what each call would answer.
pub open spec fn decided(
    cfg: EngineConfig,
    kind: PromptExtractor,
    parsed: Result<JsonTree, Seq<char>>,
    exact: Result<Option<PayloadView>, StoreFault>,
    embedded: Result<Seq<Single>, EmbedFault>,
    found: Result<Seq<MatchView>, StoreFault>,
) -> DecisionView {
    match request_step(cfg, kind, parsed) {
        StepView::Decided(d) => d,
        StepView::GetExact(pending) => match exact_step(cfg, pending, exact) {
            StepView::Decided(d) => d,
            StepView::Embed(pending) => decided_from_embedding(cfg, pending, embedded, found),
            _ => arbitrary(),
        },
        StepView::Embed(pending) => decided_from_embedding(cfg, pending, embedded, found),
        StepView::Query { .. } => arbitrary(),
    }
}

/// The request whose prompt that is.
pub open spec fn pending_for(
    cfg: EngineConfig,
    kind: PromptExtractor,
    parsed: Result<JsonTree, Seq<char>>,
    pending: PendingView,
) -> bool {
    parsed is Ok && (extract::outcome(kind, parsed->Ok_0) matches OutcomeView::Found(e) && {
        &&& !(cfg.bypass_on_stream && e.stream)
        &&& pending.prompt == e.prompt
        &&& pending.key == key::key_of(cfg.namespace@, e.model, e.prompt)
    })
}

/// A request is undecided after its body was read exactly if a prompt was found
/// in it that is not to be bypassed for streaming. What is embedded is then that
/// prompt, and its key is that of the namespace, the model and the prompt.
pub proof fn undecided_requests(
    cfg: EngineConfig,
    kind: PromptExtractor,
    parsed: Result<JsonTree, Seq<char>>,
)
    ensures
        match request_step(cfg, kind, parsed) {
            StepView::Decided(d) => {
                &&& d == no_write(CacheEvent::SkipUnparseable) || d == no_write(
                    CacheEvent::BypassStream,
                )
                &&& forall|p: PendingView| !pending_for(cfg, kind, parsed, p)
            },
            StepView::GetExact(p) => cfg.exact_caching && pending_for(cfg, kind, parsed, p),
            StepView::Embed(p) => !cfg.exact_caching && pending_for(cfg, kind, parsed, p),
            StepView::Query { .. } => false,
        },
{
}

/// In fail-open mode no request is refused, whatever fails: an error of the
/// embedder or of the query forwards it without a write, and an error of the
/// exact lookup is passed over as if nothing had been found.
pub proof fn fail_open_never_refuses(
    cfg: EngineConfig,
    kind: PromptExtractor,
    parsed: Result<JsonTree, Seq<char>>,
    exact: Result<Option<PayloadView>, StoreFault>,
    embedded: Result<Seq<Single>, EmbedFault>,
    found: Result<Seq<MatchView>, StoreFault>,
)
    requires
        cfg.failure_mode == FailureMode::FailOpen,
    ensures
        !(decided(cfg, kind, parsed, exact, embedded, found) is FailClosed),
        exact is Err ==> decided(cfg, kind, parsed, exact, embedded, found) == decided(
            cfg,
            kind,
            parsed,
            Ok(None),
            embedded,
            found,
        ),
        !(request_step(cfg, kind, parsed) is Decided) && (embedded is Err || found is Err)
            ==> decided(cfg, kind, parsed, Ok(None), embedded, found) == no_write(
            CacheEvent::BypassError,
        ),
{
}

/// In fail-closed mode no request is forwarded past an error: once its prompt is
/// known, an error of any call that is made refuses it.
pub proof fn fail_closed_never_bypasses(
    cfg: EngineConfig,
    kind: PromptExtractor,
    parsed: Result<JsonTree, Seq<char>>,
    exact: Result<Option<PayloadView>, StoreFault>,
    embedded: Result<Seq<Single>, EmbedFault>,
    found: Result<Seq<MatchView>, StoreFault>,
)
    requires
        cfg.failure_mode == FailureMode::FailClosed,
    ensures
        decided(cfg, kind, parsed, exact, embedded, found) != no_write(CacheEvent::BypassError),
        request_step(cfg, kind, parsed) is GetExact && exact is Err ==> decided(
            cfg,
            kind,
            parsed,
            exact,
            embedded,
            found,
        ) is FailClosed,
        !(request_step(cfg, kind, parsed) is Decided) && (embedded is Err || found is Err)
            ==> decided(cfg, kind, parsed, Ok(None), embedded, found) is FailClosed,
{
}

/// The engine lets a streaming request through before it asks the embedder or the
/// vector store, where streaming is to be bypassed.
pub proof fn engine_bypasses_streams_first(
    cfg: EngineConfig,
    kind: PromptExtractor,
    body: JsonTree,
)
    requires
        cfg.bypass_on_stream,
        extract::outcome(kind, body) is Found,
        extract::outcome(kind, body)->Found_0.stream,
    ensures
        first_step(cfg, kind, body) == StepView::Decided(no_write(CacheEvent::BypassStream)),
{
}

/// An exact hit is replayed without an embedding and without a query: the
/// decision is the same whatever those would answer.
pub proof fn exact_hit_needs_no_embedding(
    cfg: EngineConfig,
    kind: PromptExtractor,
    parsed: Result<JsonTree, Seq<char>>,
    payload: PayloadView,
    embedded: Result<Seq<Single>, EmbedFault>,
    found: Result<Seq<MatchView>, StoreFault>,
)
    requires
        request_step(cfg, kind, parsed) is GetExact,
    ensures
        decided(cfg, kind, parsed, Ok(Some(payload)), embedded, found) == (
        DecisionView::ShortCircuit {
            response: replay::replay(
                payload,
                CacheEvent::HitExact,
                None,
                cfg.namespace@,
                request_step(cfg, kind, parsed)->GetExact_0.key.prefix(),
            ),
            event: CacheEvent::HitExact,
        }),
{
}

/// Where no exact entry is replayed and nothing fails, the request is a semantic
/// hit exactly if the first match reaches the threshold, and is forwarded with
/// its key and its embedding otherwise.
pub proof fn semantic_hit_iff_threshold_reached(
    cfg: EngineConfig,
    kind: PromptExtractor,
    parsed: Result<JsonTree, Seq<char>>,
    embedding: Seq<Single>,
    matches: Seq<MatchView>,
)
    requires
        !(request_step(cfg, kind, parsed) is Decided),
    ensures
        ({
            let d = decided(cfg, kind, parsed, Ok(None), Ok(embedding), Ok(matches));
            let hit = matches.len() > 0 && matches[0].score.at_least(cfg.similarity_threshold@);
            &&& hit ==> d is ShortCircuit && d->ShortCircuit_event == CacheEvent::HitSemantic
                && d->response.status == matches[0].payload.status && d->response.body
                == matches[0].payload.body
            &&& !hit ==> d is Forward && d->embedding == Some(embedding)
        }),
{
}

/// One in single precision.
pub const ONE: u32 = 0x3f80_0000;

/// Similarity scores are at most one, so a threshold above one turns semantic
/// hits off.
pub proof fn threshold_above_one_disables_semantic_hits(
    cfg: EngineConfig,
    kind: PromptExtractor,
    parsed: Result<JsonTree, Seq<char>>,
    exact: Result<Option<PayloadView>, StoreFault>,
    embedded: Result<Seq<Single>, EmbedFault>,
    found: Result<Seq<MatchView>, StoreFault>,
)
    requires
        !(Single { bits: ONE }).at_least(cfg.similarity_threshold@),
        config::in_threshold_range(cfg.similarity_threshold@),
        found matches Ok(matches) ==> forall|i: int|
            0 <= i < matches.len() ==> (Single { bits: ONE }).at_least(#[trigger] matches[i].score),
    ensures
        decided(cfg, kind, parsed, exact, embedded, found) matches DecisionView::ShortCircuit {
            event,
            ..
        } ==> event == CacheEvent::HitExact,
{
    if let Ok(matches) = found {
        if matches.len() > 0 {
            assert((Single { bits: ONE }).at_least(matches[0].score));
        }
    }
}

/// Every request is decided in one of five ways: an unreadable body and a
/// bypassed stream are forwarded without a write; a hit is replayed; a miss is
/// forwarded with the key of the request and its embedding; an error is bypassed
/// or refused.
pub proof fn decisions(
    cfg: EngineConfig,
    kind: PromptExtractor,
    parsed: Result<JsonTree, Seq<char>>,
    exact: Result<Option<PayloadView>, StoreFault>,
    embedded: Result<Seq<Single>, EmbedFault>,
    found: Result<Seq<MatchView>, StoreFault>,
)
    ensures
        match decided(cfg, kind, parsed, exact, embedded, found) {
            DecisionView::Forward { key, embedding } => embedded is Ok && embedding == Some(
                embedded->Ok_0,
            ) && parsed is Ok && (extract::outcome(kind, parsed->Ok_0) matches OutcomeView::Found(
                e,
            ) && key == key::key_of(cfg.namespace@, e.model, e.prompt)),
            DecisionView::ForwardNoWrite { event } => event == CacheEvent::SkipUnparseable || event
                == CacheEvent::BypassStream || event == CacheEvent::BypassError,
            DecisionView::ShortCircuit { event, .. } => event == CacheEvent::HitExact || event
                == CacheEvent::HitSemantic,
            DecisionView::FailClosed { .. } => cfg.failure_mode == FailureMode::FailClosed,
        },
{
}

/// An entry is written exactly if the request was forwarded with an embedding
/// and the status is one of those to be cached; what is written never holds a
/// sensitive header.
pub proof fn writes_only_forwarded_and_allowed(
    cfg: EngineConfig,
    decision: DecisionView,
    status: u16,
    headers: Seq<(Seq<char>, Seq<char>)>,
    body: Seq<u8>,
    usage_total_tokens: Option<u64>,
    written_at: u64,
)
    ensures
        ({
            let w = response_write(
                cfg,
                decision,
                status,
                headers,
                body,
                usage_total_tokens,
                written_at,
            );
            &&& w is Some <==> decision is Forward && decision->embedding is Some
                && cfg.cache_response_status_codes@.contains(status)
            &&& w matches Some(w) ==> forall|i: int|
                0 <= i < w.payload.headers.len() ==> !sensitive(
                    #[trigger] w.payload.headers[i].0,
                )
        }),
{
    sanitized_holds_no_sensitive(headers);
}

/// What was written for a request is what a later query replays: if the query
/// finds the entry first, with a score that reaches the threshold, the request
/// is answered with the status and the body of the upstream's response and with
/// its headers but the sensitive ones, the headers of the cache behind them.
pub proof fn written_entry_is_replayed(
    cfg: EngineConfig,
    decision: DecisionView,
    status: u16,
    headers: Seq<(Seq<char>, Seq<char>)>,
    body: Seq<u8>,
    usage_total_tokens: Option<u64>,
    written_at: u64,
    pending: PendingView,
    embedding: Seq<Single>,
    matches: Seq<MatchView>,
)
    requires
        matches.len() > 0,
        matches[0].score.at_least(cfg.similarity_threshold@),
        response_write(
            cfg,
            decision,
            status,
            headers,
            body,
            usage_total_tokens,
            written_at,
        ) matches Some(w) && matches[0].payload == w.payload && matches[0].key == w.key,
    ensures
        decision is Forward,
        query_decision(cfg, pending, embedding, Ok(matches)) == (DecisionView::ShortCircuit {
            response: ReplayView {
                status,
                headers: sanitized(headers) + replay::cache_headers(
                    CacheEvent::HitSemantic,
                    Some(matches[0].score),
                    cfg.namespace@,
                    decision->Forward_key.prefix(),
                ),
                body,
            },
            event: CacheEvent::HitSemantic,
        }),
{
}

/// The same for a lookup of the exact key that finds the entry.
pub proof fn written_entry_is_replayed_exactly(
    cfg: EngineConfig,
    decision: DecisionView,
    status: u16,
    headers: Seq<(Seq<char>, Seq<char>)>,
    body: Seq<u8>,
    usage_total_tokens: Option<u64>,
    written_at: u64,
    pending: PendingView,
    payload: PayloadView,
)
    requires
        response_write(
            cfg,
            decision,
            status,
            headers,
            body,
            usage_total_tokens,
            written_at,
        ) matches Some(w) && payload == w.payload,
    ensures
        exact_step(cfg, pending, Ok(Some(payload))) == StepView::Decided(
            DecisionView::ShortCircuit {
                response: ReplayView {
                    status,
                    headers: sanitized(headers) + replay::cache_headers(
                        CacheEvent::HitExact,
                        None,
                        cfg.namespace@,
                        pending.key.prefix(),
                    ),
                    body,
                },
                event: CacheEvent::HitExact,
            },
        ),
{
}

/// No sensitive header is left.
pub proof fn sanitized_holds_no_sensitive(headers: Seq<(Seq<char>, Seq<char>)>)
    ensures
        forall|i: int|
            0 <= i < sanitized(headers).len() ==> !sensitive(#[trigger] sanitized(headers)[i].0),
    decreases headers.len(),
{
    if headers.len() > 0 {
        sanitized_holds_no_sensitive(headers.drop_last());
        let before = sanitized(headers.drop_last());
        if !sensitive(headers.last().0) {
            assert forall|i: int| 0 <= i < sanitized(headers).len() implies !sensitive(
                #[trigger] sanitized(headers)[i].0,
            ) by {
                assert(i < before.len() ==> sanitized(headers)[i] == before[i]);
            }
        }
    }
}

/// A list without sensitive headers is left as it is; so dropping the sensitive
/// headers twice is the same as once.
pub proof fn sanitized_keeps_the_rest(headers: Seq<(Seq<char>, Seq<char>)>)
    requires
        forall|i: int| 0 <= i < headers.len() ==> !sensitive(#[trigger] headers[i].0),
    ensures
        sanitized(headers) == headers,
    decreases headers.len(),
{
    if headers.len() > 0 {
        let before = headers.drop_last();
        assert forall|i: int| 0 <= i < before.len() implies !sensitive(
            #[trigger] before[i].0,
        ) by {
            assert(before[i] == headers[i]);
        }
        sanitized_keeps_the_rest(before);
        assert(!sensitive(headers[headers.len() - 1].0));
        assert(before.push(headers.last()) =~= headers);
    } else {
        assert(sanitized(headers) =~= headers);
    }
}

/// Dropping the sensitive headers twice is the same as once.
pub proof fn sanitized_idempotent(headers: Seq<(Seq<char>, Seq<char>)>)
    ensures
        sanitized(sanitized(headers)) == sanitized(headers),
{
    sanitized_holds_no_sensitive(headers);
    sanitized_keeps_the_rest(sanitized(headers));
}

/// Each header is judged by itself: the lists before and after any place are
/// handled apart, so every other header keeps its place among the rest.
pub proof fn sanitized_is_per_header(
    a: Seq<(Seq<char>, Seq<char>)>,
    b: Seq<(Seq<char>, Seq<char>)>,
)
    ensures
        sanitized(a + b) == sanitized(a) + sanitized(b),
    decreases b.len(),
{
    if b.len() == 0 {
        assert(a + b =~= a);
        assert(sanitized(a) + sanitized(b) =~= sanitized(a));
    } else {
        sanitized_is_per_header(a, b.drop_last());
        assert((a + b).drop_last() =~= a + b.drop_last());
        assert((a + b).last() == b.last());
        assert(sanitized(a + b) =~= sanitized(a) + sanitized(b));
    }
}

/// A request whose prompt was found, and which is no stream to be bypassed, goes on
/// with that prompt, under a key of the configured namespace, the model of the
/// body and the digest of the prompt: to the lookup of the key where exact caching
/// is on, to the embedding where it is off.
pub proof fn request_goes_on_with_its_prompt(
    cfg: EngineConfig,
    kind: PromptExtractor,
    body: JsonTree,
)
    requires
        extract::outcome(kind, body) is Found,
        !(cfg.bypass_on_stream && extract::outcome(kind, body)->Found_0.stream),
    ensures
        ({
            let e = extract::outcome(kind, body)->Found_0;
            let step = request_step(cfg, kind, Ok(body));
            let pending = match step {
                StepView::GetExact(p) => p,
                StepView::Embed(p) => p,
                _ => arbitrary(),
            };
            &&& cfg.exact_caching ==> step is GetExact
            &&& !cfg.exact_caching ==> step is Embed
            &&& pending.prompt == e.prompt
            &&& pending.key.namespace == cfg.namespace@
            &&& pending.key.model == e.model
            &&& pending.key.prompt_sha == digest::hex_text(digest::sha256(encode_utf8(e.prompt)))
        }),
{
}

/// A body that is no JSON, and one without a prompt, are forwarded and not cached.
pub proof fn unreadable_requests_are_forwarded(
    cfg: EngineConfig,
    kind: PromptExtractor,
    body: JsonTree,
    error: Seq<char>,
)
    ensures
        request_step(cfg, kind, Err(error)) == StepView::Decided(
            DecisionView::ForwardNoWrite { event: CacheEvent::SkipUnparseable },
        ),
        extract::outcome(kind, body) is Skip ==> request_step(cfg, kind, Ok(body))
            == StepView::Decided(
            DecisionView::ForwardNoWrite { event: CacheEvent::SkipUnparseable },
        ),
{
}

/// Once the prompt has been embedded, the next step is a query for the one entry
/// that is nearest to that embedding, for the same request.
pub proof fn embedding_is_followed_by_query(
    cfg: EngineConfig,
    pending: PendingView,
    embedding: Seq<Single>,
)
    ensures
        embedding_step(cfg, pending, Ok(embedding)) matches StepView::Query {
            pending: same,
            embedding: asked,
            k,
        } && same == pending && asked == embedding && k == 1,
{
}

/// Where the exact key is not found, the same request goes on to its embedding.
/// Where it is, the entry answers: with its status, its body and its headers, and
/// behind them the event, the namespace and the start of the request's digest.
pub proof fn exact_lookup_answers_or_goes_on(
    cfg: EngineConfig,
    pending: PendingView,
    payload: PayloadView,
)
    ensures
        exact_step(cfg, pending, Ok(None)) == StepView::Embed(pending),
        exact_step(cfg, pending, Ok(Some(payload))) matches StepView::Decided(
            DecisionView::ShortCircuit { response, event },
        ) && {
            &&& event == CacheEvent::HitExact
            &&& response.status == payload.status
            &&& response.body == payload.body
            &&& response.headers == payload.headers + seq![
                ("x-cache"@, "hit-exact"@),
                ("x-cache-namespace"@, cfg.namespace@),
                ("x-cache-key"@, pending.key.prefix()),
            ]
        },
{
    let headers = replay::cache_headers(
        CacheEvent::HitExact,
        None,
        cfg.namespace@,
        pending.key.prefix(),
    );
    assert(headers =~= seq![
        ("x-cache"@, "hit-exact"@),
        ("x-cache-namespace"@, cfg.namespace@),
        ("x-cache-key"@, pending.key.prefix()),
    ]);
}

/// A first match whose score reaches the threshold answers the request, whatever
/// else was found: with its status, its body and its headers, and behind them the
/// event, its score, the namespace and the start of its digest.
pub proof fn first_match_answers(
    cfg: EngineConfig,
    pending: PendingView,
    embedding: Seq<Single>,
    matches: Seq<MatchView>,
)
    requires
        matches.len() > 0,
        matches[0].score.at_least(cfg.similarity_threshold@),
    ensures
        query_decision(cfg, pending, embedding, Ok(matches)) matches DecisionView::ShortCircuit {
            response,
            event,
        } && {
            &&& event == CacheEvent::HitSemantic
            &&& response.status == matches[0].payload.status
            &&& response.body == matches[0].payload.body
            &&& response.headers == matches[0].payload.headers + seq![
                ("x-cache"@, "hit-semantic"@),
                ("x-cache-score"@, ieee::fixed_text(matches[0].score)),
                ("x-cache-namespace"@, cfg.namespace@),
                ("x-cache-key"@, matches[0].key.prefix()),
            ]
        },
{
    let headers = replay::cache_headers(
        CacheEvent::HitSemantic,
        Some(matches[0].score),
        cfg.namespace@,
        matches[0].key.prefix(),
    );
    assert(headers =~= seq![
        ("x-cache"@, "hit-semantic"@),
        ("x-cache-score"@, ieee::fixed_text(matches[0].score)),
        ("x-cache-namespace"@, cfg.namespace@),
        ("x-cache-key"@, matches[0].key.prefix()),
    ]);
}

/// Where nothing is near enough, the request is forwarded with its own key and the
/// embedding that was asked for, so that its response can be written.
pub proof fn miss_is_forwarded_with_its_key(
    cfg: EngineConfig,
    pending: PendingView,
    embedding: Seq<Single>,
    matches: Seq<MatchView>,
)
    requires
        matches.len() == 0 || !matches[0].score.at_least(cfg.similarity_threshold@),
    ensures
        query_decision(cfg, pending, embedding, Ok(matches)) == (DecisionView::Forward {
            key: pending.key,
            embedding: Some(embedding),
        }),
{
}

/// The nearer an entry and the lower the threshold, the more is answered: a hit
/// stays one with a greater score and under a lesser threshold.
pub proof fn nearer_entries_still_hit(
    strict: EngineConfig,
    lax: EngineConfig,
    pending: PendingView,
    embedding: Seq<Single>,
    far: Seq<MatchView>,
    near: Seq<MatchView>,
)
    requires
        query_decision(strict, pending, embedding, Ok(far)) is ShortCircuit,
        near.len() > 0,
        near[0].score.at_least(far[0].score),
        strict.similarity_threshold@.at_least(lax.similarity_threshold@),
    ensures
        query_decision(lax, pending, embedding, Ok(near)) is ShortCircuit,
{
}

/// Where a call fails, the message of the error is the end of the reason that a
/// request is refused for.
pub proof fn refusals_name_the_error(
    cfg: EngineConfig,
    pending: PendingView,
    embedding: Seq<Single>,
    e: EmbedFault,
    s: StoreFault,
)
    requires
        cfg.failure_mode == FailureMode::FailClosed,
    ensures
        embedding_step(cfg, pending, Err(e)) matches StepView::Decided(
            DecisionView::FailClosed { reason },
        ) && text::has_suffix(reason, e.text()),
        exact_step(cfg, pending, Err(s)) matches StepView::Decided(
            DecisionView::FailClosed { reason },
        ) && text::has_suffix(reason, s.text()),
        query_decision(cfg, pending, embedding, Err(s)) matches DecisionView::FailClosed {
            reason,
        } && text::has_suffix(reason, s.text()),
{
    text::suffix_is_the_end(seq![], "embedder: "@, e.text());
    text::suffix_is_the_end(seq![], "store: "@, s.text());
}

/// Where a call fails in fail-open mode, a failed lookup is no more than a miss of
/// the exact key, and any other failure forwards the request.
pub proof fn failures_are_passed_over(
    cfg: EngineConfig,
    pending: PendingView,
    embedding: Seq<Single>,
    e: EmbedFault,
    s: StoreFault,
)
    requires
        cfg.failure_mode == FailureMode::FailOpen,
    ensures
        exact_step(cfg, pending, Err(s)) == StepView::Embed(pending),
        embedding_step(cfg, pending, Err(e)) == StepView::Decided(
            DecisionView::ForwardNoWrite { event: CacheEvent::BypassError },
        ),
        query_decision(cfg, pending, embedding, Err(s)) == (DecisionView::ForwardNoWrite {
            event: CacheEvent::BypassError,
        }),
{
}

/// What is written for a miss is its key, its embedding and the response: the
/// status, the body, the headers but the sensitive ones, the tokens and the time.
pub proof fn write_holds_the_response(
    cfg: EngineConfig,
    key: KeyView,
    embedding: Seq<Single>,
    status: u16,
    headers: Seq<(Seq<char>, Seq<char>)>,
    body: Seq<u8>,
    usage_total_tokens: Option<u64>,
    written_at: u64,
)
    requires
        cfg.cache_response_status_codes@.contains(status),
    ensures
        response_write(
            cfg,
            DecisionView::Forward { key, embedding: Some(embedding) },
            status,
            headers,
            body,
            usage_total_tokens,
            written_at,
        ) matches Some(w) && {
            &&& w.key == key
            &&& w.embedding == embedding
            &&& w.ttl == cfg.ttl@
            &&& w.payload.status == status
            &&& w.payload.body == body
            &&& w.payload.usage_total_tokens == usage_total_tokens
            &&& w.payload.written_at == written_at
            &&& forall|i: int|
                0 <= i < headers.len() && !sensitive((#[trigger] headers[i]).0)
                    ==> w.payload.headers.contains(headers[i])
            &&& forall|i: int|
                0 <= i < w.payload.headers.len() ==> headers.contains(
                    #[trigger] w.payload.headers[i],
                ) && !sensitive(w.payload.headers[i].0)
        },
{
    lemma_sanitized_members(headers);
}

proof fn lemma_sanitized_members(headers: Seq<(Seq<char>, Seq<char>)>)
    ensures
        forall|i: int|
            0 <= i < headers.len() && !sensitive((#[trigger] headers[i]).0) ==> sanitized(
                headers,
            ).contains(headers[i]),
        forall|i: int|
            0 <= i < sanitized(headers).len() ==> headers.contains(#[trigger] sanitized(headers)[i])
                && !sensitive(sanitized(headers)[i].0),
    decreases headers.len(),
{
    if headers.len() > 0 {
        let (before, last) = (headers.drop_last(), headers.last());
        lemma_sanitized_members(before);
        let (x, y) = (sanitized(before), sanitized(headers));
        assert forall|i: int| 0 <= i < headers.len() && !sensitive(
            (#[trigger] headers[i]).0,
        ) implies y.contains(headers[i]) by {
            if i < before.len() {
                assert(before[i] == headers[i]);
                let j = choose|j: int| 0 <= j < x.len() && x[j] == headers[i];
                assert(y[j] == headers[i]);
            } else {
                assert(y[y.len() - 1] == last);
            }
        }
        assert forall|i: int| 0 <= i < y.len() implies headers.contains(#[trigger] y[i])
            && !sensitive(y[i].0) by {
            if i < x.len() {
                assert(x[i] == y[i]);
                let j = choose|j: int| 0 <= j < before.len() && before[j] == x[i];
                assert(headers[j] == y[i]);
            } else {
                assert(headers[headers.len() - 1] == y[i]);
            }
        }
    }
}

/// Which headers are sensitive does not depend on the case of their letters.
pub proof fn sensitive_in_any_case(a: Seq<char>, b: Seq<char>)
    requires
        text::lowered(a) == text::lowered(b),
    ensures
        sensitive(a) == sensitive(b),
{
}

/// Credentials, cookies and what belongs to one connection are sensitive, and
/// nothing else is.
pub proof fn sensitive_headers(name: Seq<char>)
    ensures
        sensitive(name) <==> seq![
            "authorization"@,
            "proxy-authenticate"@,
            "proxy-authorization"@,
            "www-authenticate"@,
            "set-cookie"@,
            "cookie"@,
            "connection"@,
            "keep-alive"@,
            "transfer-encoding"@,
            "te"@,
            "trailer"@,
            "upgrade"@,
        ].contains(text::lowered(name)),
{
    let all = seq![
        "authorization"@,
        "proxy-authenticate"@,
        "proxy-authorization"@,
        "www-authenticate"@,
        "set-cookie"@,
        "cookie"@,
        "connection"@,
        "keep-alive"@,
        "transfer-encoding"@,
        "te"@,
        "trailer"@,
        "upgrade"@,
    ];
    let lower = text::lowered(name);
    assert(all[0] == "authorization"@ && all[1] == "proxy-authenticate"@ && all[2]
        == "proxy-authorization"@ && all[3] == "www-authenticate"@);
    assert(all[4] == "set-cookie"@ && all[5] == "cookie"@ && all[6] == "connection"@ && all[7]
        == "keep-alive"@);
    assert(all[8] == "transfer-encoding"@ && all[9] == "te"@ && all[10] == "trailer"@ && all[11]
        == "upgrade"@);
    if all.contains(lower) {
        let i = choose|i: int| 0 <= i < all.len() && all[i] == lower;
        assert(0 <= i < 12);
    }
}

/// What is stated of an answer is stated of the whole of it.
pub proof fn answers_are_seen_whole(
    payload: CachedPayload,
    vector: Vec<Single>,
    s: StoreError,
    e: EmbedError,
)
    ensures
        found_view(Ok(Some(payload))) == Ok::<Option<PayloadView>, StoreFault>(Some(payload@)),
        found_view(Ok(None)) == Ok::<Option<PayloadView>, StoreFault>(None),
        found_view(Err(s)) == Err::<Option<PayloadView>, StoreFault>(s@),
        embedded_view(Ok(vector)) == Ok::<Seq<Single>, EmbedFault>(vector@),
        embedded_view(Err(e)) == Err::<Seq<Single>, EmbedFault>(e@),
{
}

/// What is stated of a decision, of a step and of a write is stated of the whole of
/// them.
pub proof fn decisions_are_seen_whole(
    key: CacheKey,
    embedding: Vec<Single>,
    event: CacheEvent,
    response: ReplayResponse,
    reason: String,
    pending: Pending,
    decision: RequestDecision,
    w: StoreWrite,
    k: usize,
)
    ensures
        (RequestDecision::Forward { key, embedding: Some(embedding) })@ == (DecisionView::Forward {
            key: key@,
            embedding: Some(embedding@),
        }),
        (RequestDecision::Forward { key, embedding: None })@ == (DecisionView::Forward {
            key: key@,
            embedding: None,
        }),
        (RequestDecision::ForwardNoWrite { event })@ == (DecisionView::ForwardNoWrite { event }),
        (RequestDecision::ShortCircuit { response, event })@ == (DecisionView::ShortCircuit {
            response: response@,
            event,
        }),
        (RequestDecision::FailClosed { reason })@ == (DecisionView::FailClosed { reason: reason@ }),
        pending@.key == pending.key@,
        pending@.prompt == pending.prompt@,
        RequestStep::Decided(decision)@ == StepView::Decided(decision@),
        RequestStep::GetExact(pending)@ == StepView::GetExact(pending@),
        RequestStep::Embed(pending)@ == StepView::Embed(pending@),
        (RequestStep::Query { pending, embedding, k })@ == (StepView::Query {
            pending: pending@,
            embedding: embedding@,
            k,
        }),
        w@.key == w.key@,
        w@.embedding == w.embedding@,
        w@.payload == w.payload@,
        w@.ttl == w.ttl@,
{
}

} // verus!
