//! The life of a request at the gateway: what the request filter and the
//! response filter of the policy do around the [`Engine`].
//!
//! A streaming request is let through before anything is asked, where that is
//! configured. Before the engine decides on another one, a request that is
//! byte-identical to an earlier one is answered from a key-value store of the
//! platform; behind it, an upstream response is marked with the `X-Cache` headers
//! and written to both stores.

use vstd::prelude::*;
use vstd::slice::slice_to_vec;
use vstd::utf8::*;

use crate::config;
use crate::config::{FailureMode, Threshold, ThresholdError, Ttl};
use crate::digest;
use crate::engine;
use crate::engine::{
    DecisionView, Engine, EngineConfig, PendingView, RequestDecision, RequestStep, StepView,
    StoreWrite, WriteView,
};
use crate::error::{EmbedFault, StoreFault};
use crate::extract;
use crate::extract::{ExtractOutcome, OutcomeView, PromptExtractor};
use crate::ieee;
use crate::ieee::Single;
use crate::json;
use crate::json::{Json, JsonTree};
use crate::key;
use crate::key::KeyView;
use crate::replay;
use crate::replay::{
    CacheEvent, ReplayResponse, ReplayView, X_CACHE, X_CACHE_KEY, X_CACHE_NAMESPACE, X_CACHE_SCORE,
};
use crate::store;
use crate::store::{CachedPayload, MatchView, PayloadView};
use crate::text;

verus! {

/// The namespace of the exact cache in the platform's key-value store.
pub const EXACT_CACHE_KV_NAMESPACE: &'static str = "ai-semantic-cache:exact";

// ---------------------------------------------------------------------
// Addresses
// ---------------------------------------------------------------------

/// The first of the suffixes in which a path ends, without its trailing slashes.
pub open spec fn ending(path: Seq<char>, suffixes: Seq<Seq<char>>) -> Option<Seq<char>>
    decreases suffixes.len(),
{
    if suffixes.len() == 0 {
        None
    } else if text::has_suffix(text::without_trailing_slashes(path), suffixes[0]) {
        Some(suffixes[0])
    } else {
        ending(path, suffixes.drop_first())
    }
}

/// The views of a list of texts.
pub open spec fn text_views(texts: Seq<&str>) -> Seq<Seq<char>> {
    Seq::new(texts.len(), |i: int| texts[i]@)
}

/// Why an address is refused.
pub open spec fn suffix_message(
    field_name: Seq<char>,
    service_path: Seq<char>,
    suffix: Seq<char>,
) -> Seq<char> {
    field_name + " must NOT include `"@ + suffix + "` — the policy appends it. Got path `"@
        + service_path
        + "`. Set the URL to the resource root (e.g. `https://api.openai.com/v1`) and let the policy append the endpoint sub-path."@
}

/// Reject Service URIs whose path already includes a sub-path the helper
/// is going to append (causing `/v1/embeddings/embeddings` style 404s).
///
/// The path of a call is the Service URI's path with the sub-path of the
/// endpoint behind it (so `baseUrl: http://x/v1` + `/embeddings` →
/// `/v1/embeddings`). If an operator puts the *full* URL in the Service, the
/// sub-path would stand there twice.
pub fn reject_service_path_with_suffix(
    field_name: &str,
    service_path: &str,
    forbidden_suffixes: &[&str],
) -> (r: Result<(), String>)
    ensures
        (match r {
            Ok(_) => None,
            Err(e) => Some(e@),
        }) == match ending(service_path@, text_views(forbidden_suffixes@)) {
            Some(suffix) => Some(suffix_message(field_name@, service_path@, suffix)),
            None => None,
        },
{
    let trimmed = text::trim_trailing_slashes(service_path);
    let ghost all = text_views(forbidden_suffixes@);
    assert(all.skip(0) =~= all);
    let mut i: usize = 0;
    while i < forbidden_suffixes.len()
        invariant
            i <= forbidden_suffixes@.len(),
            all == text_views(forbidden_suffixes@),
            trimmed@ == text::without_trailing_slashes(service_path@),
            ending(service_path@, all) == ending(service_path@, all.skip(i as int)),
        decreases forbidden_suffixes@.len() - i,
    {
        proof {
            assert(all.skip(i as int)[0] == forbidden_suffixes@[i as int]@);
            assert(all.skip(i as int).drop_first() =~= all.skip(i + 1));
        }
        if text::ends_with(trimmed.as_str(), forbidden_suffixes[i]) {
            let mut e = text::owned(field_name);
            e.append(" must NOT include `");
            e.append(forbidden_suffixes[i]);
            e.append("` — the policy appends it. Got path `");
            e.append(service_path);
            e.append(
                "`. Set the URL to the resource root (e.g. `https://api.openai.com/v1`) and let the policy append the endpoint sub-path.",
            );
            return Err(e);
        }
        i += 1;
    }
    assert(all.skip(i as int).len() == 0);
    Ok(())
}

// ---------------------------------------------------------------------
// Configuration
// ---------------------------------------------------------------------

/// Configuration the driver needs from each variant's generated config.
#[derive(Debug)]
pub struct DriverConfig {
    pub policy_name: &'static str,
    pub namespace: String,
    pub similarity_threshold: Single,
    pub ttl_seconds: u64,
    pub exact_caching: bool,
    pub bypass_on_stream: bool,
    pub prompt_extractor: String,
    pub cache_response_status_codes: Vec<u16>,
    pub failure_mode: String,
}

impl Clone for DriverConfig {
    fn clone(&self) -> (r: DriverConfig)
        ensures
            r.policy_name == self.policy_name,
            r.namespace == self.namespace,
            r.similarity_threshold == self.similarity_threshold,
            r.ttl_seconds == self.ttl_seconds,
            r.exact_caching == self.exact_caching,
            r.bypass_on_stream == self.bypass_on_stream,
            r.prompt_extractor == self.prompt_extractor,
            r.cache_response_status_codes@ == self.cache_response_status_codes@,
            r.failure_mode == self.failure_mode,
    {
        DriverConfig {
            policy_name: self.policy_name,
            namespace: self.namespace.clone(),
            similarity_threshold: self.similarity_threshold,
            ttl_seconds: self.ttl_seconds,
            exact_caching: self.exact_caching,
            bypass_on_stream: self.bypass_on_stream,
            prompt_extractor: self.prompt_extractor.clone(),
            cache_response_status_codes: slice_to_vec(
                self.cache_response_status_codes.as_slice(),
            ),
            failure_mode: self.failure_mode.clone(),
        }
    }
}

/// Why a configuration is refused.
#[derive(Debug)]
pub enum ConfigError {
    Threshold(ThresholdError),
    Invalid(String),
}

/// The view of a [`ConfigError`].
#[verifier::ext_equal]
pub enum ConfigFault {
    Threshold(Single),
    Invalid(Seq<char>),
}

impl View for ConfigError {
    type V = ConfigFault;

    open spec fn view(&self) -> ConfigFault {
        match self {
            ConfigError::Threshold(e) => ConfigFault::Threshold(e.value),
            ConfigError::Invalid(m) => ConfigFault::Invalid(m@),
        }
    }
}

/// The failure mode of that name.
pub open spec fn failure_mode_named(name: Seq<char>) -> Option<FailureMode> {
    if name == "fail_open"@ {
        Some(FailureMode::FailOpen)
    } else if name == "fail_closed"@ {
        Some(FailureMode::FailClosed)
    } else {
        None
    }
}

/// The extractor of that name, or why there is none.
pub open spec fn extractor_named(name: Seq<char>) -> Result<PromptExtractor, ConfigFault> {
    if name == "openai"@ {
        Ok(PromptExtractor::Openai)
    } else if name == "anthropic"@ {
        Ok(PromptExtractor::Anthropic)
    } else if name == "cohere"@ {
        Ok(PromptExtractor::Cohere)
    } else if name == "mistral"@ {
        Ok(PromptExtractor::Mistral)
    } else if name == "bedrock"@ {
        Ok(PromptExtractor::Bedrock)
    } else if name == "vertex"@ {
        Ok(PromptExtractor::Vertex)
    } else if name == "dataweave"@ {
        Err(
            ConfigFault::Invalid(
                "prompt_extractor=dataweave is not yet implemented (v2 backlog); use one of: openai, anthropic, cohere, mistral, bedrock, vertex"@,
            ),
        )
    } else {
        Err(ConfigFault::Invalid("unknown prompt_extractor: "@ + name))
    }
}

/// Whether an engine's configuration is the one that a driver's asks for. The
/// driver looks an identical request up itself before it asks the engine, so the
/// engine must not also look for the exact key.
pub open spec fn configures(cfg: DriverConfig, e: EngineConfig) -> bool {
    &&& e.namespace@ == cfg.namespace@
    &&& e.similarity_threshold@ == cfg.similarity_threshold
    &&& e.ttl@ == cfg.ttl_seconds
    &&& !e.exact_caching
    &&& e.bypass_on_stream == cfg.bypass_on_stream
    &&& e.cache_response_status_codes@ == cfg.cache_response_status_codes@
    &&& failure_mode_named(cfg.failure_mode@) == Some(e.failure_mode)
}

/// Why a configuration has no engine: its threshold is out of range, or its
/// failure mode is unknown.
pub open spec fn engine_fault(cfg: DriverConfig) -> Option<ConfigFault> {
    if !config::in_threshold_range(cfg.similarity_threshold) {
        Some(ConfigFault::Threshold(cfg.similarity_threshold))
    } else if failure_mode_named(cfg.failure_mode@) is None {
        Some(ConfigFault::Invalid("unknown failure_mode: "@ + cfg.failure_mode@))
    } else {
        None
    }
}

/// The lifetime of an entry of the exact cache, in milliseconds: the lower
/// thirty-two bits of the seconds, times a thousand, or the most that fits.
pub open spec fn exact_ttl(ttl_seconds: u64) -> u32 {
    let ms = (ttl_seconds % 0x1_0000_0000) * 1000;
    if ms > u32::MAX {
        u32::MAX
    } else {
        ms as u32
    }
}

impl DriverConfig {
    /// The engine's configuration.
    pub fn engine_config(&self) -> (r: Result<EngineConfig, ConfigError>)
        ensures
            r matches Ok(e) ==> engine_fault(*self) is None && configures(*self, e),
            r matches Err(e) ==> engine_fault(*self) == Some(e@),
    {
        let threshold = match Threshold::new(self.similarity_threshold) {
            Ok(t) => t,
            Err(e) => return Err(ConfigError::Threshold(e)),
        };
        let mode = self.failure_mode.as_str();
        let failure_mode = if text::same_text(mode, "fail_open") {
            FailureMode::FailOpen
        } else if text::same_text(mode, "fail_closed") {
            FailureMode::FailClosed
        } else {
            return Err(ConfigError::Invalid(text::join2("unknown failure_mode: ", mode)));
        };
        Ok(
            EngineConfig {
                namespace: self.namespace.clone(),
                similarity_threshold: threshold,
                ttl: Ttl::from_seconds(self.ttl_seconds),
                exact_caching: false,
                bypass_on_stream: self.bypass_on_stream,
                cache_response_status_codes: slice_to_vec(
                self.cache_response_status_codes.as_slice(),
            ),
                failure_mode,
            },
        )
    }

    /// The prompt extractor.
    pub fn extractor(&self) -> (r: Result<PromptExtractor, ConfigError>)
        ensures
            (match r {
                Ok(x) => Ok(x),
                Err(e) => Err(e@),
            }) == extractor_named(self.prompt_extractor@),
    {
        let name = self.prompt_extractor.as_str();
        if text::same_text(name, "openai") {
            Ok(PromptExtractor::Openai)
        } else if text::same_text(name, "anthropic") {
            Ok(PromptExtractor::Anthropic)
        } else if text::same_text(name, "cohere") {
            Ok(PromptExtractor::Cohere)
        } else if text::same_text(name, "mistral") {
            Ok(PromptExtractor::Mistral)
        } else if text::same_text(name, "bedrock") {
            Ok(PromptExtractor::Bedrock)
        } else if text::same_text(name, "vertex") {
            Ok(PromptExtractor::Vertex)
        } else if text::same_text(name, "dataweave") {
            // Never evaluated: to accept it would skip every request in silence.
            Err(
                ConfigError::Invalid(
                    text::owned(
                        "prompt_extractor=dataweave is not yet implemented (v2 backlog); use one of: openai, anthropic, cohere, mistral, bedrock, vertex",
                    ),
                ),
            )
        } else {
            Err(ConfigError::Invalid(text::join2("unknown prompt_extractor: ", name)))
        }
    }

    /// The lifetime of an entry of the exact cache, in milliseconds; none where
    /// there is no exact cache.
    pub fn exact_ttl_ms(&self) -> (r: Option<u32>)
        ensures
            r == if self.exact_caching {
                Some(exact_ttl(self.ttl_seconds))
            } else {
                None
            },
    {
        if self.exact_caching {
            let ms: u64 = (self.ttl_seconds % 0x1_0000_0000) * 1000;
            if ms > u32::MAX as u64 {
                Some(u32::MAX)
            } else {
                Some(ms as u32)
            }
        } else {
            None
        }
    }
}

impl ConfigError {
    /// The message of the error; `shown` is how the threshold is written, where
    /// it is that which is refused.
    pub fn message(&self, shown: &str) -> (r: String)
        ensures
            r@ == match self@ {
                ConfigFault::Threshold(_) => "threshold must be in [0.0, 1.5], got "@ + shown@,
                ConfigFault::Invalid(m) => m,
            },
    {
        match self {
            ConfigError::Threshold(e) => e.message(shown),
            ConfigError::Invalid(m) => m.clone(),
        }
    }
}

// ---------------------------------------------------------------------
// The exact cache
// ---------------------------------------------------------------------

/// An entry of the exact cache.
#[derive(Debug)]
pub struct ExactCacheEntry {
    pub status: u16,
    pub headers: Vec<(String, String)>,
    pub body: Vec<u8>,
    pub usage_total_tokens: Option<u64>,
}

/// The view of an [`ExactCacheEntry`].
#[verifier::ext_equal]
pub struct EntryView {
    pub status: u16,
    pub headers: Seq<(Seq<char>, Seq<char>)>,
    pub body: Seq<u8>,
    pub usage_total_tokens: Option<u64>,
}

impl View for ExactCacheEntry {
    type V = EntryView;

    open spec fn view(&self) -> EntryView {
        EntryView {
            status: self.status,
            headers: store::header_views(self.headers@),
            body: self.body@,
            usage_total_tokens: self.usage_total_tokens,
        }
    }
}

/// The first twelve digits of the digest of a body.
pub open spec fn sha_prefix(body: Seq<u8>) -> Seq<char> {
    key::short_prefix(digest::sha256_text(body), 12)
}

/// The key of an entry of the exact cache, given the digest of the body.
pub open spec fn kv_key(namespace: Seq<char>, sha: Seq<char>) -> Seq<char> {
    namespace + seq![':'] + sha
}

/// The digest of a body, in hexadecimal.
pub fn body_sha_full(body: &[u8]) -> (r: String)
    ensures
        r@ == digest::sha256_text(body@),
        digest::is_hex_of(r@, 64),
{
    digest::sha256_hex_of(body)
}

/// The first twelve digits of the digest of a body.
pub fn body_sha_prefix(body: &[u8]) -> (r: String)
    ensures
        r@ == sha_prefix(body@),
        digest::is_hex_of(r@, 12),
{
    let full = body_sha_full(body);
    key::take_chars(full.as_str(), 12)
}

/// What support sees of the key of a request: the first twelve digits of the
/// digest of its prompt, or of its body where no prompt can be read off it.
pub open spec fn request_prefix(
    kind: PromptExtractor,
    parsed: Result<JsonTree, Seq<char>>,
    body: Seq<u8>,
) -> Seq<char> {
    match parsed {
        Ok(document) => match extract::outcome(kind, document) {
            OutcomeView::Found(e) => sha_prefix(encode_utf8(e.prompt)),
            OutcomeView::Skip(_) => sha_prefix(body),
        },
        Err(_) => sha_prefix(body),
    }
}

/// What support sees of the key of a request whose body is that document.
pub fn document_key_prefix(kind: PromptExtractor, document: &Json, body: &[u8]) -> (r: String)
    ensures
        r@ == request_prefix(kind, Ok(document@), body@),
        digest::is_hex_of(r@, 12),
{
    match kind.extract(document) {
        ExtractOutcome::Found(e) => {
            let full = e.prompt.sha256_hex();
            key::take_chars(full.as_str(), 12)
        },
        ExtractOutcome::Skip(_) => body_sha_prefix(body),
    }
}

/// What support sees of the key of a request.
pub fn request_key_prefix(kind: PromptExtractor, body: &[u8]) -> (r: String)
    ensures
        r@ == request_prefix(kind, json::json_parse(body@), body@),
        digest::is_hex_of(r@, 12),
{
    match json::parse_json(body) {
        Ok(document) => document_key_prefix(kind, &document, body),
        Err(_) => body_sha_prefix(body),
    }
}

/// The key of an entry of the exact cache, given the digest of the body.
pub fn kv_key_of(namespace: &str, sha: &str) -> (r: String)
    ensures
        r@ == kv_key(namespace@, sha@),
{
    let mut out = text::owned(namespace);
    out.push(':');
    out.append(sha);
    assert(out@ =~= kv_key(namespace@, sha@));
    out
}

/// The key of a body in the exact cache.
pub fn exact_kv_key(namespace: &str, body: &[u8]) -> (r: String)
    ensures
        r@ == kv_key(namespace@, digest::sha256_text(body@)),
        r@.len() == namespace@.len() + 65,
{
    let full = body_sha_full(body);
    kv_key_of(namespace, full.as_str())
}

/// An entry of the exact cache as a payload. When it was written is not kept.
pub open spec fn payload_of(entry: EntryView) -> PayloadView {
    PayloadView {
        status: entry.status,
        headers: entry.headers,
        body: entry.body,
        usage_total_tokens: entry.usage_total_tokens,
        written_at: 0,
    }
}

/// What a lookup in the exact cache gives: the payload of the entry that was
/// found.
pub fn exact_lookup(found: Option<ExactCacheEntry>) -> (r: Option<CachedPayload>)
    ensures
        (match r {
            Some(p) => Some(p@),
            None => None,
        }) == match found {
            Some(entry) => Some(payload_of(entry@)),
            None => None,
        },
{
    match found {
        Some(entry) => Some(
            CachedPayload {
                status: entry.status,
                headers: entry.headers,
                body: entry.body,
                usage_total_tokens: entry.usage_total_tokens,
                written_at: 0,
            },
        ),
        None => None,
    }
}

/// The entry that an upstream response makes.
pub open spec fn entry_of(
    status: u16,
    headers: Seq<(Seq<char>, Seq<char>)>,
    body: Seq<u8>,
    usage_total_tokens: Option<u64>,
) -> EntryView {
    EntryView { status, headers: engine::sanitized(headers), body, usage_total_tokens }
}

/// Drops the headers that must not be cached.
pub fn strip_sensitive_headers(headers: &[(String, String)]) -> (r: Vec<(String, String)>)
    ensures
        store::header_views(r@) == engine::sanitized(store::header_views(headers@)),
{
    engine::sanitize_headers(headers)
}

/// What is stored in the exact cache for a request and its response: under which
/// key, and what.
pub fn exact_store(
    namespace: &str,
    request_body: &[u8],
    status: u16,
    headers: &[(String, String)],
    body: &[u8],
    usage_total_tokens: Option<u64>,
) -> (r: (String, ExactCacheEntry))
    ensures
        r.0@ == kv_key(namespace@, digest::sha256_text(request_body@)),
        r.1@ == entry_of(status, store::header_views(headers@), body@, usage_total_tokens),
{
    let entry = ExactCacheEntry {
        status,
        headers: strip_sensitive_headers(headers),
        body: slice_to_vec(body),
        usage_total_tokens,
    };
    (exact_kv_key(namespace, request_body), entry)
}

// ---------------------------------------------------------------------
// Helpers
// ---------------------------------------------------------------------

/// The number under `usage.total_tokens`.
pub open spec fn usage_of(document: JsonTree) -> Option<u64> {
    match document.get("usage"@) {
        Some(u) => match u.get("total_tokens"@) {
            Some(t) => t.unsigned(),
            None => None,
        },
        None => None,
    }
}

/// The tokens that a response body reports; none where it is no JSON.
pub open spec fn usage_in(parsed: Result<JsonTree, Seq<char>>) -> Option<u64> {
    match parsed {
        Ok(document) => usage_of(document),
        Err(_) => None,
    }
}

/// Reads the number under `usage.total_tokens`.
pub fn read_usage(document: &Json) -> (r: Option<u64>)
    ensures
        r == usage_of(document@),
{
    match document.get("usage") {
        Some(u) => match u.get("total_tokens") {
            Some(t) => t.as_u64(),
            None => None,
        },
        None => None,
    }
}

/// Reads the tokens that a response body reports.
pub fn extract_usage_total_tokens(body: &[u8]) -> (r: Option<u64>)
    ensures
        r == usage_in(json::json_parse(body@)),
{
    match json::parse_json(body) {
        Ok(document) => read_usage(&document),
        Err(_) => None,
    }
}

/// The value of the first score header, whatever the case of its name.
pub open spec fn score_header(headers: Seq<(Seq<char>, Seq<char>)>) -> Option<Seq<char>>
    decreases headers.len(),
{
    if headers.len() == 0 {
        None
    } else if text::lowered(headers[0].0) == text::lowered(X_CACHE_SCORE@) {
        Some(headers[0].1)
    } else {
        score_header(headers.drop_first())
    }
}

/// The score that a response is decorated with, as it is written there.
pub fn decoration_score(response: &ReplayResponse) -> (r: Option<String>)
    ensures
        (match r {
            Some(t) => Some(t@),
            None => None,
        }) == score_header(response@.headers),
{
    let ghost all = response@.headers;
    assert(all.skip(0) =~= all);
    let mut i: usize = 0;
    while i < response.headers.len()
        invariant
            i <= response.headers@.len(),
            all == store::header_views(response.headers@),
            score_header(all) == score_header(all.skip(i as int)),
        decreases response.headers@.len() - i,
    {
        proof {
            assert(all.skip(i as int)[0] == all[i as int]);
            assert(all.skip(i as int).drop_first() =~= all.skip(i + 1));
        }
        if text::same_text_ignoring_case(response.headers[i].0.as_str(), X_CACHE_SCORE) {
            return Some(response.headers[i].1.clone());
        }
        i += 1;
    }
    assert(all.skip(i as int).len() == 0);
    None
}

/// Headers without a score do not hide one that follows them.
proof fn lemma_score_header_behind(
    before: Seq<(Seq<char>, Seq<char>)>,
    rest: Seq<(Seq<char>, Seq<char>)>,
)
    requires
        forall|i: int|
            0 <= i < before.len() ==> text::lowered((#[trigger] before[i]).0) != text::lowered(
                X_CACHE_SCORE@,
            ),
    ensures
        score_header(before + rest) == score_header(rest),
    decreases before.len(),
{
    if before.len() == 0 {
        assert(before + rest =~= rest);
    } else {
        let tail = before.drop_first();
        assert forall|i: int| 0 <= i < tail.len() implies text::lowered((#[trigger] tail[i]).0)
            != text::lowered(X_CACHE_SCORE@) by {
            assert(tail[i] == before[i + 1]);
        }
        lemma_score_header_behind(tail, rest);
        assert((before + rest)[0] == before[0]);
        assert((before + rest).drop_first() =~= tail + rest);
    }
}

/// The score that is read off a replay is the one that it was built with, unless
/// the entry brought a score header of its own.
pub proof fn decoration_is_the_score(
    payload: PayloadView,
    event: CacheEvent,
    score: Single,
    namespace: Seq<char>,
    correlation_prefix: Seq<char>,
)
    requires
        forall|i: int|
            0 <= i < payload.headers.len() ==> text::lowered(
                (#[trigger] payload.headers[i]).0,
            ) != text::lowered(X_CACHE_SCORE@),
    ensures
        score_header(
            replay::replay(payload, event, Some(score), namespace, correlation_prefix).headers,
        ) == Some(ieee::fixed_text(score)),
{
    reveal_strlit("x-cache");
    reveal_strlit("x-cache-score");
    assert(text::lowered(X_CACHE@).len() != text::lowered(X_CACHE_SCORE@).len());
    let c = replay::cache_headers(event, Some(score), namespace, correlation_prefix);
    lemma_score_header_behind(payload.headers, c);
    assert(c[0].0 == X_CACHE@);
    assert(c.drop_first()[0] == (X_CACHE_SCORE@, ieee::fixed_text(score)));
    reveal_with_fuel(score_header, 2);
}

/// The record of an event.
pub open spec fn event_record(
    policy_name: Seq<char>,
    event: CacheEvent,
    score: Option<Single>,
) -> JsonTree {
    let first = seq![
        ("policy"@, JsonTree::Text(policy_name)),
        ("event"@, JsonTree::Text(event.text())),
    ];
    JsonTree::Object(
        match score {
            Some(s) => first.push(("score"@, json::single_tree(s))),
            None => first,
        },
    )
}

/// Makes the record of an event. A score that is not finite is null there.
pub fn log_record(policy_name: &str, event: CacheEvent, score: Option<Single>) -> (r: Json)
    ensures
        r@ == event_record(policy_name@, event, score),
{
    let mut fields: Vec<(String, Json)> = Vec::new();
    assert(json::field_trees(fields@) =~= seq![]);
    json::push_field(&mut fields, "policy", Json::text(policy_name));
    json::push_field(&mut fields, "event", Json::text(event.header_value()));
    if let Some(s) = score {
        json::push_field(&mut fields, "score", json::single(s));
    }
    assert(json::field_trees(fields@) =~= event_record(policy_name@, event, score)->Object_0);
    Json::object(fields)
}

// ---------------------------------------------------------------------
// The filters
// ---------------------------------------------------------------------

/// A policy that has started.
#[derive(Debug)]
pub struct Driver {
    pub config: DriverConfig,
    pub engine: Engine,
    /// The lifetime of an entry of the exact cache, in milliseconds; none where
    /// there is no exact cache.
    pub exact_ttl_ms: Option<u32>,
}

/// What comes next in the request filter.
#[derive(Debug)]
pub enum FilterStep {
    /// Look the key up in the exact cache.
    LookupExact { kv_key: String },
    /// Answer the request with that response.
    Respond { response: ReplayResponse, event: CacheEvent },
    /// Take that step of the engine.
    Engine(RequestStep),
}

/// What the request filter does with a request in the end.
#[derive(Debug)]
pub enum Verdict {
    /// Answer it with a cached response.
    Respond { response: ReplayResponse, event: CacheEvent },
    /// Answer it with an error and report a policy violation.
    Refuse { status: u32, headers: Vec<(String, String)>, body: Vec<u8>, reason: String },
    /// Forward it upstream and keep the decision for the response.
    Continue { decision: RequestDecision, event: CacheEvent },
}

/// What the response filter writes.
#[derive(Debug)]
pub struct ResponsePlan {
    /// To the exact cache, under which key.
    pub exact: Option<(String, ExactCacheEntry)>,
    /// To the vector store.
    pub semantic: Option<StoreWrite>,
}

/// The view of a [`FilterStep`].
#[verifier::ext_equal]
pub enum FilterStepView {
    LookupExact { kv_key: Seq<char> },
    Respond { response: ReplayView, event: CacheEvent },
    Engine(StepView),
}

/// The view of a [`Verdict`].
#[verifier::ext_equal]
pub enum VerdictView {
    Respond { response: ReplayView, event: CacheEvent },
    Refuse {
        status: u32,
        headers: Seq<(Seq<char>, Seq<char>)>,
        body: Seq<u8>,
        reason: Seq<char>,
    },
    Continue { decision: DecisionView, event: CacheEvent },
}

/// The view of a [`ResponsePlan`].
#[verifier::ext_equal]
pub struct PlanView {
    pub exact: Option<(Seq<char>, EntryView)>,
    pub semantic: Option<WriteView>,
}

impl View for FilterStep {
    type V = FilterStepView;

    open spec fn view(&self) -> FilterStepView {
        match self {
            FilterStep::LookupExact { kv_key } => FilterStepView::LookupExact { kv_key: kv_key@ },
            FilterStep::Respond { response, event } => FilterStepView::Respond {
                response: response@,
                event: *event,
            },
            FilterStep::Engine(s) => FilterStepView::Engine(s@),
        }
    }
}

impl View for Verdict {
    type V = VerdictView;

    open spec fn view(&self) -> VerdictView {
        match self {
            Verdict::Respond { response, event } => VerdictView::Respond {
                response: response@,
                event: *event,
            },
            Verdict::Refuse { status, headers, body, reason } => VerdictView::Refuse {
                status: *status,
                headers: store::header_views(headers@),
                body: body@,
                reason: reason@,
            },
            Verdict::Continue { decision, event } => VerdictView::Continue {
                decision: decision@,
                event: *event,
            },
        }
    }
}

impl View for ResponsePlan {
    type V = PlanView;

    open spec fn view(&self) -> PlanView {
        PlanView {
            exact: match self.exact {
                Some((k, e)) => Some((k@, e@)),
                None => None,
            },
            semantic: match self.semantic {
                Some(w) => Some(w@),
                None => None,
            },
        }
    }
}

/// The body of the answer to a request that is refused.
pub const REFUSAL: &'static str = "semantic cache infrastructure unavailable";

/// The headers that tell what the cache did with a request.
pub open spec fn cache_marks(
    event: CacheEvent,
    namespace: Seq<char>,
    prefix: Seq<char>,
) -> Seq<(Seq<char>, Seq<char>)> {
    seq![(X_CACHE@, event.text()), (X_CACHE_NAMESPACE@, namespace), (X_CACHE_KEY@, prefix)]
}

/// Makes the headers that tell what the cache did with a request.
pub fn mark(event: CacheEvent, namespace: &str, prefix: &str) -> (r: Vec<(String, String)>)
    ensures
        store::header_views(r@) == cache_marks(event, namespace@, prefix@),
        r@.len() == 3,
        r@[2].1@ == prefix@,
{
    let mut headers = store::no_headers();
    store::push_header(&mut headers, X_CACHE, event.header_value());
    store::push_header(&mut headers, X_CACHE_NAMESPACE, namespace);
    store::push_header(&mut headers, X_CACHE_KEY, prefix);
    assert(store::header_views(headers@) =~= cache_marks(event, namespace@, prefix@));
    assert(headers@[2].1@ == store::header_views(headers@)[2].1);
    headers
}

impl Driver {
    /// The engine and the exact cache are those that the configuration asks for.
    pub open spec fn well_formed(self) -> bool {
        &&& configures(self.config, self.engine.config)
        &&& extractor_named(self.config.prompt_extractor@) == Ok::<PromptExtractor, ConfigFault>(
            self.engine.extractor,
        )
        &&& self.exact_ttl_ms == if self.config.exact_caching {
            Some(exact_ttl(self.config.ttl_seconds))
        } else {
            None
        }
    }

    /// Starts the policy with a configuration, unless it is refused.
    pub fn start(config: DriverConfig) -> (r: Result<Driver, ConfigError>)
        ensures
            r matches Ok(d) ==> d.config == config && d.well_formed(),
            (match r {
                Ok(_) => None,
                Err(e) => Some(e@),
            }) == if engine_fault(config) is Some {
                engine_fault(config)
            } else {
                match extractor_named(config.prompt_extractor@) {
                    Ok(_) => None,
                    Err(e) => Some(e),
                }
            },
    {
        let engine_config = match config.engine_config() {
            Ok(c) => c,
            Err(e) => return Err(e),
        };
        let extractor = match config.extractor() {
            Ok(x) => x,
            Err(e) => return Err(e),
        };
        let exact_ttl_ms = config.exact_ttl_ms();
        Ok(Driver { config, engine: Engine { config: engine_config, extractor }, exact_ttl_ms })
    }

    /// What support sees of the key of a request.
    pub open spec fn key_prefix(self, body: Seq<u8>) -> Seq<char> {
        request_prefix(self.engine.extractor, json::json_parse(body), body)
    }

    /// What comes first for a request, given the first step of the engine: a stream
    /// that is to be bypassed goes on to its upstream, and any other request is
    /// looked up in the exact cache, where there is one.
    pub open spec fn step_before(self, step: StepView, body: Seq<u8>) -> FilterStepView {
        if step == StepView::Decided(engine::no_write(CacheEvent::BypassStream)) {
            FilterStepView::Engine(step)
        } else if self.exact_ttl_ms is Some {
            FilterStepView::LookupExact {
                kv_key: kv_key(self.config.namespace@, digest::sha256_text(body)),
            }
        } else {
            FilterStepView::Engine(step)
        }
    }

    /// The first step of the engine.
    pub open spec fn engine_step(self, body: Seq<u8>) -> StepView {
        engine::request_step(self.engine.config, self.engine.extractor, json::json_parse(body))
    }

    /// What comes first for a request.
    pub open spec fn first_filter_step(self, body: Seq<u8>) -> FilterStepView {
        self.step_before(self.engine_step(body), body)
    }

    /// What comes after the lookup in the exact cache.
    pub open spec fn lookup_filter_step(
        self,
        body: Seq<u8>,
        found: Option<EntryView>,
    ) -> FilterStepView {
        match found {
            Some(entry) => FilterStepView::Respond {
                response: replay::replay(
                    payload_of(entry),
                    CacheEvent::HitExact,
                    None,
                    self.config.namespace@,
                    self.key_prefix(body),
                ),
                event: CacheEvent::HitExact,
            },
            None => FilterStepView::Engine(self.engine_step(body)),
        }
    }

    /// What comes after a lookup in the exact cache that failed.
    pub open spec fn failed_lookup_filter_step(
        self,
        body: Seq<u8>,
        error: Seq<char>,
    ) -> FilterStepView {
        FilterStepView::Engine(
            if self.engine.config.failure_mode == FailureMode::FailClosed {
                StepView::Decided(
                    DecisionView::FailClosed { reason: "exact-cache lookup failed: "@ + error },
                )
            } else {
                self.engine_step(body)
            },
        )
    }

    /// The headers that a forwarded request's response is marked with.
    pub open spec fn response_marks(
        self,
        decision: DecisionView,
        request_body: Seq<u8>,
    ) -> Seq<(Seq<char>, Seq<char>)> {
        let (event, prefix) = match decision {
            DecisionView::ForwardNoWrite { event } => (event, self.key_prefix(request_body)),
            DecisionView::Forward { key, .. } => (CacheEvent::Miss, key.prefix()),
            _ => arbitrary(),
        };
        cache_marks(event, self.config.namespace@, prefix)
    }

    /// The headers that the answer to a refused request is marked with.
    pub open spec fn refusal_marks(self, request_body: Seq<u8>) -> Seq<(Seq<char>, Seq<char>)> {
        cache_marks(
            CacheEvent::BypassError,
            self.config.namespace@,
            self.key_prefix(request_body),
        )
    }

    /// What the request filter does with a decided request.
    pub open spec fn verdict_on(
        self,
        decision: DecisionView,
        request_body: Seq<u8>,
    ) -> VerdictView {
        match decision {
            DecisionView::ShortCircuit { response, event } => VerdictView::Respond {
                response,
                event,
            },
            DecisionView::FailClosed { reason } => VerdictView::Refuse {
                status: 503,
                headers: self.refusal_marks(request_body),
                body: encode_utf8(REFUSAL@),
                reason,
            },
            DecisionView::ForwardNoWrite { event } => VerdictView::Continue { decision, event },
            DecisionView::Forward { .. } => VerdictView::Continue {
                decision,
                event: CacheEvent::Miss,
            },
        }
    }

    /// What the response filter writes.
    pub open spec fn response_plan(
        self,
        decision: DecisionView,
        request_body: Seq<u8>,
        status: u16,
        headers: Seq<(Seq<char>, Seq<char>)>,
        body: Seq<u8>,
        usage_total_tokens: Option<u64>,
        written_at: u64,
    ) -> PlanView {
        PlanView {
            exact: if decision is Forward
                && self.config.cache_response_status_codes@.contains(status)
                && self.exact_ttl_ms is Some {
                Some(
                    (
                        kv_key(self.config.namespace@, digest::sha256_text(request_body)),
                        entry_of(status, headers, body, usage_total_tokens),
                    ),
                )
            } else {
                None
            },
            semantic: engine::response_write(
                self.engine.config,
                decision,
                status,
                headers,
                body,
                usage_total_tokens,
                written_at,
            ),
        }
    }

    /// What comes first in the request filter. A stream that is to be bypassed
    /// causes no call at all. Where there is an exact cache, it is asked before
    /// the engine, so that a byte-identical second request needs neither the
    /// embedder nor the vector store.
    pub fn request_filter(&self, body: &[u8]) -> (r: FilterStep)
        ensures
            r@ == self.first_filter_step(body@),
            r matches FilterStep::Engine(s) ==> engine::keyed_by_digest(s@),
    {
        self.before_engine(self.engine.on_request(body), body)
    }

    /// What comes first in the request filter, given the first step of the engine.
    pub fn before_engine(&self, step: RequestStep, body: &[u8]) -> (r: FilterStep)
        ensures
            r@ == self.step_before(step@, body@),
    {
        let bypassed = match &step {
            RequestStep::Decided(
                RequestDecision::ForwardNoWrite { event: CacheEvent::BypassStream },
            ) => true,
            _ => false,
        };
        if !bypassed && self.exact_ttl_ms.is_some() {
            FilterStep::LookupExact { kv_key: exact_kv_key(self.config.namespace.as_str(), body) }
        } else {
            FilterStep::Engine(step)
        }
    }

    /// What comes after the lookup in the exact cache: an entry that was found
    /// answers the request.
    pub fn after_lookup(&self, body: &[u8], found: Option<ExactCacheEntry>) -> (r: FilterStep)
        ensures
            r@ == self.lookup_filter_step(
                body@,
                match found {
                    Some(e) => Some(e@),
                    None => None,
                },
            ),
            r matches FilterStep::Engine(s) ==> engine::keyed_by_digest(s@),
            r matches FilterStep::Respond { response, .. } ==> digest::is_hex_of(
                response@.headers.last().1,
                12,
            ),
    {
        match exact_lookup(found) {
            Some(payload) => {
                let prefix = request_key_prefix(self.engine.extractor, body);
                let response = replay::build_replay(
                    &payload,
                    CacheEvent::HitExact,
                    None,
                    self.config.namespace.as_str(),
                    prefix.as_str(),
                );
                FilterStep::Respond { response, event: CacheEvent::HitExact }
            },
            None => FilterStep::Engine(self.engine.on_request(body)),
        }
    }

    /// What comes after a lookup in the exact cache that failed with that error:
    /// the request is refused or goes to the engine, as the failure mode has it.
    pub fn after_failed_lookup(&self, body: &[u8], error: &str) -> (r: FilterStep)
        ensures
            r@ == self.failed_lookup_filter_step(body@, error@),
            r matches FilterStep::Engine(s) ==> engine::keyed_by_digest(s@),
    {
        match self.engine.config.failure_mode {
            FailureMode::FailClosed => FilterStep::Engine(
                RequestStep::Decided(
                    RequestDecision::FailClosed {
                        reason: text::join2("exact-cache lookup failed: ", error),
                    },
                ),
            ),
            FailureMode::FailOpen => FilterStep::Engine(self.engine.on_request(body)),
        }
    }

    /// Decides what the request filter does with a decided request.
    pub fn verdict(&self, decision: RequestDecision, request_body: &[u8]) -> (r: Verdict)
        ensures
            r@ == self.verdict_on(decision@, request_body@),
            r matches Verdict::Refuse { headers, .. } ==> headers@.len() == 3
                && digest::is_hex_of(headers@[2].1@, 12),
            decision matches RequestDecision::ShortCircuit { response, event } ==> r@ == (
            VerdictView::Respond { response: response@, event }),
    {
        match decision {
            RequestDecision::ShortCircuit { response, event } => Verdict::Respond {
                response,
                event,
            },
            RequestDecision::FailClosed { reason } => Verdict::Refuse {
                status: 503,
                headers: self.mark_refusal(request_body),
                body: slice_to_vec(REFUSAL.as_bytes()),
                reason,
            },
            RequestDecision::ForwardNoWrite { event } => Verdict::Continue {
                decision: RequestDecision::ForwardNoWrite { event },
                event,
            },
            RequestDecision::Forward { key, embedding } => Verdict::Continue {
                decision: RequestDecision::Forward { key, embedding },
                event: CacheEvent::Miss,
            },
        }
    }

    /// The headers that the answer to a refused request is marked with.
    pub fn mark_refusal(&self, request_body: &[u8]) -> (r: Vec<(String, String)>)
        ensures
            store::header_views(r@) == self.refusal_marks(request_body@),
            r@.len() == 3,
            digest::is_hex_of(r@[2].1@, 12),
    {
        let prefix = request_key_prefix(self.engine.extractor, request_body);
        mark(CacheEvent::BypassError, self.config.namespace.as_str(), prefix.as_str())
    }

    /// The headers that a forwarded request's response is marked with. A request
    /// that was answered or refused has no upstream response.
    pub fn mark_response(&self, decision: &RequestDecision, request_body: &[u8]) -> (r: Vec<
        (String, String),
    >)
        requires
            decision is Forward || decision is ForwardNoWrite,
        ensures
            store::header_views(r@) == self.response_marks(decision@, request_body@),
            r@.len() == 3,
            (match decision@ {
                DecisionView::Forward { key, .. } => digest::is_hex_of(key.prompt_sha, 64),
                _ => true,
            }) ==> digest::is_hex_of(r@[2].1@, 12),
    {
        let (event, prefix) = match decision {
            RequestDecision::Forward { key, .. } => (CacheEvent::Miss, key.correlation_prefix()),
            RequestDecision::ForwardNoWrite { event } => (
                *event,
                request_key_prefix(self.engine.extractor, request_body),
            ),
            _ => (CacheEvent::Miss, String::new()),
        };
        mark(event, self.config.namespace.as_str(), prefix.as_str())
    }

    /// What is written for a response that reports that many tokens.
    pub fn plan_response(
        &self,
        decision: &RequestDecision,
        request_body: &[u8],
        status: u16,
        headers: &[(String, String)],
        body: &[u8],
        usage_total_tokens: Option<u64>,
        written_at: u64,
    ) -> (r: ResponsePlan)
        ensures
            r@ == self.response_plan(
                decision@,
                request_body@,
                status,
                store::header_views(headers@),
                body@,
                usage_total_tokens,
                written_at,
            ),
    {
        let forwarded = match decision {
            RequestDecision::Forward { .. } => true,
            _ => false,
        };
        let exact = if forwarded && engine::lists_status(
            &self.config.cache_response_status_codes,
            status,
        ) && self.exact_ttl_ms.is_some() {
            Some(
                exact_store(
                    self.config.namespace.as_str(),
                    request_body,
                    status,
                    headers,
                    body,
                    usage_total_tokens,
                ),
            )
        } else {
            None
        };
        let semantic = self.engine.on_response(
            decision,
            status,
            headers,
            body,
            usage_total_tokens,
            written_at,
        );
        ResponsePlan { exact, semantic }
    }

    /// What the response filter writes for an upstream response.
    pub fn response_filter(
        &self,
        decision: &RequestDecision,
        request_body: &[u8],
        status_code: u32,
        headers: &[(String, String)],
        body: &[u8],
        written_at: u64,
    ) -> (r: ResponsePlan)
        ensures
            r@ == self.response_plan(
                decision@,
                request_body@,
                store::status16(status_code),
                store::header_views(headers@),
                body@,
                usage_in(json::json_parse(body@)),
                written_at,
            ),
    {
        let usage = extract_usage_total_tokens(body);
        self.plan_response(
            decision,
            request_body,
            store::status_of(status_code),
            headers,
            body,
            usage,
            written_at,
        )
    }
}

// ---------------------------------------------------------------------
// Laws
// ---------------------------------------------------------------------

/// Two bodies share a key of the exact cache only if their namespaces and their
/// digests are the same. All digests have the same length.
pub proof fn kv_keys_differ(
    namespace1: Seq<char>,
    sha1: Seq<char>,
    namespace2: Seq<char>,
    sha2: Seq<char>,
)
    requires
        sha1.len() == sha2.len(),
        kv_key(namespace1, sha1) == kv_key(namespace2, sha2),
    ensures
        namespace1 == namespace2,
        sha1 == sha2,
{
    let a = kv_key(namespace1, sha1);
    let b = kv_key(namespace2, sha2);
    let n = namespace1.len() as int;
    assert(a.len() == namespace1.len() + 1 + sha1.len());
    assert(b.len() == namespace2.len() + 1 + sha2.len());
    assert(a.take(n) =~= namespace1);
    assert(b.take(n) =~= namespace2);
    assert(a.skip(n + 1) =~= sha1);
    assert(b.skip(n + 1) =~= sha2);
}

/// A streaming request is let through before any call, of the exact cache, of the
/// embedder or of the vector store, where streaming is to be bypassed, and its
/// response is written to neither store.
pub proof fn streams_bypass_before_any_call(
    driver: Driver,
    request_body: Seq<u8>,
    document: JsonTree,
    status: u16,
    headers: Seq<(Seq<char>, Seq<char>)>,
    body: Seq<u8>,
    usage_total_tokens: Option<u64>,
    written_at: u64,
)
    requires
        driver.well_formed(),
        driver.config.bypass_on_stream,
        extract::outcome(driver.engine.extractor, document) is Found,
        extract::outcome(driver.engine.extractor, document)->Found_0.stream,
    ensures
        json::json_parse(request_body) == Ok::<JsonTree, Seq<char>>(document)
            ==> driver.first_filter_step(request_body) == FilterStepView::Engine(
            StepView::Decided(engine::no_write(CacheEvent::BypassStream)),
        ),
        driver.response_plan(
            engine::no_write(CacheEvent::BypassStream),
            request_body,
            status,
            headers,
            body,
            usage_total_tokens,
            written_at,
        ) == (PlanView { exact: None, semantic: None }),
{
}

/// A request whose body is identical to that of a request whose response was
/// stored is looked up under the key of the store, and is answered with that
/// response: its status, its body and its headers but the sensitive ones, with
/// the headers of an exact hit behind them. The decision on the first request is
/// that of the engine, whatever its calls answered.
pub proof fn identical_request_replays_response(
    driver: Driver,
    exact: Result<Option<PayloadView>, StoreFault>,
    embedded: Result<Seq<Single>, EmbedFault>,
    found: Result<Seq<MatchView>, StoreFault>,
    request_body: Seq<u8>,
    status: u16,
    headers: Seq<(Seq<char>, Seq<char>)>,
    body: Seq<u8>,
    usage_total_tokens: Option<u64>,
    written_at: u64,
)
    ensures
        driver.response_plan(
            engine::decided(
                driver.engine.config,
                driver.engine.extractor,
                json::json_parse(request_body),
                exact,
                embedded,
                found,
            ),
            request_body,
            status,
            headers,
            body,
            usage_total_tokens,
            written_at,
        ).exact matches Some((k, entry)) ==> {
            &&& driver.first_filter_step(request_body) == (FilterStepView::LookupExact {
                kv_key: k,
            })
            &&& driver.lookup_filter_step(request_body, Some(entry)) == (
            FilterStepView::Respond {
                response: ReplayView {
                    status,
                    headers: engine::sanitized(headers) + replay::cache_headers(
                        CacheEvent::HitExact,
                        None,
                        driver.config.namespace@,
                        driver.key_prefix(request_body),
                    ),
                    body,
                },
                event: CacheEvent::HitExact,
            })
        },
{
}

/// Where a lookup in the exact cache fails, the request is refused in fail-closed
/// mode, with the error for the reason, and goes to the engine in fail-open mode,
/// as if nothing had been found.
pub proof fn failed_lookup_follows_failure_mode(
    driver: Driver,
    request_body: Seq<u8>,
    error: Seq<char>,
)
    requires
        driver.well_formed(),
    ensures
        driver.config.failure_mode@ == "fail_closed"@ ==> driver.failed_lookup_filter_step(
            request_body,
            error,
        ) == FilterStepView::Engine(
            StepView::Decided(
                DecisionView::FailClosed { reason: "exact-cache lookup failed: "@ + error },
            ),
        ),
        driver.config.failure_mode@ == "fail_open"@ ==> driver.failed_lookup_filter_step(
            request_body,
            error,
        ) == driver.lookup_filter_step(request_body, None),
{
    reveal_strlit("fail_closed");
    reveal_strlit("fail_open");
    assert("fail_closed"@.len() == 11);
    assert("fail_open"@.len() == 9);
}

/// A request is refused exactly if the decision is to fail closed. The answer has
/// the status of an unavailable service and is marked with the event, the
/// namespace and the key prefix.
pub proof fn refusals_are_marked(driver: Driver, decision: DecisionView, request_body: Seq<u8>)
    ensures
        driver.verdict_on(decision, request_body) is Refuse <==> decision is FailClosed,
        decision matches DecisionView::FailClosed { reason } ==> driver.verdict_on(
            decision,
            request_body,
        ) == (VerdictView::Refuse {
            status: 503,
            headers: seq![
                (X_CACHE@, "bypass-error"@),
                (X_CACHE_NAMESPACE@, driver.config.namespace@),
                (X_CACHE_KEY@, driver.key_prefix(request_body)),
            ],
            body: encode_utf8(REFUSAL@),
            reason,
        }),
{
}

/// The key prefix that a forwarded response is marked with is that of its request,
/// whatever the calls answered: the one that an exact hit and a refusal show.
pub proof fn one_key_prefix_per_request(
    driver: Driver,
    exact: Result<Option<PayloadView>, StoreFault>,
    embedded: Result<Seq<Single>, EmbedFault>,
    found: Result<Seq<MatchView>, StoreFault>,
    request_body: Seq<u8>,
)
    ensures
        ({
            let decision = engine::decided(
                driver.engine.config,
                driver.engine.extractor,
                json::json_parse(request_body),
                exact,
                embedded,
                found,
            );
            decision is Forward || decision is ForwardNoWrite ==> driver.response_marks(
                decision,
                request_body,
            )[2] == (X_CACHE_KEY@, driver.key_prefix(request_body))
        }),
{
}

/// An upstream response is stored in the exact cache exactly if the cache is on,
/// the request was forwarded as a miss and its status is one of those to be
/// cached.
pub proof fn exact_cache_stores_allowed_misses(
    driver: Driver,
    decision: DecisionView,
    request_body: Seq<u8>,
    status: u16,
    headers: Seq<(Seq<char>, Seq<char>)>,
    body: Seq<u8>,
    usage_total_tokens: Option<u64>,
    written_at: u64,
)
    requires
        driver.well_formed(),
    ensures
        driver.response_plan(
            decision,
            request_body,
            status,
            headers,
            body,
            usage_total_tokens,
            written_at,
        ).exact is Some <==> driver.config.exact_caching && decision is Forward
            && driver.config.cache_response_status_codes@.contains(status),
{
}

/// A started policy never asks its vector store for an exact key: that is the
/// business of the exact cache.
pub proof fn engine_of_driver_skips_exact_lookup(
    driver: Driver,
    parsed: Result<JsonTree, Seq<char>>,
)
    requires
        driver.well_formed(),
    ensures
        !(engine::request_step(
            driver.engine.config,
            driver.engine.extractor,
            parsed,
        ) is GetExact),
{
}

/// Only a request that is forwarded reaches the response filter, and its response
/// is marked with the event, the namespace and a key prefix.
pub proof fn forwarded_responses_are_marked(
    driver: Driver,
    decision: DecisionView,
    request_body: Seq<u8>,
)
    ensures
        driver.verdict_on(decision, request_body) is Continue <==> decision is Forward
            || decision is ForwardNoWrite,
        driver.verdict_on(decision, request_body) matches VerdictView::Continue {
            decision: kept,
            event,
        } ==> {
            let marks = driver.response_marks(kept, request_body);
            &&& kept == decision
            &&& marks.len() == 3
            &&& marks[0] == (X_CACHE@, event.text())
            &&& marks[1] == (X_CACHE_NAMESPACE@, driver.config.namespace@)
            &&& marks[2].0 == X_CACHE_KEY@
        },
{
}

/// A request that is answered from the cache gets that answer as it is: its
/// status, its headers, its body and the event.
pub proof fn cached_answers_are_sent_as_they_are(
    driver: Driver,
    response: ReplayView,
    event: CacheEvent,
    request_body: Seq<u8>,
)
    ensures
        driver.verdict_on(
            DecisionView::ShortCircuit { response, event },
            request_body,
        ) matches VerdictView::Respond { response: sent, event: logged } && {
            &&& sent.status == response.status
            &&& sent.headers == response.headers
            &&& sent.body == response.body
            &&& logged == event
        },
{
}

/// Where the first match of a query reaches the threshold, the client gets the
/// status and the body that were cached for it, and its headers in front.
pub proof fn semantic_hit_reaches_the_client(
    driver: Driver,
    pending: PendingView,
    embedding: Seq<Single>,
    matches: Seq<MatchView>,
    request_body: Seq<u8>,
)
    requires
        matches.len() > 0,
        matches[0].score.at_least(driver.engine.config.similarity_threshold@),
    ensures
        driver.verdict_on(
            engine::query_decision(driver.engine.config, pending, embedding, Ok(matches)),
            request_body,
        ) matches VerdictView::Respond { response, event } && {
            &&& response.status == matches[0].payload.status
            &&& response.body == matches[0].payload.body
            &&& response.headers.take(matches[0].payload.headers.len() as int)
                == matches[0].payload.headers
            &&& event == CacheEvent::HitSemantic
        },
{
    engine::first_match_answers(driver.engine.config, pending, embedding, matches);
    replay::replay_preserves_entry(
        matches[0].payload,
        CacheEvent::HitSemantic,
        Some(matches[0].score),
        driver.engine.config.namespace@,
        matches[0].key.prefix(),
    );
}

/// A request that is forwarded keeps its decision, and is logged as a miss or as
/// what it was let through for.
pub proof fn forwarded_requests_keep_their_decision(
    driver: Driver,
    key: KeyView,
    embedding: Option<Seq<Single>>,
    reason: CacheEvent,
    request_body: Seq<u8>,
)
    ensures
        driver.verdict_on(DecisionView::Forward { key, embedding }, request_body) == (
        VerdictView::Continue {
            decision: DecisionView::Forward { key, embedding },
            event: CacheEvent::Miss,
        }),
        driver.verdict_on(DecisionView::ForwardNoWrite { event: reason }, request_body) == (
        VerdictView::Continue {
            decision: DecisionView::ForwardNoWrite { event: reason },
            event: reason,
        }),
{
}

/// Whether or not there is an exact cache, the response filter of a started policy
/// writes to the vector store exactly if the request was forwarded with an
/// embedding and the status is one of those to be cached: the key and the
/// embedding of the decision and the response without its sensitive headers.
pub proof fn semantic_write_needs_no_exact_cache(
    driver: Driver,
    decision: DecisionView,
    request_body: Seq<u8>,
    status: u16,
    headers: Seq<(Seq<char>, Seq<char>)>,
    body: Seq<u8>,
    usage_total_tokens: Option<u64>,
    written_at: u64,
)
    requires
        driver.well_formed(),
    ensures
        ({
            let plan = driver.response_plan(
                decision,
                request_body,
                status,
                headers,
                body,
                usage_total_tokens,
                written_at,
            );
            &&& plan.semantic is Some <==> decision is Forward && decision->embedding is Some
                && driver.config.cache_response_status_codes@.contains(status)
            &&& plan.semantic matches Some(w) ==> {
                &&& w.key == decision->Forward_key
                &&& Some(w.embedding) == decision->embedding
                &&& w.ttl == driver.config.ttl_seconds
                &&& w.payload.status == status
                &&& w.payload.headers == engine::sanitized(headers)
                &&& w.payload.body == body
                &&& w.payload.usage_total_tokens == usage_total_tokens
                &&& w.payload.written_at == written_at
            }
        }),
{
}

/// What is stored in the exact cache for a miss is the response without its
/// sensitive headers, under the namespace and the digest of the whole request
/// body.
pub proof fn exact_write_holds_the_response(
    driver: Driver,
    decision: DecisionView,
    request_body: Seq<u8>,
    status: u16,
    headers: Seq<(Seq<char>, Seq<char>)>,
    body: Seq<u8>,
    usage_total_tokens: Option<u64>,
    written_at: u64,
)
    ensures
        driver.response_plan(
            decision,
            request_body,
            status,
            headers,
            body,
            usage_total_tokens,
            written_at,
        ).exact matches Some((k, entry)) ==> {
            &&& k == driver.config.namespace@ + seq![':'] + digest::hex_text(
                digest::sha256(request_body),
            )
            &&& entry.status == status
            &&& entry.headers == engine::sanitized(headers)
            &&& entry.body == body
            &&& entry.usage_total_tokens == usage_total_tokens
        },
{
}

/// Where there is an exact cache, every request but a stream to be bypassed is
/// looked up there first, by the namespace and the digest of its whole body. Where
/// there is none, the engine's first step is taken.
pub proof fn requests_are_looked_up_by_their_body(driver: Driver, step: StepView, body: Seq<u8>)
    requires
        driver.well_formed(),
        step != StepView::Decided(DecisionView::ForwardNoWrite { event: CacheEvent::BypassStream }),
    ensures
        driver.config.exact_caching ==> driver.step_before(step, body) == (
        FilterStepView::LookupExact {
            kv_key: driver.config.namespace@ + seq![':'] + digest::hex_text(digest::sha256(body)),
        }),
        !driver.config.exact_caching ==> driver.step_before(step, body) == FilterStepView::Engine(
            step,
        ),
{
}

/// An entry of the exact cache answers the request: with its status, its body and
/// its headers, and behind them the event, the namespace and the key prefix. Where
/// there is none, the engine's first step is taken.
pub proof fn exact_entry_answers(driver: Driver, body: Seq<u8>, entry: EntryView)
    ensures
        driver.lookup_filter_step(body, Some(entry)) matches FilterStepView::Respond {
            response,
            event,
        } && {
            &&& event == CacheEvent::HitExact
            &&& response.status == entry.status
            &&& response.body == entry.body
            &&& response.headers == entry.headers + seq![
                ("x-cache"@, "hit-exact"@),
                ("x-cache-namespace"@, driver.config.namespace@),
                ("x-cache-key"@, driver.key_prefix(body)),
            ]
        },
        driver.lookup_filter_step(body, None) == FilterStepView::Engine(driver.engine_step(body)),
{
    let headers = replay::cache_headers(
        CacheEvent::HitExact,
        None,
        driver.config.namespace@,
        driver.key_prefix(body),
    );
    assert(headers =~= seq![
        ("x-cache"@, "hit-exact"@),
        ("x-cache-namespace"@, driver.config.namespace@),
        ("x-cache-key"@, driver.key_prefix(body)),
    ]);
}

/// The key prefix of a request is the start of the digest of its prompt, where it
/// has one, and of its body otherwise: two requests with the same prompt show the
/// same.
pub proof fn key_prefix_follows_the_prompt(
    kind: PromptExtractor,
    document: JsonTree,
    body: Seq<u8>,
    error: Seq<char>,
)
    ensures
        extract::outcome(kind, document) matches OutcomeView::Found(e) ==> request_prefix(
            kind,
            Ok(document),
            body,
        ) == key::short_prefix(digest::hex_text(digest::sha256(encode_utf8(e.prompt))), 12),
        extract::outcome(kind, document) is Skip ==> request_prefix(kind, Ok(document), body)
            == key::short_prefix(digest::hex_text(digest::sha256(body)), 12),
        request_prefix(kind, Err(error), body) == key::short_prefix(
            digest::hex_text(digest::sha256(body)),
            12,
        ),
{
}

/// The engine of a started policy does what the configuration says: it keeps the
/// namespace, the threshold, the lifetime, the statuses, the bypass of streams and
/// the failure mode.
pub proof fn started_engine_follows_the_configuration(driver: Driver)
    requires
        driver.well_formed(),
    ensures
        driver.engine.config.namespace@ == driver.config.namespace@,
        driver.engine.config.similarity_threshold@ == driver.config.similarity_threshold,
        driver.engine.config.ttl@ == driver.config.ttl_seconds,
        driver.engine.config.bypass_on_stream == driver.config.bypass_on_stream,
        driver.engine.config.cache_response_status_codes@
            == driver.config.cache_response_status_codes@,
        driver.engine.config.failure_mode == FailureMode::FailOpen <==> driver.config.failure_mode@
            == "fail_open"@,
        driver.engine.config.failure_mode == FailureMode::FailClosed
            <==> driver.config.failure_mode@ == "fail_closed"@,
        driver.exact_ttl_ms is Some <==> driver.config.exact_caching,
        driver.exact_ttl_ms matches Some(ms) ==> ms == exact_ttl(driver.config.ttl_seconds),
        extractor_named(driver.config.prompt_extractor@) == Ok::<PromptExtractor, ConfigFault>(
            driver.engine.extractor,
        ),
        !driver.engine.config.exact_caching,
{
    reveal_strlit("fail_closed");
    reveal_strlit("fail_open");
    assert("fail_closed"@.len() == 11);
    assert("fail_open"@.len() == 9);
}

/// A configuration starts exactly if its threshold is from 0 to 1.5 and its failure
/// mode has a name that is known.
pub proof fn engine_faults(cfg: DriverConfig)
    ensures
        engine_fault(cfg) is None <==> {
            &&& cfg.similarity_threshold.at_least(Single { bits: 0 })
            &&& (Single { bits: 0x3fc0_0000 }).at_least(cfg.similarity_threshold)
            &&& cfg.failure_mode@ == "fail_open"@ || cfg.failure_mode@ == "fail_closed"@
        },
{
}

/// Each extractor has one name.
pub proof fn extractors_have_one_name(a: Seq<char>, b: Seq<char>)
    ensures
        extractor_named(a) is Ok && extractor_named(a) == extractor_named(b) ==> a == b,
        extractor_named(a) == Ok::<PromptExtractor, ConfigFault>(PromptExtractor::Openai) ==> a
            == "openai"@,
        extractor_named(a) == Ok::<PromptExtractor, ConfigFault>(PromptExtractor::Anthropic) ==> a
            == "anthropic"@,
        extractor_named(a) == Ok::<PromptExtractor, ConfigFault>(PromptExtractor::Mistral) ==> a
            == "mistral"@,
        extractor_named(a) == Ok::<PromptExtractor, ConfigFault>(PromptExtractor::Cohere) ==> a
            == "cohere"@,
        extractor_named(a) == Ok::<PromptExtractor, ConfigFault>(PromptExtractor::Bedrock) ==> a
            == "bedrock"@,
        extractor_named(a) == Ok::<PromptExtractor, ConfigFault>(PromptExtractor::Vertex) ==> a
            == "vertex"@,
{
}

/// The lifetime of an entry of the exact cache is a thousand milliseconds for each
/// second, as far as that can be told to the store.
pub proof fn exact_lifetime_in_milliseconds(ttl_seconds: u64)
    ensures
        ttl_seconds * 1000 <= u32::MAX ==> exact_ttl(ttl_seconds) == ttl_seconds * 1000,
        ttl_seconds * 1000 > u32::MAX && ttl_seconds <= u32::MAX ==> exact_ttl(ttl_seconds)
            == u32::MAX,
{
}

/// An address is refused exactly if, without its trailing slashes, it ends in one
/// of the suffixes.
pub proof fn address_ends_in_a_suffix(path: Seq<char>, suffixes: Seq<Seq<char>>)
    ensures
        ending(path, suffixes) is Some <==> exists|i: int|
            0 <= i < suffixes.len() && text::has_suffix(
                text::without_trailing_slashes(path),
                #[trigger] suffixes[i],
            ),
        ending(path, suffixes) matches Some(s) ==> suffixes.contains(s) && text::has_suffix(
            text::without_trailing_slashes(path),
            s,
        ),
    decreases suffixes.len(),
{
    if suffixes.len() > 0 {
        let rest = suffixes.drop_first();
        address_ends_in_a_suffix(path, rest);
        let trimmed = text::without_trailing_slashes(path);
        if text::has_suffix(trimmed, suffixes[0]) {
        } else if let Some(s) = ending(path, rest) {
            let i = choose|i: int| 0 <= i < rest.len() && rest[i] == s;
            assert(suffixes[i + 1] == s);
        } else {
            assert forall|i: int| 0 <= i < suffixes.len() implies !text::has_suffix(
                trimmed,
                #[trigger] suffixes[i],
            ) by {
                if i > 0 {
                    assert(suffixes[i] == rest[i - 1]);
                }
            }
        }
    }
}

/// The tokens that a response reports are the number under `usage.total_tokens`.
pub proof fn usage_is_total_tokens(document: JsonTree, error: Seq<char>)
    ensures
        usage_in(Err(error)) is None,
        usage_in(Ok(document)) == match document.get("usage"@) {
            Some(u) => match u.get("total_tokens"@) {
                Some(JsonTree::Number(n)) => n.unsigned,
                _ => None,
            },
            None => None,
        },
{
}

/// The record of an event names the policy and the event, and the score where there
/// is one.
pub proof fn record_names_the_event(
    policy_name: Seq<char>,
    event: CacheEvent,
    score: Option<Single>,
)
    ensures
        ({
            let r = event_record(policy_name, event, score);
            &&& r.text_field("policy"@) == Some(policy_name)
            &&& r.text_field("event"@) == Some(event.text())
            &&& r.get("score"@) is Some <==> score is Some
            &&& score is Some && score->0.finite() ==> (r.get(
                "score"@,
            )->0.double_bits() matches Some(bits) && ieee::to_single(bits) == score->0)
        }),
{
    reveal_strlit("policy");
    reveal_strlit("event");
    reveal_strlit("score");
    assert("policy"@.len() == 6);
    assert("event"@.len() == 5 && "event"@[0] == 'e');
    assert("score"@.len() == 5 && "score"@[0] == 's');
    let fields = event_record(policy_name, event, score)->Object_0;
    json::first_field_counts(fields, 0, "policy"@);
    json::first_field_counts(fields, 1, "event"@);
    if let Some(s) = score {
        json::first_field_counts(fields, 2, "score"@);
        if s.finite() {
            json::single_is_read_back(s);
        }
    } else {
        json::missing_field_gives_nothing(fields, "score"@);
    }
}

/// The score of a response is that of its first score header, whatever the case of
/// the name.
pub proof fn first_score_header_counts(headers: Seq<(Seq<char>, Seq<char>)>, n: int)
    requires
        0 <= n < headers.len(),
        text::lowered(headers[n].0) == text::lowered("x-cache-score"@),
        forall|i: int|
            0 <= i < n ==> text::lowered((#[trigger] headers[i]).0) != text::lowered(
                "x-cache-score"@,
            ),
    ensures
        score_header(headers) == Some(headers[n].1),
    decreases n,
{
    if n > 0 {
        let rest = headers.drop_first();
        assert forall|i: int| 0 <= i < n - 1 implies text::lowered((#[trigger] rest[i]).0)
            != text::lowered("x-cache-score"@) by {
            assert(rest[i] == headers[i + 1]);
        }
        assert(rest[n - 1] == headers[n]);
        assert(text::lowered(headers[0].0) != text::lowered("x-cache-score"@));
        first_score_header_counts(rest, n - 1);
    }
}

/// Why an address is refused names the setting, the part that is appended and the
/// path, in this order.
pub proof fn refused_address_is_named(
    field_name: Seq<char>,
    service_path: Seq<char>,
    suffix: Seq<char>,
)
    ensures
        ({
            let m = suffix_message(field_name, service_path, suffix);
            let a = field_name.len() + " must NOT include `"@.len() as int;
            let b = a + suffix.len() + "` — the policy appends it. Got path `"@.len();
            &&& m.take(field_name.len() as int) == field_name
            &&& m.subrange(a, a + suffix.len()) == suffix
            &&& m.subrange(b, b + service_path.len()) == service_path
        }),
{
    let m = suffix_message(field_name, service_path, suffix);
    let a = field_name.len() + " must NOT include `"@.len() as int;
    let b = a + suffix.len() + "` — the policy appends it. Got path `"@.len();
    assert(m.take(field_name.len() as int) =~= field_name);
    assert(m.subrange(a, a + suffix.len()) =~= suffix);
    assert(m.subrange(b, b + service_path.len()) =~= service_path);
}

/// What is stated of an entry, of a step, of a verdict and of a plan is stated of
/// the whole of them.
pub proof fn filters_are_seen_whole(
    entry: ExactCacheEntry,
    step: RequestStep,
    decision: RequestDecision,
    response: ReplayResponse,
    event: CacheEvent,
    headers: Vec<(String, String)>,
    body: Vec<u8>,
    text: String,
    status: u32,
    plan: ResponsePlan,
)
    ensures
        entry@.status == entry.status,
        entry@.headers == store::header_views(entry.headers@),
        entry@.body == entry.body@,
        entry@.usage_total_tokens == entry.usage_total_tokens,
        (FilterStep::LookupExact { kv_key: text })@ == (FilterStepView::LookupExact {
            kv_key: text@,
        }),
        (FilterStep::Respond { response, event })@ == (FilterStepView::Respond {
            response: response@,
            event,
        }),
        FilterStep::Engine(step)@ == FilterStepView::Engine(step@),
        (Verdict::Respond { response, event })@ == (VerdictView::Respond {
            response: response@,
            event,
        }),
        (Verdict::Refuse { status, headers, body, reason: text })@ == (VerdictView::Refuse {
            status,
            headers: store::header_views(headers@),
            body: body@,
            reason: text@,
        }),
        (Verdict::Continue { decision, event })@ == (VerdictView::Continue {
            decision: decision@,
            event,
        }),
        plan.exact is None <==> plan@.exact is None,
        plan.exact matches Some((k, e)) ==> plan@.exact == Some((k@, e@)),
        plan.semantic is None <==> plan@.semantic is None,
        plan.semantic matches Some(w) ==> plan@.semantic == Some(w@),
{
}

/// Both filters read the whole body of the request, with the extractor and the
/// configuration of the engine.
pub proof fn filters_read_the_whole_body(driver: Driver, body: Seq<u8>)
    ensures
        driver.key_prefix(body) == request_prefix(
            driver.engine.extractor,
            json::json_parse(body),
            body,
        ),
        driver.engine_step(body) == engine::request_step(
            driver.engine.config,
            driver.engine.extractor,
            json::json_parse(body),
        ),
        driver.first_filter_step(body) == driver.step_before(driver.engine_step(body), body),
{
}

/// What is stated of a list of texts is stated of each of them.
pub proof fn texts_are_seen_whole(texts: Seq<&str>, i: int)
    ensures
        text_views(texts).len() == texts.len(),
        0 <= i < texts.len() ==> text_views(texts)[i] == texts[i]@,
{
}

} // verus!
