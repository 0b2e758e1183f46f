//! Replaying a cached response, with the headers that tell where it came from.

use vstd::prelude::*;
use vstd::slice::slice_to_vec;

use crate::ieee;
use crate::ieee::Single;
use crate::store;
use crate::store::{CachedPayload, PayloadView};

verus! {

pub const X_CACHE: &'static str = "x-cache";

pub const X_CACHE_SCORE: &'static str = "x-cache-score";

pub const X_CACHE_NAMESPACE: &'static str = "x-cache-namespace";

pub const X_CACHE_KEY: &'static str = "x-cache-key";

/// What the cache did with a request.
#[derive(Debug, Clone, Copy, PartialEq, Eq, Structural)]
pub enum CacheEvent {
    HitExact,
    HitSemantic,
    Miss,
    BypassStream,
    BypassError,
    SkipUnparseable,
}

impl CacheEvent {
    /// The event as the value of the `X-Cache` header.
    pub open spec fn text(self) -> Seq<char> {
        match self {
            CacheEvent::HitExact => "hit-exact"@,
            CacheEvent::HitSemantic => "hit-semantic"@,
            CacheEvent::Miss => "miss"@,
            CacheEvent::BypassStream => "bypass-stream"@,
            CacheEvent::BypassError => "bypass-error"@,
            CacheEvent::SkipUnparseable => "skip-unparseable"@,
        }
    }

    /// The event as the value of the `X-Cache` header.
    pub fn header_value(&self) -> (r: &'static str)
        ensures
            r@ == self.text(),
    {
        match self {
            CacheEvent::HitExact => "hit-exact",
            CacheEvent::HitSemantic => "hit-semantic",
            CacheEvent::Miss => "miss",
            CacheEvent::BypassStream => "bypass-stream",
            CacheEvent::BypassError => "bypass-error",
            CacheEvent::SkipUnparseable => "skip-unparseable",
        }
    }
}

/// Different events have different header values.
pub proof fn header_values_differ(a: CacheEvent, b: CacheEvent)
    requires
        a != b,
    ensures
        a.text() != b.text(),
{
    reveal_strlit("hit-exact");
    reveal_strlit("hit-semantic");
    reveal_strlit("miss");
    reveal_strlit("bypass-stream");
    reveal_strlit("bypass-error");
    reveal_strlit("skip-unparseable");
    assert("hit-exact"@.len() == 9);
    assert("hit-semantic"@.len() == 12 && "hit-semantic"@[0] == 'h');
    assert("miss"@.len() == 4);
    assert("bypass-stream"@.len() == 13);
    assert("bypass-error"@.len() == 12 && "bypass-error"@[0] == 'b');
    assert("skip-unparseable"@.len() == 16);
}

/// A response to be sent in place of the upstream's.
#[derive(Debug)]
pub struct ReplayResponse {
    pub status: u16,
    pub headers: Vec<(String, String)>,
    pub body: Vec<u8>,
}

/// The view of a [`ReplayResponse`].
#[verifier::ext_equal]
pub struct ReplayView {
    pub status: u16,
    pub headers: Seq<(Seq<char>, Seq<char>)>,
    pub body: Seq<u8>,
}

impl View for ReplayResponse {
    type V = ReplayView;

    open spec fn view(&self) -> ReplayView {
        ReplayView {
            status: self.status,
            headers: store::header_views(self.headers@),
            body: self.body@,
        }
    }
}

impl Clone for ReplayResponse {
    fn clone(&self) -> (r: ReplayResponse)
        ensures
            r@ == self@,
    {
        ReplayResponse {
            status: self.status,
            headers: store::copy_headers(&self.headers),
            body: slice_to_vec(self.body.as_slice()),
        }
    }
}

/// The headers that a replay adds: the event, the score where there is one, the
/// namespace and the key prefix.
pub open spec fn cache_headers(
    event: CacheEvent,
    score: Option<Single>,
    namespace: Seq<char>,
    correlation_prefix: Seq<char>,
) -> Seq<(Seq<char>, Seq<char>)> {
    let first = seq![(X_CACHE@, event.text())];
    let scored = match score {
        Some(s) => first.push((X_CACHE_SCORE@, ieee::fixed_text(s))),
        None => first,
    };
    scored.push((X_CACHE_NAMESPACE@, namespace)).push((X_CACHE_KEY@, correlation_prefix))
}

/// The replay of an entry.
pub open spec fn replay(
    payload: PayloadView,
    event: CacheEvent,
    score: Option<Single>,
    namespace: Seq<char>,
    correlation_prefix: Seq<char>,
) -> ReplayView {
    ReplayView {
        status: payload.status,
        headers: payload.headers + cache_headers(event, score, namespace, correlation_prefix),
        body: payload.body,
    }
}

/// Builds the replay of an entry: its status, headers and body, and behind its
/// headers those of the cache.
pub fn build_replay(
    payload: &CachedPayload,
    event: CacheEvent,
    score: Option<Single>,
    namespace: &str,
    correlation_prefix: &str,
) -> (r: ReplayResponse)
    ensures
        r@ == replay(payload@, event, score, namespace@, correlation_prefix@),
{
    let mut headers = store::copy_headers(&payload.headers);
    store::push_header(&mut headers, X_CACHE, event.header_value());
    if let Some(s) = score {
        let shown = ieee::fixed(s);
        store::push_header(&mut headers, X_CACHE_SCORE, shown.as_str());
    }
    store::push_header(&mut headers, X_CACHE_NAMESPACE, namespace);
    store::push_header(&mut headers, X_CACHE_KEY, correlation_prefix);
    assert(store::header_views(headers@) =~= payload@.headers + cache_headers(
        event,
        score,
        namespace@,
        correlation_prefix@,
    ));
    ReplayResponse {
        status: payload.status,
        headers,
        body: slice_to_vec(payload.body.as_slice()),
    }
}

/// Whether a list of headers holds one of that name.
pub open spec fn has_header(headers: Seq<(Seq<char>, Seq<char>)>, name: Seq<char>) -> bool {
    exists|i: int| 0 <= i < headers.len() && #[trigger] headers[i].0 == name
}

/// A replay keeps the status, the body and, in front, every header of the entry.
pub proof fn replay_preserves_entry(
    payload: PayloadView,
    event: CacheEvent,
    score: Option<Single>,
    namespace: Seq<char>,
    correlation_prefix: Seq<char>,
)
    ensures
        ({
            let r = replay(payload, event, score, namespace, correlation_prefix);
            &&& r.status == payload.status
            &&& r.body == payload.body
            &&& r.headers.take(payload.headers.len() as int) == payload.headers
        }),
{
    let r = replay(payload, event, score, namespace, correlation_prefix);
    assert(r.headers.take(payload.headers.len() as int) =~= payload.headers);
}

/// A replay of an entry without a score header has one exactly if a score is given.
pub proof fn score_header_only_with_score(
    payload: PayloadView,
    event: CacheEvent,
    score: Option<Single>,
    namespace: Seq<char>,
    correlation_prefix: Seq<char>,
)
    requires
        !has_header(payload.headers, X_CACHE_SCORE@),
    ensures
        has_header(
            replay(payload, event, score, namespace, correlation_prefix).headers,
            X_CACHE_SCORE@,
        ) == (score is Some),
{
    reveal_strlit("x-cache");
    reveal_strlit("x-cache-score");
    reveal_strlit("x-cache-namespace");
    reveal_strlit("x-cache-key");
    let n = payload.headers.len() as int;
    let h = replay(payload, event, score, namespace, correlation_prefix).headers;
    let c = cache_headers(event, score, namespace, correlation_prefix);
    assert(X_CACHE@.len() != X_CACHE_SCORE@.len());
    assert(X_CACHE_NAMESPACE@.len() != X_CACHE_SCORE@.len());
    assert(X_CACHE_KEY@.len() != X_CACHE_SCORE@.len());
    if score is Some {
        assert(h[n + 1].0 == X_CACHE_SCORE@);
    } else {
        assert forall|i: int| 0 <= i < h.len() implies #[trigger] h[i].0 != X_CACHE_SCORE@ by {
            if i < n {
                assert(h[i] == payload.headers[i]);
            } else {
                assert(h[i] == c[i - n]);
            }
        }
    }
}

/// The headers that a replay adds are four, or three where there is no score: the
/// event, the score, the namespace and the key prefix, in this order.
pub proof fn replay_adds_cache_headers(
    payload: PayloadView,
    event: CacheEvent,
    score: Option<Single>,
    namespace: Seq<char>,
    correlation_prefix: Seq<char>,
)
    ensures
        ({
            let h = replay(payload, event, score, namespace, correlation_prefix).headers;
            let n = payload.headers.len() as int;
            let last = h.len() - 1;
            &&& h.len() == n + if score is Some {
                4int
            } else {
                3int
            }
            &&& h[n] == ("x-cache"@, event.text())
            &&& score matches Some(s) ==> h[n + 1] == ("x-cache-score"@, ieee::fixed_text(s))
            &&& h[last - 1] == ("x-cache-namespace"@, namespace)
            &&& h[last] == ("x-cache-key"@, correlation_prefix)
        }),
{
}

/// The events by the names that a client sees.
pub proof fn events_have_their_names(event: CacheEvent)
    ensures
        event.text() == "hit-exact"@ <==> event == CacheEvent::HitExact,
        event.text() == "hit-semantic"@ <==> event == CacheEvent::HitSemantic,
        event.text() == "miss"@ <==> event == CacheEvent::Miss,
        event.text() == "bypass-stream"@ <==> event == CacheEvent::BypassStream,
        event.text() == "bypass-error"@ <==> event == CacheEvent::BypassError,
        event.text() == "skip-unparseable"@ <==> event == CacheEvent::SkipUnparseable,
{
    if event != CacheEvent::HitExact {
        header_values_differ(event, CacheEvent::HitExact);
    }
    if event != CacheEvent::HitSemantic {
        header_values_differ(event, CacheEvent::HitSemantic);
    }
    if event != CacheEvent::Miss {
        header_values_differ(event, CacheEvent::Miss);
    }
    if event != CacheEvent::BypassStream {
        header_values_differ(event, CacheEvent::BypassStream);
    }
    if event != CacheEvent::BypassError {
        header_values_differ(event, CacheEvent::BypassError);
    }
    if event != CacheEvent::SkipUnparseable {
        header_values_differ(event, CacheEvent::SkipUnparseable);
    }
}

/// What is stated of a response is stated of the whole of it.
pub proof fn responses_are_seen_whole(r: ReplayResponse)
    ensures
        r@.status == r.status,
        r@.headers == store::header_views(r.headers@),
        r@.body == r.body@,
{
}

} // verus!
