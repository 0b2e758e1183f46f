//! The configuration that an operator gives a policy, and what it stands for.
//!
//! Every variant of the policy has the same settings but for its vector store.

use vstd::prelude::*;

use crate::driver;
use crate::driver::DriverConfig;
use crate::embed::OpenAICompatibleEmbedderConfig;
use crate::ieee;
use crate::store;
use crate::text;

verus! {

pub const PINECONE_POLICY_NAME: &'static str = "ai-semantic-cache-policy-openai-pinecone";

pub const QDRANT_POLICY_NAME: &'static str = "ai-semantic-cache-policy-openai-qdrant";

pub const AZURE_POLICY_NAME: &'static str = "ai-semantic-cache-policy-openai-azure-ai-search";

/// The bits, in double precision, of the threshold where none is configured: 0.92.
pub const DEFAULT_THRESHOLD: u64 = 0x3fed_70a3_d70a_3d71;

/// The TTL where none is configured, in seconds.
pub const DEFAULT_TTL_SECONDS: u64 = 3600;

/// The settings of a policy beside its embedder and its vector store. The
/// threshold is given by its bits in double precision.
#[derive(Debug)]
pub struct Config {
    pub bypass_on_stream: Option<bool>,
    pub cache_response_status_codes: Option<Vec<i64>>,
    pub exact_caching: Option<bool>,
    pub failure_mode: Option<String>,
    pub namespace: String,
    pub prompt_extractor: Option<String>,
    pub similarity_threshold: Option<u64>,
    pub ttl_seconds: Option<i64>,
}

/// The settings of an embedder. `base_path` is the path of its address.
#[derive(Debug)]
pub struct EmbedderConfig {
    pub api_key: Option<String>,
    pub auth_header: Option<String>,
    pub auth_scheme: Option<String>,
    pub base_path: String,
    pub dimension: i64,
    pub model: String,
    pub timeout_ms: Option<i64>,
}

/// A setting, or its default.
pub open spec fn setting(value: Option<String>, default: Seq<char>) -> Seq<char> {
    match value {
        Some(v) => v@,
        None => default,
    }
}

/// A switch, on where it is not configured.
pub open spec fn switch(value: Option<bool>) -> bool {
    value != Some(false)
}

/// The lower sixteen bits of each number.
pub open spec fn low16(codes: Seq<i64>) -> Seq<u16> {
    Seq::new(codes.len(), |i: int| (codes[i] as int % 0x1_0000) as u16)
}

/// The statuses to be cached.
pub open spec fn cached_statuses(codes: Option<Vec<i64>>) -> Seq<u16> {
    match codes {
        Some(v) => low16(v@),
        None => seq![200u16],
    }
}

/// The lower bits of a signed number, as many as a size has.
pub open spec fn size_bits(n: i64) -> usize {
    (n as int % (usize::MAX + 1)) as usize
}

fn setting_or(value: &Option<String>, default: &str) -> (r: String)
    ensures
        r@ == setting(*value, default@),
{
    match value {
        Some(v) => v.clone(),
        None => text::owned(default),
    }
}

fn switch_on(value: Option<bool>) -> (r: bool)
    ensures
        r == switch(value),
{
    match value {
        Some(v) => v,
        None => true,
    }
}

fn statuses(codes: &Option<Vec<i64>>) -> (r: Vec<u16>)
    ensures
        r@ == cached_statuses(*codes),
{
    let mut out: Vec<u16> = Vec::new();
    match codes {
        Some(v) => {
            let mut i: usize = 0;
            while i < v.len()
                invariant
                    i <= v@.len(),
                    out@ == low16(v@).take(i as int),
                decreases v@.len() - i,
            {
                let c: u16 = (store::unsigned_of(v[i]) % 0x1_0000) as u16;
                assert(c == low16(v@)[i as int]);
                out.push(c);
                assert(low16(v@).take(i + 1) =~= low16(v@).take(i as int).push(c));
                i += 1;
            }
            assert(low16(v@).take(i as int) =~= low16(v@));
        },
        None => {
            out.push(200);
            assert(out@ =~= seq![200u16]);
        },
    }
    out
}

fn size_of(n: i64) -> (r: usize)
    ensures
        r == size_bits(n),
{
    let u: u64 = store::unsigned_of(n);
    let most: u64 = usize::MAX as u64;
    if u <= most {
        assert(most == 0xffff_ffff || most == 0xffff_ffff_ffff_ffff);
        u as usize
    } else {
        assert(most == 0xffff_ffff);
        (u % 0x1_0000_0000) as usize
    }
}

/// Whether a driver's configuration is the one that an operator's settings ask
/// for.
pub open spec fn drives(policy_name: Seq<char>, cfg: Config, d: DriverConfig) -> bool {
    &&& d.policy_name@ == policy_name
    &&& d.namespace@ == cfg.namespace@
    &&& d.similarity_threshold == ieee::to_single(
        match cfg.similarity_threshold {
            Some(bits) => bits,
            None => DEFAULT_THRESHOLD,
        },
    )
    &&& d.ttl_seconds == match cfg.ttl_seconds {
        Some(secs) => store::as_unsigned(secs),
        None => DEFAULT_TTL_SECONDS,
    }
    &&& d.exact_caching == switch(cfg.exact_caching)
    &&& d.bypass_on_stream == switch(cfg.bypass_on_stream)
    &&& d.prompt_extractor@ == setting(cfg.prompt_extractor, "openai"@)
    &&& d.cache_response_status_codes@ == cached_statuses(cfg.cache_response_status_codes)
    &&& d.failure_mode@ == setting(cfg.failure_mode, "fail_open"@)
}

/// The driver's configuration.
pub fn build_driver_config(policy_name: &'static str, cfg: &Config) -> (r: DriverConfig)
    ensures
        drives(policy_name@, *cfg, r),
{
    DriverConfig {
        policy_name,
        namespace: cfg.namespace.clone(),
        similarity_threshold: ieee::narrow(
            match cfg.similarity_threshold {
                Some(bits) => bits,
                None => DEFAULT_THRESHOLD,
            },
        ),
        ttl_seconds: match cfg.ttl_seconds {
            Some(secs) => store::unsigned_of(secs),
            None => DEFAULT_TTL_SECONDS,
        },
        exact_caching: switch_on(cfg.exact_caching),
        bypass_on_stream: switch_on(cfg.bypass_on_stream),
        prompt_extractor: setting_or(&cfg.prompt_extractor, "openai"),
        cache_response_status_codes: statuses(&cfg.cache_response_status_codes),
        failure_mode: setting_or(&cfg.failure_mode, "fail_open"),
    }
}

/// Whether an embedder's configuration is the one that an operator's settings
/// ask for.
pub open spec fn embeds(emb: EmbedderConfig, e: OpenAICompatibleEmbedderConfig) -> bool {
    &&& e.base_url@ == emb.base_path@
    &&& e.model@ == emb.model@
    &&& e.api_key is Some <==> emb.api_key is Some
    &&& emb.api_key matches Some(k) ==> e.api_key->0@ == k@
    &&& e.auth_header@ == setting(emb.auth_header, "Authorization"@)
    &&& e.auth_scheme@ == setting(emb.auth_scheme, "Bearer"@)
    &&& e.dimension == size_bits(emb.dimension)
    &&& e.timeout_ms == store::timeout_of(emb.timeout_ms)
}

/// The embedder's configuration.
pub fn build_embedder_config(emb: &EmbedderConfig) -> (r: OpenAICompatibleEmbedderConfig)
    ensures
        embeds(*emb, r),
{
    OpenAICompatibleEmbedderConfig {
        base_url: emb.base_path.clone(),
        model: emb.model.clone(),
        api_key: match &emb.api_key {
            Some(k) => Some(k.clone()),
            None => None,
        },
        auth_header: setting_or(&emb.auth_header, "Authorization"),
        auth_scheme: setting_or(&emb.auth_scheme, "Bearer"),
        dimension: size_of(emb.dimension),
        timeout_ms: store::timeout(emb.timeout_ms),
    }
}

// ---------------------------------------------------------------------
// Addresses
// ---------------------------------------------------------------------

/// What an embedder's address must not end in.
pub open spec fn embedder_suffixes() -> Seq<Seq<char>> {
    seq!["/embeddings"@, "/v1/embeddings"@]
}

/// What the address of a Pinecone index must not end in.
pub open spec fn pinecone_suffixes() -> Seq<Seq<char>> {
    seq!["/query"@, "/vectors/upsert"@, "/vectors/fetch"@, "/vectors/delete"@]
}

/// What the address of a Qdrant cluster must not end in.
pub open spec fn qdrant_suffixes() -> Seq<Seq<char>> {
    seq!["/collections"@, "/points"@, "/points/search"@]
}

/// What the address of an Azure AI Search service must not end in.
pub open spec fn azure_suffixes() -> Seq<Seq<char>> {
    seq!["/indexes"@, "/docs"@]
}

/// Why an address is refused, if it is.
pub open spec fn address_fault(
    field: Seq<char>,
    path: Seq<char>,
    suffixes: Seq<Seq<char>>,
) -> Option<Seq<char>> {
    match driver::ending(path, suffixes) {
        Some(suffix) => Some(driver::suffix_message(field, path, suffix)),
        None => None,
    }
}

/// Why one of two addresses is refused: that of the embedder counts first.
pub open spec fn addresses_fault(
    embedder_path: Seq<char>,
    field: Seq<char>,
    path: Seq<char>,
    suffixes: Seq<Seq<char>>,
) -> Option<Seq<char>> {
    let first = address_fault("embedder.baseUrl"@, embedder_path, embedder_suffixes());
    if first is Some {
        first
    } else {
        address_fault(field, path, suffixes)
    }
}

/// The view of why an address is refused, if it is.
pub open spec fn refusal(r: Result<(), String>) -> Option<Seq<char>> {
    match r {
        Ok(_) => None,
        Err(e) => Some(e@),
    }
}

fn check_addresses(embedder_path: &str, field: &str, path: &str, suffixes: &[&str]) -> (r: Result<
    (),
    String,
>)
    ensures
        refusal(r) == addresses_fault(
            embedder_path@,
            field@,
            path@,
            driver::text_views(suffixes@),
        ),
{
    let own: Vec<&str> = vec!["/embeddings", "/v1/embeddings"];
    assert(driver::text_views(own@) =~= embedder_suffixes());
    match driver::reject_service_path_with_suffix(
        "embedder.baseUrl",
        embedder_path,
        own.as_slice(),
    ) {
        Ok(_) => driver::reject_service_path_with_suffix(field, path, suffixes),
        Err(e) => Err(e),
    }
}

/// Checks the addresses of a policy with Pinecone, given by their paths.
pub fn check_pinecone(embedder_path: &str, index_host_path: &str) -> (r: Result<(), String>)
    ensures
        refusal(r) == addresses_fault(
            embedder_path@,
            "vectordb.indexHost"@,
            index_host_path@,
            pinecone_suffixes(),
        ),
{
    let own: Vec<&str> = vec!["/query", "/vectors/upsert", "/vectors/fetch", "/vectors/delete"];
    assert(driver::text_views(own@) =~= pinecone_suffixes());
    check_addresses(embedder_path, "vectordb.indexHost", index_host_path, own.as_slice())
}

/// Checks the addresses of a policy with Qdrant, given by their paths. The
/// address of the cluster is its root: `/collections/<name>/...` is appended.
pub fn check_qdrant(embedder_path: &str, base_url_path: &str) -> (r: Result<(), String>)
    ensures
        refusal(r) == addresses_fault(
            embedder_path@,
            "vectordb.baseUrl"@,
            base_url_path@,
            qdrant_suffixes(),
        ),
{
    let own: Vec<&str> = vec!["/collections", "/points", "/points/search"];
    assert(driver::text_views(own@) =~= qdrant_suffixes());
    check_addresses(embedder_path, "vectordb.baseUrl", base_url_path, own.as_slice())
}

/// Checks the addresses of a policy with Azure AI Search, given by their paths.
/// The endpoint is the root of the service: `/indexes/<name>/...` is appended.
pub fn check_azure(embedder_path: &str, endpoint_path: &str) -> (r: Result<(), String>)
    ensures
        refusal(r) == addresses_fault(
            embedder_path@,
            "vectordb.endpoint"@,
            endpoint_path@,
            azure_suffixes(),
        ),
{
    let own: Vec<&str> = vec!["/indexes", "/docs"];
    assert(driver::text_views(own@) =~= azure_suffixes());
    check_addresses(embedder_path, "vectordb.endpoint", endpoint_path, own.as_slice())
}

// ---------------------------------------------------------------------
// Laws
// ---------------------------------------------------------------------

/// An embedder's address that is accepted does not make the path of a call
/// repeat its last part: it does not end in what is appended to it.
pub proof fn accepted_address_repeats_nothing(base_path: Seq<char>)
    requires
        address_fault("embedder.baseUrl"@, base_path, embedder_suffixes()) is None,
    ensures
        !text::has_suffix(text::without_trailing_slashes(base_path), "/embeddings"@),
{
}

/// Trailing slashes of an address are immaterial.
pub proof fn trailing_slash_is_immaterial(field: Seq<char>, path: Seq<char>, suffixes: Seq<Seq<char>>)
    ensures
        address_fault(field, path, suffixes) is Some <==> address_fault(
            field,
            path.push('/'),
            suffixes,
        ) is Some,
{
    assert(path.push('/').drop_last() =~= path);
    lemma_ending_of_trimmed(path, path.push('/'), suffixes);
}

/// What a path ends in depends on it without its trailing slashes.
proof fn lemma_ending_of_trimmed(a: Seq<char>, b: Seq<char>, suffixes: Seq<Seq<char>>)
    requires
        text::without_trailing_slashes(a) == text::without_trailing_slashes(b),
    ensures
        driver::ending(a, suffixes) == driver::ending(b, suffixes),
    decreases suffixes.len(),
{
    if suffixes.len() > 0 {
        lemma_ending_of_trimmed(a, b, suffixes.drop_first());
    }
}

/// What an operator sets is what the policy runs with.
pub proof fn settings_are_kept(policy_name: Seq<char>, cfg: Config, d: DriverConfig)
    requires
        drives(policy_name, cfg, d),
    ensures
        d.policy_name@ == policy_name,
        d.namespace@ == cfg.namespace@,
        cfg.similarity_threshold matches Some(bits) ==> d.similarity_threshold == ieee::to_single(
            bits,
        ),
        cfg.ttl_seconds matches Some(secs) && secs >= 0 ==> d.ttl_seconds == cfg.ttl_seconds->0,
        cfg.exact_caching matches Some(on) ==> d.exact_caching == on,
        cfg.bypass_on_stream matches Some(on) ==> d.bypass_on_stream == on,
        cfg.prompt_extractor matches Some(name) ==> d.prompt_extractor@ == name@,
        cfg.failure_mode matches Some(mode) ==> d.failure_mode@ == mode@,
{
}

/// What an operator leaves out: a threshold of 0.92, an hour, both caches and the
/// bypass of streams on, the OpenAI shape, the status 200, and failures passed
/// over.
pub proof fn settings_have_defaults(policy_name: Seq<char>, cfg: Config, d: DriverConfig)
    requires
        drives(policy_name, cfg, d),
    ensures
        cfg.similarity_threshold is None ==> d.similarity_threshold == ieee::to_single(
            0x3fed_70a3_d70a_3d71,
        ),
        cfg.ttl_seconds is None ==> d.ttl_seconds == 3600,
        cfg.exact_caching is None ==> d.exact_caching,
        cfg.bypass_on_stream is None ==> d.bypass_on_stream,
        cfg.prompt_extractor is None ==> d.prompt_extractor@ == "openai"@,
        cfg.failure_mode is None ==> d.failure_mode@ == "fail_open"@,
        cfg.cache_response_status_codes is None ==> d.cache_response_status_codes@ == seq![200u16],
{
}

/// The statuses that are cached are those that the operator lists.
pub proof fn listed_statuses_are_cached(codes: Vec<i64>, status: u16)
    requires
        forall|i: int| 0 <= i < codes@.len() ==> 0 <= #[trigger] codes@[i] <= 0xffff,
    ensures
        cached_statuses(Some(codes)).contains(status) <==> codes@.contains(status as i64),
        cached_statuses(Some(codes)).len() == codes@.len(),
{
    let all = cached_statuses(Some(codes));
    if all.contains(status) {
        let i = choose|i: int| 0 <= i < all.len() && all[i] == status;
        assert(codes@[i] == status as i64);
    }
    if codes@.contains(status as i64) {
        let i = choose|i: int| 0 <= i < codes@.len() && codes@[i] == status as i64;
        assert(all[i] == status);
    }
}

/// The embedder runs with what the operator sets; without a header it
/// authenticates by `Authorization`, and without a scheme by `Bearer`.
pub proof fn embedder_settings_are_kept(emb: EmbedderConfig, e: OpenAICompatibleEmbedderConfig)
    requires
        embeds(emb, e),
    ensures
        e.base_url@ == emb.base_path@,
        e.model@ == emb.model@,
        emb.api_key is None ==> e.api_key is None,
        emb.api_key matches Some(k) ==> (e.api_key matches Some(used) && used@ == k@),
        emb.auth_header matches Some(h) ==> e.auth_header@ == h@,
        emb.auth_header is None ==> e.auth_header@ == "Authorization"@,
        emb.auth_scheme matches Some(s) ==> e.auth_scheme@ == s@,
        emb.auth_scheme is None ==> e.auth_scheme@ == "Bearer"@,
        0 <= emb.dimension <= usize::MAX ==> e.dimension == emb.dimension,
        emb.timeout_ms is None ==> e.timeout_ms == 5000,
        emb.timeout_ms is Some && emb.timeout_ms->0 >= 0 ==> e.timeout_ms == emb.timeout_ms->0,
{
    if 0 <= emb.dimension <= usize::MAX {
        vstd::arithmetic::div_mod::lemma_small_mod(
            emb.dimension as nat,
            (usize::MAX + 1) as nat,
        );
    }
}

/// A policy starts only where neither address ends in a part of the API that is
/// appended to it, trailing slashes aside.
pub proof fn accepted_addresses_end_in_no_suffix(
    embedder_path: Seq<char>,
    field: Seq<char>,
    path: Seq<char>,
    suffixes: Seq<Seq<char>>,
)
    ensures
        addresses_fault(embedder_path, field, path, suffixes) is None <==> {
            &&& !text::has_suffix(text::without_trailing_slashes(embedder_path), "/embeddings"@)
            &&& !text::has_suffix(text::without_trailing_slashes(embedder_path), "/v1/embeddings"@)
            &&& forall|i: int|
                0 <= i < suffixes.len() ==> !text::has_suffix(
                    text::without_trailing_slashes(path),
                    #[trigger] suffixes[i],
                )
        },
{
    let own = embedder_suffixes();
    driver::address_ends_in_a_suffix(embedder_path, own);
    driver::address_ends_in_a_suffix(path, suffixes);
    assert(own[0] == "/embeddings"@ && own[1] == "/v1/embeddings"@);
}

/// The parts of the API that are appended to the address of each store.
pub proof fn suffixes_of_the_stores()
    ensures
        pinecone_suffixes().contains("/query"@),
        pinecone_suffixes().contains("/vectors/upsert"@),
        pinecone_suffixes().contains("/vectors/fetch"@),
        pinecone_suffixes().contains("/vectors/delete"@),
        qdrant_suffixes().contains("/collections"@),
        qdrant_suffixes().contains("/points"@),
        qdrant_suffixes().contains("/points/search"@),
        azure_suffixes().contains("/indexes"@),
        azure_suffixes().contains("/docs"@),
{
    let p = pinecone_suffixes();
    assert(p[0] == "/query"@ && p[1] == "/vectors/upsert"@ && p[2] == "/vectors/fetch"@ && p[3]
        == "/vectors/delete"@);
    let q = qdrant_suffixes();
    assert(q[0] == "/collections"@ && q[1] == "/points"@ && q[2] == "/points/search"@);
    let a = azure_suffixes();
    assert(a[0] == "/indexes"@ && a[1] == "/docs"@);
}

/// What is stated of a check is stated of the whole of it: it passes, or it says
/// why not.
pub proof fn refusals_are_seen_whole(m: String)
    ensures
        refusal(Ok(())) is None,
        refusal(Err(m)) == Some(m@),
{
}

} // verus!
