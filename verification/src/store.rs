//! What a vector store holds, what it is asked and what it answers.
//!
//! Each backend turns the four operations of a store into HTTP calls and reads
//! the replies. The calls are sent elsewhere; here stands what is sent and what
//! a reply means.

use base64::Engine;
use vstd::prelude::*;
use vstd::slice::slice_to_vec;

use crate::error::{StoreError, StoreFault};
use crate::ieee;
use crate::ieee::Single;
use crate::json;
use crate::json::{Json, JsonTree};
use crate::key::{CacheKey, KeyView};
use crate::text;

verus! {

// ---------------------------------------------------------------------
// Headers
// ---------------------------------------------------------------------

/// The view of a list of headers.
pub open spec fn header_views(headers: Seq<(String, String)>) -> Seq<(Seq<char>, Seq<char>)> {
    Seq::new(headers.len(), |i: int| (headers[i].0@, headers[i].1@))
}

/// Appends a header.
pub fn push_header(headers: &mut Vec<(String, String)>, name: &str, value: &str)
    ensures
        header_views(final(headers)@) == header_views(old(headers)@).push((name@, value@)),
{
    let ghost before = headers@;
    headers.push((text::owned(name), text::owned(value)));
    assert(header_views(headers@) =~= header_views(before).push((name@, value@)));
}

/// No headers.
pub fn no_headers() -> (r: Vec<(String, String)>)
    ensures
        header_views(r@) == Seq::<(Seq<char>, Seq<char>)>::empty(),
{
    let r: Vec<(String, String)> = Vec::new();
    assert(header_views(r@) =~= seq![]);
    r
}

/// A copy of a list of headers.
pub fn copy_headers(headers: &Vec<(String, String)>) -> (r: Vec<(String, String)>)
    ensures
        header_views(r@) == header_views(headers@),
{
    let mut out = no_headers();
    let mut i: usize = 0;
    while i < headers.len()
        invariant
            i <= headers@.len(),
            header_views(out@) == header_views(headers@).take(i as int),
        decreases headers@.len() - i,
    {
        push_header(&mut out, headers[i].0.as_str(), headers[i].1.as_str());
        assert(header_views(headers@).take(i + 1) =~= header_views(headers@).take(i as int).push(
            header_views(headers@)[i as int],
        ));
        i += 1;
    }
    assert(header_views(headers@).take(i as int) =~= header_views(headers@));
    out
}

// ---------------------------------------------------------------------
// Entries
// ---------------------------------------------------------------------

/// A cached response.
#[derive(Debug)]
pub struct CachedPayload {
    pub status: u16,
    pub headers: Vec<(String, String)>,
    pub body: Vec<u8>,
    /// Used for `tokens_saved_estimate` telemetry on hits.
    pub usage_total_tokens: Option<u64>,
    /// UNIX seconds at which this entry was written.
    pub written_at: u64,
}

/// The view of a [`CachedPayload`].
#[verifier::ext_equal]
pub struct PayloadView {
    pub status: u16,
    pub headers: Seq<(Seq<char>, Seq<char>)>,
    pub body: Seq<u8>,
    pub usage_total_tokens: Option<u64>,
    pub written_at: u64,
}

impl View for CachedPayload {
    type V = PayloadView;

    open spec fn view(&self) -> PayloadView {
        PayloadView {
            status: self.status,
            headers: header_views(self.headers@),
            body: self.body@,
            usage_total_tokens: self.usage_total_tokens,
            written_at: self.written_at,
        }
    }
}

impl Clone for CachedPayload {
    fn clone(&self) -> (r: CachedPayload)
        ensures
            r@ == self@,
    {
        CachedPayload {
            status: self.status,
            headers: copy_headers(&self.headers),
            body: slice_to_vec(self.body.as_slice()),
            usage_total_tokens: self.usage_total_tokens,
            written_at: self.written_at,
        }
    }
}

/// An entry that a query found, with its similarity score.
#[derive(Debug)]
pub struct Match {
    pub key: CacheKey,
    pub score: Single,
    pub payload: CachedPayload,
}

/// The view of a [`Match`].
#[verifier::ext_equal]
pub struct MatchView {
    pub key: KeyView,
    pub score: Single,
    pub payload: PayloadView,
}

impl View for Match {
    type V = MatchView;

    open spec fn view(&self) -> MatchView {
        MatchView { key: self.key@, score: self.score, payload: self.payload@ }
    }
}

impl Clone for Match {
    fn clone(&self) -> (r: Match)
        ensures
            r@ == self@,
    {
        Match { key: self.key.clone(), score: self.score, payload: self.payload.clone() }
    }
}

/// The views of the matches of a query.
pub open spec fn match_views(matches: Seq<Match>) -> Seq<MatchView> {
    Seq::new(matches.len(), |i: int| matches[i]@)
}

// ---------------------------------------------------------------------
// The body of an entry as text
// ---------------------------------------------------------------------

/// The digit of that value in the standard base64 alphabet.
pub open spec fn base64_digit(n: int) -> char {
    if n < 26 {
        (n + 65) as char
    } else if n < 52 {
        (n + 71) as char
    } else if n < 62 {
        (n - 4) as char
    } else if n == 62 {
        '+'
    } else {
        '/'
    }
}

/// The byte at a place, zero behind the end.
pub open spec fn byte_or_zero(bytes: Seq<u8>, i: int) -> int {
    if i < bytes.len() {
        bytes[i] as int
    } else {
        0
    }
}

/// A byte string in standard base64: four digits of six bits for each three
/// bytes, the last group padded with equal signs.
pub open spec fn base64_text(bytes: Seq<u8>) -> Seq<char> {
    Seq::new(
        (bytes.len() + 2) / 3 * 4,
        |i: int|
            {
                let g = i / 4 * 3;
                let (x, y, z) = (
                    byte_or_zero(bytes, g),
                    byte_or_zero(bytes, g + 1),
                    byte_or_zero(bytes, g + 2),
                );
                if i % 4 == 0 {
                    base64_digit(x / 4)
                } else if i % 4 == 1 {
                    base64_digit(x % 4 * 16 + y / 16)
                } else if g + i % 4 > bytes.len() {
                    '='
                } else if i % 4 == 2 {
                    base64_digit(y % 16 * 4 + z / 64)
                } else {
                    base64_digit(z % 64)
                }
            },
    )
}

/// A character of the standard base64 alphabet.
pub open spec fn is_base64_digit(c: char) -> bool {
    ||| 'A' <= c <= 'Z'
    ||| 'a' <= c <= 'z'
    ||| '0' <= c <= '9'
    ||| c == '+'
    ||| c == '/'
}

/// How many equal signs end the text of that many bytes.
pub open spec fn base64_padding(n: nat) -> nat {
    ((3 - n % 3) % 3) as nat
}

/// A text as base64 writes `n` bytes: four characters for each three bytes begun,
/// digits of the alphabet, and at the end as many equal signs as bytes are missing
/// from the last three.
pub open spec fn base64_shaped(t: Seq<char>, n: nat) -> bool {
    &&& t.len() == (n + 2) / 3 * 4
    &&& forall|i: int| 0 <= i < t.len() - base64_padding(n) ==> is_base64_digit(#[trigger] t[i])
    &&& forall|i: int| t.len() - base64_padding(n) <= i < t.len() ==> #[trigger] t[i] == '='
}

/// The text of a byte string in base64 has the length, the digits and the padding
/// that its length calls for.
pub proof fn base64_text_shape(bytes: Seq<u8>)
    ensures
        base64_shaped(base64_text(bytes), bytes.len()),
{
    let t = base64_text(bytes);
    let n = bytes.len();
    let digits = t.len() - base64_padding(n);
    assert forall|v: int| 0 <= v < 64 implies is_base64_digit(#[trigger] base64_digit(v)) by {
    }
    assert forall|i: int| 0 <= i < digits implies is_base64_digit(#[trigger] t[i]) by {
        let g = i / 4 * 3;
        let x = byte_or_zero(bytes, g);
        let y = byte_or_zero(bytes, g + 1);
        let z = byte_or_zero(bytes, g + 2);
        assert(is_base64_digit(base64_digit(x / 4)));
        assert(is_base64_digit(base64_digit(x % 4 * 16 + y / 16)));
        assert(is_base64_digit(base64_digit(y % 16 * 4 + z / 64)));
        assert(is_base64_digit(base64_digit(z % 64)));
    }
}

/// What a text in standard base64 spells, or the message of the error.
pub uninterp spec fn base64_bytes(text: Seq<char>) -> Result<Seq<u8>, Seq<char>>;

/// `base64`'s `STANDARD.encode`: the bytes in base64 with the standard alphabet
/// and padding. Decoding the text gives the bytes back.
#[verifier::external_body]
fn base64_encode(bytes: &[u8]) -> (r: String)
    requires
        (bytes@.len() + 2) / 3 * 4 <= isize::MAX,
    ensures
        r@ == base64_text(bytes@),
        base64_bytes(r@) is Ok,
        base64_bytes(r@)->Ok_0 == bytes@,
{
    base64::engine::general_purpose::STANDARD.encode(bytes)
}

/// `base64`'s `STANDARD.decode`: the bytes that the text spells, or the message
/// of the error. Both depend on the text alone.
#[verifier::external_body]
fn base64_decode(text: &str) -> (r: Result<Vec<u8>, String>)
    ensures
        (match r {
            Ok(b) => Ok(b@),
            Err(e) => Err(e@),
        }) == base64_bytes(text@),
{
    base64::engine::general_purpose::STANDARD.decode(text).map_err(|e| e.to_string())
}

/// Writes the body of an entry as base64 text. Reading the text with
/// [`decode_body`] gives the body back.
pub fn encode_body(body: &[u8]) -> (r: String)
    requires
        (body@.len() + 2) / 3 * 4 <= isize::MAX,
    ensures
        r@ == base64_text(body@),
        base64_shaped(r@, body@.len()),
        base64_bytes(r@) is Ok,
        base64_bytes(r@)->Ok_0 == body@,
{
    proof {
        base64_text_shape(body@);
    }
    base64_encode(body)
}

/// Reads the body of an entry from base64 text.
pub fn decode_body(text: &str) -> (r: Result<Vec<u8>, String>)
    ensures
        (match r {
            Ok(b) => Ok(b@),
            Err(e) => Err(e@),
        }) == base64_bytes(text@),
{
    base64_decode(text)
}

// ---------------------------------------------------------------------
// Calls
// ---------------------------------------------------------------------

/// The method of a call.
#[derive(Clone, Copy, Debug, PartialEq, Eq, Structural)]
pub enum Method {
    Get,
    Post,
    Put,
}

/// A call to be sent to a backend. The path replaces that of the service.
#[derive(Debug)]
pub struct Call {
    pub method: Method,
    pub path: String,
    pub headers: Vec<(String, String)>,
    pub body: Option<Json>,
    pub timeout_ms: u64,
}

/// The view of a [`Call`].
pub struct CallView {
    pub method: Method,
    pub path: Seq<char>,
    pub headers: Seq<(Seq<char>, Seq<char>)>,
    pub body: Option<JsonTree>,
    pub timeout_ms: u64,
}

impl View for Call {
    type V = CallView;

    open spec fn view(&self) -> CallView {
        CallView {
            method: self.method,
            path: self.path@,
            headers: header_views(self.headers@),
            body: match self.body {
                Some(j) => Some(j@),
                None => None,
            },
            timeout_ms: self.timeout_ms,
        }
    }
}

/// The lower sixty-four bits of a signed number, as the unsigned number that
/// they spell.
pub open spec fn as_unsigned(n: i64) -> u64 {
    if n >= 0 {
        n as u64
    } else {
        (n + 0x1_0000_0000_0000_0000) as u64
    }
}

/// Reads the bits of a signed number as an unsigned one.
pub fn unsigned_of(n: i64) -> (r: u64)
    ensures
        r == as_unsigned(n),
{
    if n >= 0 {
        n as u64
    } else {
        // The distance from the least signed number, which has only its top bit set.
        let d: i64 = n - i64::MIN;
        0x8000_0000_0000_0000 + d as u64
    }
}

/// The timeout of a call where none is configured, in milliseconds.
pub const DEFAULT_TIMEOUT_MS: u64 = 5000;

/// The timeout of a call, in milliseconds.
pub open spec fn timeout_of(timeout_ms: Option<i64>) -> u64 {
    match timeout_ms {
        Some(ms) => as_unsigned(ms),
        None => DEFAULT_TIMEOUT_MS,
    }
}

/// The timeout of a call, in milliseconds.
pub fn timeout(timeout_ms: Option<i64>) -> (r: u64)
    ensures
        r == timeout_of(timeout_ms),
{
    match timeout_ms {
        Some(ms) => unsigned_of(ms),
        None => DEFAULT_TIMEOUT_MS,
    }
}

// ---------------------------------------------------------------------
// Replies
// ---------------------------------------------------------------------

/// A status code in sixteen bits.
pub open spec fn status16(code: u32) -> u16 {
    (code % 0x1_0000) as u16
}

/// A status code in sixteen bits.
pub fn status_of(code: u32) -> (r: u16)
    ensures
        r == status16(code),
{
    (code % 0x1_0000) as u16
}

/// Whether a status reports success.
pub open spec fn successful(status: u16) -> bool {
    200 <= status < 300
}

/// What a call gives that could not be sent or was not answered.
pub fn unreachable_store(reason: &str) -> (r: StoreError)
    ensures
        r@ == (StoreFault::Upstream { status: 0, body: reason@ }),
{
    StoreError::Upstream { status: 0, body: text::owned(reason) }
}

/// The document of a body that may be empty: null where it is.
pub open spec fn document_or_null(body: Seq<u8>) -> Result<JsonTree, StoreFault> {
    if body.len() == 0 {
        Ok(JsonTree::Null)
    } else {
        document(body)
    }
}

/// The document of a body.
pub open spec fn document(body: Seq<u8>) -> Result<JsonTree, StoreFault> {
    match json::json_parse(body) {
        Ok(j) => Ok(j),
        Err(e) => Err(StoreFault::Malformed(e)),
    }
}

/// What the reply to a write or to a query says: the error that it reports, or
/// its document.
pub open spec fn reply_document(code: u32, body: Seq<u8>) -> Result<JsonTree, StoreFault> {
    let status = status16(code);
    if !successful(status) {
        Err(StoreFault::Upstream { status, body: text::lossy_text(body) })
    } else {
        document_or_null(body)
    }
}

/// What the reply to a lookup says: nothing where the status is 404, else the
/// error that it reports, or its document.
pub open spec fn lookup_document(code: u32, body: Seq<u8>) -> Result<
    Option<JsonTree>,
    StoreFault,
> {
    let status = status16(code);
    if status == 404 {
        Ok(None)
    } else if !successful(status) {
        Err(StoreFault::Upstream { status, body: text::lossy_text(body) })
    } else {
        match document(body) {
            Ok(j) => Ok(Some(j)),
            Err(e) => Err(e),
        }
    }
}

/// The view of a document that was read, or of the error.
pub open spec fn document_view(r: Result<Json, StoreError>) -> Result<JsonTree, StoreFault> {
    match r {
        Ok(j) => Ok(j@),
        Err(e) => Err(e@),
    }
}

/// The view of a document that was looked up, or of the error.
pub open spec fn lookup_view(r: Result<Option<Json>, StoreError>) -> Result<
    Option<JsonTree>,
    StoreFault,
> {
    match r {
        Ok(Some(j)) => Ok(Some(j@)),
        Ok(None) => Ok(None),
        Err(e) => Err(e@),
    }
}

fn parse_document(body: &[u8]) -> (r: Result<Json, StoreError>)
    ensures
        document_view(r) == document(body@),
{
    match json::parse_json(body) {
        Ok(j) => Ok(j),
        Err(e) => Err(StoreError::Malformed(e)),
    }
}

/// Reads the reply to a write or to a query.
pub fn read_reply(code: u32, body: &[u8]) -> (r: Result<Json, StoreError>)
    ensures
        document_view(r) == reply_document(code, body@),
{
    let status = status_of(code);
    if !(200 <= status && status < 300) {
        return Err(StoreError::Upstream { status, body: text::text_lossy(body) });
    }
    if body.len() == 0 {
        return Ok(Json::Null);
    }
    parse_document(body)
}

/// The answer of a write: nothing, or the error that the reply reports.
pub open spec fn write_answer(code: u32, body: Seq<u8>) -> Result<(), StoreFault> {
    match reply_document(code, body) {
        Ok(_) => Ok(()),
        Err(e) => Err(e),
    }
}

/// Reads the reply to a write.
pub fn read_write(code: u32, body: &[u8]) -> (r: Result<(), StoreError>)
    ensures
        (match r {
            Ok(u) => Ok(u),
            Err(e) => Err(e@),
        }) == write_answer(code, body@),
{
    match read_reply(code, body) {
        Ok(_) => Ok(()),
        Err(e) => Err(e),
    }
}

/// Reads the reply to a lookup.
pub fn read_lookup(code: u32, body: &[u8]) -> (r: Result<Option<Json>, StoreError>)
    ensures
        lookup_view(r) == lookup_document(code, body@),
{
    let status = status_of(code);
    if status == 404 {
        return Ok(None);
    }
    if !(200 <= status && status < 300) {
        return Err(StoreError::Upstream { status, body: text::text_lossy(body) });
    }
    match parse_document(body) {
        Ok(j) => Ok(Some(j)),
        Err(e) => Err(e),
    }
}

// ---------------------------------------------------------------------
// Candidates
// ---------------------------------------------------------------------

/// An entry of a query's reply whose cached response is still text.
#[derive(Debug)]
pub struct Candidate {
    pub key: CacheKey,
    pub score: Single,
    pub cached: String,
}

/// The view of a [`Candidate`].
#[verifier::ext_equal]
pub struct CandidateView {
    pub key: KeyView,
    pub score: Single,
    pub cached: Seq<char>,
}

impl View for Candidate {
    type V = CandidateView;

    open spec fn view(&self) -> CandidateView {
        CandidateView { key: self.key@, score: self.score, cached: self.cached@ }
    }
}

/// The views of the candidates of a query.
pub open spec fn candidate_views(candidates: Seq<Candidate>) -> Seq<CandidateView> {
    Seq::new(candidates.len(), |i: int| candidates[i]@)
}

/// The score of an entry: the field of that name in single precision, else zero.
pub open spec fn score_of(entry: JsonTree, name: Seq<char>) -> Single {
    match entry.get(name) {
        Some(v) => match v.double_bits() {
            Some(bits) => ieee::to_single(bits),
            None => Single { bits: 0 },
        },
        None => Single { bits: 0 },
    }
}

/// A finite score that a store sends back as a JSON number is read as it was.
pub proof fn score_is_read_back(entry: JsonTree, name: Seq<char>, score: Single)
    requires
        score.finite(),
        entry.get(name) == Some(json::single_tree(score)),
    ensures
        score_of(entry, name) == score,
{
    json::single_is_read_back(score);
}

/// Reads the score of an entry.
pub fn read_score(entry: &Json, name: &str) -> (r: Single)
    ensures
        r == score_of(entry@, name@),
{
    match entry.get(name) {
        Some(v) => match v.as_double_bits() {
            Some(bits) => ieee::narrow(bits),
            None => Single { bits: 0 },
        },
        None => Single { bits: 0 },
    }
}

/// A text field, empty where there is none.
pub open spec fn text_or_empty(entry: JsonTree, name: Seq<char>) -> Seq<char> {
    match entry.text_field(name) {
        Some(t) => t,
        None => seq![],
    }
}

/// Reads a text field, empty where there is none.
pub fn read_text(entry: &Json, name: &str) -> (r: String)
    ensures
        r@ == text_or_empty(entry@, name@),
{
    match entry.text_field(name) {
        Some(t) => text::owned(t),
        None => String::new(),
    }
}

/// The key that an entry spells out in three fields.
pub open spec fn key_fields(entry: JsonTree) -> KeyView {
    KeyView {
        namespace: text_or_empty(entry, "namespace"@),
        model: text_or_empty(entry, "model"@),
        prompt_sha: text_or_empty(entry, "prompt_sha"@),
    }
}

/// Reads the key that an entry spells out in three fields.
pub fn read_key(entry: &Json) -> (r: CacheKey)
    ensures
        r@ == key_fields(entry@),
{
    CacheKey {
        namespace: read_text(entry, "namespace"),
        model: read_text(entry, "model"),
        prompt_sha: read_text(entry, "prompt_sha"),
    }
}

/// The view of a candidate with what its text parses to.
pub open spec fn parsed_view(p: (Candidate, Result<CachedPayload, String>)) -> (
    CandidateView,
    Result<PayloadView, Seq<char>>,
) {
    (
        p.0@,
        match p.1 {
            Ok(payload) => Ok(payload@),
            Err(e) => Err(e@),
        },
    )
}

/// The matches of a query, in the order of its candidates. A candidate whose
/// text does not parse makes the whole query fail; the first such counts.
pub open spec fn matches_among(
    parsed: Seq<(CandidateView, Result<PayloadView, Seq<char>>)>,
) -> Result<Seq<MatchView>, StoreFault>
    decreases parsed.len(),
{
    if parsed.len() == 0 {
        Ok(seq![])
    } else {
        match (matches_among(parsed.drop_last()), parsed.last().1) {
            (Err(e), _) => Err(e),
            (Ok(before), Err(e)) => Err(StoreFault::Malformed(e)),
            (Ok(before), Ok(payload)) => Ok(
                before.push(
                    MatchView { key: parsed.last().0.key, score: parsed.last().0.score, payload },
                ),
            ),
        }
    }
}

/// Once a candidate does not parse, no later one changes the answer.
proof fn lemma_first_error_counts(
    parsed: Seq<(CandidateView, Result<PayloadView, Seq<char>>)>,
    n: nat,
)
    requires
        n <= parsed.len(),
        matches_among(parsed.take(n as int)) is Err,
    ensures
        matches_among(parsed) == matches_among(parsed.take(n as int)),
    decreases parsed.len(),
{
    if n == parsed.len() {
        assert(parsed.take(n as int) =~= parsed);
    } else {
        assert(parsed.drop_last().take(n as int) =~= parsed.take(n as int));
        lemma_first_error_counts(parsed.drop_last(), n);
    }
}

/// The view of the matches of a query, or of the error.
pub open spec fn matches_view(r: Result<Vec<Match>, StoreError>) -> Result<
    Seq<MatchView>,
    StoreFault,
> {
    match r {
        Ok(v) => Ok(match_views(v@)),
        Err(e) => Err(e@),
    }
}

/// Makes matches of candidates, each given with what its text parses to. An
/// entry that cannot be read is an error, as any other reply that is malformed.
pub fn matches_of(parsed: Vec<(Candidate, Result<CachedPayload, String>)>) -> (r: Result<
    Vec<Match>,
    StoreError,
>)
    ensures
        matches_view(r) == matches_among(
            Seq::new(parsed@.len(), |i: int| parsed_view(parsed@[i])),
        ),
{
    let mut out: Vec<Match> = Vec::new();
    let ghost all = Seq::new(parsed@.len(), |i: int| parsed_view(parsed@[i]));
    assert(match_views(out@) =~= seq![]);
    assert(all.take(0) =~= seq![]);
    let mut i: usize = 0;
    while i < parsed.len()
        invariant
            i <= parsed@.len(),
            all == Seq::new(parsed@.len(), |i: int| parsed_view(parsed@[i])),
            matches_among(all.take(i as int)) == Ok::<Seq<MatchView>, StoreFault>(
                match_views(out@),
            ),
        decreases parsed@.len() - i,
    {
        let ghost before = out@;
        proof {
            assert(all.take(i + 1).drop_last() =~= all.take(i as int));
            assert(all.take(i + 1).last() == parsed_view(parsed@[i as int]));
        }
        match &parsed[i].1 {
            Ok(payload) => {
                let m = Match {
                    key: parsed[i].0.key.clone(),
                    score: parsed[i].0.score,
                    payload: payload.clone(),
                };
                out.push(m);
                assert(match_views(out@) =~= match_views(before).push(m@));
            },
            Err(e) => {
                proof {
                    lemma_first_error_counts(all, (i + 1) as nat);
                }
                return Err(StoreError::Malformed(e.clone()));
            },
        }
        i += 1;
    }
    assert(all.take(i as int) =~= all);
    Ok(out)
}

/// The answer of a lookup: what the cached text of the entry parses to, or the
/// error of the parse; nothing where there is no such text.
pub fn exact_answer(parsed: Option<Result<CachedPayload, String>>) -> (r: Result<
    Option<CachedPayload>,
    StoreError,
>)
    ensures
        match parsed {
            None => r matches Ok(None),
            Some(Ok(p)) => r matches Ok(Some(q)) && q == p,
            Some(Err(e)) => r matches Err(f) && f@ == StoreFault::Malformed(e@),
        },
{
    match parsed {
        None => Ok(None),
        Some(Ok(p)) => Ok(Some(p)),
        Some(Err(e)) => Err(StoreError::Malformed(e)),
    }
}

// ---------------------------------------------------------------------
// Laws
// ---------------------------------------------------------------------

/// Where every candidate can be read, each becomes a match with its own key, its
/// own score and its own payload, in the same order.
pub proof fn every_candidate_is_a_match(
    parsed: Seq<(CandidateView, Result<PayloadView, Seq<char>>)>,
)
    requires
        forall|i: int| 0 <= i < parsed.len() ==> (#[trigger] parsed[i]).1 is Ok,
    ensures
        matches_among(parsed) matches Ok(found) && {
            &&& found.len() == parsed.len()
            &&& forall|i: int|
                #![trigger found[i]]
                0 <= i < found.len() ==> {
                    &&& found[i].key == parsed[i].0.key
                    &&& found[i].score == parsed[i].0.score
                    &&& found[i].payload == parsed[i].1->Ok_0
                }
        },
    decreases parsed.len(),
{
    if parsed.len() > 0 {
        let before = parsed.drop_last();
        assert forall|i: int| 0 <= i < before.len() implies (#[trigger] before[i]).1 is Ok by {
            assert(before[i] == parsed[i]);
        }
        every_candidate_is_a_match(before);
        assert(parsed[parsed.len() - 1].1 is Ok);
        let x = matches_among(before)->Ok_0;
        let y = matches_among(parsed)->Ok_0;
        assert forall|i: int|
            #![trigger y[i]]
            0 <= i < y.len() implies y[i].key == parsed[i].0.key && y[i].score == parsed[i].0.score
            && y[i].payload == parsed[i].1->Ok_0 by {
            if i < x.len() {
                assert(y[i] == x[i]);
                assert(before[i] == parsed[i]);
            }
        }
    }
}

/// A candidate that cannot be read makes the query fail, with the error of the
/// first such.
pub proof fn first_unreadable_candidate_fails(
    parsed: Seq<(CandidateView, Result<PayloadView, Seq<char>>)>,
    n: int,
)
    requires
        0 <= n < parsed.len(),
        parsed[n].1 is Err,
        forall|i: int| 0 <= i < n ==> (#[trigger] parsed[i]).1 is Ok,
    ensures
        matches_among(parsed) == Err::<Seq<MatchView>, StoreFault>(
            StoreFault::Malformed(parsed[n].1->Err_0),
        ),
{
    let head = parsed.take(n + 1);
    assert(head.drop_last() =~= parsed.take(n));
    assert(head.last() == parsed[n]);
    assert forall|i: int| 0 <= i < parsed.take(n).len() implies (#[trigger] parsed.take(
        n,
    )[i]).1 is Ok by {
        assert(parsed.take(n)[i] == parsed[i]);
    }
    every_candidate_is_a_match(parsed.take(n));
    lemma_first_error_counts(parsed, (n + 1) as nat);
}

/// A status of the two hundreds is success and any other is an error that keeps
/// the status and the text of the body; an empty reply is a null document.
pub proof fn replies_by_status(code: u32, body: Seq<u8>)
    requires
        code <= 0xffff,
    ensures
        200 <= code <= 299 && body.len() == 0 ==> reply_document(code, body) == Ok::<
            JsonTree,
            StoreFault,
        >(JsonTree::Null),
        200 <= code <= 299 && body.len() > 0 ==> match json::json_parse(body) {
            Ok(j) => reply_document(code, body) == Ok::<JsonTree, StoreFault>(j),
            Err(e) => reply_document(code, body) == Err::<JsonTree, StoreFault>(
                StoreFault::Malformed(e),
            ),
        },
        code < 200 || code > 299 ==> reply_document(code, body) == Err::<JsonTree, StoreFault>(
            StoreFault::Upstream { status: code as u16, body: text::lossy_text(body) },
        ),
        write_answer(code, body) is Ok <==> reply_document(code, body) is Ok,
{
}

/// A lookup that is answered with 404 found nothing; any other status is read as
/// that of a write or of a query.
pub proof fn lookups_by_status(code: u32, body: Seq<u8>)
    requires
        code <= 0xffff,
    ensures
        code == 404 ==> lookup_document(code, body) == Ok::<Option<JsonTree>, StoreFault>(None),
        code != 404 && (code < 200 || code > 299) ==> lookup_document(code, body) == Err::<
            Option<JsonTree>,
            StoreFault,
        >(StoreFault::Upstream { status: code as u16, body: text::lossy_text(body) }),
        200 <= code <= 299 ==> match json::json_parse(body) {
            Ok(j) => lookup_document(code, body) == Ok::<Option<JsonTree>, StoreFault>(Some(j)),
            Err(e) => lookup_document(code, body) == Err::<Option<JsonTree>, StoreFault>(
                StoreFault::Malformed(e),
            ),
        },
{
}

/// Status codes are what they are.
pub proof fn status_codes_are_kept(code: u32)
    ensures
        code <= 0xffff ==> status16(code) == code,
{
}

/// A timeout that is configured counts, and five seconds where none is.
pub proof fn timeouts_are_kept(ms: i64)
    ensures
        ms >= 0 ==> timeout_of(Some(ms)) == ms,
        timeout_of(None) == 5000,
        ms >= 0 ==> as_unsigned(ms) == ms,
        ms < 0 ==> as_unsigned(ms) == ms + 0x1_0000_0000_0000_0000,
{
}

/// An entry without a score, or with one that is no number, has the score zero.
pub proof fn missing_score_is_zero(entry: JsonTree, name: Seq<char>)
    ensures
        entry.get(name) is None ==> score_of(entry, name).bits == 0,
        entry.get(name) matches Some(v) ==> match v {
            JsonTree::Number(n) => match n.double_bits {
                Some(bits) => score_of(entry, name) == ieee::to_single(bits),
                None => score_of(entry, name).bits == 0,
            },
            _ => score_of(entry, name).bits == 0,
        },
{
}

/// The key of an entry is read off its three fields, each as it is.
pub proof fn key_is_read_off_its_fields(entry: JsonTree, key: KeyView)
    requires
        entry.get("namespace"@) == Some(JsonTree::Text(key.namespace)),
        entry.get("model"@) == Some(JsonTree::Text(key.model)),
        entry.get("prompt_sha"@) == Some(JsonTree::Text(key.prompt_sha)),
    ensures
        key_fields(entry) == key,
{
}

/// A field that is missing, or that is no text, is read as an empty text.
pub proof fn missing_text_is_empty(entry: JsonTree, name: Seq<char>)
    ensures
        entry.get(name) is None ==> text_or_empty(entry, name).len() == 0,
        entry.get(name) matches Some(v) ==> match v {
            JsonTree::Text(t) => text_or_empty(entry, name) == t,
            _ => text_or_empty(entry, name).len() == 0,
        },
{
}

/// What is stated of headers, entries, matches and calls is stated of the whole of
/// them.
pub proof fn entries_are_seen_whole(
    headers: Seq<(String, String)>,
    p: CachedPayload,
    m: Match,
    c: Candidate,
    call: Call,
    i: int,
)
    ensures
        header_views(headers).len() == headers.len(),
        0 <= i < headers.len() ==> header_views(headers)[i] == (headers[i].0@, headers[i].1@),
        p@.status == p.status,
        p@.headers == header_views(p.headers@),
        p@.body == p.body@,
        p@.usage_total_tokens == p.usage_total_tokens,
        p@.written_at == p.written_at,
        m@.key == m.key@,
        m@.score == m.score,
        m@.payload == m.payload@,
        c@.key == c.key@,
        c@.score == c.score,
        c@.cached == c.cached@,
        call@.method == call.method,
        call@.path == call.path@,
        call@.headers == header_views(call.headers@),
        call@.timeout_ms == call.timeout_ms,
        call.body is None <==> call@.body is None,
        call.body matches Some(j) ==> call@.body == Some(j@),
{
}

/// What is stated of an answer is stated of the whole of it.
pub proof fn answers_are_seen_whole(
    matches: Vec<Match>,
    candidates: Seq<Candidate>,
    candidate: Candidate,
    payload: CachedPayload,
    j: Json,
    e: StoreError,
    m: String,
    i: int,
)
    ensures
        matches_view(Ok(matches)) matches Ok(v) && v.len() == matches@.len() && (0 <= i < v.len()
            ==> v[i] == matches@[i]@),
        matches_view(Err(e)) == Err::<Seq<MatchView>, StoreFault>(e@),
        candidate_views(candidates).len() == candidates.len(),
        0 <= i < candidates.len() ==> candidate_views(candidates)[i] == candidates[i]@,
        parsed_view((candidate, Ok(payload))) == (
            candidate@,
            Ok::<PayloadView, Seq<char>>(payload@),
        ),
        parsed_view((candidate, Err(m))) == (candidate@, Err::<PayloadView, Seq<char>>(m@)),
        document_view(Ok(j)) == Ok::<JsonTree, StoreFault>(j@),
        document_view(Err(e)) == Err::<JsonTree, StoreFault>(e@),
        lookup_view(Ok(Some(j))) == Ok::<Option<JsonTree>, StoreFault>(Some(j@)),
        lookup_view(Ok(None)) == Ok::<Option<JsonTree>, StoreFault>(None),
        lookup_view(Err(e)) == Err::<Option<JsonTree>, StoreFault>(e@),
{
}

} // verus!
