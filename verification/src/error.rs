//! Errors of the embedder, the store and the cache, with their messages.

use vstd::prelude::*;

use crate::text;

verus! {

#[derive(Debug)]
pub enum EmbedError {
    Unauthorized,
    Upstream { status: u16, body: String },
    Timeout,
    Malformed(String),
    DimensionMismatch { expected: usize, got: usize },
}

#[derive(Debug)]
pub enum StoreError {
    Upstream { status: u16, body: String },
    Timeout,
    Malformed(String),
    NotFound,
}

#[derive(Debug)]
pub enum CacheError {
    Embed(EmbedError),
    Store(StoreError),
    Extract(String),
}

/// The view of an [`EmbedError`].
#[verifier::ext_equal]
pub enum EmbedFault {
    Unauthorized,
    Upstream { status: u16, body: Seq<char> },
    Timeout,
    Malformed(Seq<char>),
    DimensionMismatch { expected: usize, got: usize },
}

/// The view of a [`StoreError`].
#[verifier::ext_equal]
pub enum StoreFault {
    Upstream { status: u16, body: Seq<char> },
    Timeout,
    Malformed(Seq<char>),
    NotFound,
}

/// The view of a [`CacheError`].
#[verifier::ext_equal]
pub enum CacheFault {
    Embed(EmbedFault),
    Store(StoreFault),
    Extract(Seq<char>),
}

impl View for EmbedError {
    type V = EmbedFault;

    open spec fn view(&self) -> EmbedFault {
        match self {
            EmbedError::Unauthorized => EmbedFault::Unauthorized,
            EmbedError::Upstream { status, body } => EmbedFault::Upstream {
                status: *status,
                body: body@,
            },
            EmbedError::Timeout => EmbedFault::Timeout,
            EmbedError::Malformed(m) => EmbedFault::Malformed(m@),
            EmbedError::DimensionMismatch { expected, got } => EmbedFault::DimensionMismatch {
                expected: *expected,
                got: *got,
            },
        }
    }
}

impl View for StoreError {
    type V = StoreFault;

    open spec fn view(&self) -> StoreFault {
        match self {
            StoreError::Upstream { status, body } => StoreFault::Upstream {
                status: *status,
                body: body@,
            },
            StoreError::Timeout => StoreFault::Timeout,
            StoreError::Malformed(m) => StoreFault::Malformed(m@),
            StoreError::NotFound => StoreFault::NotFound,
        }
    }
}

impl View for CacheError {
    type V = CacheFault;

    open spec fn view(&self) -> CacheFault {
        match self {
            CacheError::Embed(e) => CacheFault::Embed(e@),
            CacheError::Store(e) => CacheFault::Store(e@),
            CacheError::Extract(m) => CacheFault::Extract(m@),
        }
    }
}

impl EmbedFault {
    /// The message of the error.
    pub open spec fn text(self) -> Seq<char> {
        match self {
            EmbedFault::Unauthorized => "embedder: unauthorized"@,
            EmbedFault::Upstream { status, body } => "embedder: upstream "@ + text::decimal(
                status as nat,
            ) + ": "@ + body,
            EmbedFault::Timeout => "embedder: timeout"@,
            EmbedFault::Malformed(m) => "embedder: malformed response: "@ + m,
            EmbedFault::DimensionMismatch { expected, got } =>
                "embedder: dimension mismatch: expected "@ + text::decimal(expected as nat)
                + ", got "@ + text::decimal(got as nat),
        }
    }
}

impl EmbedError {
    /// The message of the error.
    pub fn message(&self) -> (r: String)
        ensures
            r@ == self@.text(),
    {
        match self {
            EmbedError::Unauthorized => text::owned("embedder: unauthorized"),
            EmbedError::Upstream { status, body } => {
                let mut out = text::owned("embedder: upstream ");
                out.append(text::decimal_text(*status as u128).as_str());
                out.append(": ");
                out.append(body.as_str());
                out
            },
            EmbedError::Timeout => text::owned("embedder: timeout"),
            EmbedError::Malformed(m) => text::join2("embedder: malformed response: ", m.as_str()),
            EmbedError::DimensionMismatch { expected, got } => {
                let mut out = text::owned("embedder: dimension mismatch: expected ");
                out.append(text::decimal_text(*expected as u128).as_str());
                out.append(", got ");
                out.append(text::decimal_text(*got as u128).as_str());
                out
            },
        }
    }
}

impl StoreFault {
    /// The message of the error.
    pub open spec fn text(self) -> Seq<char> {
        match self {
            StoreFault::Upstream { status, body } => "store: upstream "@ + text::decimal(
                status as nat,
            ) + ": "@ + body,
            StoreFault::Timeout => "store: timeout"@,
            StoreFault::Malformed(m) => "store: malformed: "@ + m,
            StoreFault::NotFound => "store: not found"@,
        }
    }
}

impl StoreError {
    /// The message of the error.
    pub fn message(&self) -> (r: String)
        ensures
            r@ == self@.text(),
    {
        match self {
            StoreError::Upstream { status, body } => {
                let mut out = text::owned("store: upstream ");
                out.append(text::decimal_text(*status as u128).as_str());
                out.append(": ");
                out.append(body.as_str());
                out
            },
            StoreError::Timeout => text::owned("store: timeout"),
            StoreError::Malformed(m) => text::join2("store: malformed: ", m.as_str()),
            StoreError::NotFound => text::owned("store: not found"),
        }
    }
}

impl CacheFault {
    /// The message of the error.
    pub open spec fn text(self) -> Seq<char> {
        match self {
            CacheFault::Embed(e) => e.text(),
            CacheFault::Store(e) => e.text(),
            CacheFault::Extract(m) => "extract: "@ + m,
        }
    }
}

impl CacheError {
    /// The message of the error.
    pub fn message(&self) -> (r: String)
        ensures
            r@ == self@.text(),
    {
        match self {
            CacheError::Embed(e) => e.message(),
            CacheError::Store(e) => e.message(),
            CacheError::Extract(m) => text::join2("extract: ", m.as_str()),
        }
    }
}

impl From<EmbedError> for CacheError {
    fn from(e: EmbedError) -> (r: CacheError) {
        CacheError::Embed(e)
    }
}

impl vstd::std_specs::convert::FromSpecImpl<EmbedError> for CacheError {
    open spec fn obeys_from_spec() -> bool {
        true
    }

    open spec fn from_spec(e: EmbedError) -> CacheError {
        CacheError::Embed(e)
    }
}

impl From<StoreError> for CacheError {
    fn from(e: StoreError) -> (r: CacheError) {
        CacheError::Store(e)
    }
}

impl vstd::std_specs::convert::FromSpecImpl<StoreError> for CacheError {
    open spec fn obeys_from_spec() -> bool {
        true
    }

    open spec fn from_spec(e: StoreError) -> CacheError {
        CacheError::Store(e)
    }
}

// ---------------------------------------------------------------------
// Laws
// ---------------------------------------------------------------------

/// The message of an upstream error holds the status in decimal and ends in the
/// body, whoever reports it.
pub proof fn upstream_messages_hold_status_and_body(status: u16, body: Seq<char>)
    ensures
        ({
            let e = (EmbedFault::Upstream { status, body }).text();
            let s = (StoreFault::Upstream { status, body }).text();
            let d = text::decimal(status as nat);
            let tail = d + ": "@ + body;
            &&& e == "embedder: upstream "@ + tail
            &&& s == "store: upstream "@ + tail
            &&& text::decimal_value(d) == status
        }),
{
    text::decimal_is_read_back(status as nat);
    let tail = text::decimal(status as nat) + ": "@ + body;
    assert((EmbedFault::Upstream { status, body }).text() =~= "embedder: upstream "@ + tail);
    assert((StoreFault::Upstream { status, body }).text() =~= "store: upstream "@ + tail);
}

/// The message of a reply that cannot be read ends in the message of the reader.
pub proof fn malformed_messages_end_in_the_reason(m: Seq<char>)
    ensures
        text::has_suffix(EmbedFault::Malformed(m).text(), m),
        text::has_suffix(StoreFault::Malformed(m).text(), m),
        text::has_suffix(CacheFault::Extract(m).text(), m),
{
    text::suffix_is_the_end(seq![], "embedder: malformed response: "@, m);
    text::suffix_is_the_end(seq![], "store: malformed: "@, m);
    text::suffix_is_the_end(seq![], "extract: "@, m);
}

/// The message of a vector of the wrong size names both sizes, the expected one
/// first.
pub proof fn mismatch_message_names_both_sizes(expected: usize, got: usize)
    ensures
        (EmbedFault::DimensionMismatch { expected, got }).text()
            == "embedder: dimension mismatch: expected "@ + text::decimal(expected as nat)
            + ", got "@ + text::decimal(got as nat),
        text::decimal_value(text::decimal(expected as nat)) == expected,
        text::decimal_value(text::decimal(got as nat)) == got,
{
    text::decimal_is_read_back(expected as nat);
    text::decimal_is_read_back(got as nat);
}

/// An error of a call keeps its message when it becomes one of the cache.
pub proof fn cache_errors_keep_their_message(e: EmbedFault, s: StoreFault)
    ensures
        CacheFault::Embed(e).text() == e.text(),
        CacheFault::Store(s).text() == s.text(),
{
}

/// What is stated of an error is stated of the whole of it.
pub proof fn errors_are_seen_whole(
    status: u16,
    body: String,
    expected: usize,
    got: usize,
    e: EmbedError,
    s: StoreError,
)
    ensures
        (EmbedError::Upstream { status, body })@ == (EmbedFault::Upstream { status, body: body@ }),
        EmbedError::Malformed(body)@ == EmbedFault::Malformed(body@),
        EmbedError::Unauthorized@ == EmbedFault::Unauthorized,
        EmbedError::Timeout@ == EmbedFault::Timeout,
        (EmbedError::DimensionMismatch { expected, got })@ == (EmbedFault::DimensionMismatch {
            expected,
            got,
        }),
        (StoreError::Upstream { status, body })@ == (StoreFault::Upstream { status, body: body@ }),
        StoreError::Malformed(body)@ == StoreFault::Malformed(body@),
        StoreError::Timeout@ == StoreFault::Timeout,
        StoreError::NotFound@ == StoreFault::NotFound,
        CacheError::Embed(e)@ == CacheFault::Embed(e@),
        CacheError::Store(s)@ == CacheFault::Store(s@),
        CacheError::Extract(body)@ == CacheFault::Extract(body@),
{
}

} // verus!
