//! The settings of the cache: failure mode, distance metric, threshold, TTL.

use std::time::Duration;
use vstd::prelude::*;

use crate::ieee::Single;
use crate::text;

verus! {

/// What becomes of a request when the embedder or the store fails.
#[derive(Debug, Clone, Copy, PartialEq, Eq, Structural)]
pub enum FailureMode {
    FailOpen,
    FailClosed,
}

impl Default for FailureMode {
    fn default() -> (r: FailureMode)
        ensures
            r == FailureMode::FailOpen,
    {
        FailureMode::FailOpen
    }
}

#[derive(Debug, Clone, Copy, PartialEq, Eq, Structural)]
pub enum DistanceMetric {
    Cosine,
    L2,
    Ip,
}

impl Default for DistanceMetric {
    fn default() -> (r: DistanceMetric)
        ensures
            r == DistanceMetric::Cosine,
    {
        DistanceMetric::Cosine
    }
}

#[derive(Debug, Clone, Copy, PartialEq, Eq, Structural)]
pub enum PromptExtractorKind {
    Openai,
    Anthropic,
    Cohere,
    Mistral,
    Bedrock,
    Vertex,
    Dataweave,
}

/// Zero, the least threshold.
pub const THRESHOLD_MIN: u32 = 0;

/// One and a half in single precision, the greatest threshold.
pub const THRESHOLD_MAX: u32 = 0x3fc0_0000;

/// A similarity threshold.
#[derive(Debug, Clone, Copy)]
pub struct Threshold {
    v: Single,
}

/// A threshold that is out of range, or not a number.
#[derive(Debug, Clone, Copy)]
pub struct ThresholdError {
    pub value: Single,
}

impl View for Threshold {
    type V = Single;

    closed spec fn view(&self) -> Single {
        self.v
    }
}

/// The values that a threshold may have: from 0.0 to 1.5.
pub open spec fn in_threshold_range(v: Single) -> bool {
    v.at_least(Single { bits: THRESHOLD_MIN }) && (Single { bits: THRESHOLD_MAX }).at_least(v)
}

impl Threshold {
    #[verifier::type_invariant]
    spec fn in_range(self) -> bool {
        in_threshold_range(self.v)
    }

    /// Accepts values in `[0.0, 1.5]`. Cosine-similarity scores live in
    /// `[-1, 1]`, so any value `> 1.0` makes every semantic comparison
    /// fail — operators use `1.01` (or higher) as the documented
    /// "disable semantic, run as exact-cache only" convention. The
    /// upper bound matches the policy's `gcl.yaml` schema cap.
    pub fn new(v: Single) -> (r: Result<Threshold, ThresholdError>)
        ensures
            (r is Ok) == in_threshold_range(v),
            r matches Ok(t) ==> t@ == v,
            r matches Err(e) ==> e.value == v,
    {
        let least = Single { bits: THRESHOLD_MIN };
        let most = Single { bits: THRESHOLD_MAX };
        if v.ge(least) && most.ge(v) {
            Ok(Threshold { v })
        } else {
            Err(ThresholdError { value: v })
        }
    }

    /// The value of the threshold.
    pub fn value(&self) -> (r: Single)
        ensures
            r == self@,
            in_threshold_range(r),
    {
        proof {
            use_type_invariant(self);
        }
        self.v
    }
}

impl ThresholdError {
    /// The message of the error, given how its value is written.
    pub fn message(&self, shown: &str) -> (r: String)
        ensures
            r@ == "threshold must be in [0.0, 1.5], got "@ + shown@,
    {
        text::join2("threshold must be in [0.0, 1.5], got ", shown)
    }
}

/// The duration of that many seconds.
pub uninterp spec fn duration_of_secs(secs: u64) -> Duration;

/// `Duration::from_secs`: the duration of that many whole seconds, which depends
/// on the number alone.
pub assume_specification[ Duration::from_secs ](secs: u64) -> (r: Duration)
    ensures
        r == duration_of_secs(secs),
;

/// How long an entry lives.
#[derive(Debug, Clone, Copy, PartialEq, Eq, Structural)]
pub struct Ttl {
    secs: u64,
}

impl View for Ttl {
    type V = u64;

    closed spec fn view(&self) -> u64 {
        self.secs
    }
}

impl Ttl {
    /// A TTL of that many seconds.
    pub fn from_seconds(secs: u64) -> (r: Ttl)
        ensures
            r@ == secs,
    {
        Ttl { secs }
    }

    /// The TTL as a duration.
    pub fn as_duration(&self) -> (r: Duration)
        ensures
            r == duration_of_secs(self@),
    {
        Duration::from_secs(self.secs)
    }
}

} // verus!
