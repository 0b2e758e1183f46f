use ai_semantic_cache::config::{
    DistanceMetric, FailureMode, PromptExtractorKind, Threshold, Ttl,
};
use ai_semantic_cache::ieee::Single;
use std::time::Duration;

fn threshold(v: f32) -> Result<Threshold, ai_semantic_cache::config::ThresholdError> {
    Threshold::new(Single { bits: v.to_bits() })
}

#[test]
fn threshold_accepts_valid_range() {
    assert!(threshold(0.0).is_ok());
    assert!(threshold(0.92).is_ok());
    assert!(threshold(1.0).is_ok());
    assert!(threshold(1.01).is_ok()); // documented "disable semantic" convention
    assert!(threshold(1.5).is_ok());
}

#[test]
fn threshold_rejects_out_of_range() {
    assert!(threshold(-0.1).is_err());
    assert!(threshold(1.51).is_err());
    assert!(threshold(f32::NAN).is_err());
}

#[test]
fn threshold_edges() {
    assert!(threshold(-0.0).is_ok());
    assert!(threshold(f32::from_bits(1.5f32.to_bits() + 1)).is_err());
    assert!(threshold(-f32::from_bits(1)).is_err());
    assert!(threshold(f32::INFINITY).is_err());
    assert!(threshold(f32::NEG_INFINITY).is_err());
    assert!(threshold(-f32::NAN).is_err());
}

#[test]
fn threshold_keeps_its_value() {
    assert_eq!(threshold(0.92).unwrap().value().bits, 0.92f32.to_bits());
}

#[test]
fn threshold_error_message_names_the_value() {
    let e = threshold(1.51).unwrap_err();
    let shown = format!("{}", f32::from_bits(e.value.bits));
    assert_eq!(e.message(&shown), "threshold must be in [0.0, 1.5], got 1.51");
}

#[test]
fn failure_mode_defaults_to_fail_open() {
    assert_eq!(FailureMode::default(), FailureMode::FailOpen);
}

#[test]
fn distance_metric_defaults_to_cosine() {
    assert_eq!(DistanceMetric::default(), DistanceMetric::Cosine);
}

#[test]
fn ttl_is_a_duration_of_seconds() {
    assert_eq!(Ttl::from_seconds(3600).as_duration(), Duration::from_secs(3600));
    assert_eq!(Ttl::from_seconds(0).as_duration(), Duration::ZERO);
    assert_ne!(Ttl::from_seconds(1).as_duration(), Duration::from_millis(1));
}

#[test]
fn extractor_kinds_are_told_apart() {
    assert_ne!(PromptExtractorKind::Openai, PromptExtractorKind::Dataweave);
}
