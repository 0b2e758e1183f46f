use ai_semantic_cache::extract::{ExtractOutcome, Extracted, PromptExtractor};
use ai_semantic_cache::json::{parse_json, Json};

fn doc(s: &str) -> Json {
    parse_json(s.as_bytes()).unwrap()
}

fn found(o: ExtractOutcome) -> Extracted {
    match o {
        ExtractOutcome::Found(e) => e,
        _ => panic!("expected a prompt"),
    }
}

fn skipped(o: ExtractOutcome) -> &'static str {
    match o {
        ExtractOutcome::Skip(why) => why,
        _ => panic!("expected a skip"),
    }
}

fn is_skip(o: &ExtractOutcome) -> bool {
    matches!(o, ExtractOutcome::Skip(_))
}

#[test]
fn openai_single_message() {
    let body = doc(r#"{"model":"gpt-4o","messages":[{"role":"user","content":"hi"}]}"#);
    let e = found(PromptExtractor::Openai.extract(&body));
    assert_eq!(e.model, "gpt-4o");
    assert!(!e.stream);
}

#[test]
fn openai_stream_flag() {
    let body =
        doc(r#"{"model":"gpt-4o","messages":[{"role":"user","content":"hi"}],"stream":true}"#);
    let e = found(PromptExtractor::Openai.extract(&body));
    assert!(e.stream);
}

#[test]
fn openai_missing_messages_skipped() {
    let body = doc(r#"{"model":"gpt-4o"}"#);
    assert!(is_skip(&PromptExtractor::Openai.extract(&body)));
}

#[test]
fn openai_empty_messages_skipped() {
    let body = doc(r#"{"model":"gpt-4o","messages":[]}"#);
    assert!(is_skip(&PromptExtractor::Openai.extract(&body)));
}

#[test]
fn anthropic_extracts_messages_and_model() {
    let body = doc(r#"{"model":"model-3-5","messages":[{"role":"user","content":"hi"}]}"#);
    let e = found(PromptExtractor::Anthropic.extract(&body));
    assert_eq!(e.model, "model-3-5");
}

#[test]
fn cohere_extracts_message_field() {
    let body = doc(r#"{"model":"command-r","message":"hi"}"#);
    let e = found(PromptExtractor::Cohere.extract(&body));
    assert_eq!(e.model, "command-r");
}

#[test]
fn mistral_uses_openai_shape() {
    let body = doc(r#"{"model":"mistral-large","messages":[{"role":"user","content":"hi"}]}"#);
    let e = found(PromptExtractor::Mistral.extract(&body));
    assert_eq!(e.model, "mistral-large");
}

#[test]
fn bedrock_invoke_model_inputtext() {
    let body = doc(r#"{"modelId":"amazon.titan-text","inputText":"hi"}"#);
    let e = found(PromptExtractor::Bedrock.extract(&body));
    assert_eq!(e.model, "amazon.titan-text");
}

#[test]
fn bedrock_converse_messages_array_content() {
    let body = doc(
        r#"{
            "modelId":"anthropic.model-3-5",
            "messages":[{"role":"user","content":[{"text":"hi"}]}]
        }"#,
    );
    let e = found(PromptExtractor::Bedrock.extract(&body));
    assert_eq!(e.model, "anthropic.model-3-5");
}

#[test]
fn vertex_extracts_text_part() {
    let body = doc(
        r#"{
            "model":"gemini-1.5",
            "contents":[{"role":"user","parts":[{"text":"hi"}]}]
        }"#,
    );
    let e = found(PromptExtractor::Vertex.extract(&body));
    assert_eq!(e.model, "gemini-1.5");
}

#[test]
fn vertex_missing_contents_skipped() {
    let body = doc(r#"{"model":"gemini-1.5"}"#);
    assert!(is_skip(&PromptExtractor::Vertex.extract(&body)));
}

#[test]
fn prompts_are_canonical_messages() {
    let body = doc(
        r#"{"model":"m","messages":[
            {"role":"system","content":" be  brief "},
            {"role":"user"},
            {"content":"x"},
            {"role":"user","content":["x"]},
            {"role":"user","content":"hi"}
        ]}"#,
    );
    for kind in [PromptExtractor::Openai, PromptExtractor::Anthropic, PromptExtractor::Mistral] {
        let e = found(kind.extract(&body));
        assert_eq!(e.prompt.as_str(), "system\u{1F}be brief\u{1E}user\u{1F}hi");
    }
}

#[test]
fn vertex_takes_the_first_text_and_defaults_the_role() {
    let body = doc(
        r#"{"model":"g","stream":true,"contents":[
            {"parts":[{"inlineData":{}},{"text":"a"},{"text":"b"}]},
            {"role":"model","parts":[]},
            {"role":"model","parts":[{"text":"c"}]}
        ]}"#,
    );
    let e = found(PromptExtractor::Vertex.extract(&body));
    assert_eq!(e.prompt.as_str(), "user\u{1F}a\u{1E}model\u{1F}c");
    assert!(!e.stream);
}

#[test]
fn bedrock_falls_back_field_by_field() {
    let e = found(PromptExtractor::Bedrock.extract(&doc(
        r#"{"model":"m","messages":[{"role":"user","content":[]}],"inputText":" a  b ","prompt":"p"}"#,
    )));
    assert_eq!(e.model, "m");
    assert_eq!(e.prompt.as_str(), "a b");
    let e = found(PromptExtractor::Bedrock.extract(&doc(
        r#"{"modelId":"i","model":"m","prompt":"p","stream":true}"#,
    )));
    assert_eq!(e.model, "i");
    assert_eq!(e.prompt.as_str(), "p");
    assert!(!e.stream);
    let e = found(PromptExtractor::Bedrock.extract(&doc(
        r#"{"modelId":"i","messages":[{"role":"user","content":"t"},{"role":"user","content":[{"text":"u"},{"text":"v"}]}]}"#,
    )));
    assert_eq!(e.prompt.as_str(), "user\u{1F}t\u{1E}user\u{1F}u");
}

#[test]
fn skips_say_why() {
    let empty = doc("{}");
    let model = doc(r#"{"model":"m"}"#);
    let hollow = doc(r#"{"model":"m","messages":[{}],"contents":[{"parts":[{}]}]}"#);
    let kinds = [
        (PromptExtractor::Openai, "openai"),
        (PromptExtractor::Mistral, "openai"),
        (PromptExtractor::Anthropic, "anthropic"),
    ];
    for (kind, label) in kinds {
        assert_eq!(skipped(kind.extract(&empty)), format!("{label}: missing `model`"));
        assert_eq!(skipped(kind.extract(&model)), format!("{label}: empty or missing `messages`"));
        assert_eq!(skipped(kind.extract(&hollow)), format!("{label}: no string-content messages"));
    }
    assert_eq!(skipped(PromptExtractor::Cohere.extract(&empty)), "cohere: missing `model`");
    assert_eq!(skipped(PromptExtractor::Cohere.extract(&model)), "cohere: missing `message`");
    assert_eq!(skipped(PromptExtractor::Bedrock.extract(&empty)), "bedrock: missing `modelId`");
    assert_eq!(
        skipped(PromptExtractor::Bedrock.extract(&hollow)),
        "bedrock: no extractable prompt field"
    );
    assert_eq!(skipped(PromptExtractor::Vertex.extract(&empty)), "vertex: missing `model`");
    assert_eq!(skipped(PromptExtractor::Vertex.extract(&model)), "vertex: missing `contents`");
    assert_eq!(skipped(PromptExtractor::Vertex.extract(&hollow)), "vertex: no text parts");
}

#[test]
fn a_body_that_is_no_object_is_skipped() {
    assert_eq!(skipped(PromptExtractor::Openai.extract(&doc("[1]"))), "openai: missing `model`");
    assert_eq!(skipped(PromptExtractor::Openai.extract(&Json::Null)), "openai: missing `model`");
}

#[test]
fn a_stream_flag_that_is_no_boolean_is_off() {
    let e = found(PromptExtractor::Cohere.extract(&doc(
        r#"{"model":"m","message":"x","stream":"true"}"#,
    )));
    assert!(!e.stream);
    let e = found(PromptExtractor::Cohere.extract(&doc(
        r#"{"model":"m","message":"x","stream":true}"#,
    )));
    assert!(e.stream);
}
