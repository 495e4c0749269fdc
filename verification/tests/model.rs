use warpllm::model::{parse_model, Provider};

#[test]
fn parses_openai() {
    assert_eq!(
        parse_model("openai/gpt-4o").unwrap(),
        (Provider::OpenAi, "gpt-4o".to_string())
    );
}

#[test]
fn keeps_slashes_in_model_name() {
    assert_eq!(
        parse_model("openai/org/custom-model").unwrap(),
        (Provider::OpenAi, "org/custom-model".to_string())
    );
}

#[test]
fn rejects_bare_model() {
    let msg = parse_model("gpt-4o").unwrap_err().message();
    assert!(msg.contains("not a supported provider"), "{msg}");
}

#[test]
fn rejects_unknown_provider() {
    let msg = parse_model("mistral/large").unwrap_err().message();
    assert!(msg.contains("mistral/large"), "{msg}");
    assert!(msg.contains("not a supported provider"), "{msg}");
}

#[test]
fn rejects_empty_model_name() {
    assert!(parse_model("openai/").is_err());
}

#[test]
fn version_matches_manifest() {
    assert_eq!(warpllm::version(), "0.4.0");
    assert_eq!(warpllm::version().split('.').count(), 3);
}
