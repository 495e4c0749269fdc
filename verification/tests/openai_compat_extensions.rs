use serde_json::Value;
use warpllm::gateway::ext::{merged_ext, namespaced};
use warpllm::gateway::openai_compat::{role_from_wire, role_to_wire};
use warpllm::gateway::types::message::Role;
use warpllm::json::{Fields, Json};
use warpllm::types::Protocol;

fn val(text: &str) -> Value {
    serde_json::from_str(text).unwrap()
}

fn js(value: &Value) -> Json {
    Json::parse(&value.to_string()).unwrap()
}

fn to_value(json: &Json) -> Value {
    val(&json.to_text())
}

fn ext_value(fields: &Fields) -> Value {
    to_value(&Json::Object(fields.clone()))
}

#[test]
fn merged_ext_overlays_the_provider_and_ignores_other_providers() {
    let mut ext = Fields::new();
    ext.put("openai_compat", js(&val(r#"{"shared":"from-protocol","protocol_only":1}"#)));
    ext.put("deepseek", js(&val(r#"{"shared":"from-provider","ds_only":2}"#)));
    ext.put("mistral", js(&val(r#"{"mistral_only":true}"#)));

    let merged = merged_ext(Protocol::OpenAiCompat, &ext, "deepseek");
    assert_eq!(
        ext_value(&merged)["shared"],
        val(r#""from-provider""#),
        "the provider namespace must overlay the protocol's"
    );
    assert_eq!(ext_value(&merged)["protocol_only"], val(r#"1"#));
    assert_eq!(ext_value(&merged)["ds_only"], val(r#"2"#));
    assert!(
        merged.get("mistral_only").is_none(),
        "another provider's namespace leaked into this render"
    );
}
#[test]
fn a_provider_named_for_another_protocol_does_not_leak_its_bag() {
    let mut ext = Fields::new();
    ext.put("anthropic", js(&val(r#"{"content":[{"type":"text","text":"hi"}],"stop_sequence":null}"#)));
    ext.put("openai_compat", js(&val(r#"{"system_fingerprint":"fp_1"}"#)));

    let merged = merged_ext(Protocol::OpenAiCompat, &ext, "anthropic");
    assert!(
        merged.get("content").is_none(),
        "Anthropic's retained content array reached an OpenAI render"
    );
    assert!(merged.get("stop_sequence").is_none());
    assert_eq!(
        ext_value(&merged)["system_fingerprint"],
        val(r#""fp_1""#),
        "this protocol's own bag must still be read"
    );
}

#[test]
fn merged_ext_is_empty_when_no_namespace_applies() {
    let mut ext = Fields::new();
    ext.put("mistral", js(&val(r#"{"mistral_only":true}"#)));
    assert!(merged_ext(Protocol::OpenAiCompat, &ext, "deepseek").len() == 0);
}

#[test]
fn namespaced_files_fields_under_the_protocol_name() {
    let mut fields = Fields::new();
    fields.put("seed", js(&val(r#"7"#)));

    let ext = namespaced(Protocol::OpenAiCompat, fields);
    assert_eq!(ext_value(&ext)["openai_compat"], val(r#"{"seed":7}"#));
}
#[test]
fn namespaced_omits_an_empty_bag() {
    assert!(namespaced(Protocol::OpenAiCompat, Fields::new()).len() == 0);
}
#[test]
fn known_roles_round_trip_with_no_residue() {
    for role in [Role::System, Role::User, Role::Assistant, Role::Tool] {
        assert_eq!(
            role_from_wire(role_to_wire(role).to_string()),
            (role, None),
            "{} did not survive the round trip",
            role_to_wire(role)
        );
    }
}
#[test]
fn an_unknown_wire_role_returns_its_raw_spelling() {
    let (role, raw) = role_from_wire("developer".into());
    assert_eq!(role, Role::User);
    assert_eq!(raw.as_deref(), Some("developer"));
}
