use serde_json::Value;
use warpllm::gateway::anthropic::{cache_control, cache_hint, role_from_wire, role_to_wire};
use warpllm::gateway::ext::{merged_ext, namespaced};
use warpllm::gateway::types::message::{CacheHint, Role};
use warpllm::json::{Fields, Json};
use warpllm::types::Protocol;

fn val(text: &str) -> Value {
    serde_json::from_str(text).unwrap()
}

fn js(value: &Value) -> Json {
    Json::parse(&value.to_string()).unwrap()
}

fn to_value(json: &Json) -> Value {
    val(&json.to_text())
}

fn ext_value(fields: &Fields) -> Value {
    to_value(&Json::Object(fields.clone()))
}

#[test]
fn merged_ext_ignores_other_providers() {
    let mut ext = Fields::new();
    ext.put("anthropic", js(&val(r#"{"top_k":40,"metadata":{"user_id":"u1"}}"#)));
    ext.put("openai_compat", js(&val(r#"{"seed":7}"#)));
    ext.put("deepseek", js(&val(r#"{"ds_only":2}"#)));

    let merged = merged_ext(Protocol::Anthropic, &ext, "anthropic");
    assert_eq!(ext_value(&merged)["top_k"], val(r#"40"#));
    assert_eq!(ext_value(&merged)["metadata"], val(r#"{"user_id":"u1"}"#));
    assert!(
        merged.get("seed").is_none(),
        "the openai_compat namespace leaked into an Anthropic render"
    );
    assert!(merged.get("ds_only").is_none());
}
#[test]
fn the_shared_protocol_and_provider_name_reads_one_bag() {
    let mut ext = Fields::new();
    ext.put("anthropic", js(&val(r#"{"top_k":40}"#)));
    assert_eq!(merged_ext(Protocol::Anthropic, &ext, "anthropic"), merged_ext(Protocol::Anthropic, &ext, "other"));
}
#[test]
fn mod_a_provider_named_for_another_protocol_does_not_leak_its_bag() {
    let mut ext = Fields::new();
    ext.put("openai_compat", js(&val(r#"{"seed":7,"content":"a string, not blocks"}"#)));
    ext.put("anthropic", js(&val(r#"{"top_k":40}"#)));

    let merged = merged_ext(Protocol::Anthropic, &ext, "openai_compat");
    assert!(merged.get("seed").is_none());
    assert!(merged.get("content").is_none());
    assert_eq!(ext_value(&merged)["top_k"], val(r#"40"#));
}

#[test]
fn mod_namespaced_omits_an_empty_bag() {
    assert!(namespaced(Protocol::Anthropic, Fields::new()).len() == 0);
    assert_eq!(
        ext_value(&namespaced(Protocol::Anthropic, js(&val(r#"{"top_k":40}"#)).fields()))["anthropic"],
        val(r#"{"top_k":40}"#)
    );
}
#[test]
fn the_two_wire_roles_round_trip_with_no_residue() {
    for role in [Role::User, Role::Assistant] {
        assert_eq!(role_from_wire(role_to_wire(role).to_string()), (role, None));
    }
}

#[test]
fn an_unknown_wire_role_keeps_its_raw_spelling() {
    let (role, raw) = role_from_wire("developer".into());
    assert_eq!(role, Role::User);
    assert_eq!(raw.as_deref(), Some("developer"));
}
#[test]
fn a_cache_hint_round_trips_through_the_wire_shape() {
    for ttl in [Some("1h".to_string()), None] {
        let hint = CacheHint { ttl: ttl.clone() };
        let control = cache_control(&hint);
        assert_eq!(control.str_at("type").as_deref(), Some("ephemeral"));
        assert_eq!(cache_hint(&control).ttl, ttl);
    }
}
