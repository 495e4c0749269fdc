use serde_json::Value;
use warpllm::gateway::types::RawJson;
use warpllm::json::Json;

fn val(text: &str) -> Value {
    serde_json::from_str(text).unwrap()
}

fn js(value: &Value) -> Json {
    Json::parse(&value.to_string()).unwrap()
}

fn to_value(json: &Json) -> Value {
    val(&json.to_text())
}

#[test]
fn raw_json_round_trips_and_parses() {
    let raw = RawJson::new(r#"{"z":1,"a":2}"#);
    assert_eq!(raw.as_str(), r#"{"z":1,"a":2}"#);
    assert_eq!(to_value(&raw.parse().unwrap())["z"], 1);
    // from_value keeps the source order (preserve_order).
    let value = js(&val(r#"{"z":1,"a":2}"#));
    assert_eq!(RawJson::from_value(&value).as_str(), r#"{"z":1,"a":2}"#);
}

#[test]
fn raw_json_empty_parses_to_empty_object() {
    assert_eq!(
        to_value(&RawJson::new("").parse().unwrap()),
        Value::Object(Default::default())
    );
}

#[test]
fn raw_json_invalid_errors_on_parse_only() {
    let raw = RawJson::new(r#"{"almost": json"#);
    assert_eq!(raw.as_str(), r#"{"almost": json"#);
    assert!(raw.parse().is_none());
}
