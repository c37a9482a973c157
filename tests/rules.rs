use zdmr::model::HeaderValueSpec;
use zdmr::rules::{candidate_bases_from_json, header_specs_from_json, JsonValue};

fn text(s: &str) -> JsonValue {
    JsonValue::Text(s.to_string())
}

fn obj(entries: Vec<(&str, JsonValue)>) -> JsonValue {
    JsonValue::Object(entries.into_iter().map(|(k, v)| (k.to_string(), v)).collect())
}

#[test]
fn header_payload_nested_under_headers_key() {
    let v = obj(vec![(
        "headers",
        obj(vec![
            ("User-Agent", obj(vec![("value", text("X")), ("mode", text("override"))])),
            ("Referer", text("Y")),
            ("X-Num", JsonValue::Number),
        ]),
    )]);
    let specs = header_specs_from_json(&v);
    assert_eq!(specs.len(), 3);
    assert_eq!(specs[0].name, "User-Agent");
    assert!(matches!(&specs[0].value, HeaderValueSpec::Detailed { value: Some(v), mode: Some(m) } if v == "X" && m == "override"));
    assert!(matches!(&specs[1].value, HeaderValueSpec::Plain(v) if v == "Y"));
    assert!(matches!(specs[2].value, HeaderValueSpec::Unsupported));
}

#[test]
fn header_payload_flat_and_malformed() {
    let flat = obj(vec![("Authorization", obj(vec![("value", text("T")), ("mode", JsonValue::Bool(true))]))]);
    let specs = header_specs_from_json(&flat);
    assert_eq!(specs.len(), 1);
    assert!(matches!(&specs[0].value, HeaderValueSpec::Detailed { value: Some(v), mode: None } if v == "T"));
    assert!(header_specs_from_json(&JsonValue::Array(vec![text("a")])).is_empty());
    assert!(header_specs_from_json(&obj(vec![("headers", JsonValue::Null)])).is_empty());
}

#[test]
fn mirror_payload_keeps_strings_in_order() {
    let v = JsonValue::Array(vec![text("https://a.test"), JsonValue::Number, text("https://b.test")]);
    assert_eq!(candidate_bases_from_json(&v), vec!["https://a.test".to_string(), "https://b.test".to_string()]);
    assert!(candidate_bases_from_json(&obj(vec![])).is_empty());
}
