use greentic_ext_runtime::adaptive_cards::{
    get_entry, get_identity, get_offered, invoke_tool, invoke_tool_json, list_entries, list_tools, system_prompt_fragments,
    validate_adaptive_card, validate_content, validate_content_json,
};
use greentic_ext_runtime::json::JsonValue;
use greentic_ext_runtime::kind::ExtensionKind;
use greentic_ext_runtime::wit::{ExtensionErrorV01, WitSeverity};

fn s(text: &str) -> JsonValue {
    JsonValue::Str(text.to_string())
}

fn obj(members: Vec<(&str, JsonValue)>) -> JsonValue {
    JsonValue::Object(members.into_iter().map(|(k, v)| (k.to_string(), v)).collect())
}

fn member<'a>(v: &'a JsonValue, key: &str) -> &'a JsonValue {
    v.get(key).unwrap_or_else(|| panic!("no member {key} in {v:?}"))
}

fn minimal_card() -> JsonValue {
    obj(vec![("type", s("AdaptiveCard")), ("version", s("1.6"))])
}

#[test]
fn invoke_validate_card_on_ac_extension() {
    let args = obj(vec![("card", minimal_card())]);
    let result = invoke_tool("validate_card", Ok(args)).expect("invoke_tool should succeed on valid card");
    assert!(matches!(member(&result, "valid"), JsonValue::Bool(true)), "got: {result:?}");
}

#[test]
fn validate_content_on_ac_extension_accepts_minimal_card() {
    let result = validate_content("AdaptiveCard", Ok(minimal_card()));
    assert!(result.valid, "expected valid=true, got: {result:?}");
    let errors = result.diagnostics.iter().filter(|d| d.severity == WitSeverity::Error).count();
    assert_eq!(errors, 0);
}

#[test]
fn every_structural_problem_is_reported_in_order() {
    let card = obj(vec![
        ("type", s("Foo")),
        ("version", s("2.0")),
        ("body", s("oops")),
        ("actions", JsonValue::Bool(true)),
    ]);
    let (valid, diags) = validate_adaptive_card(&card);
    assert!(!valid);
    let codes: Vec<&str> = diags.iter().map(|d| d.code.as_str()).collect();
    assert_eq!(codes, ["wrong-type", "unsupported-version", "body-must-be-array", "actions-must-be-array"]);
    assert_eq!(diags[0].message, "expected type='AdaptiveCard', got Some(\"Foo\")");
    assert_eq!(diags[0].path.as_deref(), Some("/type"));
    assert_eq!(diags[1].message, "unsupported version: 2.0 (supported: 1.0-1.6)");
    assert_eq!(diags[2].message, "body must be an array");
}

#[test]
fn a_missing_type_and_version_are_reported() {
    let (valid, diags) = validate_adaptive_card(&obj(vec![]));
    assert!(!valid);
    assert_eq!(diags.len(), 2);
    assert_eq!(diags[0].message, "expected type='AdaptiveCard', got None");
    assert_eq!(diags[1].code, "missing-version");
    assert_eq!(diags[1].message, "version is required");
}

#[test]
fn versions_one_zero_to_one_six_are_supported() {
    for (v, ok) in [("1.0", true), ("1.6", true), ("1.6.1", true), ("1.7", false), ("1.", false), ("1x6", false)] {
        let card = obj(vec![("type", s("AdaptiveCard")), ("version", s(v))]);
        assert_eq!(validate_adaptive_card(&card).0, ok, "version {v}");
    }
}

#[test]
fn analyze_card_counts_body_and_actions() {
    let card = obj(vec![
        ("type", s("AdaptiveCard")),
        ("body", JsonValue::Array(vec![obj(vec![]), obj(vec![])])),
        ("actions", JsonValue::Array(vec![obj(vec![])])),
    ]);
    let out = invoke_tool("analyze_card", Ok(obj(vec![("card", card)]))).unwrap();
    assert!(matches!(member(&out, "body_elements"), JsonValue::Number(n) if n == "2"));
    assert!(matches!(member(&out, "actions"), JsonValue::Number(n) if n == "1"));
    assert!(matches!(member(&out, "depth"), JsonValue::Number(n) if n == "1"));
}

#[test]
fn accessibility_loses_twenty_points_per_image_without_alt_text() {
    let image = || obj(vec![("type", s("Image")), ("url", s("x.png"))]);
    let described = obj(vec![("type", s("Image")), ("altText", s("logo"))]);
    let card = obj(vec![("body", JsonValue::Array(vec![image(), described, image()]))]);
    let out = invoke_tool("check_accessibility", Ok(obj(vec![("card", card)]))).unwrap();
    assert!(matches!(member(&out, "score"), JsonValue::Number(n) if n == "60"));
    match member(&out, "issues") {
        JsonValue::Array(items) => {
            assert_eq!(items.len(), 2);
            assert!(matches!(&items[0], JsonValue::Str(t) if t == "Image missing altText"));
        }
        other => panic!("unexpected: {other:?}"),
    }
}

#[test]
fn accessibility_never_drops_below_zero() {
    let image = || obj(vec![("type", s("Image"))]);
    let card = obj(vec![("body", JsonValue::Array((0..7).map(|_| image()).collect()))]);
    let out = invoke_tool("check_accessibility", Ok(obj(vec![("card", card)]))).unwrap();
    assert!(matches!(member(&out, "score"), JsonValue::Number(n) if n == "0"));
}

#[test]
fn unimplemented_tools_say_so_and_unknown_tools_are_refused() {
    let out = invoke_tool("transform_card", Ok(obj(vec![]))).unwrap();
    assert!(matches!(member(&out, "status"), JsonValue::Str(t) if t == "not_implemented_in_v1_6"));
    let err = invoke_tool("explode", Ok(obj(vec![]))).unwrap_err();
    assert!(matches!(err, ExtensionErrorV01::InvalidInput(m) if m == "unknown tool: explode"));
    let err = invoke_tool("validate_card", Err("expected value at line 1 column 1".to_string())).unwrap_err();
    assert!(matches!(err, ExtensionErrorV01::InvalidInput(m) if m == "expected value at line 1 column 1"));
}

#[test]
fn validate_card_reports_diagnostics_as_json() {
    let out = invoke_tool("validate_card", Ok(obj(vec![]))).unwrap();
    assert!(matches!(member(&out, "valid"), JsonValue::Bool(false)));
    match member(&out, "diagnostics") {
        JsonValue::Array(items) => {
            assert_eq!(items.len(), 2);
            assert!(matches!(member(&items[1], "severity"), JsonValue::Str(t) if t == "error"));
            assert!(matches!(member(&items[1], "code"), JsonValue::Str(t) if t == "missing-version"));
            assert!(matches!(member(&items[1], "path"), JsonValue::Str(t) if t == "/version"));
        }
        other => panic!("unexpected: {other:?}"),
    }
}

#[test]
fn other_content_types_and_bad_json_are_refused() {
    let r = validate_content("slack-block", Ok(minimal_card()));
    assert!(!r.valid);
    assert_eq!(r.diagnostics[0].code, "unsupported-content-type");
    assert_eq!(r.diagnostics[0].message, "this extension handles 'adaptive-card', got 'slack-block'");
    assert!(r.diagnostics[0].path.is_none());
    let r = validate_content("adaptive-card", Err("EOF while parsing".to_string()));
    assert!(!r.valid);
    assert_eq!(r.diagnostics[0].code, "json-parse");
    assert_eq!(r.diagnostics[0].message, "EOF while parsing");
    assert!(validate_content("adaptive-card", Ok(minimal_card())).valid);
}

#[test]
fn the_extension_describes_itself() {
    let id = get_identity();
    assert_eq!(id.id, "greentic.adaptive-cards");
    assert_eq!(id.version, "1.6.0");
    assert_eq!(id.kind, ExtensionKind::Design);
    let offered = get_offered();
    assert_eq!(offered.len(), 3);
    assert_eq!(offered[1].id, "greentic:adaptive-cards/validate");
    let tools = list_tools();
    let names: Vec<&str> = tools.iter().map(|t| t.name.as_str()).collect();
    assert_eq!(
        names,
        ["validate_card", "analyze_card", "check_accessibility", "optimize_card", "transform_card", "template_card", "data_to_card"]
    );
    assert!(tools[4].input_schema_json.contains("\"transform\""));
    let frags = system_prompt_fragments("# rules", "# examples");
    assert_eq!((frags[0].section.as_str(), frags[0].priority), ("rules", 100));
    assert_eq!((frags[1].content_markdown.as_str(), frags[1].priority), ("# examples", 50));
    assert!(list_entries(None).is_empty());
    assert!(matches!(get_entry("x"), Err(ExtensionErrorV01::InvalidInput(m)) if m == "no entry: x"));
}

#[test]
fn tools_take_and_give_json_text() {
    let out = invoke_tool_json("validate_card", r#"{"card":{"type":"AdaptiveCard","version":"1.6"}}"#).unwrap();
    let v: serde_json::Value = serde_json::from_str(&out).unwrap();
    assert_eq!(v["valid"], serde_json::Value::Bool(true));
    assert!(v["diagnostics"].as_array().unwrap().is_empty());
    let out = invoke_tool_json("transform_card", "{}").unwrap();
    assert!(out.contains("not_implemented_in_v1_6"), "got {out}");
    match invoke_tool_json("validate_card", "{not json") {
        Err(ExtensionErrorV01::InvalidInput(m)) => assert!(m.contains("line 1"), "got {m}"),
        other => panic!("unexpected: {other:?}"),
    }
    match invoke_tool_json("no_such_tool", "{}") {
        Err(ExtensionErrorV01::InvalidInput(m)) => assert_eq!(m, "unknown tool: no_such_tool"),
        other => panic!("unexpected: {other:?}"),
    }
}

#[test]
fn content_checks_take_json_text() {
    let ok = validate_content_json("adaptive-card", r#"{"type":"AdaptiveCard","version":"1.6","body":[]}"#);
    assert!(ok.valid, "got {ok:?}");
    let bad = validate_content_json("adaptive-card", "[1,");
    assert!(!bad.valid);
    assert_eq!(bad.diagnostics[0].code, "json-parse");
    let other = validate_content_json("text/plain", "{}");
    assert!(!other.valid);
    assert_eq!(other.diagnostics[0].code, "unsupported-content-type");
}
