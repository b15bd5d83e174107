use greentic_ext_runtime::runtime::declared_tool_definitions;
use greentic_ext_runtime::tool_metadata::{contribution_tool_to_definition, ContributedTool, DeclaredTools};

const AW_META: &str = r#"{"usage_hint":"Execute a playbook","examples":[{"when":"asked to run one","input":{"playbook_id":"p"}}],"side_effects":"external","cost":"medium","confirmation_required":false}"#;

fn full_tool() -> ContributedTool {
    ContributedTool {
        name: "run_telco_playbook".into(),
        export: "greentic:extension-design/tools.invoke-tool".into(),
        capabilities: Some(vec!["flow".into(), "agentic_worker".into()]),
        description: Some("Run a telco-x playbook.".into()),
        input_schema: Some(r#"{"type":"object"}"#.into()),
        output_schema: Some(r#"{"type":"object","properties":{"card":{"type":"object"}}}"#.into()),
        agentic_worker_metadata: Some(AW_META.into()),
    }
}

#[test]
fn every_declared_field_reaches_the_tool_definition() {
    let def = contribution_tool_to_definition(&full_tool());
    assert_eq!(def.name, "run_telco_playbook");
    assert_eq!(def.description, "Run a telco-x playbook.");
    assert_eq!(def.input_schema_json, r#"{"type":"object"}"#);
    assert_eq!(
        def.output_schema_json.as_deref(),
        Some(r#"{"type":"object","properties":{"card":{"type":"object"}}}"#)
    );
    assert_eq!(def.agentic_worker_metadata.as_deref(), Some(AW_META));
    assert_eq!(
        def.capabilities.as_deref(),
        Some(["flow".to_string(), "agentic_worker".to_string()].as_slice())
    );
}

#[test]
fn a_minimal_tool_still_maps_without_panicking() {
    let bare = ContributedTool {
        name: "bare".into(),
        export: "greentic:extension-design/tools.invoke-tool".into(),
        capabilities: None,
        description: None,
        input_schema: None,
        output_schema: None,
        agentic_worker_metadata: None,
    };
    let def = contribution_tool_to_definition(&bare);
    assert_eq!(def.name, "bare");
    assert!(def.description.is_empty());
    assert!(def.input_schema_json.is_empty());
    assert!(def.output_schema_json.is_none());
    assert!(def.agentic_worker_metadata.is_none());
    assert!(def.capabilities.is_none());
}

#[test]
fn only_a_v2_describe_supplies_the_tool_list() {
    let v2 = DeclaredTools { api_version: "greentic.ai/v2".into(), tools: vec![full_tool()] };
    let defs = declared_tool_definitions(&v2).expect("v2 tools come from the describe");
    assert_eq!(defs.len(), 1);
    assert_eq!(defs[0].name, "run_telco_playbook");
    let v1 = DeclaredTools { api_version: "greentic.ai/v1".into(), tools: vec![full_tool()] };
    assert!(declared_tool_definitions(&v1).is_none());
}
