use greentic_ext_runtime::tool_metadata::{
    collect_tool_metadata_gaps, format_names, is_whitespace, ContributedTool, DeclaredTools,
};

fn tool(name: &str, description: Option<&str>, input_schema: Option<&str>) -> ContributedTool {
    ContributedTool {
        name: name.into(),
        export: "greentic:extension-design/tools.invoke-tool".into(),
        capabilities: None,
        description: description.map(Into::into),
        input_schema: input_schema.map(Into::into),
        output_schema: None,
        agentic_worker_metadata: None,
    }
}

fn complete_tool(name: &str) -> ContributedTool {
    ContributedTool {
        capabilities: Some(vec!["flow".into()]),
        ..tool(name, Some("Does a thing."), Some(r#"{"type":"object"}"#))
    }
}

fn describe_with(api_version: &str, tools: Vec<ContributedTool>) -> DeclaredTools {
    DeclaredTools { api_version: api_version.into(), tools }
}

#[test]
fn gaps_are_grouped_into_one_report_naming_the_affected_tools() {
    let describe = describe_with(
        "greentic.ai/v2",
        vec![
            tool("parse_sorla_yaml", None, None),
            tool("apply_sorla_patch", Some("Apply a patch."), None),
            complete_tool("render_sorla_view"),
        ],
    );

    let gaps = collect_tool_metadata_gaps(&describe).expect("gaps reported");

    assert_eq!(gaps.tools, 3);
    assert_eq!(gaps.no_description, ["parse_sorla_yaml"]);
    assert_eq!(gaps.no_input_schema, ["parse_sorla_yaml", "apply_sorla_patch"]);
    assert_eq!(gaps.no_capabilities, ["parse_sorla_yaml", "apply_sorla_patch"]);
}

#[test]
fn a_fully_declared_v2_describe_reports_nothing() {
    let describe =
        describe_with("greentic.ai/v2", vec![complete_tool("alpha"), complete_tool("beta")]);

    assert!(collect_tool_metadata_gaps(&describe).is_none());
}

#[test]
fn a_v1_describe_reports_nothing_even_when_the_describe_declares_nothing() {
    let describe = describe_with("greentic.ai/v1", vec![tool("bare", None, None)]);

    assert!(collect_tool_metadata_gaps(&describe).is_none());
}

#[test]
fn blank_strings_count_as_missing() {
    let describe = describe_with("greentic.ai/v2", vec![tool("blank", Some("  "), Some(""))]);

    let gaps = collect_tool_metadata_gaps(&describe).expect("gaps reported");

    assert_eq!(gaps.no_description, ["blank"]);
    assert_eq!(gaps.no_input_schema, ["blank"]);
}

#[test]
fn an_extension_with_no_tools_reports_nothing() {
    let describe = describe_with("greentic.ai/v2", vec![]);

    assert!(collect_tool_metadata_gaps(&describe).is_none());
}

#[test]
fn a_short_name_list_is_spelled_out_in_full() {
    let names = ["a".to_string(), "b".to_string(), "c".to_string()];

    assert_eq!(format_names(&names), "3 (a, b, c)");
}

#[test]
fn a_long_name_list_is_truncated_so_the_line_stays_readable() {
    let names: Vec<String> = (0..16).map(|i| format!("tool_{i}")).collect();

    assert_eq!(format_names(&names), "16 (tool_0, tool_1, tool_2, +13 more)");
}

#[test]
fn an_empty_category_formats_as_a_bare_zero() {
    assert_eq!(format_names(&[]), "0");
}

#[test]
fn a_unicode_blank_description_counts_as_missing() {
    let describe = describe_with(
        "greentic.ai/v2",
        vec![ContributedTool {
            capabilities: Some(vec!["flow".into()]),
            ..tool("nbsp", Some("\u{00a0}\u{2003}"), Some("{}"))
        }],
    );
    let gaps = collect_tool_metadata_gaps(&describe).expect("gaps reported");
    assert_eq!(gaps.no_description, ["nbsp"]);
    assert!(gaps.no_input_schema.is_empty());
    assert!(gaps.no_capabilities.is_empty());
}

#[test]
fn exactly_three_names_are_not_truncated_but_four_are() {
    let four: Vec<String> = ["w", "x", "y", "z"].iter().map(|s| s.to_string()).collect();
    assert_eq!(format_names(&four), "4 (w, x, y, +1 more)");
}

#[test]
fn whitespace_is_exactly_what_std_trims() {
    for n in 0u32..=0x10FFFF {
        if let Some(c) = char::from_u32(n) {
            assert_eq!(is_whitespace(c), c.is_whitespace(), "U+{n:04X}");
        }
    }
}
