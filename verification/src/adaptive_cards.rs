//! The Adaptive Cards design extension: its identity, the structural checks
//! it makes of a card, and its tools.
//!
//! The tool and content-check entry points take JSON text, parse it with
//! `serde_json` into the plain JSON model, and answer in JSON text.
use vstd::prelude::*;
use crate::json::{json_text_parse, json_text_render, parse_json, render_json, JsonValue};
use crate::kind::ExtensionKind;
use crate::text::{concat, debug_quoted, decimal, decimal_string, str_debug, str_eq};
use crate::wit::{
    ExtensionErrorV01, WitCapabilityRef, WitDiagnostic, WitEntry, WitEntrySummary,
    WitExtensionIdentity, WitPromptFragment, WitSeverity, WitToolDefinition, WitValidateResult,
};

verus! {

// ----- identity and lifecycle -----

/// The extension's identity: `greentic.adaptive-cards` 1.6.0, a design
/// extension.
pub fn get_identity() -> (r: WitExtensionIdentity)
    ensures
        r.id@ == "greentic.adaptive-cards"@,
        r.version@ == "1.6.0"@,
        r.kind == ExtensionKind::Design,
{
    WitExtensionIdentity {
        id: String::from_str("greentic.adaptive-cards"),
        version: String::from_str("1.6.0"),
        kind: ExtensionKind::Design,
    }
}

fn capability(id: &str, version: &str) -> (r: WitCapabilityRef)
    ensures
        r.id@ == id@,
        r.version@ == version@,
{
    WitCapabilityRef { id: String::from_str(id), version: String::from_str(version) }
}

/// The capabilities the extension offers: the 1.6.0 schema, and the 1.0.0
/// validate and transform capabilities.
pub fn get_offered() -> (r: Vec<WitCapabilityRef>)
    ensures
        r@.len() == 3,
        r@[0].id@ == "greentic:adaptive-cards/schema"@ && r@[0].version@ == "1.6.0"@,
        r@[1].id@ == "greentic:adaptive-cards/validate"@ && r@[1].version@ == "1.0.0"@,
        r@[2].id@ == "greentic:adaptive-cards/transform"@ && r@[2].version@ == "1.0.0"@,
{
    let mut v: Vec<WitCapabilityRef> = Vec::new();
    v.push(capability("greentic:adaptive-cards/schema", "1.6.0"));
    v.push(capability("greentic:adaptive-cards/validate", "1.0.0"));
    v.push(capability("greentic:adaptive-cards/transform", "1.0.0"));
    v
}

/// The extension requires no capability.
pub fn get_required() -> (r: Vec<WitCapabilityRef>)
    ensures
        r@.len() == 0,
{
    Vec::new()
}

/// Initialisation accepts any configuration.
pub fn init(config_json: &str) -> (r: Result<(), ExtensionErrorV01>)
    ensures
        r is Ok,
{
    Ok(())
}

// ----- card validation -----

/// A diagnostic by its view: severity, code, message and path.
pub open spec fn error_diag(code: Seq<char>, message: Seq<char>, path: Option<Seq<char>>) -> (WitSeverity, Seq<char>, Seq<char>, Option<Seq<char>>) {
    (WitSeverity::Error, code, message, path)
}

/// `{:?}` of an optional text.
pub open spec fn debug_opt(o: Option<Seq<char>>) -> Seq<char> {
    match o {
        None => "None"@,
        Some(s) => "Some("@ + str_debug(s) + ")"@,
    }
}

/// The supported card versions: `1.` followed by a digit from 0 to 6.
pub open spec fn version_supported(v: Seq<char>) -> bool {
    v.len() >= 3 && v[0] == '1' && v[1] == '.' && '0' <= v[2] && v[2] <= '6'
}

/// Member `key` is present and is not an array.
pub open spec fn present_not_array(card: JsonValue, key: Seq<char>) -> bool {
    card.get_spec(key) is Some && card.array_member(key) is None
}

/// The finding on the card's `type`.
pub open spec fn type_diagnostics(card: JsonValue) -> Seq<(WitSeverity, Seq<char>, Seq<char>, Option<Seq<char>>)> {
    if card.str_member("type"@) == Some("AdaptiveCard"@) {
        Seq::empty()
    } else {
        seq![
            error_diag(
                "wrong-type"@,
                "expected type='AdaptiveCard', got "@ + debug_opt(card.str_member("type"@)),
                Some("/type"@),
            ),
        ]
    }
}

/// The finding on the card's `version`.
pub open spec fn version_diagnostics(card: JsonValue) -> Seq<(WitSeverity, Seq<char>, Seq<char>, Option<Seq<char>>)> {
    match card.str_member("version"@) {
        None => seq![error_diag("missing-version"@, "version is required"@, Some("/version"@))],
        Some(v) => if version_supported(v) {
            Seq::empty()
        } else {
            seq![
                error_diag(
                    "unsupported-version"@,
                    "unsupported version: "@ + v + " (supported: 1.0-1.6)"@,
                    Some("/version"@),
                ),
            ]
        },
    }
}

/// The finding on a member that must be an array.
pub open spec fn shape_diagnostics(card: JsonValue, key: Seq<char>, code: Seq<char>, message: Seq<char>, path: Seq<char>) -> Seq<(WitSeverity, Seq<char>, Seq<char>, Option<Seq<char>>)> {
    if present_not_array(card, key) {
        seq![error_diag(code, message, Some(path))]
    } else {
        Seq::empty()
    }
}

/// Every finding on a card, in the order the checks run: type, version,
/// body, actions.
pub open spec fn card_diagnostics(card: JsonValue) -> Seq<(WitSeverity, Seq<char>, Seq<char>, Option<Seq<char>>)> {
    type_diagnostics(card) + version_diagnostics(card) + shape_diagnostics(
        card,
        "body"@,
        "body-must-be-array"@,
        "body must be an array"@,
        "/body"@,
    ) + shape_diagnostics(
        card,
        "actions"@,
        "actions-must-be-array"@,
        "actions must be an array"@,
        "/actions"@,
    )
}

fn error_diagnostic(code: &str, message: String, path: Option<&str>) -> (r: WitDiagnostic)
    ensures
        r@ == error_diag(
            code@,
            message@,
            match path {
                Some(p) => Some(p@),
                None => None,
            },
        ),
{
    WitDiagnostic {
        severity: WitSeverity::Error,
        code: String::from_str(code),
        message,
        path: match path {
            Some(p) => Some(String::from_str(p)),
            None => None,
        },
    }
}

fn is_supported_version(v: &str) -> (r: bool)
    ensures
        r == version_supported(v@),
{
    if v.unicode_len() < 3 {
        return false;
    }
    let c0 = v.get_char(0);
    let c1 = v.get_char(1);
    let c2 = v.get_char(2);
    c0 == '1' && c1 == '.' && '0' <= c2 && c2 <= '6'
}

fn is_present_not_array(card: &JsonValue, key: &str) -> (r: bool)
    ensures
        r == present_not_array(*card, key@),
{
    match card.get(key) {
        Some(JsonValue::Array(_)) => false,
        Some(_) => true,
        None => false,
    }
}

/// Check the top-level structure of an Adaptive Card: `type` must be
/// `AdaptiveCard`, `version` a supported 1.x, and `body` and `actions`, where
/// present, arrays. The card is valid exactly when nothing is found.
pub fn validate_adaptive_card(card: &JsonValue) -> (r: (bool, Vec<WitDiagnostic>))
    ensures
        r.1@.map_values(|d: WitDiagnostic| d@) == card_diagnostics(*card),
        r.0 == (card_diagnostics(*card).len() == 0),
{
    let mut diagnostics: Vec<WitDiagnostic> = Vec::new();

    let type_val = card.get_str("type");
    let is_card = match type_val {
        Some(t) => str_eq(t, "AdaptiveCard"),
        None => false,
    };
    if !is_card {
        let shown = match type_val {
            Some(t) => {
                let quoted = debug_quoted(t);
                let open = concat("Some(", quoted.as_str());
                concat(open.as_str(), ")")
            },
            None => String::from_str("None"),
        };
        let message = concat("expected type='AdaptiveCard', got ", shown.as_str());
        diagnostics.push(error_diagnostic("wrong-type", message, Some("/type")));
    }
    assert(diagnostics@.map_values(|d: WitDiagnostic| d@) =~= type_diagnostics(*card));

    let ghost before = diagnostics@.map_values(|d: WitDiagnostic| d@);
    match card.get_str("version") {
        None => {
            diagnostics.push(
                error_diagnostic("missing-version", String::from_str("version is required"), Some("/version")),
            );
        },
        Some(v) => {
            if !is_supported_version(v) {
                let head = concat("unsupported version: ", v);
                let message = concat(head.as_str(), " (supported: 1.0-1.6)");
                diagnostics.push(error_diagnostic("unsupported-version", message, Some("/version")));
            }
        },
    }
    assert(diagnostics@.map_values(|d: WitDiagnostic| d@) =~= before + version_diagnostics(*card));

    let ghost before = diagnostics@.map_values(|d: WitDiagnostic| d@);
    if is_present_not_array(card, "body") {
        diagnostics.push(
            error_diagnostic("body-must-be-array", String::from_str("body must be an array"), Some("/body")),
        );
    }
    assert(diagnostics@.map_values(|d: WitDiagnostic| d@) =~= before + shape_diagnostics(
        *card,
        "body"@,
        "body-must-be-array"@,
        "body must be an array"@,
        "/body"@,
    ));

    let ghost before = diagnostics@.map_values(|d: WitDiagnostic| d@);
    if is_present_not_array(card, "actions") {
        diagnostics.push(
            error_diagnostic(
                "actions-must-be-array",
                String::from_str("actions must be an array"),
                Some("/actions"),
            ),
        );
    }
    assert(diagnostics@.map_values(|d: WitDiagnostic| d@) =~= before + shape_diagnostics(
        *card,
        "actions"@,
        "actions-must-be-array"@,
        "actions must be an array"@,
        "/actions"@,
    ));

    let valid = diagnostics.len() == 0;
    (valid, diagnostics)
}

// ----- answers as JSON -----

/// The name a severity is reported under.
pub open spec fn severity_name(s: WitSeverity) -> Seq<char> {
    match s {
        WitSeverity::Error => "error"@,
        WitSeverity::Warning => "warning"@,
        WitSeverity::Info => "info"@,
        WitSeverity::Hint => "hint"@,
    }
}

/// `v` is the JSON string `s`.
pub open spec fn json_text_is(v: JsonValue, s: Seq<char>) -> bool {
    v matches JsonValue::Str(t) && t@ == s
}

/// `v` is the JSON number `n`.
pub open spec fn json_number_is(v: JsonValue, n: nat) -> bool {
    v matches JsonValue::Number(t) && t@ == decimal(n)
}

/// `v` is the JSON string `s`, or null where there is none.
pub open spec fn json_opt_text_is(v: JsonValue, o: Option<Seq<char>>) -> bool {
    match o {
        Some(s) => json_text_is(v, s),
        None => v is Null,
    }
}

/// `v` is diagnostic `d` as JSON: its severity, code, message and path.
pub open spec fn diagnostic_json(v: JsonValue, d: (WitSeverity, Seq<char>, Seq<char>, Option<Seq<char>>)) -> bool {
    v matches JsonValue::Object(m) && m@.len() == 4 && m@[0].0@ == "severity"@ && json_text_is(
        m@[0].1,
        severity_name(d.0),
    ) && m@[1].0@ == "code"@ && json_text_is(m@[1].1, d.1) && m@[2].0@ == "message"@
        && json_text_is(m@[2].1, d.2) && m@[3].0@ == "path"@ && json_opt_text_is(m@[3].1, d.3)
}

/// Each diagnostic by its view.
pub open spec fn views_of(ds: Seq<WitDiagnostic>) -> Seq<(WitSeverity, Seq<char>, Seq<char>, Option<Seq<char>>)> {
    ds.map_values(|d: WitDiagnostic| d@)
}

/// `v` is the array of diagnostics `ds`, in order.
pub open spec fn diagnostics_json(v: JsonValue, ds: Seq<(WitSeverity, Seq<char>, Seq<char>, Option<Seq<char>>)>) -> bool {
    v matches JsonValue::Array(items) && items@.len() == ds.len() && forall|i: int|
        0 <= i < ds.len() ==> #[trigger] diagnostic_json(items@[i], ds[i])
}

fn text(s: &str) -> (r: JsonValue)
    ensures
        json_text_is(r, s@),
{
    JsonValue::Str(String::from_str(s))
}

fn number(n: u64) -> (r: JsonValue)
    ensures
        json_number_is(r, n as nat),
{
    JsonValue::Number(decimal_string(n))
}

fn diagnostic_to_json(d: &WitDiagnostic) -> (r: JsonValue)
    ensures
        diagnostic_json(r, d@),
{
    let severity = match d.severity {
        WitSeverity::Error => "error",
        WitSeverity::Warning => "warning",
        WitSeverity::Info => "info",
        WitSeverity::Hint => "hint",
    };
    let path = match &d.path {
        Some(p) => JsonValue::Str(p.clone()),
        None => JsonValue::Null,
    };
    let mut m: Vec<(String, JsonValue)> = Vec::new();
    m.push((String::from_str("severity"), text(severity)));
    m.push((String::from_str("code"), JsonValue::Str(d.code.clone())));
    m.push((String::from_str("message"), JsonValue::Str(d.message.clone())));
    m.push((String::from_str("path"), path));
    JsonValue::Object(m)
}

/// The diagnostics as a JSON array of objects with `severity`, `code`,
/// `message` and `path` (null where there is none).
pub fn diagnostics_to_json(diagnostics: &Vec<WitDiagnostic>) -> (r: JsonValue)
    ensures
        diagnostics_json(r, views_of(diagnostics@)),
{
    let mut items: Vec<JsonValue> = Vec::new();
    let n = diagnostics.len();
    let mut i: usize = 0;
    while i < n
        invariant
            n == diagnostics@.len(),
            i <= n,
            items@.len() == i,
            forall|k: int| 0 <= k < i ==> #[trigger] diagnostic_json(items@[k], diagnostics@[k]@),
        decreases n - i,
    {
        items.push(diagnostic_to_json(&diagnostics[i]));
        i = i + 1;
    }
    let r = JsonValue::Array(items);
    assert forall|k: int| 0 <= k < n implies #[trigger] diagnostic_json(
        items@[k],
        views_of(diagnostics@)[k],
    ) by {
        assert(diagnostic_json(items@[k], diagnostics@[k]@));
    }
    r
}

// ----- tools -----

/// The tools: name, description and input schema, in the order they are
/// listed.
pub open spec fn card_tool(i: int) -> (Seq<char>, Seq<char>, Seq<char>) {
    if i == 0 {
        ("validate_card"@, "Validate an Adaptive Card against v1.6 schema"@, card_schema())
    } else if i == 1 {
        ("analyze_card"@, "Count elements, actions, and depth of a card"@, card_schema())
    } else if i == 2 {
        ("check_accessibility"@, "Return an a11y score (0-100) and issue list"@, card_schema())
    } else if i == 3 {
        ("optimize_card"@, "Apply accessibility + performance improvements (stub)"@, card_schema())
    } else if i == 4 {
        ("transform_card"@, "Apply a named transform (stub)"@, transform_schema())
    } else if i == 5 {
        ("template_card"@, "Convert card to data-bound template (stub)"@, card_schema())
    } else {
        ("data_to_card"@, "Infer a card from data (stub)"@, data_schema())
    }
}

/// The input schema of the tools that take a card.
pub open spec fn card_schema() -> Seq<char> {
    "{\"type\":\"object\",\"properties\":{\"card\":{\"type\":\"object\"}},\"required\":[\"card\"]}"@
}

/// The input schema of `transform_card`.
pub open spec fn transform_schema() -> Seq<char> {
    "{\"type\":\"object\",\"properties\":{\"card\":{\"type\":\"object\"},\"transform\":{\"type\":\"string\"}},\"required\":[\"card\",\"transform\"]}"@
}

/// The input schema of `data_to_card`.
pub open spec fn data_schema() -> Seq<char> {
    "{\"type\":\"object\",\"properties\":{\"data\":{}},\"required\":[\"data\"]}"@
}

fn tool(name: &str, description: &str, schema: &str) -> (r: WitToolDefinition)
    ensures
        r.name@ == name@,
        r.description@ == description@,
        r.input_schema_json@ == schema@,
        r.output_schema_json is None,
{
    WitToolDefinition {
        name: String::from_str(name),
        description: String::from_str(description),
        input_schema_json: String::from_str(schema),
        output_schema_json: None,
    }
}

/// The seven tools the extension offers, none with an output schema.
pub fn list_tools() -> (r: Vec<WitToolDefinition>)
    ensures
        r@.len() == 7,
        forall|i: int|
            0 <= i < 7 ==> (#[trigger] r@[i]).name@ == card_tool(i).0 && r@[i].description@
                == card_tool(i).1 && r@[i].input_schema_json@ == card_tool(i).2
                && r@[i].output_schema_json is None,
{
    let card = "{\"type\":\"object\",\"properties\":{\"card\":{\"type\":\"object\"}},\"required\":[\"card\"]}";
    let mut v: Vec<WitToolDefinition> = Vec::new();
    v.push(tool("validate_card", "Validate an Adaptive Card against v1.6 schema", card));
    v.push(tool("analyze_card", "Count elements, actions, and depth of a card", card));
    v.push(tool("check_accessibility", "Return an a11y score (0-100) and issue list", card));
    v.push(tool("optimize_card", "Apply accessibility + performance improvements (stub)", card));
    v.push(
        tool(
            "transform_card",
            "Apply a named transform (stub)",
            "{\"type\":\"object\",\"properties\":{\"card\":{\"type\":\"object\"},\"transform\":{\"type\":\"string\"}},\"required\":[\"card\",\"transform\"]}",
        ),
    );
    v.push(tool("template_card", "Convert card to data-bound template (stub)", card));
    v.push(
        tool(
            "data_to_card",
            "Infer a card from data (stub)",
            "{\"type\":\"object\",\"properties\":{\"data\":{}},\"required\":[\"data\"]}",
        ),
    );
    v
}

/// The card a tool call names: its `card` argument, or null.
pub open spec fn card_arg(args: JsonValue) -> JsonValue {
    match args.get_spec("card"@) {
        Some(c) => c,
        None => JsonValue::Null,
    }
}

/// The number of items of member `key` where it is an array, else 0.
pub open spec fn member_len(card: JsonValue, key: Seq<char>) -> nat {
    match card.array_member(key) {
        Some(items) => items.len(),
        None => 0,
    }
}

/// An image with no alternative text.
pub open spec fn missing_alt(el: JsonValue) -> bool {
    el.str_member("type"@) == Some("Image"@) && el.get_spec("altText"@) is None
}

/// The number of images without alternative text among `items`.
pub open spec fn count_missing_alt(items: Seq<JsonValue>) -> nat
    decreases items.len(),
{
    if items.len() == 0 {
        0
    } else {
        count_missing_alt(items.drop_last()) + if missing_alt(items.last()) {
            1nat
        } else {
            0nat
        }
    }
}

/// The card's body items, where `body` is an array.
pub open spec fn body_items(card: JsonValue) -> Seq<JsonValue> {
    match card.array_member("body"@) {
        Some(items) => items,
        None => Seq::empty(),
    }
}

/// The accessibility score: 100, less 20 per issue, never below 0.
pub open spec fn accessibility_score(issues: nat) -> nat {
    if issues >= 5 {
        0
    } else {
        (100 - 20 * issues) as nat
    }
}

/// `v` is the answer of `validate_card` for `card`.
pub open spec fn validate_card_json(v: JsonValue, card: JsonValue) -> bool {
    v matches JsonValue::Object(m) && m@.len() == 2 && m@[0].0@ == "valid"@ && (m@[0].1 matches JsonValue::Bool(b)
        && b == (card_diagnostics(card).len() == 0)) && m@[1].0@ == "diagnostics"@ && diagnostics_json(
        m@[1].1,
        card_diagnostics(card),
    )
}

/// `v` is the answer of `analyze_card` for `card`.
pub open spec fn analyze_json(v: JsonValue, card: JsonValue) -> bool {
    v matches JsonValue::Object(m) && m@.len() == 3 && m@[0].0@ == "body_elements"@ && json_number_is(
        m@[0].1,
        member_len(card, "body"@),
    ) && m@[1].0@ == "actions"@ && json_number_is(m@[1].1, member_len(card, "actions"@))
        && m@[2].0@ == "depth"@ && json_number_is(m@[2].1, 1)
}

/// `v` is the answer of `check_accessibility` for `card`: the score and one
/// issue per image without alternative text.
pub open spec fn accessibility_json(v: JsonValue, card: JsonValue) -> bool {
    v matches JsonValue::Object(m) && m@.len() == 2 && m@[0].0@ == "score"@ && json_number_is(
        m@[0].1,
        accessibility_score(count_missing_alt(body_items(card))),
    ) && m@[1].0@ == "issues"@ && (m@[1].1 matches JsonValue::Array(items) && items@.len()
        == count_missing_alt(body_items(card)) && forall|i: int|
        0 <= i < items@.len() ==> #[trigger] json_text_is(items@[i], "Image missing altText"@))
}

/// `v` is the answer of a tool that is not implemented yet.
pub open spec fn stub_json(v: JsonValue) -> bool {
    v matches JsonValue::Object(m) && m@.len() == 2 && m@[0].0@ == "status"@ && json_text_is(
        m@[0].1,
        "not_implemented_in_v1_6"@,
    ) && m@[1].0@ == "note"@ && json_text_is(
        m@[1].1,
        "Schema-level MVP; full logic lands in follow-up."@,
    )
}

/// The tools that answer with the not-implemented note.
pub open spec fn is_stub_tool(name: Seq<char>) -> bool {
    name == "optimize_card"@ || name == "transform_card"@ || name == "template_card"@ || name
        == "data_to_card"@
}

/// `r` is what tool `name` answers for the arguments `args`.
pub open spec fn tool_outcome(name: Seq<char>, args: JsonValue, r: Result<JsonValue, ExtensionErrorV01>) -> bool {
    if name == "validate_card"@ {
        r matches Ok(v) && validate_card_json(v, card_arg(args))
    } else if name == "analyze_card"@ {
        r matches Ok(v) && analyze_json(v, card_arg(args))
    } else if name == "check_accessibility"@ {
        r matches Ok(v) && accessibility_json(v, card_arg(args))
    } else if is_stub_tool(name) {
        r matches Ok(v) && stub_json(v)
    } else {
        r matches Err(ExtensionErrorV01::InvalidInput(m)) && m@ == "unknown tool: "@ + name
    }
}

fn member_count(card: &JsonValue, key: &str) -> (r: u64)
    ensures
        r == member_len(*card, key@),
{
    match card.get_array(key) {
        Some(items) => items.len() as u64,
        None => 0,
    }
}

fn is_missing_alt(el: &JsonValue) -> (r: bool)
    ensures
        r == missing_alt(*el),
{
    let is_image = match el.get_str("type") {
        Some(t) => str_eq(t, "Image"),
        None => false,
    };
    is_image && el.get("altText").is_none()
}

fn check_accessibility(card: &JsonValue) -> (r: JsonValue)
    ensures
        accessibility_json(r, *card),
{
    let empty: Vec<JsonValue> = Vec::new();
    let body = match card.get_array("body") {
        Some(items) => items,
        None => &empty,
    };
    assert(body@ == body_items(*card));
    let mut issues: Vec<JsonValue> = Vec::new();
    let n = body.len();
    let mut i: usize = 0;
    while i < n
        invariant
            n == body@.len(),
            i <= n,
            issues@.len() == count_missing_alt(body@.take(i as int)),
            forall|k: int| 0 <= k < issues@.len() ==> #[trigger] json_text_is(issues@[k], "Image missing altText"@),
        decreases n - i,
    {
        assert(body@.take(i + 1).drop_last() =~= body@.take(i as int));
        if is_missing_alt(&body[i]) {
            issues.push(text("Image missing altText"));
        }
        i = i + 1;
    }
    assert(body@.take(n as int) =~= body@);
    let count = issues.len();
    let score: u64 = if count >= 5 { 0 } else { 100 - 20 * (count as u64) };
    let mut m: Vec<(String, JsonValue)> = Vec::new();
    m.push((String::from_str("score"), number(score)));
    m.push((String::from_str("issues"), JsonValue::Array(issues)));
    JsonValue::Object(m)
}

fn stub_answer() -> (r: JsonValue)
    ensures
        stub_json(r),
{
    let mut m: Vec<(String, JsonValue)> = Vec::new();
    m.push((String::from_str("status"), text("not_implemented_in_v1_6")));
    m.push((String::from_str("note"), text("Schema-level MVP; full logic lands in follow-up.")));
    JsonValue::Object(m)
}

/// Run tool `name` on its parsed arguments (or the message of the error that
/// parsing them gave): `validate_card`, `analyze_card` and
/// `check_accessibility` look at the `card` argument, the other four known
/// tools answer that they are not implemented, and any other name is
/// refused.
pub fn invoke_tool(name: &str, args: Result<JsonValue, String>) -> (r: Result<JsonValue, ExtensionErrorV01>)
    ensures
        match args {
            Err(m) => r matches Err(ExtensionErrorV01::InvalidInput(e)) && e@ == m@,
            Ok(a) => tool_outcome(name@, a, r),
        },
{
    let a = match args {
        Ok(a) => a,
        Err(m) => {
            return Err(ExtensionErrorV01::InvalidInput(m));
        },
    };
    let null = JsonValue::Null;
    let card = match a.get("card") {
        Some(c) => c,
        None => &null,
    };
    assert(*card == card_arg(a));
    if str_eq(name, "validate_card") {
        let (valid, diagnostics) = validate_adaptive_card(card);
        let mut m: Vec<(String, JsonValue)> = Vec::new();
        m.push((String::from_str("valid"), JsonValue::Bool(valid)));
        m.push((String::from_str("diagnostics"), diagnostics_to_json(&diagnostics)));
        Ok(JsonValue::Object(m))
    } else if str_eq(name, "analyze_card") {
        let mut m: Vec<(String, JsonValue)> = Vec::new();
        m.push((String::from_str("body_elements"), number(member_count(card, "body"))));
        m.push((String::from_str("actions"), number(member_count(card, "actions"))));
        m.push((String::from_str("depth"), number(1)));
        Ok(JsonValue::Object(m))
    } else if str_eq(name, "check_accessibility") {
        Ok(check_accessibility(card))
    } else if str_eq(name, "optimize_card") || str_eq(name, "transform_card") || str_eq(
        name,
        "template_card",
    ) || str_eq(name, "data_to_card") {
        Ok(stub_answer())
    } else {
        Err(ExtensionErrorV01::InvalidInput(concat("unknown tool: ", name)))
    }
}

// ----- validation -----

/// The content-type labels the extension handles: `adaptive-card`, and
/// `AdaptiveCard`, the label the host documents for this extension.
pub open spec fn handles_content_type(t: Seq<char>) -> bool {
    t == "adaptive-card"@ || t == "AdaptiveCard"@
}

/// Validate content of `content_type` whose JSON was parsed into `parsed`
/// (or gave the error message in `parsed`): only Adaptive Card content is
/// handled, unparsable JSON is reported as such, and a parsed card is
/// checked by `validate_adaptive_card`.
pub fn validate_content(content_type: &str, parsed: Result<JsonValue, String>) -> (r: WitValidateResult)
    ensures
        !handles_content_type(content_type@) ==> !r.valid && r.diagnostics@.map_values(
            |d: WitDiagnostic| d@,
        ) == seq![
            error_diag(
                "unsupported-content-type"@,
                "this extension handles 'adaptive-card', got '"@ + content_type@ + "'"@,
                None,
            ),
        ],
        handles_content_type(content_type@) ==> match parsed {
            Err(m) => !r.valid && r.diagnostics@.map_values(|d: WitDiagnostic| d@) == seq![
                error_diag("json-parse"@, m@, None),
            ],
            Ok(card) => r.valid == (card_diagnostics(card).len() == 0) && r.diagnostics@.map_values(
                |d: WitDiagnostic| d@,
            ) == card_diagnostics(card),
        },
{
    if !(str_eq(content_type, "adaptive-card") || str_eq(content_type, "AdaptiveCard")) {
        let head = concat("this extension handles 'adaptive-card', got '", content_type);
        let message = concat(head.as_str(), "'");
        let mut diagnostics: Vec<WitDiagnostic> = Vec::new();
        diagnostics.push(error_diagnostic("unsupported-content-type", message, None));
        assert(diagnostics@.map_values(|d: WitDiagnostic| d@) =~= seq![
            error_diag(
                "unsupported-content-type"@,
                "this extension handles 'adaptive-card', got '"@ + content_type@ + "'"@,
                None,
            ),
        ]);
        return WitValidateResult { valid: false, diagnostics };
    }
    match parsed {
        Err(m) => {
            let mut diagnostics: Vec<WitDiagnostic> = Vec::new();
            let ghost mv = m@;
            diagnostics.push(error_diagnostic("json-parse", m, None));
            assert(diagnostics@.map_values(|d: WitDiagnostic| d@) =~= seq![
                error_diag("json-parse"@, mv, None),
            ]);
            WitValidateResult { valid: false, diagnostics }
        },
        Ok(card) => {
            let (valid, diagnostics) = validate_adaptive_card(&card);
            WitValidateResult { valid, diagnostics }
        },
    }
}

// ----- prompting and knowledge -----

/// The system-prompt fragments: the rules (priority 100), then the examples
/// (priority 50).
pub fn system_prompt_fragments(rules_markdown: &str, examples_markdown: &str) -> (r: Vec<WitPromptFragment>)
    ensures
        r@.len() == 2,
        r@[0].section@ == "rules"@ && r@[0].content_markdown@ == rules_markdown@ && r@[0].priority
            == 100,
        r@[1].section@ == "examples"@ && r@[1].content_markdown@ == examples_markdown@
            && r@[1].priority == 50,
{
    let mut v: Vec<WitPromptFragment> = Vec::new();
    v.push(
        WitPromptFragment {
            section: String::from_str("rules"),
            content_markdown: String::from_str(rules_markdown),
            priority: 100,
        },
    );
    v.push(
        WitPromptFragment {
            section: String::from_str("examples"),
            content_markdown: String::from_str(examples_markdown),
            priority: 50,
        },
    );
    v
}

/// The extension ships no knowledge entries.
pub fn list_entries(category_filter: Option<String>) -> (r: Vec<WitEntrySummary>)
    ensures
        r@.len() == 0,
{
    Vec::new()
}

/// No entry can be fetched: every id is refused, naming it.
pub fn get_entry(id: &str) -> (r: Result<WitEntry, ExtensionErrorV01>)
    ensures
        r matches Err(ExtensionErrorV01::InvalidInput(m)) && m@ == "no entry: "@ + id@,
{
    Err(ExtensionErrorV01::InvalidInput(concat("no entry: ", id)))
}

/// No entry is ever suggested.
pub fn suggest_entries(query: &str, limit: u32) -> (r: Vec<WitEntrySummary>)
    ensures
        r@.len() == 0,
{
    Vec::new()
}

/// `tools.invoke-tool` at the component boundary: the arguments arrive as
/// JSON text, are parsed with `serde_json`, and the tool's answer leaves as
/// compact JSON text. Arguments that do not parse are refused as invalid
/// input with the parser's message.
pub fn invoke_tool_json(name: &str, args_json: &str) -> (r: Result<String, ExtensionErrorV01>)
    ensures
        match json_text_parse(args_json@) {
            Err(m) => r matches Err(ExtensionErrorV01::InvalidInput(e)) && e@ == m,
            Ok(a) => match r {
                Ok(t) => exists|v: JsonValue| tool_outcome(name@, a, Ok(v)) && t@ == json_text_render(v),
                Err(e) => tool_outcome(name@, a, Err(e)),
            },
        },
{
    let args = parse_json(args_json);
    match invoke_tool(name, args) {
        Ok(v) => {
            let t = render_json(&v);
            assert(tool_outcome(name@, json_text_parse(args_json@)->Ok_0, Ok(v)));
            Ok(t)
        },
        Err(e) => Err(e),
    }
}

/// `validation.validate-content` at the component boundary: the content
/// arrives as JSON text and is parsed with `serde_json` before it is
/// checked; content that does not parse is reported as a `json-parse`
/// error with the parser's message.
pub fn validate_content_json(content_type: &str, content_json: &str) -> (r: WitValidateResult)
    ensures
        !handles_content_type(content_type@) ==> !r.valid && r.diagnostics@.map_values(
            |d: WitDiagnostic| d@,
        ) == seq![
            error_diag(
                "unsupported-content-type"@,
                "this extension handles 'adaptive-card', got '"@ + content_type@ + "'"@,
                None,
            ),
        ],
        handles_content_type(content_type@) ==> match json_text_parse(content_json@) {
            Err(m) => !r.valid && r.diagnostics@.map_values(|d: WitDiagnostic| d@) == seq![
                error_diag("json-parse"@, m, None),
            ],
            Ok(card) => r.valid == (card_diagnostics(card).len() == 0) && r.diagnostics@.map_values(
                |d: WitDiagnostic| d@,
            ) == card_diagnostics(card),
        },
{
    let parsed = parse_json(content_json);
    validate_content(content_type, parsed)
}

/// Every card version from `1.0` to `1.6`, with anything after it, is
/// supported; `1.7` and `2.0` are not.
pub proof fn law_versions_one_dot_zero_to_six_are_supported(rest: Seq<char>)
    ensures
        version_supported("1.0"@ + rest),
        version_supported("1.1"@ + rest),
        version_supported("1.2"@ + rest),
        version_supported("1.3"@ + rest),
        version_supported("1.4"@ + rest),
        version_supported("1.5"@ + rest),
        version_supported("1.6"@ + rest),
        !version_supported("1.7"@ + rest),
        !version_supported("2.0"@ + rest),
{
    reveal_strlit("1.0");
    reveal_strlit("1.1");
    reveal_strlit("1.2");
    reveal_strlit("1.3");
    reveal_strlit("1.4");
    reveal_strlit("1.5");
    reveal_strlit("1.6");
    reveal_strlit("1.7");
    reveal_strlit("2.0");
}

/// A card whose type is right and whose version is `1.` followed by a digit
/// from 0 to 6 (and anything after) draws no version finding.
pub proof fn law_supported_versions_draw_no_finding(card: JsonValue, d: char, rest: Seq<char>)
    requires
        '0' <= d <= '6',
        card.str_member("version"@) == Some(seq!['1', '.', d] + rest),
    ensures
        version_diagnostics(card).len() == 0,
{
    let v = seq!['1', '.', d] + rest;
    assert(v[0] == '1' && v[1] == '.' && v[2] == d);
}

} // verus!
