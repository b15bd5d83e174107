//! Tool metadata declared in `describe.json`: mapping declared tools to the
//! host-side definitions, and the load-time report of what a
//! `greentic.ai/v2` extension's declared tools leave out.
use vstd::prelude::*;
use crate::text::{concat, decimal, decimal_string, join, join_strings};
use crate::types::ToolDefinition;

verus! {

/// A tool as an extension declares it under `contributions.tools`.
#[derive(Debug, Clone)]
pub struct ContributedTool {
    pub name: String,
    pub export: String,
    pub capabilities: Option<Vec<String>>,
    pub description: Option<String>,
    pub input_schema: Option<String>,
    pub output_schema: Option<String>,
    pub agentic_worker_metadata: Option<String>,
}

/// What the metadata report reads of a describe: its contract version and
/// its declared tools.
#[derive(Debug, Clone)]
pub struct DeclaredTools {
    pub api_version: String,
    pub tools: Vec<ContributedTool>,
}

/// The metadata gaps across one v2 extension's declared tools. A tool can
/// appear in more than one category; `tools` is the number declared.
#[derive(Debug, PartialEq, Eq)]
pub struct ToolMetadataGaps {
    pub tools: usize,
    pub no_description: Vec<String>,
    pub no_input_schema: Vec<String>,
    pub no_capabilities: Vec<String>,
}

/// Unicode `White_Space`, the set `char::is_whitespace` tests: U+0009 to
/// U+000D, U+0020, U+0085, U+00A0, U+1680, U+2000 to U+200A, U+2028, U+2029,
/// U+202F, U+205F and U+3000.
pub open spec fn unicode_whitespace(c: char) -> bool {
    let n = c as u32;
    ||| 0x09 <= n <= 0x0d
    ||| n == 0x20
    ||| n == 0x85
    ||| n == 0xa0
    ||| n == 0x1680
    ||| 0x2000 <= n <= 0x200a
    ||| n == 0x2028
    ||| n == 0x2029
    ||| n == 0x202f
    ||| n == 0x205f
    ||| n == 0x3000
}

/// Whether `c` is Unicode whitespace, as `trim` treats it.
pub fn is_whitespace(c: char) -> (r: bool)
    ensures
        r == unicode_whitespace(c),
{
    let n = c as u32;
    (0x09 <= n && n <= 0x0d) || n == 0x20 || n == 0x85 || n == 0xa0 || n == 0x1680 || (0x2000 <= n
        && n <= 0x200a) || n == 0x2028 || n == 0x2029 || n == 0x202f || n == 0x205f || n == 0x3000
}

/// `s` is empty once surrounding whitespace is trimmed: every character is
/// whitespace.
pub open spec fn is_blank(s: Seq<char>) -> bool {
    forall|i: int| 0 <= i < s.len() ==> unicode_whitespace(s[i])
}

/// An optional text field counts as missing when absent or blank.
pub open spec fn text_missing(o: Option<String>) -> bool {
    match o {
        None => true,
        Some(s) => is_blank(s@),
    }
}

/// The contract version under which `describe.json` is the sole source of
/// tool metadata.
pub open spec fn v2_api_version() -> Seq<char> {
    "greentic.ai/v2"@
}

/// The names of the tools for which `missing` holds, in declaration order.
pub open spec fn names_where(tools: Seq<ContributedTool>, missing: spec_fn(ContributedTool) -> bool) -> Seq<
    Seq<char>,
>
    decreases tools.len(),
{
    if tools.len() == 0 {
        Seq::empty()
    } else {
        let prev = names_where(tools.drop_last(), missing);
        if missing(tools.last()) {
            prev.push(tools.last().name@)
        } else {
            prev
        }
    }
}

pub open spec fn lacks_description(t: ContributedTool) -> bool {
    text_missing(t.description)
}

pub open spec fn lacks_input_schema(t: ContributedTool) -> bool {
    text_missing(t.input_schema)
}

pub open spec fn lacks_capabilities(t: ContributedTool) -> bool {
    t.capabilities is None
}

/// The report for a describe: `None` unless it is on the v2 contract and some
/// declared tool leaves something out.
pub open spec fn gaps_report(d: DeclaredTools) -> Option<(nat, Seq<Seq<char>>, Seq<Seq<char>>, Seq<Seq<char>>)> {
    let tools = d.tools@;
    let a = names_where(tools, |t: ContributedTool| lacks_description(t));
    let b = names_where(tools, |t: ContributedTool| lacks_input_schema(t));
    let c = names_where(tools, |t: ContributedTool| lacks_capabilities(t));
    if d.api_version@ != v2_api_version() || (a.len() == 0 && b.len() == 0 && c.len() == 0) {
        None
    } else {
        Some((tools.len(), a, b, c))
    }
}

pub open spec fn gaps_view(g: Option<ToolMetadataGaps>) -> Option<(nat, Seq<Seq<char>>, Seq<Seq<char>>, Seq<Seq<char>>)> {
    match g {
        None => None,
        Some(g) => Some(
            (
                g.tools as nat,
                g.no_description.deep_view(),
                g.no_input_schema.deep_view(),
                g.no_capabilities.deep_view(),
            ),
        ),
    }
}

fn text_is_missing(o: &Option<String>) -> (r: bool)
    ensures
        r == text_missing(*o),
{
    match o {
        None => true,
        Some(s) => {
            let n = s.unicode_len();
            let mut i: usize = 0;
            while i < n
                invariant
                    n == s@.len(),
                    i <= n,
                    *o == Some(*s),
                    forall|j: int| 0 <= j < i ==> unicode_whitespace(s@[j]),
                decreases n - i,
            {
                if !is_whitespace(s.as_str().get_char(i)) {
                    return false;
                }
                i = i + 1;
            }
            true
        },
    }
}

/// Collect the metadata gaps of a describe's declared tools, or `None` when
/// there is nothing to report: the extension is not on the v2 contract, or
/// every declared tool is fully declared. A description or input schema that
/// is blank counts as missing.
pub fn collect_tool_metadata_gaps(describe: &DeclaredTools) -> (r: Option<ToolMetadataGaps>)
    ensures
        gaps_view(r) == gaps_report(*describe),
{
    if !crate::text::str_eq(describe.api_version.as_str(), "greentic.ai/v2") {
        return None;
    }
    let tools = &describe.tools;
    let n = tools.len();
    let mut no_description: Vec<String> = Vec::new();
    let mut no_input_schema: Vec<String> = Vec::new();
    let mut no_capabilities: Vec<String> = Vec::new();
    let mut i: usize = 0;
    while i < n
        invariant
            n == tools@.len(),
            i <= n,
            no_description.deep_view() == names_where(
                tools@.subrange(0, i as int),
                |t: ContributedTool| lacks_description(t),
            ),
            no_input_schema.deep_view() == names_where(
                tools@.subrange(0, i as int),
                |t: ContributedTool| lacks_input_schema(t),
            ),
            no_capabilities.deep_view() == names_where(
                tools@.subrange(0, i as int),
                |t: ContributedTool| lacks_capabilities(t),
            ),
        decreases n - i,
    {
        let t = &tools[i];
        let ghost pre = tools@.subrange(0, i + 1);
        assert(pre.drop_last() =~= tools@.subrange(0, i as int));
        assert(pre.last() == *t);
        if text_is_missing(&t.description) {
            let ghost before = no_description.deep_view();
            no_description.push(t.name.clone());
            assert(no_description.deep_view() =~= before.push(t.name@));
        }
        if text_is_missing(&t.input_schema) {
            let ghost before = no_input_schema.deep_view();
            no_input_schema.push(t.name.clone());
            assert(no_input_schema.deep_view() =~= before.push(t.name@));
        }
        if t.capabilities.is_none() {
            let ghost before = no_capabilities.deep_view();
            no_capabilities.push(t.name.clone());
            assert(no_capabilities.deep_view() =~= before.push(t.name@));
        }
        i = i + 1;
    }
    assert(tools@.subrange(0, n as int) =~= tools@);
    if no_description.len() == 0 && no_input_schema.len() == 0 && no_capabilities.len() == 0 {
        return None;
    }
    Some(ToolMetadataGaps { tools: n, no_description, no_input_schema, no_capabilities })
}

/// Tool names spelled out per category before the rest are counted.
pub const MAX_NAMES_SHOWN: usize = 3;

/// One category rendered as `"<count> (<first names>, +N more)"`, or `"0"`
/// when the category is clean.
pub open spec fn names_line(names: Seq<Seq<char>>) -> Seq<char> {
    if names.len() == 0 {
        "0"@
    } else {
        let shown = if names.len() < 3 { names.len() } else { 3 };
        let elided = (names.len() - shown) as nat;
        let more = if elided == 0 { Seq::empty() } else { ", +"@ + decimal(elided) + " more"@ };
        decimal(names.len()) + " ("@ + join(names.subrange(0, shown as int), ", "@) + more + ")"@
    }
}

/// Render one category of gaps for the report line.
pub fn format_names(names: &[String]) -> (r: String)
    ensures
        r@ == names_line(names.deep_view()),
{
    let n = names.len();
    if n == 0 {
        return String::from_str("0");
    }
    let shown = if n < MAX_NAMES_SHOWN { n } else { MAX_NAMES_SHOWN };
    let elided = n - shown;
    let mut out = decimal_string(n as u64);
    out.append(" (");
    let listed = join_strings(names, shown, ", ");
    out.append(listed.as_str());
    if elided > 0 {
        out.append(", +");
        let e = decimal_string(elided as u64);
        out.append(e.as_str());
        out.append(" more");
    }
    out.append(")");
    proof {
        let more = if elided == 0 { Seq::<char>::empty() } else { ", +"@ + decimal(elided as nat) + " more"@ };
        assert(out@ =~= decimal(n as nat) + " ("@ + join(names.deep_view().subrange(0, shown as int), ", "@) + more + ")"@);
    }
    out
}

/// `d` is the host-side definition of the declared tool `t`.
pub open spec fn is_definition_of(d: ToolDefinition, t: ContributedTool) -> bool {
    &&& d.name@ == t.name@
    &&& d.description@ == match t.description {
        Some(x) => x@,
        None => Seq::empty(),
    }
    &&& d.input_schema_json@ == match t.input_schema {
        Some(x) => x@,
        None => Seq::empty(),
    }
    &&& d.output_schema_json == t.output_schema
    &&& d.capabilities.deep_view() == t.capabilities.deep_view()
    &&& d.agentic_worker_metadata == t.agentic_worker_metadata
}

/// An element-wise copy of `v`.
pub fn clone_strings(v: &Vec<String>) -> (r: Vec<String>)
    ensures
        r.deep_view() == v.deep_view(),
{
    let mut out: Vec<String> = Vec::new();
    let n = v.len();
    let mut i: usize = 0;
    while i < n
        invariant
            n == v@.len(),
            i <= n,
            out.deep_view() =~= v.deep_view().subrange(0, i as int),
        decreases n - i,
    {
        let ghost before = out.deep_view();
        let c = v[i].clone();
        out.push(c);
        assert(out.deep_view() =~= before.push(v@[i as int]@));
        assert(v.deep_view().subrange(0, i + 1) =~= v.deep_view().subrange(0, i as int).push(
            v@[i as int]@,
        ));
        i = i + 1;
    }
    assert(v.deep_view().subrange(0, n as int) =~= v.deep_view());
    out
}

/// Map a declared tool to the host-side definition: absent description and
/// input schema become empty strings; everything else is carried over.
pub fn contribution_tool_to_definition(t: &ContributedTool) -> (r: ToolDefinition)
    ensures
        is_definition_of(r, *t),
{
    ToolDefinition {
        name: t.name.clone(),
        description: match &t.description {
            Some(d) => d.clone(),
            None => String::new(),
        },
        input_schema_json: match &t.input_schema {
            Some(s) => s.clone(),
            None => String::new(),
        },
        output_schema_json: t.output_schema.clone(),
        capabilities: match &t.capabilities {
            Some(c) => Some(clone_strings(c)),
            None => None,
        },
        agentic_worker_metadata: t.agentic_worker_metadata.clone(),
    }
}

} // verus!
