//! Runtime-level records and the decisions the runtime makes around its
//! outside work: where the trust store lives, which event a filesystem change
//! becomes, which contract version a dispatch uses, and when a deprecated
//! contract is reported.
use vstd::prelude::*;
use std::path::PathBuf;
use crate::text::{concat, debug_quoted, str_debug, str_eq};
use crate::tool_metadata::{contribution_tool_to_definition, is_definition_of, DeclaredTools};
use crate::types::ToolDefinition;

verus! {

#[verifier::external_type_specification]
#[verifier::external_body]
pub struct ExPathBuf(PathBuf);

/// `PathBuf::clone`.
///
/// Trusted: the clone is equal to the original, as `Clone` documents for
/// `PathBuf` (an owned copy of the same path).
pub assume_specification[ <PathBuf as Clone>::clone ](p: &PathBuf) -> (r: PathBuf)
    ensures
        r == *p,
;

/// The id of a loaded extension, as declared in its `describe.json`.
#[derive(Clone, Debug, PartialEq, Eq, Hash)]
pub struct ExtensionId(pub String);

impl ExtensionId {
    /// The id as text.
    pub fn as_str(&self) -> (r: &str)
        ensures
            r@ == self.0@,
    {
        self.0.as_str()
    }
}

/// Where extensions are discovered: the user root, and optionally a project
/// root.
#[derive(Debug, Clone)]
pub struct DiscoveryPaths {
    pub user: PathBuf,
    pub project: Option<PathBuf>,
}

impl DiscoveryPaths {
    /// Discovery under `user` alone.
    pub fn new(user: PathBuf) -> (r: Self)
        ensures
            r.user == user,
            r.project is None,
    {
        DiscoveryPaths { user, project: None }
    }

    /// The same paths with `project` as the project root.
    pub fn with_project(self, project: PathBuf) -> (r: Self)
        ensures
            r.user == self.user,
            r.project == Some(project),
    {
        let mut s = self;
        s.project = Some(project);
        s
    }

    /// Every root, the user root first.
    pub fn all(&self) -> (r: Vec<&PathBuf>)
        ensures
            r@ == match self.project {
                Some(p) => seq![&self.user, &p],
                None => seq![&self.user],
            },
    {
        let mut v: Vec<&PathBuf> = Vec::new();
        v.push(&self.user);
        match &self.project {
            Some(p) => v.push(p),
            None => {},
        }
        v
    }
}

/// What the runtime announces to its subscribers.
#[derive(Debug, Clone)]
pub enum RuntimeEvent {
    ExtensionInstalled(ExtensionId),
    ExtensionUpdated { id: ExtensionId, prev_version: String },
    ExtensionRemoved(ExtensionId),
    CapabilityRegistryRebuilt,
    /// The persistent enable/disable state file was created or modified.
    StateFileChanged,
}

/// A coalesced filesystem change under a watched root.
#[derive(Debug, Clone)]
pub enum FsEvent {
    Added(PathBuf),
    Modified(PathBuf),
    Removed(PathBuf),
}

/// What the runtime does about a filesystem change.
#[derive(Debug, Clone)]
pub enum FsAction {
    /// Tell subscribers the state file changed.
    AnnounceStateFile,
    /// Unload the extension in this directory.
    Unload(PathBuf),
    /// Verify and (re)load the extension in this directory.
    Reload(PathBuf),
    /// The change is outside every extension directory.
    Ignore,
}

/// File name of the persistent enable/disable state document.
pub open spec fn state_file_name() -> Seq<char> {
    "extensions-state.json"@
}

pub open spec fn fs_action_of(event: FsEvent, file_name: Option<Seq<char>>, ext_dir: Option<PathBuf>) -> FsAction {
    if file_name == Some(state_file_name()) {
        FsAction::AnnounceStateFile
    } else {
        match ext_dir {
            None => FsAction::Ignore,
            Some(d) => match event {
                FsEvent::Removed(_) => FsAction::Unload(d),
                _ => FsAction::Reload(d),
            },
        }
    }
}

pub open spec fn opt_str_view(o: Option<&str>) -> Option<Seq<char>> {
    match o {
        Some(s) => Some(s@),
        None => None,
    }
}

/// Decide what a filesystem change means, given the changed path's file name
/// and the extension directory that contains it (if any): a change to the
/// state file is announced as such; otherwise a removal unloads and any other
/// change reloads the containing extension.
pub fn fs_event_action(event: &FsEvent, file_name: Option<&str>, ext_dir: Option<PathBuf>) -> (r: FsAction)
    ensures
        r == fs_action_of(*event, opt_str_view(file_name), ext_dir),
{
    let is_state_file = match file_name {
        Some(n) => str_eq(n, "extensions-state.json"),
        None => false,
    };
    if is_state_file {
        return FsAction::AnnounceStateFile;
    }
    match ext_dir {
        None => FsAction::Ignore,
        Some(d) => match event {
            FsEvent::Removed(_) => FsAction::Unload(d),
            _ => FsAction::Reload(d),
        },
    }
}

/// Where the trust store lives: an explicit override first, then a
/// non-empty `$GREENTIC_HOME`, then `.greentic` under the home directory;
/// with none of these the resolution fails.
#[derive(Debug, Clone)]
pub enum TrustRootChoice {
    Explicit(PathBuf),
    GreenticHome(String),
    UnderHomeDir(PathBuf),
    Unresolvable,
}


/// Resolve the trust-store root from the configured override, the value of
/// `$GREENTIC_HOME` and the platform's home directory. An empty
/// `$GREENTIC_HOME` counts as unset.
pub fn resolve_trust_root(
    explicit: Option<PathBuf>,
    greentic_home: Option<String>,
    home_dir: Option<PathBuf>,
) -> (r: TrustRootChoice)
    ensures
        explicit matches Some(p) ==> r == TrustRootChoice::Explicit(p),
        explicit is None && (greentic_home matches Some(h) && h@.len() > 0) ==> r
            == TrustRootChoice::GreenticHome(greentic_home.unwrap()),
        explicit is None && !(greentic_home matches Some(h) && h@.len() > 0) && home_dir is Some
            ==> r == TrustRootChoice::UnderHomeDir(home_dir.unwrap()),
        explicit is None && !(greentic_home matches Some(h) && h@.len() > 0) && home_dir is None
            ==> r == TrustRootChoice::Unresolvable,
{
    if let Some(p) = explicit {
        return TrustRootChoice::Explicit(p);
    }
    if let Some(h) = greentic_home {
        if h.unicode_len() > 0 {
            return TrustRootChoice::GreenticHome(h);
        }
    }
    match home_dir {
        Some(d) => TrustRootChoice::UnderHomeDir(d),
        None => TrustRootChoice::Unresolvable,
    }
}

/// Which `extension-error` ABI a resolved contract version speaks.
#[derive(Debug, Clone, Copy, PartialEq, Eq)]
pub enum ErrorAbi {
    /// The four-variant error of base 0.1.0.
    Base01,
    /// The six-variant error of base 0.2.0.
    Base02,
}

/// Design interfaces are resolved newest first across these versions.
pub open spec fn design_versions() -> Seq<Seq<char>> {
    seq!["0.3.0"@, "0.2.0"@, "0.1.0"@]
}

/// The first version in `versions` that the component exports, as the index
/// into `versions`.
pub open spec fn first_exported(exported: Seq<bool>, i: int) -> bool {
    0 <= i < exported.len() && exported[i] && forall|j: int| 0 <= j < i ==> !exported[j]
}

/// Pick the newest exported version: `exported[i]` tells whether the
/// component exports the interface at the `i`-th version of the table.
pub fn select_version(exported: &[bool]) -> (r: Option<usize>)
    ensures
        match r {
            Some(i) => first_exported(exported@, i as int),
            None => forall|j: int| 0 <= j < exported@.len() ==> !exported@[j],
        },
{
    let n = exported.len();
    let mut i: usize = 0;
    while i < n
        invariant
            n == exported@.len(),
            i <= n,
            forall|j: int| 0 <= j < i ==> !exported@[j],
        decreases n - i,
    {
        if exported[i] {
            return Some(i);
        }
        i = i + 1;
    }
    None
}

/// The error ABI of a resolved design-interface version: design 0.3.0 speaks
/// base 0.2.0; 0.2.0 and 0.1.0 speak base 0.1.0.
pub fn design_error_abi(version: &str) -> (r: ErrorAbi)
    ensures
        (version@ == "0.3.0"@) ==> r == ErrorAbi::Base02,
        (version@ != "0.3.0"@) ==> r == ErrorAbi::Base01,
{
    if str_eq(version, "0.3.0") {
        ErrorAbi::Base02
    } else {
        ErrorAbi::Base01
    }
}

/// The error ABI of a resolved deploy or bundle interface version: 0.2.0
/// speaks base 0.2.0; 0.1.0 speaks base 0.1.0.
pub fn deploy_error_abi(version: &str) -> (r: ErrorAbi)
    ensures
        (version@ == "0.2.0"@) ==> r == ErrorAbi::Base02,
        (version@ != "0.2.0"@) ==> r == ErrorAbi::Base01,
{
    if str_eq(version, "0.2.0") {
        ErrorAbi::Base02
    } else {
        ErrorAbi::Base01
    }
}

/// The extensions already told that they use a deprecated contract.
#[derive(Debug)]
pub struct LegacyContractWarnings {
    warned: Vec<String>,
}

impl View for LegacyContractWarnings {
    type V = Set<Seq<char>>;

    closed spec fn view(&self) -> Set<Seq<char>> {
        self.warned@.map_values(|s: String| s@).to_set()
    }
}

impl LegacyContractWarnings {
    /// Nobody warned yet.
    pub fn new() -> (r: Self)
        ensures
            r@ == Set::<Seq<char>>::empty(),
    {
        let r = LegacyContractWarnings { warned: Vec::new() };
        assert(r@ =~= Set::<Seq<char>>::empty());
        r
    }

    /// Whether a deprecation warning is due for `ext_id` running contract
    /// `version` when `newest` is current: only off the newest contract, and
    /// only the first time for each extension.
    pub fn should_warn(&mut self, ext_id: &str, version: &str, newest: &str) -> (r: bool)
        ensures
            r == (version@ != newest@ && !old(self)@.contains(ext_id@)),
            final(self)@ == if version@ != newest@ {
                old(self)@.insert(ext_id@)
            } else {
                old(self)@
            },
    {
        if str_eq(version, newest) {
            return false;
        }
        let n = self.warned.len();
        let mut i: usize = 0;
        while i < n
            invariant
                n == self.warned@.len(),
                i <= n,
                forall|j: int| 0 <= j < i ==> self.warned@[j]@ != ext_id@,
            decreases n - i,
        {
            if str_eq(self.warned[i].as_str(), ext_id) {
                proof {
                    let s = self.warned@.map_values(|s: String| s@);
                    assert(s[i as int] == ext_id@);
                    assert(self@.contains(ext_id@));
                    assert(self@.insert(ext_id@) =~= self@);
                }
                return false;
            }
            i = i + 1;
        }
        let ghost before = self.warned@.map_values(|s: String| s@);
        proof {
            if before.to_set().contains(ext_id@) {
                let k = choose|k: int| 0 <= k < before.len() && before[k] == ext_id@;
                assert(self.warned@[k]@ == ext_id@);
            }
        }
        self.warned.push(String::from_str(ext_id));
        proof {
            let after = self.warned@.map_values(|s: String| s@);
            assert(after =~= before.push(ext_id@));
            before.lemma_push_to_set_commute(ext_id@);
        }
        true
    }
}

/// A deprecation warning is issued at most once per extension: after a call
/// for an extension off the newest contract, a later call for the same
/// extension issues none.
pub proof fn law_legacy_warning_at_most_once(
    before: Set<Seq<char>>,
    ext_id: Seq<char>,
    version: Seq<char>,
    newest: Seq<char>,
    later_version: Seq<char>,
)
    requires
        version != newest,
    ensures
        !(later_version != newest && !before.insert(ext_id).contains(ext_id)),
{
}

/// For a `greentic.ai/v2` extension, `describe.json` is the only source of
/// its tools: the declared tools mapped to definitions. `None` for other
/// contracts, whose tools come from the component itself.
pub fn declared_tool_definitions(describe: &DeclaredTools) -> (r: Option<Vec<ToolDefinition>>)
    ensures
        (describe.api_version@ != "greentic.ai/v2"@) ==> r is None,
        (describe.api_version@ == "greentic.ai/v2"@) ==> (r matches Some(defs) && defs@.len()
            == describe.tools@.len() && forall|i: int|
            0 <= i < defs@.len() ==> is_definition_of(defs@[i], describe.tools@[i])),
{
    if !str_eq(describe.api_version.as_str(), "greentic.ai/v2") {
        return None;
    }
    let n = describe.tools.len();
    let mut out: Vec<ToolDefinition> = Vec::new();
    let mut i: usize = 0;
    while i < n
        invariant
            n == describe.tools@.len(),
            i <= n,
            out@.len() == i,
            forall|j: int| 0 <= j < i ==> is_definition_of(out@[j], describe.tools@[j]),
        decreases n - i,
    {
        out.push(contribution_tool_to_definition(&describe.tools[i]));
        i = i + 1;
    }
    Some(out)
}

/// A runtime component an extension's describe declares: its id and, where
/// set, the file of its gtpack.
#[derive(Debug, Clone)]
pub struct DeclaredComponent {
    pub id: String,
    pub gtpack_file: Option<String>,
}

/// The file a source-dir load instantiates, relative to the extension's
/// directory: `extension.wasm` where the directory has one at its root,
/// otherwise the gtpack file of the one declared component.
pub open spec fn component_file(root_wasm_exists: bool, components: Seq<DeclaredComponent>) -> Result<Seq<char>, Seq<char>> {
    if root_wasm_exists {
        Ok("extension.wasm"@)
    } else if components.len() == 0 {
        Err("describe.runtime.components must declare at least one entry"@)
    } else if components.len() > 1 {
        Err(
            "describe.runtime.components has more than one entry; multi-component dispatch is not yet implemented"@,
        )
    } else {
        match components[0].gtpack_file {
            Some(f) => Ok(f@),
            None => Err(
                "describe.runtime.components["@ + str_debug(components[0].id@)
                    + "].gtpack must be set for source-dir loads (OCI-only deploy is not yet supported)"@,
            ),
        }
    }
}

pub open spec fn text_result_view(r: Result<String, String>) -> Result<Seq<char>, Seq<char>> {
    match r {
        Ok(v) => Ok(v@),
        Err(m) => Err(m@),
    }
}

/// Choose the component file to load, given whether the directory has an
/// `extension.wasm` at its root and the components its describe declares.
pub fn wasm_component_path(root_wasm_exists: bool, components: &[DeclaredComponent]) -> (r: Result<String, String>)
    ensures
        text_result_view(r) == component_file(root_wasm_exists, components@),
{
    if root_wasm_exists {
        return Ok(String::from_str("extension.wasm"));
    }
    if components.len() == 0 {
        return Err(String::from_str("describe.runtime.components must declare at least one entry"));
    }
    if components.len() > 1 {
        return Err(
            String::from_str(
                "describe.runtime.components has more than one entry; multi-component dispatch is not yet implemented",
            ),
        );
    }
    let only = &components[0];
    match &only.gtpack_file {
        Some(f) => Ok(f.clone()),
        None => {
            let quoted = debug_quoted(only.id.as_str());
            let head = concat("describe.runtime.components[", quoted.as_str());
            Err(
                concat(
                    head.as_str(),
                    "].gtpack must be set for source-dir loads (OCI-only deploy is not yet supported)",
                ),
            )
        },
    }
}

/// Inside an extension directory, any change to a file other than the state
/// file reloads that directory, unless it is a removal, which unloads it:
/// an added file and a modified file are handled alike.
pub proof fn law_changes_inside_an_extension_reload_it(event: FsEvent, file_name: Option<Seq<char>>, d: PathBuf)
    requires
        file_name != Some("extensions-state.json"@),
    ensures
        !(event is Removed) ==> fs_action_of(event, file_name, Some(d)) == FsAction::Reload(d),
        event is Removed ==> fs_action_of(event, file_name, Some(d)) == FsAction::Unload(d),
{
}

/// A change to the state file is announced as such wherever it lies; any
/// other change outside every extension directory is ignored.
pub proof fn law_state_file_and_outside_changes(event: FsEvent, file_name: Option<Seq<char>>, dir: Option<PathBuf>)
    ensures
        file_name == Some("extensions-state.json"@) ==> fs_action_of(event, file_name, dir) == FsAction::AnnounceStateFile,
        file_name != Some("extensions-state.json"@) && dir is None ==> fs_action_of(event, file_name, dir) == FsAction::Ignore,
{
}

} // verus!
