//! The capability registry and the loaded set it is derived from.
//!
//! The registry holds nothing that cannot be derived from the loaded
//! extensions, so every change to the loaded set rebuilds it wholesale: an
//! extension that goes away takes its offerings with it, a capability dropped
//! from a describe disappears, and a re-registered directory is not counted
//! twice.
use vstd::prelude::*;
use crate::error::RuntimeError;
use crate::kind::ExtensionKind;
use crate::runtime::{ExtensionId, RuntimeEvent};
use crate::text::{concat, str_eq};
use crate::types::{HostExtensionError, RoleError};

verus! {

/// A semantic version: its numbers, pre-release and build metadata.
#[derive(Debug, Clone)]
pub struct SemVer {
    pub major: u64,
    pub minor: u64,
    pub patch: u64,
    pub pre: String,
    pub build: String,
}

impl View for SemVer {
    type V = (u64, u64, u64, Seq<char>, Seq<char>);

    open spec fn view(&self) -> Self::V {
        (self.major, self.minor, self.patch, self.pre@, self.build@)
    }
}

/// What `semver::Version::parse` gives for `text`: the version's numbers,
/// pre-release and build metadata, or the message of its error.
pub uninterp spec fn semver_parse(text: Seq<char>) -> Result<(u64, u64, u64, Seq<char>, Seq<char>), Seq<char>>;

/// `semver::Version::parse`, its error turned into its message.
///
/// Trusted: the outcome is `semver_parse` of the text, a function of the text
/// alone, and an empty text is refused (the parser's first check).
#[verifier::external_body]
fn parse_version(text: &str) -> (r: Result<SemVer, String>)
    ensures
        match r {
            Ok(v) => semver_parse(text@) == Ok::<(u64, u64, u64, Seq<char>, Seq<char>), Seq<char>>(v@),
            Err(m) => semver_parse(text@) == Err::<(u64, u64, u64, Seq<char>, Seq<char>), Seq<char>>(m@),
        },
        text@.len() == 0 ==> r is Err,
{
    match semver::Version::parse(text) {
        Ok(v) => Ok(SemVer {
            major: v.major,
            minor: v.minor,
            patch: v.patch,
            pre: v.pre.as_str().to_string(),
            build: v.build.as_str().to_string(),
        }),
        Err(e) => Err(e.to_string()),
    }
}

impl SemVer {
    /// Parse a version with `semver`'s rules; the error is the parser's
    /// message.
    pub fn parse(text: &str) -> (r: Result<SemVer, String>)
        ensures
            match r {
                Ok(v) => semver_parse(text@) == Ok::<(u64, u64, u64, Seq<char>, Seq<char>), Seq<char>>(v@),
                Err(m) => semver_parse(text@) == Err::<(u64, u64, u64, Seq<char>, Seq<char>), Seq<char>>(m@),
            },
            text@.len() == 0 ==> r is Err,
    {
        parse_version(text)
    }
}

/// One capability offered by one loaded extension, as the registry records it.
#[derive(Debug, Clone)]
pub struct OfferedBinding {
    pub extension_id: String,
    pub cap_id: String,
    pub version: SemVer,
    pub kind: ExtensionKind,
    pub export_path: String,
}

impl View for OfferedBinding {
    type V = (Seq<char>, Seq<char>, (u64, u64, u64, Seq<char>, Seq<char>), ExtensionKind, Seq<char>);

    open spec fn view(&self) -> Self::V {
        (self.extension_id@, self.cap_id@, self.version@, self.kind, self.export_path@)
    }
}

/// The capabilities the loaded extensions offer, in the order they were added.
#[derive(Debug, Clone)]
pub struct CapabilityRegistry {
    offerings: Vec<OfferedBinding>,
}

impl CapabilityRegistry {
    /// The registry's bindings, each by its view.
    pub closed spec fn bindings(&self) -> Seq<(Seq<char>, Seq<char>, (u64, u64, u64, Seq<char>, Seq<char>), ExtensionKind, Seq<char>)> {
        self.offerings@.map_values(|b: OfferedBinding| b@)
    }

    /// An empty registry.
    pub fn new() -> (r: Self)
        ensures
            r.bindings().len() == 0,
    {
        CapabilityRegistry { offerings: Vec::new() }
    }

    /// Record one more offering.
    pub fn add_offering(&mut self, binding: OfferedBinding)
        ensures
            final(self).bindings() == old(self).bindings().push(binding@),
    {
        let ghost v = binding@;
        self.offerings.push(binding);
        assert(self.offerings@.map_values(|b: OfferedBinding| b@) =~= old(self).offerings@.map_values(
            |b: OfferedBinding| b@,
        ).push(v));
    }

    /// Every offering, in order.
    pub fn offerings(&self) -> (r: &[OfferedBinding])
        ensures
            r@.map_values(|b: OfferedBinding| b@) == self.bindings(),
    {
        self.offerings.as_slice()
    }
}

/// A capability an extension's describe offers: its id and version text.
#[derive(Debug, Clone)]
pub struct OfferedCapability {
    pub id: String,
    pub version: String,
}

/// What the runtime keeps of a loaded extension for its bookkeeping: its id,
/// the directory it was loaded from, its version, its kind and the
/// capabilities it offers.
#[derive(Debug, Clone)]
pub struct LoadedExtension {
    pub id: ExtensionId,
    pub source_dir: String,
    pub version: String,
    pub kind: ExtensionKind,
    pub offered: Vec<OfferedCapability>,
}

/// The parsed version of an offered capability, where it parses.
pub open spec fn offered_version(c: OfferedCapability) -> (u64, u64, u64, Seq<char>, Seq<char>) {
    match semver_parse(c.version@) {
        Ok(v) => v,
        Err(_) => arbitrary(),
    }
}

/// Whether an offered capability's version parses.
pub open spec fn version_parses(c: OfferedCapability) -> bool {
    semver_parse(c.version@) is Ok
}

/// The binding that extension `e` offering `c` contributes.
pub open spec fn binding_of(e: LoadedExtension, c: OfferedCapability) -> (Seq<char>, Seq<char>, (u64, u64, u64, Seq<char>, Seq<char>), ExtensionKind, Seq<char>) {
    (e.id.0@, c.id@, offered_version(c), e.kind, Seq::empty())
}

/// Binding `b` is the one extension `e` offering `c` contributes.
pub open spec fn comes_from(
    b: (Seq<char>, Seq<char>, (u64, u64, u64, Seq<char>, Seq<char>), ExtensionKind, Seq<char>),
    e: LoadedExtension,
    c: OfferedCapability,
) -> bool {
    b == binding_of(e, c)
}

/// Binding `b` is contributed by some offered capability of some extension of
/// `es`.
pub open spec fn offered_by(
    b: (Seq<char>, Seq<char>, (u64, u64, u64, Seq<char>, Seq<char>), ExtensionKind, Seq<char>),
    es: Seq<LoadedExtension>,
) -> bool {
    exists|i: int, j: int|
        0 <= i < es.len() && 0 <= j < es[i].offered@.len() && #[trigger] comes_from(
            b,
            es[i],
            es[i].offered@[j],
        )
}

/// The bindings one extension contributes, in the order it offers them.
pub open spec fn bindings_of(e: LoadedExtension) -> Seq<(Seq<char>, Seq<char>, (u64, u64, u64, Seq<char>, Seq<char>), ExtensionKind, Seq<char>)> {
    e.offered@.map_values(|c: OfferedCapability| binding_of(e, c))
}

/// The registry a loaded set derives: each extension's bindings, extension
/// after extension.
pub open spec fn derived_bindings(es: Seq<LoadedExtension>) -> Seq<(Seq<char>, Seq<char>, (u64, u64, u64, Seq<char>, Seq<char>), ExtensionKind, Seq<char>)>
    decreases es.len(),
{
    if es.len() == 0 {
        Seq::empty()
    } else {
        derived_bindings(es.drop_last()) + bindings_of(es.last())
    }
}

/// Every offered version of every extension parses.
pub open spec fn versions_parse(es: Seq<LoadedExtension>) -> bool {
    forall|i: int, j: int|
        0 <= i < es.len() && 0 <= j < es[i].offered@.len() ==> #[trigger] version_parses(
            es[i].offered@[j],
        )
}

/// `e` is the error a rebuild reports for a version whose parse gave `outcome`.
pub open spec fn reports_bad_version(
    e: RuntimeError,
    outcome: Result<(u64, u64, u64, Seq<char>, Seq<char>), Seq<char>>,
) -> bool {
    match (e, outcome) {
        (RuntimeError::Wasmtime(s), Err(m)) => s@ == "bad offered version: "@ + m,
        _ => false,
    }
}

/// The binding extension `ext` offering `cap` contributes, given what the
/// capability's version text parsed into, or the error a version that does
/// not parse is reported with.
pub fn offering_from(ext: &LoadedExtension, cap: &OfferedCapability, version: Result<SemVer, String>) -> (r: Result<OfferedBinding, RuntimeError>)
    ensures
        match version {
            Ok(v) => r matches Ok(b) && b@ == (ext.id.0@, cap.id@, v@, ext.kind, Seq::<char>::empty()),
            Err(m) => r matches Err(RuntimeError::Wasmtime(s)) && s@ == "bad offered version: "@ + m@,
        },
{
    match version {
        Ok(v) => Ok(
            OfferedBinding {
                extension_id: ext.id.0.clone(),
                cap_id: cap.id.clone(),
                version: v,
                kind: ext.kind,
                export_path: String::new(),
            },
        ),
        Err(m) => Err(RuntimeError::Wasmtime(concat("bad offered version: ", m.as_str()))),
    }
}

/// Derive the capability registry from the loaded set: every offered
/// capability of every extension, with its version parsed. A version that
/// does not parse fails the rebuild.
pub fn rebuild_registry(loaded: &Vec<LoadedExtension>) -> (r: Result<CapabilityRegistry, RuntimeError>)
    ensures
        r is Ok <==> versions_parse(loaded@),
        r matches Ok(reg) ==> reg.bindings() == derived_bindings(loaded@),
        r matches Err(e) ==> exists|i: int, j: int|
            0 <= i < loaded@.len() && 0 <= j < loaded@[i].offered@.len() && #[trigger] reports_bad_version(
                e,
                semver_parse(loaded@[i].offered@[j].version@),
            ),
{
    let mut registry = CapabilityRegistry::new();
    proof {
        assert(loaded@.take(0) =~= Seq::<LoadedExtension>::empty());
        assert(registry.bindings() =~= derived_bindings(loaded@.take(0)));
    }
    let n = loaded.len();
    let mut i: usize = 0;
    while i < n
        invariant
            n == loaded@.len(),
            i <= n,
            registry.bindings() == derived_bindings(loaded@.take(i as int)),
            versions_parse(loaded@.take(i as int)),
        decreases n - i,
    {
        let ext = &loaded[i];
        let m = ext.offered.len();
        let mut j: usize = 0;
        proof {
            assert(bindings_of(loaded@[i as int]).take(0) =~= Seq::empty());
            assert(registry.bindings() =~= derived_bindings(loaded@.take(i as int)) + bindings_of(
                loaded@[i as int],
            ).take(0));
        }
        while j < m
            invariant
                n == loaded@.len(),
                i < n,
                *ext == loaded@[i as int],
                m == ext.offered@.len(),
                j <= m,
                registry.bindings() == derived_bindings(loaded@.take(i as int)) + bindings_of(
                    loaded@[i as int],
                ).take(j as int),
                forall|jj: int| 0 <= jj < j ==> #[trigger] version_parses(ext.offered@[jj]),
            decreases m - j,
        {
            let cap = &ext.offered[j];
            let parsed = parse_version(cap.version.as_str());
            proof {
                assert(*cap == loaded@[i as int].offered@[j as int]);
            }
            match offering_from(ext, cap, parsed) {
                Ok(binding) => {
                    let ghost before = registry.bindings();
                    registry.add_offering(binding);
                    proof {
                        assert(binding_of(*ext, *cap) == bindings_of(*ext)[j as int]);
                        assert(bindings_of(*ext).take(j + 1) =~= bindings_of(*ext).take(
                            j as int,
                        ).push(bindings_of(*ext)[j as int]));
                        assert(registry.bindings() =~= derived_bindings(loaded@.take(i as int))
                            + bindings_of(loaded@[i as int]).take(j + 1));
                    }
                },
                Err(e) => {
                    proof {
                        assert(!version_parses(loaded@[i as int].offered@[j as int]));
                        assert(reports_bad_version(
                            e,
                            semver_parse(loaded@[i as int].offered@[j as int].version@),
                        ));
                    }
                    return Err(e);
                },
            }
            j = j + 1;
        }
        proof {
            let es = loaded@.take(i + 1);
            assert(es.drop_last() =~= loaded@.take(i as int));
            assert(es.last() == loaded@[i as int]);
            assert(bindings_of(loaded@[i as int]).take(m as int) =~= bindings_of(
                loaded@[i as int],
            ));
            assert forall|a: int, b: int|
                0 <= a < es.len() && 0 <= b < es[a].offered@.len() implies #[trigger] version_parses(
                es[a].offered@[b],
            ) by {
                if a < i {
                    assert(es[a] == loaded@.take(i as int)[a]);
                }
            }
        }
        i = i + 1;
    }
    proof {
        assert(loaded@.take(n as int) =~= loaded@);
    }
    Ok(registry)
}

/// No two loaded extensions share an id.
pub open spec fn ids_unique(es: Seq<LoadedExtension>) -> bool {
    forall|a: int, b: int|
        0 <= a < es.len() && 0 <= b < es.len() && a != b ==> #[trigger] es[a].id.0@ != #[trigger] es[b].id.0@
}

/// Some loaded extension has id `id`.
pub open spec fn has_id(es: Seq<LoadedExtension>, id: Seq<char>) -> bool {
    exists|k: int| 0 <= k < es.len() && #[trigger] es[k].id.0@ == id
}

/// The position of the extension with id `id`, where there is one.
pub open spec fn slot_of(es: Seq<LoadedExtension>, id: Seq<char>) -> int {
    choose|k: int| 0 <= k < es.len() && #[trigger] es[k].id.0@ == id
}

/// The loaded set after loading `e`: it takes the place of the extension with
/// the same id, or joins the set.
pub open spec fn upserted(es: Seq<LoadedExtension>, e: LoadedExtension) -> Seq<LoadedExtension> {
    if has_id(es, e.id.0@) {
        es.update(slot_of(es, e.id.0@), e)
    } else {
        es.push(e)
    }
}

/// `k` is the first position whose extension was loaded from `dir`.
pub open spec fn first_in_dir(es: Seq<LoadedExtension>, dir: Seq<char>, k: int) -> bool {
    &&& 0 <= k < es.len()
    &&& es[k].source_dir@ == dir
    &&& forall|k2: int| 0 <= k2 < k ==> #[trigger] es[k2].source_dir@ != dir
}

/// Some loaded extension was loaded from `dir`.
pub open spec fn has_dir(es: Seq<LoadedExtension>, dir: Seq<char>) -> bool {
    exists|k: int| 0 <= k < es.len() && #[trigger] es[k].source_dir@ == dir
}

/// `ev` announces that `e` was loaded into `before`: an update carrying the
/// version it replaces where its id was loaded, an installation otherwise.
pub open spec fn announces_load(ev: RuntimeEvent, before: Seq<LoadedExtension>, e: LoadedExtension) -> bool {
    if has_id(before, e.id.0@) {
        ev matches RuntimeEvent::ExtensionUpdated { id, prev_version } && id.0@ == e.id.0@
            && prev_version@ == before[slot_of(before, e.id.0@)].version@
    } else {
        ev matches RuntimeEvent::ExtensionInstalled(id) && id.0@ == e.id.0@
    }
}

/// The loaded extensions and the capability registry derived from them.
pub struct LoadedState {
    loaded: Vec<LoadedExtension>,
    registry: CapabilityRegistry,
}

impl LoadedState {
    /// The loaded extensions.
    pub closed spec fn entries(&self) -> Seq<LoadedExtension> {
        self.loaded@
    }

    /// The registry's bindings.
    pub closed spec fn registry_bindings(&self) -> Seq<(Seq<char>, Seq<char>, (u64, u64, u64, Seq<char>, Seq<char>), ExtensionKind, Seq<char>)> {
        self.registry.bindings()
    }

    /// Ids are unique, every offered version parses, and the registry is the
    /// one the loaded set derives.
    pub open spec fn wf(&self) -> bool {
        &&& ids_unique(self.entries())
        &&& versions_parse(self.entries())
        &&& self.registry_bindings() == derived_bindings(self.entries())
    }

    /// Nothing loaded, nothing offered.
    pub fn new() -> (r: Self)
        ensures
            r.wf(),
            r.entries().len() == 0,
            r.registry_bindings().len() == 0,
    {
        let r = LoadedState { loaded: Vec::new(), registry: CapabilityRegistry::new() };
        proof {
            assert(r.registry_bindings() =~= derived_bindings(r.entries()));
        }
        r
    }

    /// The loaded extensions.
    pub fn loaded(&self) -> (r: &[LoadedExtension])
        ensures
            r@ == self.entries(),
    {
        self.loaded.as_slice()
    }

    /// The capability registry.
    pub fn capability_registry(&self) -> (r: &CapabilityRegistry)
        ensures
            r.bindings() == self.registry_bindings(),
    {
        &self.registry
    }

    /// The loaded extension with id `ext_id`, or `NotFound` naming it.
    pub fn get(&self, ext_id: &str) -> (r: Result<&LoadedExtension, RuntimeError>)
        requires
            self.wf(),
        ensures
            match r {
                Ok(e) => has_id(self.entries(), ext_id@) && *e == self.entries()[slot_of(
                    self.entries(),
                    ext_id@,
                )],
                Err(RuntimeError::NotFound(m)) => !has_id(self.entries(), ext_id@) && m@ == ext_id@,
                Err(_) => false,
            },
    {
        match self.find_id(ext_id) {
            Some(k) => {
                proof {
                    lemma_slot_is_unique(self.entries(), ext_id@, k as int);
                }
                Ok(&self.loaded[k])
            },
            None => Err(RuntimeError::NotFound(String::from_str(ext_id))),
        }
    }

    /// The loaded extension a `compile-role` call goes to; an extension id
    /// that is not loaded is answered with `UnknownRole` naming it.
    pub fn role_extension(&self, ext_id: &str) -> (r: Result<&LoadedExtension, RoleError>)
        requires
            self.wf(),
        ensures
            match r {
                Ok(e) => has_id(self.entries(), ext_id@) && *e == self.entries()[slot_of(
                    self.entries(),
                    ext_id@,
                )],
                Err(RoleError::UnknownRole(m)) => !has_id(self.entries(), ext_id@) && m@ == ext_id@,
                Err(_) => false,
            },
    {
        match self.get(ext_id) {
            Ok(e) => Ok(e),
            Err(RuntimeError::NotFound(m)) => Err(RoleError::UnknownRole(m)),
            Err(_) => Err(RoleError::UnknownRole(String::from_str(ext_id))),
        }
    }

    /// The position of the extension with id `id`.
    fn find_id(&self, id: &str) -> (r: Option<usize>)
        ensures
            match r {
                Some(k) => k < self.entries().len() && self.entries()[k as int].id.0@ == id@,
                None => !has_id(self.entries(), id@),
            },
    {
        let n = self.loaded.len();
        let mut k: usize = 0;
        while k < n
            invariant
                n == self.loaded@.len(),
                k <= n,
                forall|k2: int| 0 <= k2 < k ==> #[trigger] self.loaded@[k2].id.0@ != id@,
            decreases n - k,
        {
            if str_eq(self.loaded[k].id.0.as_str(), id) {
                return Some(k);
            }
            k = k + 1;
        }
        None
    }

    /// Load `ext` into the set and rebuild the registry. On success the new
    /// set is `upserted(old, ext)` and the old version is handed back where
    /// `ext` replaced an extension; on failure nothing changes.
    fn load_and_rebuild(&mut self, ext: LoadedExtension) -> (r: Result<Option<String>, RuntimeError>)
        requires
            old(self).wf(),
        ensures
            final(self).wf(),
            r is Ok <==> versions_parse(upserted(old(self).entries(), ext)),
            r is Ok ==> final(self).entries() == upserted(old(self).entries(), ext),
            r is Err ==> final(self).entries() == old(self).entries()
                && final(self).registry_bindings() == old(self).registry_bindings(),
            r matches Err(e) ==> exists|i: int, j: int|
                0 <= i < upserted(old(self).entries(), ext).len()
                && 0 <= j < upserted(old(self).entries(), ext)[i].offered@.len()
                && #[trigger] reports_bad_version(
                    e,
                    semver_parse(upserted(old(self).entries(), ext)[i].offered@[j].version@),
                ),
            r matches Ok(prev) ==> match prev {
                Some(v) => has_id(old(self).entries(), ext.id.0@)
                    && v@ == old(self).entries()[slot_of(old(self).entries(), ext.id.0@)].version@,
                None => !has_id(old(self).entries(), ext.id.0@),
            },
    {
        let ghost before = self.loaded@;
        let ghost target = upserted(before, ext);
        proof {
            lemma_upsert_keeps_ids_unique(before, ext);
        }
        match self.find_id(ext.id.0.as_str()) {
            Some(k) => {
                proof {
                    lemma_slot_is_unique(before, ext.id.0@, k as int);
                }
                let old_ext = self.loaded.remove(k);
                self.loaded.insert(k, ext);
                assert(self.loaded@ =~= target);
                match rebuild_registry(&self.loaded) {
                    Ok(reg) => {
                        self.registry = reg;
                        Ok(Some(old_ext.version.clone()))
                    },
                    Err(e) => {
                        let _ = self.loaded.remove(k);
                        self.loaded.insert(k, old_ext);
                        assert(self.loaded@ =~= before);
                        Err(e)
                    },
                }
            },
            None => {
                self.loaded.push(ext);
                assert(self.loaded@ =~= target);
                match rebuild_registry(&self.loaded) {
                    Ok(reg) => {
                        self.registry = reg;
                        Ok(None)
                    },
                    Err(e) => {
                        let _ = self.loaded.pop();
                        assert(self.loaded@ =~= before);
                        Err(e)
                    },
                }
            },
        }
    }

    /// Register an extension that was verified and loaded from its directory,
    /// announcing it as installed. A version that does not parse fails the
    /// registration and leaves the loaded set and the registry as they were.
    pub fn register_loaded(&mut self, ext: LoadedExtension) -> (r: Result<RuntimeEvent, RuntimeError>)
        requires
            old(self).wf(),
        ensures
            final(self).wf(),
            r is Ok <==> versions_parse(upserted(old(self).entries(), ext)),
            r is Ok ==> final(self).entries() == upserted(old(self).entries(), ext),
            r is Err ==> final(self).entries() == old(self).entries()
                && final(self).registry_bindings() == old(self).registry_bindings(),
            r matches Err(e) ==> exists|i: int, j: int|
                0 <= i < upserted(old(self).entries(), ext).len()
                && 0 <= j < upserted(old(self).entries(), ext)[i].offered@.len()
                && #[trigger] reports_bad_version(
                    e,
                    semver_parse(upserted(old(self).entries(), ext)[i].offered@[j].version@),
                ),
            r matches Ok(ev) ==> ev matches RuntimeEvent::ExtensionInstalled(id) && id.0@ == ext.id.0@,
    {
        let id = ExtensionId(ext.id.0.clone());
        match self.load_and_rebuild(ext) {
            Ok(_) => Ok(RuntimeEvent::ExtensionInstalled(id)),
            Err(e) => Err(e),
        }
    }

    /// Reload an extension whose directory was added or modified: announced
    /// as an update carrying the version it replaces where its id was loaded,
    /// as an installation otherwise. A failed rebuild changes nothing.
    pub fn handle_added_or_modified(&mut self, ext: LoadedExtension) -> (r: Result<RuntimeEvent, RuntimeError>)
        requires
            old(self).wf(),
        ensures
            final(self).wf(),
            r is Ok <==> versions_parse(upserted(old(self).entries(), ext)),
            r is Ok ==> final(self).entries() == upserted(old(self).entries(), ext),
            r is Err ==> final(self).entries() == old(self).entries()
                && final(self).registry_bindings() == old(self).registry_bindings(),
            r matches Err(e) ==> exists|i: int, j: int|
                0 <= i < upserted(old(self).entries(), ext).len()
                && 0 <= j < upserted(old(self).entries(), ext)[i].offered@.len()
                && #[trigger] reports_bad_version(
                    e,
                    semver_parse(upserted(old(self).entries(), ext)[i].offered@[j].version@),
                ),
            r matches Ok(ev) ==> announces_load(ev, old(self).entries(), ext),
    {
        let id = ExtensionId(ext.id.0.clone());
        match self.load_and_rebuild(ext) {
            Ok(Some(prev_version)) => Ok(RuntimeEvent::ExtensionUpdated { id, prev_version }),
            Ok(None) => Ok(RuntimeEvent::ExtensionInstalled(id)),
            Err(e) => Err(e),
        }
    }

    /// Unload the extension loaded from `dir` (the first one, in load order)
    /// and rebuild the registry without it, announcing its removal. With no
    /// extension in `dir` nothing changes.
    pub fn handle_removal(&mut self, dir: &str) -> (r: Option<RuntimeEvent>)
        requires
            old(self).wf(),
        ensures
            final(self).wf(),
            r is None <==> !has_dir(old(self).entries(), dir@),
            r is None ==> final(self).entries() == old(self).entries(),
            r matches Some(ev) ==> exists|k: int|
                #[trigger] first_in_dir(old(self).entries(), dir@, k)
                && final(self).entries() == old(self).entries().remove(k)
                && (ev matches RuntimeEvent::ExtensionRemoved(id)
                && id.0@ == old(self).entries()[k].id.0@),
    {
        let ghost before = self.loaded@;
        let n = self.loaded.len();
        let mut k: usize = 0;
        while k < n
            invariant
                n == self.loaded@.len(),
                self.loaded@ == before,
                old(self).entries() == before,
                self.wf(),
                k <= n,
                forall|k2: int| 0 <= k2 < k ==> #[trigger] self.loaded@[k2].source_dir@ != dir@,
            decreases n - k,
        {
            if str_eq(self.loaded[k].source_dir.as_str(), dir) {
                let removed = self.loaded.remove(k);
                proof {
                    assert(first_in_dir(before, dir@, k as int));
                    assert(has_dir(before, dir@));
                    lemma_remove_keeps_wf(before, k as int);
                }
                match rebuild_registry(&self.loaded) {
                    Ok(reg) => {
                        self.registry = reg;
                    },
                    Err(_) => {
                        assert(false);
                    },
                }
                return Some(RuntimeEvent::ExtensionRemoved(removed.id));
            }
            k = k + 1;
        }
        None
    }
}

/// Loading an extension into a set with unique ids keeps them unique.
proof fn lemma_upsert_keeps_ids_unique(es: Seq<LoadedExtension>, e: LoadedExtension)
    requires
        ids_unique(es),
    ensures
        ids_unique(upserted(es, e)),
        has_id(es, e.id.0@) ==> 0 <= slot_of(es, e.id.0@) < es.len()
            && es[slot_of(es, e.id.0@)].id.0@ == e.id.0@,
{
    if has_id(es, e.id.0@) {
        let s = slot_of(es, e.id.0@);
        let out = upserted(es, e);
        assert forall|a: int, b: int|
            0 <= a < out.len() && 0 <= b < out.len() && a != b implies #[trigger] out[a].id.0@
            != #[trigger] out[b].id.0@ by {
            if a == s {
                assert(es[b].id.0@ != es[s].id.0@);
            } else if b == s {
                assert(es[a].id.0@ != es[s].id.0@);
            }
        }
    } else {
        let out = upserted(es, e);
        assert forall|a: int, b: int|
            0 <= a < out.len() && 0 <= b < out.len() && a != b implies #[trigger] out[a].id.0@
            != #[trigger] out[b].id.0@ by {
            if a == es.len() {
                assert(!(es[b].id.0@ == e.id.0@));
            } else if b == es.len() {
                assert(!(es[a].id.0@ == e.id.0@));
            }
        }
    }
}

/// With unique ids, the position holding an id is the one `slot_of` names.
proof fn lemma_slot_is_unique(es: Seq<LoadedExtension>, id: Seq<char>, k: int)
    requires
        ids_unique(es),
        0 <= k < es.len(),
        es[k].id.0@ == id,
    ensures
        has_id(es, id),
        slot_of(es, id) == k,
{
    assert(has_id(es, id));
    let s = slot_of(es, id);
    if s != k {
        assert(es[s].id.0@ != es[k].id.0@);
    }
}

/// Dropping an extension keeps ids unique and versions parsing.
proof fn lemma_remove_keeps_wf(es: Seq<LoadedExtension>, k: int)
    requires
        ids_unique(es),
        versions_parse(es),
        0 <= k < es.len(),
    ensures
        ids_unique(es.remove(k)),
        versions_parse(es.remove(k)),
{
    let out = es.remove(k);
    assert forall|a: int, b: int|
        0 <= a < out.len() && 0 <= b < out.len() && a != b implies #[trigger] out[a].id.0@
        != #[trigger] out[b].id.0@ by {
        let a2 = if a < k { a } else { a + 1 };
        let b2 = if b < k { b } else { b + 1 };
        assert(out[a] == es[a2]);
        assert(out[b] == es[b2]);
        assert(es[a2].id.0@ != es[b2].id.0@);
    }
    assert forall|a: int, j: int|
        0 <= a < out.len() && 0 <= j < out[a].offered@.len() implies #[trigger] version_parses(
        out[a].offered@[j],
    ) by {
        let a2 = if a < k { a } else { a + 1 };
        assert(out[a] == es[a2]);
        assert(version_parses(es[a2].offered@[j]));
    }
}

/// Each binding a loaded set derives comes from an offered capability of one
/// of its extensions, and each offered capability contributes its binding.
proof fn lemma_derived_sources(es: Seq<LoadedExtension>)
    ensures
        forall|idx: int|
            0 <= idx < derived_bindings(es).len() ==> #[trigger] offered_by(
                derived_bindings(es)[idx],
                es,
            ),
        forall|i: int, j: int|
            0 <= i < es.len() && 0 <= j < es[i].offered@.len() ==> derived_bindings(es).contains(
                #[trigger] binding_of(es[i], es[i].offered@[j]),
            ),
    decreases es.len(),
{
    if es.len() > 0 {
        let init = es.drop_last();
        let last = es.last();
        lemma_derived_sources(init);
        let d0 = derived_bindings(init);
        let d = derived_bindings(es);
        assert(d == d0 + bindings_of(last));
        assert forall|idx: int| 0 <= idx < d.len() implies #[trigger] offered_by(d[idx], es) by {
            if idx < d0.len() {
                assert(offered_by(d0[idx], init));
                let (i, j) = choose|i: int, j: int|
                    0 <= i < init.len() && 0 <= j < init[i].offered@.len() && #[trigger] comes_from(
                        d0[idx],
                        init[i],
                        init[i].offered@[j],
                    );
                assert(init[i] == es[i]);
                assert(d[idx] == d0[idx]);
                assert(comes_from(d[idx], es[i], es[i].offered@[j]));
            } else {
                let j = idx - d0.len();
                assert(d[idx] == bindings_of(last)[j]);
                assert(comes_from(d[idx], es[es.len() - 1], es[es.len() - 1].offered@[j]));
            }
        }
        assert forall|i: int, j: int|
            0 <= i < es.len() && 0 <= j < es[i].offered@.len() implies d.contains(
            #[trigger] binding_of(es[i], es[i].offered@[j]),
        ) by {
            let b = binding_of(es[i], es[i].offered@[j]);
            if i < es.len() - 1 {
                assert(init[i] == es[i]);
                assert(d0.contains(binding_of(init[i], init[i].offered@[j])));
                let idx = choose|idx: int| 0 <= idx < d0.len() && d0[idx] == b;
                assert(d[idx] == b);
            } else {
                assert(d[d0.len() + j] == bindings_of(last)[j]);
                assert(d[d0.len() + j] == b);
            }
        }
    } else {
        assert(derived_bindings(es).len() == 0);
    }
}

/// The registry holds exactly what the loaded set derives: every binding in
/// it is an offered capability of a loaded extension, and every offered
/// capability of every loaded extension is in it.
pub proof fn law_registry_is_derived(s: &LoadedState)
    requires
        s.wf(),
    ensures
        forall|idx: int|
            0 <= idx < s.registry_bindings().len() ==> #[trigger] offered_by(
                s.registry_bindings()[idx],
                s.entries(),
            ),
        forall|i: int, j: int|
            0 <= i < s.entries().len() && 0 <= j < s.entries()[i].offered@.len()
                ==> s.registry_bindings().contains(
                #[trigger] binding_of(s.entries()[i], s.entries()[i].offered@[j]),
            ),
{
    lemma_derived_sources(s.entries());
}

/// Once an extension leaves the loaded set, the registry derived from what
/// remains offers nothing on its behalf.
pub proof fn law_removal_drops_offerings(es: Seq<LoadedExtension>, k: int)
    requires
        ids_unique(es),
        0 <= k < es.len(),
    ensures
        forall|idx: int|
            0 <= idx < derived_bindings(es.remove(k)).len() ==> (#[trigger] derived_bindings(
                es.remove(k),
            )[idx]).0 != es[k].id.0@,
{
    let rest = es.remove(k);
    lemma_derived_sources(rest);
    assert forall|idx: int| 0 <= idx < derived_bindings(rest).len() implies (
    #[trigger] derived_bindings(rest)[idx]).0 != es[k].id.0@ by {
        assert(offered_by(derived_bindings(rest)[idx], rest));
        let (i, j) = choose|i: int, j: int|
            0 <= i < rest.len() && 0 <= j < rest[i].offered@.len() && #[trigger] comes_from(
                derived_bindings(rest)[idx],
                rest[i],
                rest[i].offered@[j],
            );
        let i2 = if i < k { i } else { i + 1 };
        assert(rest[i] == es[i2]);
        assert(es[i2].id.0@ != es[k].id.0@);
    }
}

/// Loading the same extension twice leaves the loaded set, and so the
/// registry, as loading it once did: a re-registered directory is never
/// counted twice.
pub proof fn law_reload_is_idempotent(es: Seq<LoadedExtension>, e: LoadedExtension)
    requires
        ids_unique(es),
    ensures
        upserted(upserted(es, e), e) == upserted(es, e),
        derived_bindings(upserted(upserted(es, e), e)) == derived_bindings(upserted(es, e)),
{
    lemma_upsert_keeps_ids_unique(es, e);
    let once = upserted(es, e);
    if has_id(es, e.id.0@) {
        let s = slot_of(es, e.id.0@);
        assert(once[s] == e);
        lemma_slot_is_unique(once, e.id.0@, s);
        assert(upserted(once, e) =~= once);
    } else {
        let s = es.len() as int;
        assert(once[s] == e);
        lemma_slot_is_unique(once, e.id.0@, s);
        assert(upserted(once, e) =~= once);
    }
}

/// The role interface a `compile-role` call is made through.
pub open spec fn roles_interface() -> Seq<char> {
    "greentic:extension-design/roles@0.2.0"@
}

/// The error a `compile-role` call answers with when the extension cannot be
/// instantiated: a host `Internal` error naming the extension and the cause.
pub fn role_instantiate_error(ext_id: &str, cause: &str) -> (r: RoleError)
    ensures
        r matches RoleError::Host(HostExtensionError::Internal(m)) && m@ == "instantiate '"@ + ext_id@
            + "': "@ + cause@,
{
    let mut m = concat("instantiate '", ext_id);
    m.append("': ");
    m.append(cause);
    RoleError::Host(HostExtensionError::Internal(m))
}

/// The error a `compile-role` call answers with when the extension does not
/// export the role interface.
pub fn role_interface_missing_error(ext_id: &str) -> (r: RoleError)
    ensures
        r matches RoleError::Host(HostExtensionError::Internal(m)) && m@ == "extension '"@ + ext_id@
            + "' does not export '"@ + roles_interface() + "'"@,
{
    let mut m = concat("extension '", ext_id);
    m.append("' does not export '");
    m.append("greentic:extension-design/roles@0.2.0");
    m.append("'");
    RoleError::Host(HostExtensionError::Internal(m))
}

/// The error a `compile-role` call answers with when the role interface has
/// no `compile-role` function.
pub fn role_function_missing_error() -> (r: RoleError)
    ensures
        r matches RoleError::Host(HostExtensionError::Internal(m)) && m@ == "interface '"@
            + roles_interface() + "' does not export 'compile-role'"@,
{
    let mut m = concat("interface '", "greentic:extension-design/roles@0.2.0");
    m.append("' does not export 'compile-role'");
    RoleError::Host(HostExtensionError::Internal(m))
}

} // verus!
