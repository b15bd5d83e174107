//! Capability resolution: which offering a consumer's requirement binds to,
//! and which extensions depend on one another in a cycle.
use vstd::prelude::*;
use crate::kind::ExtensionKind;
use crate::registry::{CapabilityRegistry, OfferedBinding, SemVer};
use crate::text::str_eq;

verus! {

/// A capability a consumer requires: the capability's id and a `semver`
/// version requirement such as `^1.0`.
#[derive(Debug, Clone)]
pub struct CapabilityRef {
    pub id: String,
    pub version: String,
}

impl View for CapabilityRef {
    type V = (Seq<char>, Seq<char>);

    open spec fn view(&self) -> Self::V {
        (self.id@, self.version@)
    }
}

/// What resolving a consumer's requirements gave: the binding chosen for
/// each resolved capability id (one per id), and the requirements nothing
/// satisfies, in order.
#[derive(Debug, Clone)]
pub struct ResolutionPlan {
    pub consumer: String,
    pub resolved: Vec<OfferedBinding>,
    pub unresolved: Vec<CapabilityRef>,
}

/// Whether `semver::VersionReq::parse(req)` accepts `version` by
/// `VersionReq::matches`; `None` when the requirement does not parse or the
/// version's pre-release or build text is not a valid identifier.
pub uninterp spec fn semver_req_matches(
    req: Seq<char>,
    version: (u64, u64, u64, Seq<char>, Seq<char>),
) -> Option<bool>;

/// `semver::VersionReq::parse`, then `VersionReq::matches` on the version
/// rebuilt as a `semver::Version`.
///
/// Trusted: the outcome is named by [`semver_req_matches`], a function of the
/// requirement text and the version; the requirement rules (caret, tilde,
/// comparators) are not stated.
#[verifier::external_body]
fn req_matches(req: &str, v: &SemVer) -> (r: Option<bool>)
    ensures
        r == semver_req_matches(req@, v@),
{
    let req = semver::VersionReq::parse(req).ok()?;
    let pre = semver::Prerelease::new(&v.pre).ok()?;
    let build = semver::BuildMetadata::new(&v.build).ok()?;
    Some(req.matches(&semver::Version { major: v.major, minor: v.minor, patch: v.patch, pre, build }))
}

/// `semver::Version`'s `<` on the two versions rebuilt as
/// `semver::Version`s.
///
/// Trusted: the outcome is named by [`semver_precedes`], a function of the
/// two versions; the pre-release ordering rules are not stated.
#[verifier::external_body]
fn version_precedes(a: &SemVer, b: &SemVer) -> (r: Option<bool>)
    ensures
        r == semver_precedes(a@, b@),
{
    let rebuilt = |v: &SemVer| {
        let pre = semver::Prerelease::new(&v.pre).ok()?;
        let build = semver::BuildMetadata::new(&v.build).ok()?;
        Some(semver::Version { major: v.major, minor: v.minor, patch: v.patch, pre, build })
    };
    Some(rebuilt(a)? < rebuilt(b)?)
}

/// The binding offers the required capability at a version the requirement
/// accepts.
pub open spec fn satisfies(
    b: (Seq<char>, Seq<char>, (u64, u64, u64, Seq<char>, Seq<char>), ExtensionKind, Seq<char>),
    req: (Seq<char>, Seq<char>),
) -> bool {
    b.1 == req.0 && semver_req_matches(req.1, b.2) == Some(true)
}

/// Whether `semver::Version` orders `a` strictly before `b` (semver
/// precedence, the crate's `<`); `None` when the pre-release or build text of
/// either is not a valid identifier.
pub uninterp spec fn semver_precedes(
    a: (u64, u64, u64, Seq<char>, Seq<char>),
    b: (u64, u64, u64, Seq<char>, Seq<char>),
) -> Option<bool>;

/// Version `a` ranks above version `b` by the plain parts of semver
/// precedence: a greater major, minor, patch triple, or the same triple with
/// `a` a release and `b` a pre-release.
pub open spec fn outranks_plainly(
    a: (u64, u64, u64, Seq<char>, Seq<char>),
    b: (u64, u64, u64, Seq<char>, Seq<char>),
) -> bool {
    ||| a.0 > b.0
    ||| a.0 == b.0 && a.1 > b.1
    ||| a.0 == b.0 && a.1 == b.1 && a.2 > b.2
    ||| a.0 == b.0 && a.1 == b.1 && a.2 == b.2 && a.3.len() == 0 && b.3.len() > 0
}

/// Version `a` ranks above version `b`: it does so plainly, or both are
/// pre-releases of the same triple and `semver` orders `b` before `a`.
pub open spec fn outranks(
    a: (u64, u64, u64, Seq<char>, Seq<char>),
    b: (u64, u64, u64, Seq<char>, Seq<char>),
) -> bool {
    ||| outranks_plainly(a, b)
    ||| {
        &&& a.0 == b.0 && a.1 == b.1 && a.2 == b.2
        &&& a.3.len() > 0 && b.3.len() > 0
        &&& semver_precedes(b, a) == Some(true)
    }
}

/// The offering a requirement binds to: the offerings are taken in order,
/// the first that satisfies it is held, and each later satisfying offering
/// that outranks the one held replaces it.
pub open spec fn best_offer(
    bs: Seq<(Seq<char>, Seq<char>, (u64, u64, u64, Seq<char>, Seq<char>), ExtensionKind, Seq<char>)>,
    req: (Seq<char>, Seq<char>),
) -> Option<(Seq<char>, Seq<char>, (u64, u64, u64, Seq<char>, Seq<char>), ExtensionKind, Seq<char>)>
    decreases bs.len(),
{
    if bs.len() == 0 {
        None
    } else {
        let prev = best_offer(bs.drop_last(), req);
        let b = bs.last();
        if satisfies(b, req) {
            match prev {
                None => Some(b),
                Some(p) => if outranks(b.2, p.2) {
                    Some(b)
                } else {
                    Some(p)
                },
            }
        } else {
            prev
        }
    }
}

/// Some resolved binding is for capability `id`.
pub open spec fn has_cap(
    s: Seq<(Seq<char>, Seq<char>, (u64, u64, u64, Seq<char>, Seq<char>), ExtensionKind, Seq<char>)>,
    id: Seq<char>,
) -> bool {
    exists|k: int| 0 <= k < s.len() && s[k].1 == id
}

/// The position of the resolved binding for capability `id`.
pub open spec fn cap_slot(
    s: Seq<(Seq<char>, Seq<char>, (u64, u64, u64, Seq<char>, Seq<char>), ExtensionKind, Seq<char>)>,
    id: Seq<char>,
) -> int {
    choose|k: int| 0 <= k < s.len() && s[k].1 == id
}

/// No capability id is resolved twice.
pub open spec fn caps_unique(
    s: Seq<(Seq<char>, Seq<char>, (u64, u64, u64, Seq<char>, Seq<char>), ExtensionKind, Seq<char>)>,
) -> bool {
    forall|i: int, j: int| 0 <= i < s.len() && 0 <= j < s.len() && i != j ==> s[i].1 != s[j].1
}

/// The resolutions after binding `b`: it replaces an earlier binding for the
/// same capability id, or is added after the others.
pub open spec fn record_resolution(
    s: Seq<(Seq<char>, Seq<char>, (u64, u64, u64, Seq<char>, Seq<char>), ExtensionKind, Seq<char>)>,
    b: (Seq<char>, Seq<char>, (u64, u64, u64, Seq<char>, Seq<char>), ExtensionKind, Seq<char>),
) -> Seq<(Seq<char>, Seq<char>, (u64, u64, u64, Seq<char>, Seq<char>), ExtensionKind, Seq<char>)> {
    if has_cap(s, b.1) {
        s.update(cap_slot(s, b.1), b)
    } else {
        s.push(b)
    }
}

/// The plan for requirements `reqs` against offerings `bs`: each
/// requirement in turn is bound to its best offering, or recorded as
/// unresolved when nothing satisfies it.
pub open spec fn plan_of(
    bs: Seq<(Seq<char>, Seq<char>, (u64, u64, u64, Seq<char>, Seq<char>), ExtensionKind, Seq<char>)>,
    reqs: Seq<(Seq<char>, Seq<char>)>,
) -> (Seq<(Seq<char>, Seq<char>, (u64, u64, u64, Seq<char>, Seq<char>), ExtensionKind, Seq<char>)>, Seq<(Seq<char>, Seq<char>)>)
    decreases reqs.len(),
{
    if reqs.len() == 0 {
        (Seq::empty(), Seq::empty())
    } else {
        let prev = plan_of(bs, reqs.drop_last());
        match best_offer(bs, reqs.last()) {
            Some(b) => (record_resolution(prev.0, b), prev.1),
            None => (prev.0, prev.1.push(reqs.last())),
        }
    }
}

impl SemVer {
    /// A copy of this version.
    pub fn duplicate(&self) -> (r: SemVer)
        ensures
            r@ == self@,
    {
        SemVer {
            major: self.major,
            minor: self.minor,
            patch: self.patch,
            pre: self.pre.clone(),
            build: self.build.clone(),
        }
    }
}

impl OfferedBinding {
    /// A copy of this binding.
    pub fn duplicate(&self) -> (r: OfferedBinding)
        ensures
            r@ == self@,
    {
        OfferedBinding {
            extension_id: self.extension_id.clone(),
            cap_id: self.cap_id.clone(),
            version: self.version.duplicate(),
            kind: self.kind,
            export_path: self.export_path.clone(),
        }
    }
}

impl CapabilityRef {
    /// A copy of this requirement.
    pub fn duplicate(&self) -> (r: CapabilityRef)
        ensures
            r@ == self@,
    {
        CapabilityRef { id: self.id.clone(), version: self.version.clone() }
    }
}

/// Whether `outranks` holds, computed.
fn version_outranks(a: &SemVer, b: &SemVer) -> (r: bool)
    ensures
        r == outranks(a@, b@),
{
    if a.major != b.major {
        a.major > b.major
    } else if a.minor != b.minor {
        a.minor > b.minor
    } else if a.patch != b.patch {
        a.patch > b.patch
    } else if a.pre.unicode_len() == 0 {
        b.pre.unicode_len() > 0
    } else if b.pre.unicode_len() == 0 {
        false
    } else {
        match version_precedes(b, a) {
            Some(earlier) => earlier,
            None => false,
        }
    }
}

impl CapabilityRegistry {
    /// The offering `req` binds to, if any satisfies it.
    pub fn best_offering(&self, req: &CapabilityRef) -> (r: Option<&OfferedBinding>)
        ensures
            match r {
                Some(b) => best_offer(self.bindings(), req@) == Some(b@),
                None => best_offer(self.bindings(), req@) is None,
            },
    {
        let offers = self.offerings();
        let ghost bs = self.bindings();
        let n = offers.len();
        let mut best: Option<&OfferedBinding> = None;
        let mut i: usize = 0;
        while i < n
            invariant
                n == offers@.len(),
                bs == offers@.map_values(|b: OfferedBinding| b@),
                i <= n,
                match best {
                    Some(b) => best_offer(bs.subrange(0, i as int), req@) == Some(b@),
                    None => best_offer(bs.subrange(0, i as int), req@) is None,
                },
            decreases n - i,
        {
            let b = &offers[i];
            proof {
                let pre = bs.subrange(0, i + 1);
                assert(pre.drop_last() =~= bs.subrange(0, i as int));
                assert(pre.last() == b@);
            }
            if str_eq(b.cap_id.as_str(), req.id.as_str()) {
                match req_matches(req.version.as_str(), &b.version) {
                    Some(true) => {
                        match best {
                            None => {
                                best = Some(b);
                            },
                            Some(p) => {
                                if version_outranks(&b.version, &p.version) {
                                    best = Some(b);
                                }
                            },
                        }
                    },
                    _ => {},
                }
            }
            i = i + 1;
        }
        assert(bs.subrange(0, n as int) =~= bs);
        best
    }

    /// Resolve a consumer's required capabilities against the offerings:
    /// each requirement binds to the highest-ranked offering of that
    /// capability whose version the requirement accepts (by version triple,
    /// then release over pre-release, then `semver`'s order between
    /// pre-releases of one triple; the earlier of equals), and a requirement
    /// nothing satisfies is left unresolved rather than failing the plan.
    pub fn resolve(&self, consumer: &str, required: &[CapabilityRef]) -> (r: ResolutionPlan)
        ensures
            r.consumer@ == consumer@,
            r.resolved@.map_values(|b: OfferedBinding| b@) == plan_of(
                self.bindings(),
                required@.map_values(|c: CapabilityRef| c@),
            ).0,
            r.unresolved@.map_values(|c: CapabilityRef| c@) == plan_of(
                self.bindings(),
                required@.map_values(|c: CapabilityRef| c@),
            ).1,
            caps_unique(r.resolved@.map_values(|b: OfferedBinding| b@)),
    {
        let ghost reqs = required@.map_values(|c: CapabilityRef| c@);
        let ghost bs = self.bindings();
        let mut resolved: Vec<OfferedBinding> = Vec::new();
        let mut unresolved: Vec<CapabilityRef> = Vec::new();
        let n = required.len();
        let mut i: usize = 0;
        while i < n
            invariant
                n == required@.len(),
                reqs == required@.map_values(|c: CapabilityRef| c@),
                bs == self.bindings(),
                i <= n,
                resolved@.map_values(|b: OfferedBinding| b@) == plan_of(bs, reqs.subrange(0, i as int)).0,
                unresolved@.map_values(|c: CapabilityRef| c@) == plan_of(bs, reqs.subrange(0, i as int)).1,
                caps_unique(resolved@.map_values(|b: OfferedBinding| b@)),
            decreases n - i,
        {
            let req = &required[i];
            proof {
                let pre = reqs.subrange(0, i + 1);
                assert(pre.drop_last() =~= reqs.subrange(0, i as int));
                assert(pre.last() == req@);
            }
            match self.best_offering(req) {
                Some(b) => {
                    record(&mut resolved, b.duplicate());
                },
                None => {
                    let ghost before = unresolved@;
                    unresolved.push(req.duplicate());
                    assert(unresolved@.map_values(|c: CapabilityRef| c@) =~= before.map_values(
                        |c: CapabilityRef| c@,
                    ).push(req@));
                },
            }
            i = i + 1;
        }
        assert(reqs.subrange(0, n as int) =~= reqs);
        ResolutionPlan { consumer: String::from_str(consumer), resolved, unresolved }
    }
}

/// Add `b` to the resolutions, replacing the binding for the same
/// capability id where there is one.
fn record(resolved: &mut Vec<OfferedBinding>, b: OfferedBinding)
    requires
        caps_unique(old(resolved)@.map_values(|x: OfferedBinding| x@)),
    ensures
        final(resolved)@.map_values(|x: OfferedBinding| x@) == record_resolution(
            old(resolved)@.map_values(|x: OfferedBinding| x@),
            b@,
        ),
        caps_unique(final(resolved)@.map_values(|x: OfferedBinding| x@)),
{
    let ghost s = old(resolved)@.map_values(|x: OfferedBinding| x@);
    let n = resolved.len();
    let mut k: usize = 0;
    while k < n
        invariant
            n == resolved@.len(),
            resolved@ == old(resolved)@,
            s == old(resolved)@.map_values(|x: OfferedBinding| x@),
            caps_unique(s),
            k <= n,
            forall|j: int| 0 <= j < k ==> s[j].1 != b@.1,
        decreases n - k,
    {
        if str_eq(resolved[k].cap_id.as_str(), b.cap_id.as_str()) {
            proof {
                assert(s[k as int].1 == b@.1);
                assert(has_cap(s, b@.1));
                let c = cap_slot(s, b@.1);
                assert(c == k as int);
            }
            let ghost bv = b@;
            resolved.set(k, b);
            assert(resolved@.map_values(|x: OfferedBinding| x@) =~= s.update(k as int, bv));
            return;
        }
        k = k + 1;
    }
    assert(!has_cap(s, b@.1));
    let ghost bv = b@;
    resolved.push(b);
    assert(resolved@.map_values(|x: OfferedBinding| x@) =~= s.push(bv));
}

/// The binding a requirement resolves to is an offering that satisfies it,
/// and no satisfying offering has a greater version triple, nor the same
/// triple as a release where the binding is a pre-release; nothing is
/// resolved exactly when no offering satisfies the requirement.
pub proof fn law_resolution_picks_a_highest_match(
    bs: Seq<(Seq<char>, Seq<char>, (u64, u64, u64, Seq<char>, Seq<char>), ExtensionKind, Seq<char>)>,
    req: (Seq<char>, Seq<char>),
)
    ensures
        best_offer(bs, req) is None <==> forall|k: int| 0 <= k < bs.len() ==> !satisfies(bs[k], req),
        best_offer(bs, req) matches Some(b) ==> {
            &&& satisfies(b, req)
            &&& exists|k: int| 0 <= k < bs.len() && bs[k] == b
            &&& forall|k: int| 0 <= k < bs.len() && satisfies(bs[k], req) ==> !outranks_plainly(bs[k].2, b.2)
        },
    decreases bs.len(),
{
    if bs.len() > 0 {
        let prev = bs.drop_last();
        law_resolution_picks_a_highest_match(prev, req);
        assert forall|k: int| 0 <= k < prev.len() implies prev[k] == bs[k] by {}
        let last = bs.len() - 1;
        assert(bs[last] == bs.last());
        match best_offer(bs, req) {
            Some(b) => {
                if b == bs.last() && satisfies(bs.last(), req) {
                    assert(bs[last] == b);
                } else {
                    let k0 = choose|k: int| 0 <= k < prev.len() && prev[k] == best_offer(prev, req).unwrap();
                    assert(bs[k0] == b);
                }
            },
            None => {},
        }
    }
}

/// A boolean matrix by its rows' views.
pub open spec fn matrix_view(v: Seq<Vec<bool>>) -> Seq<Seq<bool>> {
    v.map_values(|row: Vec<bool>| row@)
}

/// `m` is an `n` by `n` matrix.
pub open spec fn square(m: Seq<Seq<bool>>, n: int) -> bool {
    m.len() == n && forall|i: int| 0 <= i < n ==> #[trigger] m[i].len() == n
}

/// In the graph with adjacency matrix `e`, node `y` can be reached from `x`
/// along at least one and at most `steps + 1` edges.
pub open spec fn reaches(e: Seq<Seq<bool>>, steps: nat, x: int, y: int) -> bool
    decreases steps,
{
    if steps == 0 {
        e[x][y]
    } else {
        ||| reaches(e, (steps - 1) as nat, x, y)
        ||| exists|z: int| 0 <= z < e.len() && reaches(e, (steps - 1) as nat, x, z) && #[trigger] e[z][y]
    }
}

/// A consumer and its requirements, by their views.
pub open spec fn deps_view(deps: Seq<(String, Vec<CapabilityRef>)>) -> Seq<(Seq<char>, Seq<(Seq<char>, Seq<char>)>)> {
    deps.map_values(|d: (String, Vec<CapabilityRef>)| (d.0@, d.1@.map_values(|c: CapabilityRef| c@)))
}

/// Consumer `i` depends on consumer `j`: one of `i`'s requirements resolves
/// to an offering of the extension `j` names.
pub open spec fn depends_on(
    bs: Seq<(Seq<char>, Seq<char>, (u64, u64, u64, Seq<char>, Seq<char>), ExtensionKind, Seq<char>)>,
    deps: Seq<(Seq<char>, Seq<(Seq<char>, Seq<char>)>)>,
    i: int,
    j: int,
) -> bool {
    exists|k: int| 0 <= k < plan_of(bs, deps[i].1).0.len() && #[trigger] plan_of(bs, deps[i].1).0[k].0 == deps[j].0
}

/// The dependency graph of the consumers, as an adjacency matrix.
pub open spec fn dependency_matrix(
    bs: Seq<(Seq<char>, Seq<char>, (u64, u64, u64, Seq<char>, Seq<char>), ExtensionKind, Seq<char>)>,
    deps: Seq<(Seq<char>, Seq<(Seq<char>, Seq<char>)>)>,
) -> Seq<Seq<bool>> {
    Seq::new(deps.len(), |i: int| Seq::new(deps.len(), |j: int| depends_on(bs, deps, i, j)))
}

/// Consumer `x` lies on a dependency cycle: it depends on itself through a
/// chain of dependencies. With `n` consumers a chain that visits no consumer
/// twice has at most `n` links, so chains of at most `n` links are searched.
pub open spec fn on_cycle(
    bs: Seq<(Seq<char>, Seq<char>, (u64, u64, u64, Seq<char>, Seq<char>), ExtensionKind, Seq<char>)>,
    deps: Seq<(Seq<char>, Seq<(Seq<char>, Seq<char>)>)>,
    x: int,
) -> bool {
    reaches(dependency_matrix(bs, deps), (deps.len() - 1) as nat, x, x)
}

/// The names of the first `m` consumers that lie on a cycle, in order.
pub open spec fn cycle_members(
    bs: Seq<(Seq<char>, Seq<char>, (u64, u64, u64, Seq<char>, Seq<char>), ExtensionKind, Seq<char>)>,
    deps: Seq<(Seq<char>, Seq<(Seq<char>, Seq<char>)>)>,
    m: nat,
) -> Seq<Seq<char>>
    decreases m,
{
    if m == 0 {
        Seq::empty()
    } else {
        let prev = cycle_members(bs, deps, (m - 1) as nat);
        if on_cycle(bs, deps, m - 1) {
            prev.push(deps[m - 1].0)
        } else {
            prev
        }
    }
}

/// Some resolved binding is offered by extension `ext`.
fn resolves_to(resolved: &Vec<OfferedBinding>, ext: &str) -> (r: bool)
    ensures
        r == exists|k: int| 0 <= k < resolved@.len() && #[trigger] resolved@[k].extension_id@ == ext@,
{
    let n = resolved.len();
    let mut k: usize = 0;
    while k < n
        invariant
            n == resolved@.len(),
            k <= n,
            forall|j: int| 0 <= j < k ==> #[trigger] resolved@[j].extension_id@ != ext@,
        decreases n - k,
    {
        if str_eq(resolved[k].extension_id.as_str(), ext) {
            return true;
        }
        k = k + 1;
    }
    false
}

/// One more link of reachability: `y` is reached from `x` in one more step
/// when it already was, or some node already reached has an edge to `y`.
fn widened(r: &Vec<Vec<bool>>, e: &Vec<Vec<bool>>, n: usize, x: usize, y: usize) -> (b: bool)
    requires
        square(matrix_view(r@), n as int),
        square(matrix_view(e@), n as int),
        x < n,
        y < n,
    ensures
        b == (matrix_view(r@)[x as int][y as int] || exists|z: int|
            0 <= z < n && matrix_view(r@)[x as int][z] && #[trigger] matrix_view(e@)[z][y as int]),
{
    assert(matrix_view(r@)[x as int] == r@[x as int]@);
    assert(matrix_view(r@)[x as int].len() == n);
    if r[x][y] {
        return true;
    }
    let mut z: usize = 0;
    while z < n
        invariant
            square(matrix_view(r@), n as int),
            square(matrix_view(e@), n as int),
            x < n,
            y < n,
            z <= n,
            forall|w: int| 0 <= w < z ==> !(matrix_view(r@)[x as int][w] && #[trigger] matrix_view(e@)[w][y as int]),
        decreases n - z,
    {
        assert(matrix_view(r@)[x as int] == r@[x as int]@);
        assert(matrix_view(e@)[z as int] == e@[z as int]@);
        assert(matrix_view(e@)[z as int].len() == n);
        if r[x][z] && e[z][y] {
            return true;
        }
        z = z + 1;
    }
    false
}

impl CapabilityRegistry {
    /// The consumers that lie on a dependency cycle, in the order given: a
    /// consumer depends on another when one of its requirements resolves to
    /// an offering of that extension. Empty when the dependencies form no
    /// cycle.
    pub fn detect_cycle(&self, deps: &[(String, Vec<CapabilityRef>)]) -> (r: Vec<String>)
        ensures
            r@.map_values(|s: String| s@) == cycle_members(self.bindings(), deps_view(deps@), deps@.len()),
    {
        let ghost bs = self.bindings();
        let ghost dv = deps_view(deps@);
        let ghost m = dependency_matrix(bs, dv);
        let n = deps.len();
        let mut e: Vec<Vec<bool>> = Vec::new();
        let mut reach: Vec<Vec<bool>> = Vec::new();
        let mut i: usize = 0;
        while i < n
            invariant
                n == deps@.len(),
                dv == deps_view(deps@),
                bs == self.bindings(),
                m == dependency_matrix(bs, dv),
                i <= n,
                e@.len() == i,
                reach@.len() == i,
                forall|a: int| 0 <= a < i ==> #[trigger] matrix_view(e@)[a] == m[a],
                forall|a: int| 0 <= a < i ==> #[trigger] matrix_view(reach@)[a] == m[a],
            decreases n - i,
        {
            let plan = self.resolve(&deps[i].0, deps[i].1.as_slice());
            assert(deps[i as int].1@.map_values(|c: CapabilityRef| c@) == dv[i as int].1);
            let mut row: Vec<bool> = Vec::new();
            let mut twin: Vec<bool> = Vec::new();
            let mut j: usize = 0;
            while j < n
                invariant
                    n == deps@.len(),
                    dv == deps_view(deps@),
                    m == dependency_matrix(bs, dv),
                    i < n,
                    j <= n,
                    row@.len() == j,
                    twin@ == row@,
                    plan.resolved@.map_values(|b: OfferedBinding| b@) == plan_of(bs, dv[i as int].1).0,
                    forall|c: int| 0 <= c < j ==> #[trigger] row@[c] == m[i as int][c],
                decreases n - j,
            {
                let d = resolves_to(&plan.resolved, deps[j].0.as_str());
                assert(dv[j as int].0 == deps[j as int].0@);
                proof {
                    let pv = plan_of(bs, dv[i as int].1).0;
                    assert forall|k: int| 0 <= k < pv.len() implies #[trigger] pv[k].0
                        == plan.resolved@[k].extension_id@ by {
                        assert(pv[k] == plan.resolved@[k]@);
                    }
                    if d {
                        let k = choose|k: int| 0 <= k < plan.resolved@.len() && #[trigger] plan.resolved@[k].extension_id@ == deps[j as int].0@;
                        assert(pv[k].0 == dv[j as int].0);
                    }
                    if depends_on(bs, dv, i as int, j as int) {
                        let k = choose|k: int| 0 <= k < pv.len() && #[trigger] pv[k].0 == dv[j as int].0;
                        assert(plan.resolved@[k].extension_id@ == deps[j as int].0@);
                    }
                }
                assert(d == depends_on(bs, dv, i as int, j as int));
                row.push(d);
                twin.push(d);
                j = j + 1;
            }
            assert(row@ =~= m[i as int]);
            let ghost rv = row@;
            let ghost before = e@;
            let ghost before_twin = reach@;
            e.push(row);
            reach.push(twin);
            assert forall|a: int| 0 <= a < i + 1 implies #[trigger] matrix_view(e@)[a] == m[a] by {
                if a < i {
                    assert(e@[a] == before[a]);
                    assert(matrix_view(before)[a] == before[a]@);
                } else {
                    assert(e@[a]@ == rv);
                }
                assert(matrix_view(e@)[a] == e@[a]@);
            }
            assert forall|a: int| 0 <= a < i + 1 implies #[trigger] matrix_view(reach@)[a] == m[a] by {
                if a < i {
                    assert(reach@[a] == before_twin[a]);
                    assert(matrix_view(before_twin)[a] == before_twin[a]@);
                } else {
                    assert(reach@[a]@ == rv);
                }
                assert(matrix_view(reach@)[a] == reach@[a]@);
            }
            i = i + 1;
        }
        assert(matrix_view(e@) =~= m);
        assert(matrix_view(reach@) =~= m);
        assert forall|x: int, y: int| 0 <= x < n && 0 <= y < n implies matrix_view(reach@)[x][y]
            == reaches(m, 0, x, y) by {}
        let mut step: usize = 0;
        while step + 1 < n
            invariant
                n == deps@.len(),
                m == matrix_view(e@),
                square(m, n as int),
                square(matrix_view(reach@), n as int),
                step < n || step == 0,
                forall|x: int, y: int|
                    0 <= x < n && 0 <= y < n ==> matrix_view(reach@)[x][y] == reaches(m, step as nat, x, y),
            decreases n - step,
        {
            let mut next: Vec<Vec<bool>> = Vec::new();
            let mut x: usize = 0;
            while x < n
                invariant
                    n == deps@.len(),
                    m == matrix_view(e@),
                    square(m, n as int),
                    square(matrix_view(reach@), n as int),
                    step + 1 < n,
                    forall|a: int, b: int|
                        0 <= a < n && 0 <= b < n ==> matrix_view(reach@)[a][b] == reaches(m, step as nat, a, b),
                    x <= n,
                    next@.len() == x,
                    forall|a: int| 0 <= a < x ==> #[trigger] next@[a]@.len() == n,
                    forall|a: int, b: int|
                        0 <= a < x && 0 <= b < n ==> #[trigger] next@[a]@[b] == reaches(m, (step + 1) as nat, a, b),
                decreases n - x,
            {
                let mut row: Vec<bool> = Vec::new();
                let mut y: usize = 0;
                while y < n
                    invariant
                        n == deps@.len(),
                        m == matrix_view(e@),
                        square(m, n as int),
                        square(matrix_view(reach@), n as int),
                        forall|a: int, b: int|
                            0 <= a < n && 0 <= b < n ==> matrix_view(reach@)[a][b] == reaches(m, step as nat, a, b),
                        x < n,
                        y <= n,
                        row@.len() == y,
                        forall|b: int| 0 <= b < y ==> #[trigger] row@[b] == reaches(m, (step + 1) as nat, x as int, b),
                    decreases n - y,
                {
                    let v = widened(&reach, &e, n, x, y);
                    proof {
                        let s1 = (step + 1) as nat;
                        assert(m.len() == n);
                        assert((exists|z: int| 0 <= z < n && matrix_view(reach@)[x as int][z] && #[trigger] m[z][y as int])
                            == (exists|z: int| 0 <= z < m.len() && reaches(m, step as nat, x as int, z) && #[trigger] m[z][y as int]));
                        assert(matrix_view(reach@)[x as int][y as int] == reaches(m, step as nat, x as int, y as int));
                        assert forall|z: int| 0 <= z < n implies #[trigger] matrix_view(reach@)[x as int][z]
                            == reaches(m, step as nat, x as int, z) by {}
                        assert((s1 - 1) as nat == step as nat);
                        assert(reaches(m, s1, x as int, y as int) == (reaches(m, step as nat, x as int, y as int)
                            || exists|z: int| 0 <= z < m.len() && reaches(m, step as nat, x as int, z) && #[trigger] m[z][y as int]));
                        assert(v == reaches(m, s1, x as int, y as int));
                    }
                    row.push(v);
                    y = y + 1;
                }
                let ghost before = next@;
                next.push(row);
                assert forall|a: int| 0 <= a < x + 1 implies #[trigger] next@[a]@.len() == n by {
                    if a < x { assert(next@[a] == before[a]); }
                }
                assert forall|a: int, b: int| 0 <= a < x + 1 && 0 <= b < n implies #[trigger] next@[a]@[b]
                    == reaches(m, (step + 1) as nat, a, b) by {
                    if a < x { assert(next@[a] == before[a]); }
                }
                x = x + 1;
            }
            reach = next;
            assert forall|a: int| 0 <= a < n implies #[trigger] matrix_view(reach@)[a].len() == n by {
                assert(matrix_view(reach@)[a] == reach@[a]@);
            }
            step = step + 1;
        }
        let mut out: Vec<String> = Vec::new();
        let mut c: usize = 0;
        while c < n
            invariant
                n == deps@.len(),
                dv == deps_view(deps@),
                bs == self.bindings(),
                m == dependency_matrix(bs, dv),
                square(matrix_view(reach@), n as int),
                n == 0 || step + 1 == n,
                forall|x: int, y: int|
                    0 <= x < n && 0 <= y < n ==> matrix_view(reach@)[x][y] == reaches(m, step as nat, x, y),
                c <= n,
                out@.map_values(|s: String| s@) == cycle_members(bs, dv, c as nat),
            decreases n - c,
        {
            assert(matrix_view(reach@)[c as int] == reach@[c as int]@);
            let ghost before = out@;
            if reach[c][c] {
                assert(on_cycle(bs, dv, c as int));
                out.push(deps[c].0.clone());
                assert(out@.map_values(|s: String| s@) =~= before.map_values(|s: String| s@).push(dv[c as int].0));
            } else {
                assert(!on_cycle(bs, dv, c as int));
            }
            c = c + 1;
        }
        out
    }
}

/// Every chain starts with an edge out of its first node.
proof fn lemma_reach_starts_with_an_edge(e: Seq<Seq<bool>>, k: nat, x: int, y: int)
    requires
        reaches(e, k, x, y),
        0 <= y < e.len(),
    ensures
        exists|z: int| 0 <= z < e.len() && #[trigger] e[x][z],
    decreases k,
{
    if k > 0 {
        if reaches(e, (k - 1) as nat, x, y) {
            lemma_reach_starts_with_an_edge(e, (k - 1) as nat, x, y);
        } else {
            let z = choose|z: int| 0 <= z < e.len() && reaches(e, (k - 1) as nat, x, z) && #[trigger] e[z][y];
            lemma_reach_starts_with_an_edge(e, (k - 1) as nat, x, z);
        }
    }
}

/// A chain found within `k + 1` links is found within any larger bound.
proof fn lemma_reach_grows(e: Seq<Seq<bool>>, k: nat, l: nat, x: int, y: int)
    requires
        reaches(e, k, x, y),
        k <= l,
    ensures
        reaches(e, l, x, y),
    decreases l - k,
{
    if k < l {
        lemma_reach_grows(e, k, (l - 1) as nat, x, y);
    }
}

/// A consumer none of whose requirements resolves to another listed
/// consumer lies on no cycle.
pub proof fn law_a_consumer_depending_on_none_is_on_no_cycle(
    bs: Seq<(Seq<char>, Seq<char>, (u64, u64, u64, Seq<char>, Seq<char>), ExtensionKind, Seq<char>)>,
    deps: Seq<(Seq<char>, Seq<(Seq<char>, Seq<char>)>)>,
    x: int,
)
    requires
        0 <= x < deps.len(),
        forall|j: int| 0 <= j < deps.len() ==> !depends_on(bs, deps, x, j),
    ensures
        !on_cycle(bs, deps, x),
{
    let e = dependency_matrix(bs, deps);
    if on_cycle(bs, deps, x) {
        lemma_reach_starts_with_an_edge(e, (deps.len() - 1) as nat, x, x);
        let z = choose|z: int| 0 <= z < e.len() && #[trigger] e[x][z];
        assert(depends_on(bs, deps, x, z));
    }
}

/// Two consumers that each depend on the other both lie on a cycle.
pub proof fn law_mutual_dependency_is_a_cycle(
    bs: Seq<(Seq<char>, Seq<char>, (u64, u64, u64, Seq<char>, Seq<char>), ExtensionKind, Seq<char>)>,
    deps: Seq<(Seq<char>, Seq<(Seq<char>, Seq<char>)>)>,
    a: int,
    b: int,
)
    requires
        0 <= a < deps.len(),
        0 <= b < deps.len(),
        a != b,
        depends_on(bs, deps, a, b),
        depends_on(bs, deps, b, a),
    ensures
        on_cycle(bs, deps, a),
        on_cycle(bs, deps, b),
{
    let e = dependency_matrix(bs, deps);
    let n = deps.len();
    assert(e[a][b] && e[b][a]);
    assert(reaches(e, 0, a, b));
    assert(reaches(e, 1, a, a));
    assert(reaches(e, 0, b, a));
    assert(reaches(e, 1, b, b));
    lemma_reach_grows(e, 1, (n - 1) as nat, a, a);
    lemma_reach_grows(e, 1, (n - 1) as nat, b, b);
}

} // verus!
