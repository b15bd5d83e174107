//! Which installed extensions are enabled.
//!
//! The persistent state file keys each extension by `<id>@<version>`; an
//! extension the state does not mention is enabled.
use vstd::prelude::*;
use vstd::hash_map::StringHashMap;
use crate::text::concat;

verus! {

/// The key an extension version is stored under: `<id>@<version>`.
pub open spec fn state_key(id: Seq<char>, version: Seq<char>) -> Seq<char> {
    id + "@"@ + version
}

/// The map a list of stored flags gives, a later entry for a key replacing an
/// earlier one.
pub open spec fn flags_map(entries: Seq<(String, bool)>) -> Map<Seq<char>, bool>
    decreases entries.len(),
{
    if entries.len() == 0 {
        Map::empty()
    } else {
        flags_map(entries.drop_last()).insert(entries.last().0@, entries.last().1)
    }
}

/// The enable/disable flags of installed extension versions.
pub struct ExtensionState {
    enabled: StringHashMap<bool>,
}

impl View for ExtensionState {
    type V = Map<Seq<char>, bool>;

    closed spec fn view(&self) -> Map<Seq<char>, bool> {
        self.enabled@
    }
}

/// Whether the state `m` enables `<id>@<version>`: as stored, or enabled
/// where nothing is stored.
pub open spec fn enabled_in(m: Map<Seq<char>, bool>, id: Seq<char>, version: Seq<char>) -> bool {
    if m.contains_key(state_key(id, version)) {
        m[state_key(id, version)]
    } else {
        true
    }
}

fn key_of(id: &str, version: &str) -> (r: String)
    ensures
        r@ == state_key(id@, version@),
{
    let head = concat(id, "@");
    concat(head.as_str(), version)
}

impl Default for ExtensionState {
    /// No flag stored: everything is enabled.
    fn default() -> (r: Self)
        ensures
            r@ == Map::<Seq<char>, bool>::empty(),
    {
        ExtensionState { enabled: StringHashMap::new() }
    }
}

impl ExtensionState {
    /// The state read from the persistent file: the flags its default section
    /// stores, in the order given, or no flag at all where there is no file.
    pub fn load(stored: Option<Vec<(String, bool)>>) -> (r: Self)
        ensures
            r@ == match stored {
                Some(entries) => flags_map(entries@),
                None => Map::<Seq<char>, bool>::empty(),
            },
    {
        let mut enabled: StringHashMap<bool> = StringHashMap::new();
        match stored {
            None => {},
            Some(entries) => {
                let ghost all = entries@;
                let mut rest = entries;
                let n = rest.len();
                let mut i: usize = 0;
                while i < n
                    invariant
                        n == all.len(),
                        i <= n,
                        rest@ =~= all.subrange(i as int, n as int),
                        enabled@ == flags_map(all.subrange(0, i as int)),
                    decreases n - i,
                {
                    let (k, v) = rest.remove(0);
                    enabled.insert(k, v);
                    proof {
                        let next = all.subrange(0, i + 1);
                        assert(next.drop_last() =~= all.subrange(0, i as int));
                        assert(next.last() == all[i as int]);
                    }
                    i = i + 1;
                }
                assert(all.subrange(0, n as int) =~= all);
            },
        }
        ExtensionState { enabled }
    }

    /// Whether `<id>@<version>` is enabled: as stored, and enabled where
    /// nothing is stored.
    pub fn is_enabled(&self, id: &str, version: &str) -> (r: bool)
        ensures
            r == enabled_in(self@, id@, version@),
    {
        let key = key_of(id, version);
        match self.enabled.get(key.as_str()) {
            Some(v) => *v,
            None => true,
        }
    }

    /// Store whether `<id>@<version>` is enabled, replacing what was stored.
    pub fn set_enabled(&mut self, id: &str, version: &str, enabled: bool)
        ensures
            final(self)@ == old(self)@.insert(state_key(id@, version@), enabled),
    {
        let key = key_of(id, version);
        self.enabled.insert(key, enabled);
    }
}

/// What a query gives back is what was last set for that extension version,
/// and setting one version leaves every other key as it was.
pub proof fn law_set_then_query(
    m: Map<Seq<char>, bool>,
    id: Seq<char>,
    version: Seq<char>,
    enabled: bool,
    other_id: Seq<char>,
    other_version: Seq<char>,
)
    ensures
        enabled_in(m.insert(state_key(id, version), enabled), id, version) == enabled,
        state_key(other_id, other_version) != state_key(id, version) ==> enabled_in(
            m.insert(state_key(id, version), enabled),
            other_id,
            other_version,
        ) == enabled_in(m, other_id, other_version),
{
}

/// With nothing stored, every extension version is enabled.
pub proof fn law_unmentioned_is_enabled(id: Seq<char>, version: Seq<char>)
    ensures
        enabled_in(Map::empty(), id, version),
{
}

} // verus!
