//! Narrow ports the runtime depends on for host-side capabilities, with the
//! in-crate implementations used when the host supplies none.
use vstd::prelude::*;
use crate::text::str_eq;

verus! {

/// Look up i18n keys against a locale catalog set up by the host.
///
/// `t` returns the rendered string for `key` (or the key itself if no
/// translation is available). `tf` performs `{name}` substitution against
/// `args`.
pub trait Translator {
    fn t(&self, key: &str) -> String;

    fn tf(&self, key: &str, args: &[(&str, &str)]) -> String;
}

/// The pass-through translator: every key renders as itself.
#[derive(Debug, Default, Clone, Copy)]
pub struct KeyTranslator;

impl Translator for KeyTranslator {
    fn t(&self, key: &str) -> (r: String)
        ensures
            r@ == key@,
    {
        String::from_str(key)
    }

    fn tf(&self, key: &str, _args: &[(&str, &str)]) -> (r: String)
        ensures
            r@ == key@,
    {
        String::from_str(key)
    }
}

/// Errors a secrets lookup can surface.
#[derive(Debug)]
pub enum SecretsError {
    NotFound(String),
    Backend(String),
}

/// Narrow secrets port. `key` is the raw URI the extension passed; the
/// permission gate runs before this is called.
pub trait SecretsBackend {
    fn get(&self, key: &str) -> Result<String, SecretsError>;
}

/// The entries hold no key twice.
pub open spec fn keys_unique(entries: Seq<(String, String)>) -> bool {
    forall|i: int, j: int|
        0 <= i < entries.len() && 0 <= j < entries.len() && i != j ==> entries[i].0@
            != entries[j].0@
}

/// The map an entry list stands for.
pub open spec fn entries_map(entries: Seq<(String, String)>) -> Map<Seq<char>, Seq<char>> {
    Map::new(
        |k: Seq<char>| exists|i: int| 0 <= i < entries.len() && entries[i].0@ == k,
        |k: Seq<char>| entries[choose|i: int| 0 <= i < entries.len() && entries[i].0@ == k].1@,
    )
}

/// In-memory secrets store, used by tests and by hosts that inline their
/// development secrets.
pub struct InMemorySecrets {
    entries: Vec<(String, String)>,
}

impl View for InMemorySecrets {
    type V = Map<Seq<char>, Seq<char>>;

    closed spec fn view(&self) -> Map<Seq<char>, Seq<char>> {
        entries_map(self.entries@)
    }
}

proof fn lemma_entries_lookup(entries: Seq<(String, String)>, i: int)
    requires
        keys_unique(entries),
        0 <= i < entries.len(),
    ensures
        entries_map(entries).contains_key(entries[i].0@),
        entries_map(entries)[entries[i].0@] == entries[i].1@,
{
    let k = entries[i].0@;
    assert(entries_map(entries).dom().contains(k));
    let c = choose|c: int| 0 <= c < entries.len() && entries[c].0@ == k;
    assert(c == i);
}

impl InMemorySecrets {
    spec fn wf(&self) -> bool {
        keys_unique(self.entries@)
    }

    #[verifier::type_invariant]
    spec fn inv(&self) -> bool {
        self.wf()
    }

    /// An empty store.
    pub fn new() -> (r: Self)
        ensures
            r@ == Map::<Seq<char>, Seq<char>>::empty(),
    {
        let r = InMemorySecrets { entries: Vec::new() };
        assert(r@ =~= Map::<Seq<char>, Seq<char>>::empty());
        r
    }

    /// Store `value` under `key`, replacing any previous value.
    pub fn insert(&mut self, key: &str, value: &str)
        ensures
            final(self)@ == old(self)@.insert(key@, value@),
    {
        proof {
            use_type_invariant(&*self);
        }
        let ghost old_entries = self.entries@;
        let n = self.entries.len();
        let mut i: usize = 0;
        while i < n
            invariant
                n == self.entries@.len(),
                self.entries@ == old_entries,
                old(self)@ == entries_map(old_entries),
                keys_unique(old_entries),
                i <= n,
                forall|j: int| 0 <= j < i ==> old_entries[j].0@ != key@,
            decreases n - i,
        {
            if str_eq(self.entries[i].0.as_str(), key) {
                let mut entries: Vec<(String, String)> = Vec::new();
                std::mem::swap(&mut entries, &mut self.entries);
                entries.set(i, (String::from_str(key), String::from_str(value)));
                let ghost new_entries = entries@;
                proof {
                    assert(keys_unique(new_entries));
                    assert forall|k: Seq<char>| #[trigger]
                        entries_map(new_entries).contains_key(k) == old_entries_map_insert(
                            old_entries,
                            key@,
                            value@,
                        ).contains_key(k) by {
                        if k != key@ {
                            if entries_map(old_entries).contains_key(k) {
                                let c = choose|c: int|
                                    0 <= c < old_entries.len() && old_entries[c].0@ == k;
                                assert(new_entries[c] == old_entries[c]);
                            }
                            if entries_map(new_entries).contains_key(k) {
                                let c = choose|c: int|
                                    0 <= c < new_entries.len() && new_entries[c].0@ == k;
                                assert(new_entries[c] == old_entries[c]);
                            }
                        } else {
                            lemma_entries_lookup(new_entries, i as int);
                        }
                    }
                    assert forall|k: Seq<char>|
                        entries_map(new_entries).contains_key(k) implies #[trigger] entries_map(
                        new_entries,
                    )[k] == old_entries_map_insert(old_entries, key@, value@)[k] by {
                        if k != key@ {
                            let c = choose|c: int|
                                0 <= c < new_entries.len() && new_entries[c].0@ == k;
                            assert(new_entries[c] == old_entries[c]);
                            lemma_entries_lookup(new_entries, c);
                            lemma_entries_lookup(old_entries, c);
                        } else {
                            lemma_entries_lookup(new_entries, i as int);
                        }
                    }
                    assert(entries_map(new_entries) =~= old_entries_map_insert(
                        old_entries,
                        key@,
                        value@,
                    ));
                }
                self.entries = entries;
                return;
            }
            i = i + 1;
        }
        let mut entries: Vec<(String, String)> = Vec::new();
        std::mem::swap(&mut entries, &mut self.entries);
        entries.push((String::from_str(key), String::from_str(value)));
        let ghost new_entries = entries@;
        proof {
            assert(keys_unique(new_entries));
            assert forall|k: Seq<char>| #[trigger]
                entries_map(new_entries).contains_key(k) == old_entries_map_insert(
                    old_entries,
                    key@,
                    value@,
                ).contains_key(k) by {
                if k != key@ {
                    if entries_map(old_entries).contains_key(k) {
                        let c = choose|c: int| 0 <= c < old_entries.len() && old_entries[c].0@ == k;
                        assert(new_entries[c] == old_entries[c]);
                    }
                    if entries_map(new_entries).contains_key(k) {
                        let c = choose|c: int| 0 <= c < new_entries.len() && new_entries[c].0@ == k;
                        assert(c < n);
                        assert(new_entries[c] == old_entries[c]);
                    }
                } else {
                    lemma_entries_lookup(new_entries, n as int);
                }
            }
            assert forall|k: Seq<char>|
                entries_map(new_entries).contains_key(k) implies #[trigger] entries_map(
                new_entries,
            )[k] == old_entries_map_insert(old_entries, key@, value@)[k] by {
                if k != key@ {
                    let c = choose|c: int| 0 <= c < new_entries.len() && new_entries[c].0@ == k;
                    assert(c < n);
                    assert(new_entries[c] == old_entries[c]);
                    lemma_entries_lookup(new_entries, c);
                    lemma_entries_lookup(old_entries, c);
                } else {
                    lemma_entries_lookup(new_entries, n as int);
                }
            }
            assert(entries_map(new_entries) =~= old_entries_map_insert(old_entries, key@, value@));
        }
        self.entries = entries;
    }

    /// The value stored under `key`, or `NotFound` naming the key.
    pub fn lookup(&self, key: &str) -> (r: Result<String, SecretsError>)
        ensures
            match r {
                Ok(v) => self@.contains_key(key@) && v@ == self@[key@],
                Err(SecretsError::NotFound(k)) => !self@.contains_key(key@) && k@ == key@,
                Err(SecretsError::Backend(_)) => false,
            },
    {
        proof {
            use_type_invariant(self);
        }
        let n = self.entries.len();
        let mut i: usize = 0;
        while i < n
            invariant
                n == self.entries@.len(),
                keys_unique(self.entries@),
                i <= n,
                forall|j: int| 0 <= j < i ==> self.entries@[j].0@ != key@,
            decreases n - i,
        {
            if str_eq(self.entries[i].0.as_str(), key) {
                proof {
                    lemma_entries_lookup(self.entries@, i as int);
                }
                return Ok(self.entries[i].1.clone());
            }
            i = i + 1;
        }
        Err(SecretsError::NotFound(String::from_str(key)))
    }
}

/// The map after storing `value` under `key`.
pub open spec fn old_entries_map_insert(
    entries: Seq<(String, String)>,
    key: Seq<char>,
    value: Seq<char>,
) -> Map<Seq<char>, Seq<char>> {
    entries_map(entries).insert(key, value)
}

impl Default for InMemorySecrets {
    /// An empty store.
    fn default() -> (r: Self)
        ensures
            r@ == Map::<Seq<char>, Seq<char>>::empty(),
    {
        InMemorySecrets::new()
    }
}

impl SecretsBackend for InMemorySecrets {
    fn get(&self, key: &str) -> (r: Result<String, SecretsError>)
        ensures
            match r {
                Ok(v) => self@.contains_key(key@) && v@ == self@[key@],
                Err(SecretsError::NotFound(k)) => !self@.contains_key(key@) && k@ == key@,
                Err(SecretsError::Backend(_)) => false,
            },
    {
        self.lookup(key)
    }
}

/// Reading a secret back gives what was last stored under its key, and
/// storing under one key leaves every other key as it was.
pub proof fn law_secret_read_after_write(
    before: Map<Seq<char>, Seq<char>>,
    key: Seq<char>,
    value: Seq<char>,
    other: Seq<char>,
)
    requires
        other != key,
    ensures
        before.insert(key, value).contains_key(key),
        before.insert(key, value)[key] == value,
        before.insert(key, value).contains_key(other) == before.contains_key(other),
        before.contains_key(other) ==> before.insert(key, value)[other] == before[other],
{
}

} // verus!
