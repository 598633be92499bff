//! The capability state store: a write-once mapping from manifest-local
//! names to state records.
//!
//! Insertion is set-once per name: the first write wins and a second write
//! under the same name fails with `DuplicateCapabilityName`. Backends
//! receive a private snapshot of the whole store at construction time, so
//! reads during serving need no coordination.

use vstd::prelude::*;

use crate::error::BuildError;
use crate::text::str_eq;

verus! {

/// The state record kept for one declaration: the optional secret-resolution
/// hint, the resolved resource identifier, the manifest-local name, the
/// configuration mapping, and the manifest's location.
pub struct CapabilityStateEntry {
    pub secret_store: Option<String>,
    pub resource_identifier: String,
    pub name: String,
    pub configs: Vec<(String, String)>,
    pub manifest_path: String,
}

/// The mathematical value of a state record.
#[verifier::ext_equal]
pub ghost struct EntryModel {
    pub secret_store: Option<Seq<char>>,
    pub resource_identifier: Seq<char>,
    pub name: Seq<char>,
    pub configs: Seq<(Seq<char>, Seq<char>)>,
    pub manifest_path: Seq<char>,
}

impl View for CapabilityStateEntry {
    type V = EntryModel;

    open spec fn view(&self) -> EntryModel {
        EntryModel {
            secret_store: match self.secret_store {
                Some(s) => Some(s@),
                None => None,
            },
            resource_identifier: self.resource_identifier@,
            name: self.name@,
            configs: self.configs@.map_values(|p: (String, String)| (p.0@, p.1@)),
            manifest_path: self.manifest_path@,
        }
    }
}

impl Clone for CapabilityStateEntry {
    /// A clone carries the same mathematical value.
    fn clone(&self) -> (r: Self)
        ensures
            r@ == self@,
    {
        let configs = clone_configs(&self.configs);
        let r = CapabilityStateEntry {
            secret_store: match &self.secret_store {
                Some(s) => Some(s.clone()),
                None => None,
            },
            resource_identifier: self.resource_identifier.clone(),
            name: self.name.clone(),
            configs,
            manifest_path: self.manifest_path.clone(),
        };
        assert(r@ =~= self@);
        r
    }
}

/// Copies an ordered configuration mapping pair by pair.
pub fn clone_configs(configs: &Vec<(String, String)>) -> (r: Vec<(String, String)>)
    ensures
        r@.map_values(|p: (String, String)| (p.0@, p.1@)) =~= configs@.map_values(
            |p: (String, String)| (p.0@, p.1@),
        ),
{
    let mut out: Vec<(String, String)> = Vec::new();
    let n = configs.len();
    for i in 0..n
        invariant
            n == configs@.len(),
            out@.len() == i,
            forall|k: int|
                0 <= k < i ==> (#[trigger] out@[k]).0@ == configs@[k].0@ && out@[k].1@
                    == configs@[k].1@,
    {
        let pair = &configs[i];
        out.push((pair.0.clone(), pair.1.clone()));
    }
    out
}

/// Whether some entry in the sequence carries the given name.
pub open spec fn spec_contains_name(entries: Seq<EntryModel>, name: Seq<char>) -> bool {
    exists|i: int| 0 <= i < entries.len() && (#[trigger] entries[i]).name == name
}

/// Entry names are pairwise distinct: the store is a mapping.
pub open spec fn store_wf(entries: Seq<EntryModel>) -> bool {
    forall|i: int, j: int|
        0 <= i < j < entries.len() ==> (#[trigger] entries[i]).name != (#[trigger] entries[j]).name
}

/// The capability state store, in insertion order.
pub struct CapabilityStore {
    entries: Vec<CapabilityStateEntry>,
}

impl View for CapabilityStore {
    type V = Seq<EntryModel>;

    closed spec fn view(&self) -> Seq<EntryModel> {
        self.entries@.map_values(|e: CapabilityStateEntry| e@)
    }
}

impl Clone for CapabilityStore {
    /// A snapshot: a clone carries the same entries in the same order.
    fn clone(&self) -> (r: Self)
        ensures
            r@ == self@,
    {
        let mut entries: Vec<CapabilityStateEntry> = Vec::new();
        let n = self.entries.len();
        for i in 0..n
            invariant
                n == self.entries@.len(),
                entries@.len() == i,
                forall|k: int| 0 <= k < i ==> (#[trigger] entries@[k])@ == self.entries@[k]@,
        {
            entries.push(self.entries[i].clone());
        }
        let r = CapabilityStore { entries };
        assert(r@ =~= self@);
        r
    }
}

impl CapabilityStore {
    /// Names are pairwise distinct.
    pub open spec fn wf(&self) -> bool {
        store_wf(self@)
    }

    /// An empty store.
    pub fn new() -> (r: Self)
        ensures
            r@ =~= Seq::<EntryModel>::empty(),
            r.wf(),
    {
        CapabilityStore { entries: Vec::new() }
    }

    /// The number of entries.
    pub fn len(&self) -> (r: usize)
        ensures
            r == self@.len(),
    {
        self.entries.len()
    }

    /// Whether an entry with this name exists.
    pub fn contains_name(&self, name: &str) -> (r: bool)
        ensures
            r == spec_contains_name(self@, name@),
    {
        let n = self.entries.len();
        for i in 0..n
            invariant
                n == self.entries@.len(),
                forall|k: int| 0 <= k < i ==> (#[trigger] self@[k]).name != name@,
        {
            if str_eq(self.entries[i].name.as_str(), name) {
                assert(self@[i as int].name == name@);
                return true;
            }
        }
        false
    }

    /// Set-once insertion: registers the entry under its name, failing with
    /// `DuplicateCapabilityName` and leaving the store unchanged when the
    /// name is already taken.
    pub fn insert(&mut self, entry: CapabilityStateEntry) -> (r: Result<(), BuildError>)
        requires
            old(self).wf(),
    ensures
        final(self).wf(),
        match r {
            Ok(()) => !spec_contains_name(old(self)@, entry@.name) && final(self)@ == old(
                self,
            )@.push(entry@),
            Err(e) => e == BuildError::DuplicateCapabilityName && spec_contains_name(
                old(self)@,
                entry@.name,
            ) && final(self)@ == old(self)@,
        },
    {
        if self.contains_name(entry.name.as_str()) {
            Err(BuildError::DuplicateCapabilityName)
        } else {
            self.entries.push(entry);
            assert(self@ =~= old(self)@.push(entry@));
            Ok(())
        }
    }

    /// The entry stored under a name, if any.
    pub fn get(&self, name: &str) -> (r: Option<&CapabilityStateEntry>)
        ensures
            match r {
                Some(e) => spec_contains_name(self@, name@) && e@.name == name@
                    && spec_contains_entry(self@, e@),
                None => !spec_contains_name(self@, name@),
            },
    {
        let n = self.entries.len();
        for i in 0..n
            invariant
                n == self.entries@.len(),
                forall|k: int| 0 <= k < i ==> (#[trigger] self@[k]).name != name@,
        {
            if str_eq(self.entries[i].name.as_str(), name) {
                assert(self@[i as int].name == name@);
                return Some(&self.entries[i]);
            }
        }
        None
    }
}

/// Whether the sequence holds exactly this entry value somewhere.
pub open spec fn spec_contains_entry(entries: Seq<EntryModel>, e: EntryModel) -> bool {
    exists|i: int| 0 <= i < entries.len() && entries[i] == e
}

} // verus!
