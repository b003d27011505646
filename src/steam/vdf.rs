//! The fields of Steam's key-value documents that launching needs. Keyed
//! blocks are kept as lists of `(key, value)` pairs in document order.
use vstd::prelude::*;
use crate::sorting::{rearranges, sort_by_numeric_id, sorted_by_id};

verus! {

/// `libraryfolders.vdf`: one entry per library, under keys `"0"`, `"1"`, ...
pub struct LibraryFolders {
    pub libraries: Vec<(String, LibraryEntry)>,
}

impl LibraryFolders {
    /// The library index from its keyed entries in any order. The document
    /// numbers its libraries `"0"`, `"1"`, ... in the order it declares them,
    /// so the entries are put back in that order by the numeric value of
    /// their keys.
    pub fn from_entries(entries: Vec<(String, LibraryEntry)>) -> (r: LibraryFolders)
        ensures
            r.libraries@.len() == entries@.len(),
            rearranges(r.libraries@, entries@),
            sorted_by_id(r.libraries@),
    {
        LibraryFolders { libraries: sort_by_numeric_id(entries) }
    }
}

/// One library: its root directory and the application ids installed there
/// (each with its size on disk).
pub struct LibraryEntry {
    pub path: String,
    pub apps: Vec<(String, String)>,
}

/// `appmanifest_<id>.acf`: the install subdirectory and the display name.
pub struct AppState {
    pub installdir: String,
    pub name: Option<String>,
}

/// `config/config.vdf`.
pub struct InstallConfigStore {
    pub software: SoftwareConfig,
}

pub struct SoftwareConfig {
    pub valve: ValveConfig,
}

pub struct ValveConfig {
    pub steam: SteamSettings,
}

/// The compatibility-tool mapping, from application id to tool.
pub struct SteamSettings {
    pub compat_tool_mapping: Vec<(String, CompatToolEntry)>,
}

/// The tool chosen for one application; the name may be absent or empty.
pub struct CompatToolEntry {
    pub name: Option<String>,
}

/// `userdata/<user>/config/localconfig.vdf`.
pub struct UserLocalConfigStore {
    pub software: LocalSoftwareConfig,
    pub friends: Option<FriendsConfig>,
}

pub struct FriendsConfig {
    pub persona_name: Option<String>,
}

pub struct LocalSoftwareConfig {
    pub valve: LocalValveConfig,
}

pub struct LocalValveConfig {
    pub steam: LocalSteamSettings,
}

/// Per-application settings of one user.
pub struct LocalSteamSettings {
    pub apps: Option<Vec<(String, AppLaunchConfig)>>,
}

/// The launch-option template that a user set for an application.
pub struct AppLaunchConfig {
    pub launch_options: Option<String>,
}

/// A copy of an optional string.
pub fn copy_opt(s: &Option<String>) -> (r: Option<String>)
    ensures
        r is Some <==> s is Some,
        r is Some ==> r->Some_0@ == s->Some_0@,
{
    match s {
        Some(v) => Some(v.clone()),
        None => None,
    }
}

/// Whether `key` is one of the keys of `entries`.
pub open spec fn has_key<V>(entries: Seq<(String, V)>, key: Seq<char>) -> bool {
    exists|i: int| 0 <= i < entries.len() && (#[trigger] entries[i]).0@ == key
}

/// `i` is the first position of `entries` whose key is `key`.
pub open spec fn first_key_at<V>(entries: Seq<(String, V)>, key: Seq<char>, i: int) -> bool {
    0 <= i < entries.len() && entries[i].0@ == key && forall|j: int|
        0 <= j < i ==> (#[trigger] entries[j]).0@ != key
}

/// `i` and `k` both being the first position of a key makes them equal.
pub proof fn lemma_first_key_unique<V>(entries: Seq<(String, V)>, key: Seq<char>, i: int, k: int)
    requires
        first_key_at(entries, key, i),
        first_key_at(entries, key, k),
    ensures
        i == k,
{
    if i < k {
        assert(entries[i].0@ != key);
    } else if k < i {
        assert(entries[k].0@ != key);
    }
}

/// The position of the first entry keyed `key`, if any.
pub fn key_position<V>(entries: &Vec<(String, V)>, key: &str) -> (r: Option<usize>)
    ensures
        r is None <==> !has_key(entries@, key@),
        r is Some ==> first_key_at(entries@, key@, r->Some_0 as int),
{
    let mut i: usize = 0;
    while i < entries.len()
        invariant
            i <= entries@.len(),
            forall|j: int| 0 <= j < i ==> (#[trigger] entries@[j]).0@ != key@,
        decreases entries@.len() - i,
    {
        if crate::text::same_text(entries[i].0.as_str(), key) {
            return Some(i);
        }
        i = i + 1;
    }
    None
}

} // verus!
