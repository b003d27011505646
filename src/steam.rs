//! Locating applications, tools and settings in a Steam installation.
use vstd::prelude::*;
use vstd::string::*;
use crate::error::LaunchError;
use crate::paths::{join, join_spec, parent_dir, path_exists, path_parent};
use crate::steam::vdf::{
    copy_opt, first_key_at, has_key, key_position, lemma_first_key_unique, AppState, CompatToolEntry,
    InstallConfigStore, LibraryEntry, LibraryFolders, UserLocalConfigStore,
};
use crate::text::{
    all_ascii_digits, all_digits, contains_text, find_text, first_occurrence, has_prefix, occurs_at,
    same_text, views,
};
use crate::sorting::{rearranges, sort_by_numeric_id, sorted_by_id};

pub mod vdf;

verus! {

/// A Steam installation, known by its root directory.
pub struct Steam {
    root: String,
}

impl View for Steam {
    type V = Seq<char>;

    /// The root directory.
    closed spec fn view(&self) -> Seq<char> {
        self.root@
    }
}

/// Where Steam lives below a home directory when no directory is given.
pub open spec fn default_root(home: Seq<char>) -> Seq<char> {
    join_spec(home, ".local/share/Steam"@)
}

/// `r` is a Steam rooted at `root`, or the error that `root` does not exist.
pub open spec fn root_outcome(r: Result<Steam, LaunchError>, root: Seq<char>) -> bool {
    match r {
        Ok(s) => s@ == root,
        Err(e) => e is SteamDirNotFound && e->SteamDirNotFound_0@ == root,
    }
}

/// `<library>/steamapps`.
pub open spec fn steamapps(library: Seq<char>) -> Seq<char> {
    join_spec(library, "steamapps"@)
}

/// `<library>/steamapps/appmanifest_<id>.acf`.
pub open spec fn manifest_path_spec(library: Seq<char>, app_id: Seq<char>) -> Seq<char> {
    join_spec(steamapps(library), "appmanifest_"@ + app_id + ".acf"@)
}

/// `<library>/steamapps/common/<installdir>`.
pub open spec fn install_dir_spec(library: Seq<char>, installdir: Seq<char>) -> Seq<char> {
    join_spec(join_spec(steamapps(library), "common"@), installdir)
}

/// `<library>/steamapps/compatdata/<id>`: the application's prefix directory.
pub open spec fn compat_data_spec(library: Seq<char>, app_id: Seq<char>) -> Seq<char> {
    join_spec(join_spec(steamapps(library), "compatdata"@), app_id)
}

/// `<base>/steamapps/common/<folder>/proton`.
pub open spec fn proton_candidate(base: Seq<char>, folder: Seq<char>) -> Seq<char> {
    join_spec(join_spec(join_spec(steamapps(base), "common"@), folder), "proton"@)
}

/// `<root>/userdata/<user>/config/localconfig.vdf`.
pub open spec fn local_config_spec(root: Seq<char>, user_id: Seq<char>) -> Seq<char> {
    join_spec(join_spec(join_spec(root, "userdata"@), user_id), "config/localconfig.vdf"@)
}

/// The library lists the application id.
pub open spec fn lists_app(entry: LibraryEntry, app_id: Seq<char>) -> bool {
    has_key(entry.apps@, app_id)
}

/// `i` is the first library of the index that lists the application id.
pub open spec fn first_library_at(
    libraries: Seq<(String, LibraryEntry)>,
    app_id: Seq<char>,
    i: int,
) -> bool {
    0 <= i < libraries.len() && lists_app(libraries[i].1, app_id) && forall|j: int|
        0 <= j < i ==> !lists_app(#[trigger] libraries[j].1, app_id)
}

/// Some library of the index lists the application id.
pub open spec fn app_listed(libraries: Seq<(String, LibraryEntry)>, app_id: Seq<char>) -> bool {
    exists|i: int| 0 <= i < libraries.len() && lists_app(#[trigger] libraries[i].1, app_id)
}

/// The name of an optional string.
pub open spec fn opt_view(s: Option<String>) -> Option<Seq<char>> {
    match s {
        Some(v) => Some(v@),
        None => None,
    }
}

/// The mapping's entry for the application: `None` when there is none,
/// else the tool name that the first entry keyed by the id holds.
pub open spec fn tool_entry_of(mapping: Seq<(String, CompatToolEntry)>, app_id: Seq<char>) -> Option<
    Option<Seq<char>>,
> {
    if has_key(mapping, app_id) {
        Some(opt_view(mapping[choose|i: int| first_key_at(mapping, app_id, i)].1.name))
    } else {
        None
    }
}

/// The identifier of the tool used when an application names none.
pub open spec fn default_tool() -> Seq<char> {
    "proton_experimental"@
}

/// The tool name that an entry gives: its name, unless the entry or the name
/// is absent or the name is empty, in which case the default tool.
pub open spec fn tool_name_of(entry: Option<Option<Seq<char>>>) -> Seq<char> {
    match entry {
        Some(Some(n)) => if n.len() > 0 {
            n
        } else {
            default_tool()
        },
        _ => default_tool(),
    }
}

/// The folder in which a tool is installed: the default tool has a folder
/// name of its own, any other tool's folder is its name.
pub open spec fn tool_folder(name: Seq<char>) -> Seq<char> {
    if name == default_tool() {
        "Proton - Experimental"@
    } else {
        name
    }
}

/// An application without an entry in the compatibility-tool mapping runs on
/// the default tool, whose runtime is looked for in the default tool's own
/// folder, `Proton - Experimental`, not in a folder named after the default
/// tool's identifier.
pub proof fn lemma_unmapped_app_uses_default_folder(
    mapping: Seq<(String, CompatToolEntry)>,
    app_id: Seq<char>,
)
    requires
        !has_key(mapping, app_id),
    ensures
        tool_name_of(tool_entry_of(mapping, app_id)) == default_tool(),
        tool_folder(tool_name_of(tool_entry_of(mapping, app_id))) == "Proton - Experimental"@,
        tool_folder(tool_name_of(tool_entry_of(mapping, app_id))) != default_tool(),
{
    reveal_strlit("Proton - Experimental");
    reveal_strlit("proton_experimental");
    assert("Proton - Experimental"@[0] != "proton_experimental"@[0]);
}

/// The outcome of looking for the runtime at two places in order.
pub open spec fn pick_outcome(
    r: Result<String, LaunchError>,
    first: Seq<char>,
    first_exists: bool,
    second: Seq<char>,
    second_exists: bool,
) -> bool {
    if first_exists {
        r is Ok && r->Ok_0@ == first
    } else if second_exists {
        r is Ok && r->Ok_0@ == second
    } else {
        r is Err && r->Err_0 is ProtonNotFound && r->Err_0->ProtonNotFound_0@ == first
            && r->Err_0->ProtonNotFound_1@ == second
    }
}

/// `r` is one of the two candidates, or the error naming both.
pub open spec fn found_outcome(r: Result<String, LaunchError>, first: Seq<char>, second: Seq<char>) -> bool {
    match r {
        Ok(p) => p@ == first || p@ == second,
        Err(e) => e is ProtonNotFound && e->ProtonNotFound_0@ == first && e->ProtonNotFound_1@
            == second,
    }
}

/// The first of two candidate runtime paths that exists.
pub fn pick_existing(first: String, first_exists: bool, second: String, second_exists: bool) -> (r:
    Result<String, LaunchError>)
    ensures
        pick_outcome(r, first@, first_exists, second@, second_exists),
{
    if first_exists {
        Ok(first)
    } else if second_exists {
        Ok(second)
    } else {
        Err(LaunchError::ProtonNotFound(first, second))
    }
}

/// The tool name for an optional mapping entry (see `tool_name_of`).
pub fn compat_tool_name(entry: &Option<CompatToolEntry>) -> (r: String)
    ensures
        r@ == tool_name_of(
            match entry {
                Some(e) => Some(opt_view(e.name)),
                None => None,
            },
        ),
{
    proof {
        reveal_strlit("proton_experimental");
    }
    match entry {
        Some(e) => match &e.name {
            Some(n) => if n.as_str().unicode_len() > 0 {
                n.clone()
            } else {
                String::from_str("proton_experimental")
            },
            None => String::from_str("proton_experimental"),
        },
        None => String::from_str("proton_experimental"),
    }
}

/// The tool name shown in a listing (see `listing_tool_name`).
pub fn listing_tool_name_of(entry: &Option<CompatToolEntry>) -> (r: String)
    ensures
        r@ == listing_tool_name(
            match entry {
                Some(e) => Some(opt_view(e.name)),
                None => None,
            },
        ),
{
    proof {
        reveal_strlit("default");
    }
    match entry {
        Some(e) => match &e.name {
            Some(n) => if n.as_str().unicode_len() > 0 {
                n.clone()
            } else {
                String::from_str("default")
            },
            None => String::from_str("default"),
        },
        None => String::from_str("default"),
    }
}

/// The install folder of a tool (see `tool_folder`).
pub fn tool_folder_name(name: &str) -> (r: String)
    ensures
        r@ == tool_folder(name@),
{
    if crate::text::same_text(name, "proton_experimental") {
        String::from_str("Proton - Experimental")
    } else {
        String::from_str(name)
    }
}

/// The ids of a list of users, in order.
pub open spec fn user_ids(users: Seq<(String, Option<String>)>) -> Seq<Seq<char>> {
    users.map_values(|u: (String, Option<String>)| u.0@)
}

/// The launch-option template of an application in a user's settings.
pub open spec fn launch_options_of(config: UserLocalConfigStore, app_id: Seq<char>) -> Option<
    Seq<char>,
> {
    match config.software.valve.steam.apps {
        Some(apps) => if has_key(apps@, app_id) {
            opt_view(apps@[choose|i: int| first_key_at(apps@, app_id, i)].1.launch_options)
        } else {
            None
        },
        None => None,
    }
}

/// The manifest of the application that owns a prefix directory: the
/// prefix lies in `<steamapps>/compatdata/<id>`, the manifest is
/// `<steamapps>/appmanifest_<id>.acf`.
pub fn game_manifest_path(compatdata: &str, app_id: &str) -> (r: Option<String>)
    ensures
        match path_parent(compatdata@) {
            Some(d) => match path_parent(d) {
                Some(apps) => r is Some && r->Some_0@ == join_spec(
                    apps,
                    "appmanifest_"@ + app_id@ + ".acf"@,
                ),
                None => r is None,
            },
            None => r is None,
        },
{
    let data = parent_dir(compatdata)?;
    let apps = parent_dir(data.as_str())?;
    let mut file = String::from_str("appmanifest_");
    file.append(app_id);
    file.append(".acf");
    Some(join(apps.as_str(), file.as_str()))
}

/// The prefix directory that holds a program registered for an application:
/// the text of the program's path up to `/compatdata/<id>`, where that first
/// occurs followed by a separator.
pub open spec fn registered_prefix(exe_path: Seq<char>, app_id: Seq<char>) -> Option<Seq<char>> {
    let pat = "/compatdata/"@ + app_id + "/"@;
    if contains_text(exe_path, pat) {
        let i = choose|i: int| first_occurrence(exe_path, pat, i);
        Some(exe_path.subrange(0, i + pat.len() - 1))
    } else {
        None
    }
}

/// The prefix directory of a registered program (see `registered_prefix`).
pub fn prefix_of_registered(exe_path: &str, app_id: &str) -> (r: Option<String>)
    ensures
        opt_view(r) == registered_prefix(exe_path@, app_id@),
{
    proof {
        reveal_strlit("/compatdata/");
        reveal_strlit("/");
    }
    let mut pat = String::from_str("/compatdata/");
    pat.append(app_id);
    pat.append("/");
    match find_text(exe_path, pat.as_str()) {
        Some(i) => {
            let ghost p = pat@;
            proof {
                let k = choose|k: int| first_occurrence(exe_path@, p, k);
                if k < i {
                    assert(!occurs_at(exe_path@, p, k));
                } else if i < k {
                    assert(!occurs_at(exe_path@, p, i as int));
                }
            }
            let m = pat.as_str().unicode_len();
            let n = exe_path.unicode_len();
            assert(i + m <= n);
            Some(String::from_str(exe_path.substring_char(0, i + m - 1)))
        },
        None => None,
    }
}

/// The display name of an application's manifest, or `(unknown)` when the
/// manifest or its name is missing.
pub fn get_game_name(manifest: Option<&AppState>) -> (r: String)
    ensures
        r@ == match manifest {
            Some(m) => match m.name {
                Some(n) => n@,
                None => "(unknown)"@,
            },
            None => "(unknown)"@,
        },
{
    match manifest {
        Some(m) => match &m.name {
            Some(n) => n.clone(),
            None => String::from_str("(unknown)"),
        },
        None => String::from_str("(unknown)"),
    }
}

/// The manifest belongs to a runtime or support component, not to a game.
pub open spec fn is_runtime_spec(installdir: Seq<char>, name: Option<Seq<char>>) -> bool {
    "Proton"@.is_prefix_of(installdir) || "SteamLinuxRuntime"@.is_prefix_of(installdir) || match name {
        Some(n) => n == "Steamworks Common Redistributables"@ || "Proton"@.is_prefix_of(n)
            || "Steam Linux Runtime"@.is_prefix_of(n),
        None => false,
    }
}

/// The user directories whose names are all digits, in order.
pub open spec fn numbered_users(s: Seq<(String, Option<String>)>) -> Seq<(String, Option<String>)>
    decreases s.len(),
{
    if s.len() == 0 {
        s
    } else {
        let prev = numbered_users(s.drop_last());
        if all_digits(s.last().0@) {
            prev.push(s.last())
        } else {
            prev
        }
    }
}

/// The tool name shown in a listing: the mapped name, or `default` when the
/// entry or its name is absent or empty.
pub open spec fn listing_tool_name(entry: Option<Option<Seq<char>>>) -> Seq<char> {
    match entry {
        Some(Some(n)) => if n.len() > 0 {
            n
        } else {
            "default"@
        },
        _ => "default"@,
    }
}

/// The last prefix directory of `s` is listed as a game: its name is all
/// digits, no earlier directory has the same name, its manifest could be
/// read, and the manifest is not one of a runtime or support component.
pub open spec fn listed_last(s: Seq<(String, Option<AppState>)>) -> bool {
    let i = s.len() - 1;
    &&& all_digits(s[i].0@)
    &&& forall|j: int| 0 <= j < i ==> (#[trigger] s[j]).0@ != s[i].0@
    &&& s[i].1 is Some
    &&& !is_runtime_spec(s[i].1->Some_0.installdir@, opt_view(s[i].1->Some_0.name))
}

/// The row of a listed game: its id, its display name, and its tool name.
pub open spec fn game_row(
    entry: (String, Option<AppState>),
    mapping: Seq<(String, CompatToolEntry)>,
) -> (Seq<char>, Seq<char>, Seq<char>) {
    (
        entry.0@,
        match entry.1->Some_0.name {
            Some(n) => n@,
            None => "(unknown)"@,
        },
        listing_tool_name(tool_entry_of(mapping, entry.0@)),
    )
}

/// The rows of the games among the prefix directories, in the order found.
pub open spec fn games_spec(
    s: Seq<(String, Option<AppState>)>,
    mapping: Seq<(String, CompatToolEntry)>,
) -> Seq<(Seq<char>, Seq<char>, Seq<char>)>
    decreases s.len(),
{
    if s.len() == 0 {
        Seq::empty()
    } else {
        let prev = games_spec(s.drop_last(), mapping);
        if listed_last(s) {
            prev.push(game_row(s.last(), mapping))
        } else {
            prev
        }
    }
}

/// The character view of each row of a listing.
pub open spec fn row_views(v: Seq<(String, String, String)>) -> Seq<(Seq<char>, Seq<char>, Seq<char>)> {
    v.map_values(|r: (String, String, String)| (r.0@, r.1@, r.2@))
}

/// An application that some library lists has a first library listing it,
/// so looking it up succeeds with that library's path; one that no library
/// lists is not found (see `find_library_for_app`).
pub proof fn lemma_listed_app_has_first_library(
    libraries: Seq<(String, LibraryEntry)>,
    app_id: Seq<char>,
)
    requires
        app_listed(libraries, app_id),
    ensures
        exists|i: int| first_library_at(libraries, app_id, i),
    decreases libraries.len(),
{
    let last = libraries.len() - 1;
    let rest = libraries.drop_last();
    if app_listed(rest, app_id) {
        lemma_listed_app_has_first_library(rest, app_id);
        let i = choose|i: int| first_library_at(rest, app_id, i);
        assert(rest[i] == libraries[i]);
        assert forall|j: int| 0 <= j < i implies !lists_app(#[trigger] libraries[j].1, app_id) by {
            assert(rest[j] == libraries[j]);
        }
        assert(first_library_at(libraries, app_id, i));
    } else {
        assert forall|j: int| 0 <= j < last implies !lists_app(#[trigger] libraries[j].1, app_id) by {
            assert(rest[j] == libraries[j]);
        }
        assert(first_library_at(libraries, app_id, last));
    }
}

impl Steam {
    /// Opens the installation at `steam_dir`, or below `home` when no
    /// directory is given; the directory must exist.
    pub fn new(steam_dir: Option<String>, home: Option<String>) -> (r: Result<Steam, LaunchError>)
        ensures
            (steam_dir is None && home is None) ==> (r is Err && r->Err_0 is HomeNotSet),
            steam_dir is Some ==> root_outcome(r, steam_dir->Some_0@),
            (steam_dir is None && home is Some) ==> root_outcome(
                r,
                default_root(home->Some_0@),
            ),
    {
        let root = match steam_dir {
            Some(dir) => dir,
            None => match home {
                Some(h) => join(h.as_str(), ".local/share/Steam"),
                None => {
                    return Err(LaunchError::HomeNotSet);
                },
            },
        };
        let exists = path_exists(root.as_str());
        Self::from_root(root, exists)
    }

    /// The installation at `root` when that directory exists on disk
    /// (`root_exists`), else the error naming it.
    pub fn from_root(root: String, root_exists: bool) -> (r: Result<Steam, LaunchError>)
        ensures
            root_exists ==> (r is Ok && r->Ok_0@ == root@),
            !root_exists ==> (r is Err && r->Err_0 is SteamDirNotFound
                && r->Err_0->SteamDirNotFound_0@ == root@),
    {
        if root_exists {
            Ok(Steam { root })
        } else {
            Err(LaunchError::SteamDirNotFound(root))
        }
    }

    /// The root directory of the installation.
    pub fn root_path(&self) -> (r: &str)
        ensures
            r@ == self@,
    {
        self.root.as_str()
    }

    /// `<root>/config/libraryfolders.vdf`, the library index.
    pub fn library_folders_path(&self) -> (r: String)
        ensures
            r@ == join_spec(self@, "config/libraryfolders.vdf"@),
    {
        join(self.root.as_str(), "config/libraryfolders.vdf")
    }

    /// `<root>/config/config.vdf`, which holds the compatibility-tool mapping.
    pub fn config_path(&self) -> (r: String)
        ensures
            r@ == join_spec(self@, "config/config.vdf"@),
    {
        join(self.root.as_str(), "config/config.vdf")
    }

    /// `<root>/userdata`, with one directory per user.
    pub fn userdata_path(&self) -> (r: String)
        ensures
            r@ == join_spec(self@, "userdata"@),
    {
        join(self.root.as_str(), "userdata")
    }

    /// The local settings document of one user.
    pub fn local_config_path(&self, user_id: &str) -> (r: String)
        ensures
            r@ == local_config_spec(self@, user_id@),
    {
        let users = join(self.root.as_str(), "userdata");
        let dir = join(users.as_str(), user_id);
        join(dir.as_str(), "config/localconfig.vdf")
    }

    /// The first library, in document order, whose index lists the application.
    pub fn find_library_for_app(&self, folders: &LibraryFolders, app_id: &str) -> (r: Result<
        String,
        LaunchError,
    >)
        ensures
            r is Err <==> !app_listed(folders.libraries@, app_id@),
            r is Err ==> (r->Err_0 is AppNotFound && r->Err_0->AppNotFound_0@ == app_id@),
            r is Ok ==> exists|i: int|
                first_library_at(folders.libraries@, app_id@, i) && r->Ok_0@
                    == (#[trigger] folders.libraries@[i]).1.path@,
    {
        let libs = &folders.libraries;
        let mut i: usize = 0;
        while i < libs.len()
            invariant
                libs@ == folders.libraries@,
                i <= libs@.len(),
                forall|j: int| 0 <= j < i ==> !lists_app(#[trigger] libs@[j].1, app_id@),
            decreases libs@.len() - i,
        {
            if key_position(&libs[i].1.apps, app_id).is_some() {
                let p = libs[i].1.path.clone();
                assert(first_library_at(libs@, app_id@, i as int));
                return Ok(p);
            }
            i = i + 1;
        }
        Err(LaunchError::AppNotFound(String::from_str(app_id)))
    }

    /// The manifest document of an application in a library.
    pub fn manifest_path(&self, library_path: &str, app_id: &str) -> (r: String)
        ensures
            r@ == manifest_path_spec(library_path@, app_id@),
    {
        let apps = join(library_path, "steamapps");
        let mut file = String::from_str("appmanifest_");
        file.append(app_id);
        file.append(".acf");
        join(apps.as_str(), file.as_str())
    }

    /// The directory that the manifest names as the application's install
    /// directory.
    pub fn get_install_dir(&self, library_path: &str, manifest: &AppState) -> (r: String)
        ensures
            r@ == install_dir_spec(library_path@, manifest.installdir@),
    {
        let apps = join(library_path, "steamapps");
        let common = join(apps.as_str(), "common");
        join(common.as_str(), manifest.installdir.as_str())
    }

    /// The application's prefix directory; whether it exists is not checked.
    pub fn get_compat_data_path(&self, library_path: &str, app_id: &str) -> (r: String)
        ensures
            r@ == compat_data_spec(library_path@, app_id@),
    {
        let apps = join(library_path, "steamapps");
        let data = join(apps.as_str(), "compatdata");
        join(data.as_str(), app_id)
    }

    /// The application's entry in the compatibility-tool mapping.
    pub fn get_compat_tool(&self, config: &InstallConfigStore, app_id: &str) -> (r: Option<
        CompatToolEntry,
    >)
        ensures
            match r {
                Some(e) => Some(opt_view(e.name)),
                None => None,
            } == tool_entry_of(config.software.valve.steam.compat_tool_mapping@, app_id@),
    {
        let mapping = &config.software.valve.steam.compat_tool_mapping;
        match key_position(mapping, app_id) {
            Some(i) => {
                proof {
                    let k = choose|k: int| first_key_at(mapping@, app_id@, k);
                    lemma_first_key_unique(mapping@, app_id@, i as int, k);
                }
                Some(CompatToolEntry { name: copy_opt(&mapping[i].1.name) })
            },
            None => None,
        }
    }

    /// The runtime binary of a tool: inside the library's common-tools
    /// directory if it is there, else inside the root installation's.
    pub fn get_proton_path(&self, library_path: &str, compat_tool_name: &str) -> (r: Result<
        String,
        LaunchError,
    >)
        ensures
            found_outcome(
                r,
                proton_candidate(library_path@, tool_folder(compat_tool_name@)),
                proton_candidate(self@, tool_folder(compat_tool_name@)),
            ),
    {
        let folder = tool_folder_name(compat_tool_name);
        let first = self.proton_in(library_path, folder.as_str());
        let second = self.proton_in(self.root.as_str(), folder.as_str());
        let first_exists = path_exists(first.as_str());
        let second_exists = if first_exists {
            false
        } else {
            path_exists(second.as_str())
        };
        pick_existing(first, first_exists, second, second_exists)
    }

    /// `<base>/steamapps/common/<folder>/proton`.
    fn proton_in(&self, base: &str, folder: &str) -> (r: String)
        ensures
            r@ == proton_candidate(base@, folder@),
    {
        let apps = join(base, "steamapps");
        let common = join(apps.as_str(), "common");
        let dir = join(common.as_str(), folder);
        join(dir.as_str(), "proton")
    }

    /// The runtime binary and the prefix directory of an application whose
    /// library is known.
    pub fn resolve_proton_paths(
        &self,
        library_path: &str,
        config: &InstallConfigStore,
        app_id: &str,
    ) -> (r: Result<(String, String), LaunchError>)
        ensures
            ({
                let folder = tool_folder(
                    tool_name_of(
                        tool_entry_of(config.software.valve.steam.compat_tool_mapping@, app_id@),
                    ),
                );
                found_outcome(
                    match r {
                        Ok(p) => Ok(p.0),
                        Err(e) => Err(e),
                    },
                    proton_candidate(library_path@, folder),
                    proton_candidate(self@, folder),
                )
            }),
            r is Ok ==> r->Ok_0.1@ == compat_data_spec(library_path@, app_id@),
    {
        let tool = self.get_compat_tool(config, app_id);
        let name = compat_tool_name(&tool);
        let proton = self.get_proton_path(library_path, name.as_str())?;
        let data = self.get_compat_data_path(library_path, app_id);
        Ok((proton, data))
    }

    /// The user to read settings of: the one given, else the only one there is.
    pub fn detect_user_id(&self, users: &Vec<(String, Option<String>)>) -> (r: Result<
        String,
        LaunchError,
    >)
        ensures
            users@.len() == 0 ==> (r is Err && r->Err_0 is NoUsers),
            users@.len() == 1 ==> (r is Ok && r->Ok_0@ == users@[0].0@),
            users@.len() > 1 ==> (r is Err && r->Err_0 is MultipleUsers && views(
                r->Err_0->MultipleUsers_0@,
            ) == user_ids(users@)),
    {
        if users.len() == 0 {
            Err(LaunchError::NoUsers)
        } else if users.len() == 1 {
            Ok(users[0].0.clone())
        } else {
            let mut ids: Vec<String> = Vec::new();
            let mut i: usize = 0;
            while i < users.len()
                invariant
                    i <= users@.len(),
                    ids@.len() == i,
                    forall|k: int| 0 <= k < i ==> (#[trigger] ids@[k])@ == users@[k].0@,
                decreases users@.len() - i,
            {
                ids.push(users[i].0.clone());
                i = i + 1;
            }
            proof {
                assert(views(ids@) =~= user_ids(users@));
            }
            Err(LaunchError::MultipleUsers(ids))
        }
    }

    /// The user chosen explicitly, else the one that `detect_user_id` finds.
    pub fn choose_user_id(&self, user_id: Option<String>, users: &Vec<(String, Option<String>)>) -> (r:
        Result<String, LaunchError>)
        ensures
            user_id is Some ==> (r is Ok && r->Ok_0@ == user_id->Some_0@),
            (user_id is None && users@.len() == 0) ==> (r is Err && r->Err_0 is NoUsers),
            (user_id is None && users@.len() == 1) ==> (r is Ok && r->Ok_0@ == users@[0].0@),
            (user_id is None && users@.len() > 1) ==> (r is Err && r->Err_0 is MultipleUsers),
    {
        match user_id {
            Some(id) => Ok(id),
            None => self.detect_user_id(users),
        }
    }

    /// The launch-option template that the user set for the application.
    pub fn get_launch_options(&self, config: &UserLocalConfigStore, app_id: &str) -> (r: Option<
        String,
    >)
        ensures
            opt_view(r) == launch_options_of(*config, app_id@),
    {
        match &config.software.valve.steam.apps {
            Some(apps) => match key_position(apps, app_id) {
                Some(i) => {
                    proof {
                        let k = choose|k: int| first_key_at(apps@, app_id@, k);
                        lemma_first_key_unique(apps@, app_id@, i as int, k);
                    }
                    copy_opt(&apps[i].1.launch_options)
                },
                None => None,
            },
            None => None,
        }
    }

    /// The display name that a user's settings hold.
    pub fn get_persona_name(config: &UserLocalConfigStore) -> (r: Option<String>)
        ensures
            opt_view(r) == match config.friends {
                Some(f) => opt_view(f.persona_name),
                None => None,
            },
    {
        match &config.friends {
            Some(f) => copy_opt(&f.persona_name),
            None => None,
        }
    }

    /// The users among the directories of `userdata`, each given with the
    /// display name read from its settings: those whose directory name is all
    /// digits, ordered by the numeric value of their ids.
    pub fn list_users(&self, candidates: Vec<(String, Option<String>)>) -> (r: Vec<
        (String, Option<String>),
    >)
        ensures
            r@.len() == numbered_users(candidates@).len(),
            rearranges(r@, numbered_users(candidates@)),
            sorted_by_id(r@),
    {
        let ghost all = candidates@;
        let n = candidates.len();
        let mut rest = candidates;
        let mut kept: Vec<(String, Option<String>)> = Vec::new();
        let mut i: usize = 0;
        proof {
            assert(all.subrange(0, 0) =~= Seq::<(String, Option<String>)>::empty());
            assert(all.subrange(0, 0 as int) =~= all.subrange(0, 0));
        }
        while i < n
            invariant
                n == all.len(),
                i <= n,
                rest@ == all.subrange(i as int, n as int),
                kept@ == numbered_users(all.subrange(0, i as int)),
            decreases n - i,
        {
            let u = rest.remove(0);
            proof {
                assert(all.subrange(0, i + 1).drop_last() =~= all.subrange(0, i as int));
                assert(rest@ =~= all.subrange(i + 1, n as int));
            }
            if all_ascii_digits(u.0.as_str()) {
                kept.push(u);
            }
            i = i + 1;
        }
        proof {
            assert(all.subrange(0, n as int) =~= all);
        }
        sort_by_numeric_id(kept)
    }

    /// The games that have a prefix directory. `found` lists the prefix
    /// directories of every library, library by library, each with its
    /// manifest when that could be read; the rows give the id, the display
    /// name and the tool name, ordered by the numeric value of the id.
    pub fn list_proton_games(
        &self,
        config: &InstallConfigStore,
        found: &Vec<(String, Option<AppState>)>,
    ) -> (r: Vec<(String, String, String)>)
        ensures
            r@.len() == games_spec(found@, config.software.valve.steam.compat_tool_mapping@).len(),
            rearranges(
                row_views(r@),
                games_spec(found@, config.software.valve.steam.compat_tool_mapping@),
            ),
            sorted_by_id(r@),
    {
        let ghost mapping = config.software.valve.steam.compat_tool_mapping@;
        let mut rows: Vec<(String, String, String)> = Vec::new();
        let mut i: usize = 0;
        while i < found.len()
            invariant
                mapping == config.software.valve.steam.compat_tool_mapping@,
                i <= found@.len(),
                row_views(rows@) == games_spec(found@.subrange(0, i as int), mapping),
            decreases found@.len() - i,
        {
            let ghost prefix = found@.subrange(0, i + 1);
            proof {
                assert(prefix.drop_last() =~= found@.subrange(0, i as int));
                assert(prefix.last() == found@[i as int]);
            }
            let name = found[i].0.as_str();
            let mut fresh = all_ascii_digits(name);
            let mut j: usize = 0;
            while j < i && fresh
                invariant
                    i < found@.len(),
                    j <= i,
                    prefix == found@.subrange(0, i + 1),
                    name@ == found@[i as int].0@,
                    fresh ==> all_digits(name@),
                    fresh ==> forall|k: int| 0 <= k < j ==> (#[trigger] found@[k]).0@ != name@,
                    !fresh ==> !listed_last(prefix),
                decreases i - j,
            {
                if same_text(found[j].0.as_str(), name) {
                    assert(prefix[j as int].0@ == prefix[i as int].0@);
                    fresh = false;
                }
                j = j + 1;
            }
            if fresh {
                match &found[i].1 {
                    Some(manifest) => {
                        if !Self::is_runtime_app(manifest) {
                            let game = get_game_name(Some(manifest));
                            let tool = self.get_compat_tool(config, name);
                            let tool_name = listing_tool_name_of(&tool);
                            let ghost before = rows@;
                            rows.push((String::from_str(name), game, tool_name));
                            proof {
                                assert(listed_last(prefix));
                                assert(row_views(rows@) =~= row_views(before).push(
                                    game_row(found@[i as int], mapping),
                                ));
                            }
                        }
                    },
                    None => {},
                }
            }
            i = i + 1;
        }
        proof {
            assert(found@.subrange(0, i as int) =~= found@);
        }
        let r = sort_by_numeric_id(rows);
        proof {
            let p = choose|p: Seq<int>|
                crate::sorting::is_permutation(p, rows@.len() as int) && forall|k: int|
                    0 <= k < r@.len() ==> #[trigger] r@[k] == rows@[p[k]];
            assert(forall|k: int|
                0 <= k < row_views(r@).len() ==> #[trigger] row_views(r@)[k] == row_views(
                    rows@,
                )[p[k]]);
        }
        r
    }

    /// Whether a manifest belongs to a runtime or support component.
    pub fn is_runtime_app(manifest: &AppState) -> (r: bool)
        ensures
            r == is_runtime_spec(manifest.installdir@, opt_view(manifest.name)),
    {
        let dir = manifest.installdir.as_str();
        if has_prefix(dir, "Proton") || has_prefix(dir, "SteamLinuxRuntime") {
            return true;
        }
        match &manifest.name {
            Some(n) => crate::text::same_text(n.as_str(), "Steamworks Common Redistributables")
                || has_prefix(n.as_str(), "Proton") || has_prefix(n.as_str(), "Steam Linux Runtime"),
            None => false,
        }
    }
}

} // verus!
