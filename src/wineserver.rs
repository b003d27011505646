//! Finding the runtime's background server of a running application.
use vstd::prelude::*;
use vstd::string::*;
use vstd::utf8::{decode_utf8, valid_utf8};
use crate::error::LaunchError;
use crate::paths::{join, join_spec, parent_dir, path_exists, path_parent};
use crate::steam::vdf::{first_key_at, has_key, key_position, lemma_first_key_unique};
use crate::text::{find_char, first_char_at, same_text, views};

verus! {

/// What trimming surrounding white space leaves of a text.
pub uninterp spec fn trimmed(s: Seq<char>) -> Seq<char>;

/// Relies on `str::trim`: the text without leading and trailing white space.
#[verifier::external_body]
fn trim_text(s: &str) -> (r: String)
    ensures
        r@ == trimmed(s@),
{
    s.trim().to_string()
}

/// Relies on `std::str::from_utf8`: it succeeds exactly on valid UTF-8, and
/// then the text is what the bytes encode.
#[verifier::external_body]
fn utf8_text(b: &[u8]) -> (r: Option<String>)
    ensures
        r is Some <==> valid_utf8(b@),
        r is Some ==> r->Some_0@ == decode_utf8(b@),
{
    std::str::from_utf8(b).ok().map(|s| s.to_string())
}

/// The pieces of `data` between nul bytes, in order; there is always one
/// more piece than there are nul bytes.
pub open spec fn split_nul(data: Seq<u8>) -> Seq<Seq<u8>>
    decreases data.len(),
{
    if data.len() == 0 {
        seq![Seq::empty()]
    } else {
        let pieces = split_nul(data.drop_last());
        if data.last() == 0 {
            pieces.push(Seq::empty())
        } else {
            pieces.update(pieces.len() - 1, pieces.last().push(data.last()))
        }
    }
}

/// The variable that a piece of an environment block sets: a UTF-8 text
/// split at its first `=`.
pub open spec fn entry_of(piece: Seq<u8>) -> Option<(Seq<char>, Seq<char>)> {
    let s = decode_utf8(piece);
    if valid_utf8(piece) && s.contains('=') {
        let p = choose|p: int| first_char_at(s, '=', p);
        Some((s.subrange(0, p), s.subrange(p + 1, s.len() as int)))
    } else {
        None
    }
}

/// The variables that a list of pieces sets; a later piece overrides an
/// earlier one with the same name.
pub open spec fn env_of(pieces: Seq<Seq<u8>>) -> Map<Seq<char>, Seq<char>>
    decreases pieces.len(),
{
    if pieces.len() == 0 {
        Map::empty()
    } else {
        let m = env_of(pieces.drop_last());
        match entry_of(pieces.last()) {
            Some(kv) => m.insert(kv.0, kv.1),
            None => m,
        }
    }
}

/// No two entries of the list have the same name.
pub open spec fn names_unique(v: Seq<(String, String)>) -> bool {
    forall|i: int, j: int|
        0 <= i < v.len() && 0 <= j < v.len() && i != j ==> (#[trigger] v[i]).0@ != (#[trigger] v[j]).0@
}

/// The list of variables holds exactly the map's names, each with its value.
pub open spec fn lists_env(v: Seq<(String, String)>, m: Map<Seq<char>, Seq<char>>) -> bool {
    names_unique(v) && (forall|k: Seq<char>| has_key(v, k) <==> #[trigger] m.dom().contains(k))
        && forall|i: int| 0 <= i < v.len() ==> m[(#[trigger] v[i]).0@] == v[i].1@
}

/// The value of a variable, looked up by name.
pub open spec fn env_value(v: Seq<(String, String)>, name: Seq<char>) -> Option<Seq<char>> {
    if has_key(v, name) {
        Some(v[choose|i: int| first_key_at(v, name, i)].1@)
    } else {
        None
    }
}

/// The value of a variable of a list, looked up by name.
fn env_get(env: &Vec<(String, String)>, name: &str) -> (r: Option<String>)
    ensures
        match r {
            Some(v) => env_value(env@, name@) == Some(v@),
            None => env_value(env@, name@) is None,
        },
        forall|m: Map<Seq<char>, Seq<char>>|
            #![trigger lists_env(env@, m)]
            lists_env(env@, m) ==> match r {
                Some(v) => m.dom().contains(name@) && m[name@] == v@,
                None => !m.dom().contains(name@),
            },
{
    match key_position(env, name) {
        Some(i) => {
            proof {
                let k = choose|k: int| first_key_at(env@, name@, k);
                lemma_first_key_unique(env@, name@, i as int, k);
            }
            Some(env[i].1.clone())
        },
        None => None,
    }
}

/// The server process name that the runtime gives its background server.
pub open spec fn server_name() -> Seq<char> {
    "wineserver"@
}

/// The session that a process table entry stands for: a server process whose
/// environment names a non-empty application id and prefix directory, and
/// whose executable link has a parent directory. The fields are the
/// application id, the prefix directory and the `wine64` beside the server.
pub open spec fn session_of(comm: Seq<char>, environ: Seq<u8>, exe_link: Option<Seq<char>>) -> Option<
    (Seq<char>, Seq<char>, Seq<char>),
> {
    let m = env_of(split_nul(environ));
    let id = "SteamAppId"@;
    let data = "STEAM_COMPAT_DATA_PATH"@;
    if trimmed(comm) == server_name() && m.dom().contains(id) && m[id].len() > 0 && m.dom().contains(
        data,
    ) && m[data].len() > 0 && exe_link is Some && path_parent(exe_link->Some_0) is Some {
        Some((m[id], m[data], join_spec(path_parent(exe_link->Some_0)->Some_0, "wine64"@)))
    } else {
        None
    }
}

/// The variables forwarded from a session's environment, when present.
pub open spec fn forwarded(env: Seq<(String, String)>, name: Seq<char>) -> Seq<(Seq<char>, Seq<char>)> {
    match env_value(env, name) {
        Some(v) => seq![(name, v)],
        None => Seq::empty(),
    }
}

/// The attach command line: `wine64`, then `explorer /desktop=<name>,<size>`
/// when a desktop size is given, then the program and its arguments.
pub open spec fn attach_line(
    wine64: Seq<char>,
    exe: Seq<char>,
    args: Seq<Seq<char>>,
    desktop_size: Option<Seq<char>>,
    desktop_name: Seq<char>,
) -> Seq<Seq<char>> {
    match desktop_size {
        Some(size) => seq![wine64, "explorer"@, "/desktop="@ + desktop_name + ","@ + size, exe] + args,
        None => seq![wine64, exe] + args,
    }
}

/// A running background server of the runtime and what it serves.
pub struct WineserverInfo {
    pub appid: String,
    pub compatdata: String,
    pub wine64: String,
    pub env: Vec<(String, String)>,
}

/// The character view of each pair of a list.
pub open spec fn pair_views(v: Seq<(String, String)>) -> Seq<(Seq<char>, Seq<char>)> {
    v.map_values(|p: (String, String)| (p.0@, p.1@))
}

/// The first session in the list that serves the application.
pub open spec fn first_session_at(sessions: Seq<WineserverInfo>, app_id: Seq<char>, i: int) -> bool {
    0 <= i < sessions.len() && sessions[i].appid@ == app_id && forall|j: int|
        0 <= j < i ==> (#[trigger] sessions[j]).appid@ != app_id
}

/// Some session in the list serves the application.
pub open spec fn has_session(sessions: Seq<WineserverInfo>, app_id: Seq<char>) -> bool {
    exists|i: int| 0 <= i < sessions.len() && (#[trigger] sessions[i]).appid@ == app_id
}

/// When exactly one scanned session serves the application, it is the first
/// one that does, and no other position is.
pub proof fn lemma_single_session_is_found(sessions: Seq<WineserverInfo>, app_id: Seq<char>, i: int)
    requires
        0 <= i < sessions.len(),
        sessions[i].appid@ == app_id,
        forall|j: int| 0 <= j < sessions.len() && j != i ==> (#[trigger] sessions[j]).appid@ != app_id,
    ensures
        has_session(sessions, app_id),
        first_session_at(sessions, app_id, i),
        forall|k: int| #[trigger] first_session_at(sessions, app_id, k) ==> k == i,
{
}

/// When no scanned session serves the application (in particular when there
/// is none at all), there is nothing to find.
pub proof fn lemma_no_matching_session(sessions: Seq<WineserverInfo>, app_id: Seq<char>)
    requires
        forall|j: int| 0 <= j < sessions.len() ==> (#[trigger] sessions[j]).appid@ != app_id,
    ensures
        !has_session(sessions, app_id),
{
}

/// The session that a process table entry stands for (see `session_of`):
/// `comm` is the process name, `environ` its environment block, and
/// `exe_link` the target of its executable link, when it could be read.
pub fn session_from_process(comm: &str, environ: &[u8], exe_link: Option<&str>) -> (r: Option<
    WineserverInfo,
>)
    ensures
        match r {
            Some(info) => session_of(
                comm@,
                environ@,
                match exe_link {
                    Some(l) => Some(l@),
                    None => None,
                },
            ) == Some((info.appid@, info.compatdata@, info.wine64@)) && lists_env(
                info.env@,
                env_of(split_nul(environ@)),
            ),
            None => session_of(
                comm@,
                environ@,
                match exe_link {
                    Some(l) => Some(l@),
                    None => None,
                },
            ) is None,
        },
{
    let ghost m = env_of(split_nul(environ@));
    let name = trim_text(comm);
    if !same_text(name.as_str(), "wineserver") {
        return None;
    }
    let env = parse_environ(environ);
    let appid = match env_get(&env, "SteamAppId") {
        Some(id) => id,
        None => {
            return None;
        },
    };
    if appid.as_str().unicode_len() == 0 {
        return None;
    }
    let compatdata = match env_get(&env, "STEAM_COMPAT_DATA_PATH") {
        Some(p) => p,
        None => {
            return None;
        },
    };
    if compatdata.as_str().unicode_len() == 0 {
        return None;
    }
    let link = match exe_link {
        Some(l) => l,
        None => {
            return None;
        },
    };
    let dir = match parent_dir(link) {
        Some(d) => d,
        None => {
            return None;
        },
    };
    let wine64 = join(dir.as_str(), "wine64");
    Some(WineserverInfo { appid, compatdata, wine64, env })
}

impl WineserverInfo {
    /// The first session in `sessions` that serves the application.
    pub fn find_by_appid(sessions: Vec<WineserverInfo>, target_appid: &str) -> (r: Result<
        WineserverInfo,
        LaunchError,
    >)
        ensures
            r is Err <==> !has_session(sessions@, target_appid@),
            r is Err ==> (r->Err_0 is NoRunningSession && r->Err_0->NoRunningSession_0@
                == target_appid@),
            r is Ok ==> exists|i: int|
                first_session_at(sessions@, target_appid@, i) && r->Ok_0 == sessions@[i],
    {
        let mut list = sessions;
        let ghost all = list@;
        let mut i: usize = 0;
        while i < list.len()
            invariant
                all == sessions@,
                list@ == all,
                i <= all.len(),
                forall|j: int| 0 <= j < i ==> (#[trigger] all[j]).appid@ != target_appid@,
            decreases all.len() - i,
        {
            if same_text(list[i].appid.as_str(), target_appid) {
                assert(first_session_at(all, target_appid@, i as int));
                let found = list.remove(i);
                assert(found == all[i as int]);
                return Ok(found);
            }
            i = i + 1;
        }
        Err(LaunchError::NoRunningSession(String::from_str(target_appid)))
    }

    /// The command line that runs `exe` with `args` in the session (see
    /// `command_line`); the session's `wine64` must exist.
    pub fn wine_command(
        &self,
        exe: &str,
        args: &Vec<String>,
        bypass_gamescope: Option<&str>,
        desktop_name: &str,
    ) -> (r: Result<Vec<String>, LaunchError>)
        ensures
            r is Err ==> (r->Err_0 is Wine64NotFound && r->Err_0->Wine64NotFound_0@
                == self.wine64@),
            r is Ok ==> views(r->Ok_0@) == attach_line(
                self.wine64@,
                exe@,
                views(args@),
                match bypass_gamescope {
                    Some(res) => Some(res@),
                    None => None,
                },
                desktop_name@,
            ),
    {
        if !path_exists(self.wine64.as_str()) {
            return Err(LaunchError::Wine64NotFound(self.wine64.clone()));
        }
        Ok(self.command_line(exe, args, bypass_gamescope, desktop_name))
    }

    /// The command line that runs `exe` with `args` through the session's
    /// `wine64`: directly, or inside a virtual desktop named `desktop_name`
    /// of the given size when the compositor is to be bypassed.
    pub fn command_line(
        &self,
        exe: &str,
        args: &Vec<String>,
        bypass_gamescope: Option<&str>,
        desktop_name: &str,
    ) -> (r: Vec<String>)
        ensures
            views(r@) == attach_line(
                self.wine64@,
                exe@,
                views(args@),
                match bypass_gamescope {
                    Some(res) => Some(res@),
                    None => None,
                },
                desktop_name@,
            ),
    {
        let mut cmd: Vec<String> = Vec::new();
        cmd.push(self.wine64.clone());
        match bypass_gamescope {
            Some(res) => {
                cmd.push(String::from_str("explorer"));
                let mut desktop = String::from_str("/desktop=");
                desktop.append(desktop_name);
                desktop.append(",");
                desktop.append(res);
                cmd.push(desktop);
            },
            None => {},
        }
        cmd.push(String::from_str(exe));
        let ghost head = views(cmd@);
        let mut k: usize = 0;
        while k < args.len()
            invariant
                k <= args@.len(),
                views(cmd@) == head + views(args@).subrange(0, k as int),
            decreases args@.len() - k,
        {
            let ghost before = cmd@;
            cmd.push(args[k].clone());
            proof {
                assert(views(cmd@) =~= views(before).push(args@[k as int]@));
                assert(views(args@).subrange(0, k + 1) =~= views(args@).subrange(
                    0,
                    k as int,
                ).push(args@[k as int]@));
                assert(views(cmd@) =~= head + views(args@).subrange(0, k + 1));
            }
            k = k + 1;
        }
        proof {
            assert(views(args@).subrange(0, k as int) =~= views(args@));
            assert(views(cmd@) =~= head + views(args@));
        }
        cmd
    }

    /// The variables to set before running a program in the session: the
    /// synchronisation settings, the application id and the prefix directory
    /// that the session's environment holds, then the prefix itself.
    pub fn env_to_apply(&self) -> (r: Vec<(String, String)>)
        ensures
            pair_views(r@) == forwarded(self.env@, "WINEFSYNC"@) + forwarded(self.env@, "WINEESYNC"@)
                + forwarded(self.env@, "SteamAppId"@) + forwarded(
                self.env@,
                "STEAM_COMPAT_DATA_PATH"@,
            ) + seq![("WINEPREFIX"@, join_spec(self.compatdata@, "pfx"@))],
    {
        let mut r: Vec<(String, String)> = Vec::new();
        Self::forward(&self.env, "WINEFSYNC", &mut r);
        Self::forward(&self.env, "WINEESYNC", &mut r);
        Self::forward(&self.env, "SteamAppId", &mut r);
        Self::forward(&self.env, "STEAM_COMPAT_DATA_PATH", &mut r);
        let prefix = join(self.compatdata.as_str(), "pfx");
        r.push((String::from_str("WINEPREFIX"), prefix));
        proof {
            assert(pair_views(r@) =~= forwarded(self.env@, "WINEFSYNC"@) + forwarded(
                self.env@,
                "WINEESYNC"@,
            ) + forwarded(self.env@, "SteamAppId"@) + forwarded(
                self.env@,
                "STEAM_COMPAT_DATA_PATH"@,
            ) + seq![("WINEPREFIX"@, join_spec(self.compatdata@, "pfx"@))]);
        }
        r
    }

    /// Appends the variable `name` with its value, when `env` has it.
    fn forward(env: &Vec<(String, String)>, name: &str, out: &mut Vec<(String, String)>)
        ensures
            pair_views(final(out)@) == pair_views(old(out)@) + forwarded(env@, name@),
    {
        match env_get(env, name) {
            Some(v) => {
                out.push((String::from_str(name), v));
            },
            None => {},
        }
        proof {
            assert(pair_views(out@) =~= pair_views(old(out)@) + forwarded(env@, name@));
        }
    }
}

proof fn lemma_split_step(data: Seq<u8>, i: int)
    requires
        0 <= i < data.len(),
    ensures
        split_nul(data.subrange(0, i + 1)) == ({
            let pieces = split_nul(data.subrange(0, i));
            if data[i] == 0 {
                pieces.push(Seq::empty())
            } else {
                pieces.update(pieces.len() - 1, pieces.last().push(data[i]))
            }
        }),
{
    assert(data.subrange(0, i + 1).drop_last() =~= data.subrange(0, i));
}

proof fn lemma_split_nonempty(data: Seq<u8>)
    ensures
        split_nul(data).len() >= 1,
    decreases data.len(),
{
    if data.len() > 0 {
        lemma_split_nonempty(data.drop_last());
    }
}

/// The pieces of `data` between nul bytes.
fn split_pieces(data: &[u8]) -> (r: Vec<Vec<u8>>)
    ensures
        r@.len() == split_nul(data@).len(),
        forall|i: int| 0 <= i < r@.len() ==> (#[trigger] r@[i])@ == split_nul(data@)[i],
{
    let mut pieces: Vec<Vec<u8>> = Vec::new();
    let mut cur: Vec<u8> = Vec::new();
    let mut i: usize = 0;
    proof {
        assert(data@.subrange(0, 0) =~= Seq::<u8>::empty());
    }
    while i < data.len()
        invariant
            i <= data@.len(),
            ({
                let s = split_nul(data@.subrange(0, i as int));
                &&& pieces@.len() + 1 == s.len()
                &&& forall|k: int| 0 <= k < pieces@.len() ==> (#[trigger] pieces@[k])@ == s[k]
                &&& cur@ == s.last()
            }),
        decreases data@.len() - i,
    {
        proof {
            lemma_split_step(data@, i as int);
            lemma_split_nonempty(data@.subrange(0, i as int));
        }
        if data[i] == 0 {
            pieces.push(cur);
            cur = Vec::new();
        } else {
            cur.push(data[i]);
        }
        i = i + 1;
    }
    proof {
        assert(data@.subrange(0, i as int) =~= data@);
    }
    pieces.push(cur);
    pieces
}

/// The variable that one piece sets, if it is UTF-8 text holding `=`.
fn parse_entry(piece: &Vec<u8>) -> (r: Option<(String, String)>)
    ensures
        match r {
            Some(kv) => entry_of(piece@) == Some((kv.0@, kv.1@)),
            None => entry_of(piece@) is None,
        },
{
    let s = match utf8_text(piece.as_slice()) {
        Some(s) => s,
        None => {
            return None;
        },
    };
    match find_char(s.as_str(), '=') {
        Some(p) => {
            let n = s.as_str().unicode_len();
            let key = String::from_str(s.as_str().substring_char(0, p));
            let value = String::from_str(s.as_str().substring_char(p + 1, n));
            proof {
                let q = choose|q: int| first_char_at(s@, '=', q);
                if q < p {
                    assert(s@[q] != '=');
                } else if p < q {
                    assert(s@[p as int] != '=');
                }
            }
            Some((key, value))
        },
        None => None,
    }
}

/// Sets a variable in a list of unique names, replacing an earlier value.
fn set_var(env: &mut Vec<(String, String)>, name: String, value: String)
    requires
        names_unique(old(env)@),
    ensures
        names_unique(final(env)@),
        forall|m: Map<Seq<char>, Seq<char>>|
            lists_env(old(env)@, m) ==> lists_env(final(env)@, #[trigger] m.insert(name@, value@)),
{
    let ghost at: int;
    match key_position(env, name.as_str()) {
        Some(i) => {
            env.set(i, (name, value));
            proof {
                at = i as int;
            }
        },
        None => {
            env.push((name, value));
            proof {
                at = env@.len() - 1;
            }
        },
    }
    assert(0 <= at < env@.len() && env@[at].0@ == name@);
    proof {
        assert forall|m: Map<Seq<char>, Seq<char>>|
            lists_env(old(env)@, m) implies lists_env(env@, #[trigger] m.insert(name@, value@)) by {
            let m2 = m.insert(name@, value@);
            assert forall|k: Seq<char>| has_key(env@, k) <==> #[trigger] m2.dom().contains(k) by {
                if has_key(env@, k) {
                    let j = choose|j: int| 0 <= j < env@.len() && (#[trigger] env@[j]).0@ == k;
                    if k != name@ {
                        assert(old(env)@[j].0@ == k);
                    }
                }
                if m2.dom().contains(k) && k != name@ {
                    let j = choose|j: int| 0 <= j < old(env)@.len() && (#[trigger] old(env)@[j]).0@ == k;
                    assert(env@[j].0@ == k);
                }
                if k == name@ {
                    assert(env@[at].0@ == k);
                }
            }
        }
    }
}

/// The variables that an environment block sets, each name once with its
/// last value.
pub fn parse_environ(data: &[u8]) -> (r: Vec<(String, String)>)
    ensures
        lists_env(r@, env_of(split_nul(data@))),
{
    let pieces = split_pieces(data);
    let ghost all = split_nul(data@);
    let mut env: Vec<(String, String)> = Vec::new();
    let mut k: usize = 0;
    proof {
        assert(all.subrange(0, 0) =~= Seq::<Seq<u8>>::empty());
    }
    while k < pieces.len()
        invariant
            all == split_nul(data@),
            pieces@.len() == all.len(),
            forall|i: int| 0 <= i < pieces@.len() ==> (#[trigger] pieces@[i])@ == all[i],
            k <= pieces@.len(),
            names_unique(env@),
            lists_env(env@, env_of(all.subrange(0, k as int))),
        decreases pieces@.len() - k,
    {
        proof {
            assert(all.subrange(0, k + 1).drop_last() =~= all.subrange(0, k as int));
            assert(pieces@[k as int]@ == all[k as int]);
        }
        match parse_entry(&pieces[k]) {
            Some((name, value)) => {
                set_var(&mut env, name, value);
            },
            None => {},
        }
        k = k + 1;
    }
    proof {
        assert(all.subrange(0, k as int) =~= all);
    }
    env
}

} // verus!
